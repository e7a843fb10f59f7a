use desklink::streamer::{gst_launch_command, virtual_output_geometry, OutputGeometry, StreamConfig};

fn config() -> StreamConfig {
    StreamConfig {
        width: 1920,
        height: 1080,
        fps: 60,
        bitrate_kbps: 15000,
        encoder_choice: None,
        custom_pipeline: None,
        test_pattern: false,
    }
}

#[test]
fn stream_config_default() {
    let c = StreamConfig::default();
    assert_eq!((c.width, c.height, c.fps, c.bitrate_kbps), (1920, 1080, 60, 8000));
    assert!(c.encoder_choice.is_none() && c.custom_pipeline.is_none() && !c.test_pattern);
}

#[test]
fn encoder_selection_order() {
    let c = config();
    assert_eq!(
        c.detect_encoder(true, true, true),
        "nvh264enc preset=p1 tune=ultra-low-latency rc-mode=cbr bframes=0 gop-size=60 repeat-sequence-header=true bitrate=15000 ! video/x-h264,profile=main"
    );
    assert_eq!(
        c.detect_encoder(false, true, true),
        "vah264enc bitrate=15000 rate-control=cbr b-frames=0 key-int-max=60 ! video/x-h264,profile=main"
    );
    assert_eq!(
        c.detect_encoder(false, false, true),
        "x264enc tune=zerolatency speed-preset=ultrafast bframes=0 key-int-max=60 bitrate=15000 ! video/x-h264,profile=main"
    );
    assert_eq!(
        c.detect_encoder(false, false, false),
        "openh264enc bitrate=15000000 gop-size=60 rate-control=bitrate ! video/x-h264,profile=baseline"
    );
    let mut chosen = config();
    chosen.encoder_choice = Some("x264enc tune=zerolatency".to_string());
    assert_eq!(chosen.detect_encoder(true, true, true), "x264enc tune=zerolatency");
}

#[test]
fn pipeline_test_pattern() {
    let mut c = config();
    c.test_pattern = true;
    c.width = 1280;
    c.height = 720;
    c.fps = 30;
    let args = c.build_pipeline_args(false, false, true, Some((1, 2, 3, 4)), true);
    let expected = "videotestsrc pattern=smpte is-live=true ! video/x-raw,width=1280,height=720,framerate=30/1 ! videoconvert ! x264enc tune=zerolatency speed-preset=ultrafast bframes=0 key-int-max=30 bitrate=15000 ! video/x-h264,profile=main ! h264parse config-interval=1 ! video/x-h264,stream-format=byte-stream,alignment=au ! fdsink fd=1";
    assert_eq!(args, expected.split_whitespace().collect::<Vec<_>>());
}

#[test]
fn pipeline_sources() {
    let c = config();
    let region = c.build_pipeline_args(false, true, false, Some((1920, 0, 3839, 1079)), true);
    assert_eq!(&region[0..5], &["ximagesrc", "use-damage=0", "startx=1920", "starty=0", "endx=3839"]);
    assert_eq!(region[5], "endy=1079");
    assert!(region.contains(&"vah264enc".to_string()));
    let pw = c.build_pipeline_args(false, false, false, None, true);
    assert_eq!(pw[0], "pipewiresrc");
    assert_eq!(pw[3], "!");
    assert_eq!(pw[4], "video/x-raw,width=1920,height=1080,framerate=60/1");
    let x = c.build_pipeline_args(false, false, false, None, false);
    assert_eq!(&x[0..4], &["ximagesrc", "use-damage=0", "!", "video/x-raw,framerate=60/1"]);
    assert_eq!(x.last().unwrap(), "fd=1");
}

#[test]
fn pipeline_custom_is_split() {
    let mut c = config();
    c.custom_pipeline = Some("  videotestsrc\t!  fakesink \n".to_string());
    assert_eq!(c.build_pipeline_args(true, true, true, None, true), vec!["videotestsrc", "!", "fakesink"]);
}

#[test]
fn wf_recorder_and_gst_commands() {
    let c = config();
    assert!(c.uses_wf_recorder(true, true));
    assert!(!c.uses_wf_recorder(false, true));
    assert!(!c.uses_wf_recorder(true, false));
    let mut t = config();
    t.test_pattern = true;
    assert!(!t.uses_wf_recorder(true, true));
    let wf = c.wf_recorder_command();
    assert_eq!(wf.program, "wf-recorder");
    assert_eq!(
        wf.args,
        vec![
            "-o", "Virtual-1", "--codec=h264_nvenc", "-r", "60", "-p", "preset=p1", "-p",
            "tune=ull", "-p", "rc=cbr", "-p", "bf=0", "-p", "g=60", "-p", "profile=main", "-p",
            "pix_fmt=yuv420p", "-p", "b=15000k", "--muxer=h264", "-f", "pipe:1",
        ]
    );
    let gst = gst_launch_command(vec!["a".to_string(), "b".to_string()]);
    assert_eq!(gst.program, "gst-launch-1.0");
    assert_eq!(gst.args, vec!["-q", "a", "b"]);
}

#[test]
fn xrandr_geometry() {
    let text = "Screen 0: minimum 8 x 8, current 3840 x 1080, maximum 32767 x 32767\r\n\
eDP-1 connected primary 1920x1080+0+0 (normal left inverted right x axis y axis) 344mm x 193mm\n\
HDMI-1 disconnected (normal left inverted right x axis y axis)\n\
VIRTUAL-1 connected 1920x1080+1920+0 (normal left inverted right x axis y axis) 0mm x 0mm\n";
    let g = virtual_output_geometry(text).unwrap();
    assert_eq!(g, OutputGeometry { width: 1920, height: 1080, x: 1920, y: 0 });
    assert!(g.bounds_computable());
    assert_eq!(g.bounds(), (1920, 0, 3839, 1079));
    assert_eq!(virtual_output_geometry("VIRTUAL-1 disconnected\n"), None);
    assert_eq!(virtual_output_geometry("DP-2 connected (normal)\nDP-3 connected +5x+6+7+8\n"), None);
    assert_eq!(
        virtual_output_geometry("HEADLESS-1 connected +1+2 800x600+10++20"),
        Some(OutputGeometry { width: 800, height: 600, x: 10, y: 20 })
    );
    let zero = OutputGeometry { width: 0, height: 5, x: 0, y: 0 };
    assert!(!zero.bounds_computable());
    let big = OutputGeometry { width: 2, height: 5, x: u32::MAX, y: 0 };
    assert!(!big.bounds_computable());
}
