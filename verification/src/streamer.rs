//! The video pipeline's configuration: which H.264 encoder to use, the
//! GStreamer pipeline around it, the `wf-recorder` alternative, and where the
//! virtual monitor sits on an X11 screen.
use vstd::prelude::*;
use crate::command::{command, push_str, push_string, strings_view, CommandLine};
use crate::compositor::cmd;
use crate::text::{
    contains, decimal, lines, lines_spec, parse_u32, parse_u32_spec, push_decimal, split_once,
    split_once_spec, split_whitespace, split_ws, starts_with, str_contains, str_starts_with,
    is_digit, occurs_at, lemma_decimal_reads_back, lemma_split_once_at, unsigned_digits,
};

verus! {

/// How the stream is produced.
#[derive(Debug, Clone)]
pub struct StreamConfig {
    pub width: u32,
    pub height: u32,
    pub fps: u32,
    pub bitrate_kbps: u32,
    /// An encoder element (with its settings) to use instead of probing.
    pub encoder_choice: Option<String>,
    /// A whole pipeline to use instead of building one.
    pub custom_pipeline: Option<String>,
    /// Stream a synthetic test pattern instead of the screen.
    pub test_pattern: bool,
}

/// The text of an optional string.
pub open spec fn opt_view(o: Option<String>) -> Option<Seq<char>> {
    match o {
        Some(s) => Some(s@),
        None => None,
    }
}

impl Default for StreamConfig {
    /// 1920x1080 at 60 frames per second and 8000 kbps, probing for the
    /// encoder, building the pipeline, capturing the screen.
    fn default() -> (c: Self)
        ensures
            c.width == 1920,
            c.height == 1080,
            c.fps == 60,
            c.bitrate_kbps == 8000,
            c.encoder_choice is None,
            c.custom_pipeline is None,
            !c.test_pattern,
    {
        StreamConfig {
            width: 1920,
            height: 1080,
            fps: 60,
            bitrate_kbps: 8000,
            encoder_choice: None,
            custom_pipeline: None,
            test_pattern: false,
        }
    }
}

/// No encoder was chosen and none of the probed ones is there, so the
/// OpenH264 fallback is used.
pub open spec fn falls_back_to_openh264(
    c: StreamConfig,
    nvenc_found: bool,
    vaapi_found: bool,
    x264_found: bool,
) -> bool {
    c.encoder_choice is None && !nvenc_found && !vaapi_found && !x264_found
}

/// The encoder element with its settings: the chosen one if there is one;
/// else NVENC, VA-API or x264, the first that is there, tuned for low
/// latency, at a constant bitrate, with no B-frames and a key frame each
/// second, restricted to the Main profile; else OpenH264 (which takes its
/// bitrate in bits per second and has no B-frames) in bitrate-controlled
/// mode with a key frame each second, restricted to the Baseline profile.
pub open spec fn encoder_spec(
    c: StreamConfig,
    nvenc_found: bool,
    vaapi_found: bool,
    x264_found: bool,
) -> Seq<char> {
    match c.encoder_choice {
        Some(e) => e@,
        None => if nvenc_found {
            "nvh264enc preset=p1 tune=ultra-low-latency rc-mode=cbr bframes=0 gop-size="@ + decimal(
                c.fps as nat,
            ) + " repeat-sequence-header=true bitrate="@ + decimal(c.bitrate_kbps as nat)
                + " ! video/x-h264,profile=main"@
        } else if vaapi_found {
            "vah264enc bitrate="@ + decimal(c.bitrate_kbps as nat)
                + " rate-control=cbr b-frames=0 key-int-max="@ + decimal(c.fps as nat)
                + " ! video/x-h264,profile=main"@
        } else if x264_found {
            "x264enc tune=zerolatency speed-preset=ultrafast bframes=0 key-int-max="@ + decimal(
                c.fps as nat,
            ) + " bitrate="@ + decimal(c.bitrate_kbps as nat) + " ! video/x-h264,profile=main"@
        } else {
            "openh264enc bitrate="@ + decimal((c.bitrate_kbps * 1000) as nat) + " gop-size="@ + decimal(
                c.fps as nat,
            ) + " rate-control=bitrate ! video/x-h264,profile=baseline"@
        },
    }
}

/// `m` occurs in `a + m + b`.
proof fn lemma_contains_middle(a: Seq<char>, m: Seq<char>, b: Seq<char>)
    ensures
        contains(a + m + b, m),
{
    assert((a + m + b).subrange(a.len() as int, (a.len() + m.len()) as int) =~= m);
    assert(occurs_at(a + m + b, m, a.len() as int));
}

/// `lit` is `lit` without its last `tail.len()` characters, then `tail`.
proof fn lemma_split_tail(lit: Seq<char>, tail: Seq<char>)
    requires
        ends_with(lit, tail),
    ensures
        lit == lit.take(lit.len() - tail.len()) + tail,
{
    assert(lit =~= lit.take(lit.len() - tail.len()) + tail);
}

/// Law: with no encoder chosen, the first encoder found among NVENC, VA-API
/// and x264 is used, at the configured bitrate in kbit/s and with a key
/// frame every `fps` frames; with none of them, OpenH264 is used at the
/// configured bitrate given in bit/s, with the same key-frame interval. A
/// chosen encoder is used as it was given.
pub proof fn lemma_encoder_settings(c: StreamConfig, nvenc_found: bool, vaapi_found: bool, x264_found: bool)
    ensures
        ({
            let e = encoder_spec(c, nvenc_found, vaapi_found, x264_found);
            let kbps = decimal(c.bitrate_kbps as nat);
            let fps = decimal(c.fps as nat);
            &&& c.encoder_choice is Some ==> e == c.encoder_choice->Some_0@
            &&& c.encoder_choice is None && nvenc_found ==> starts_with(e, "nvh264enc "@) && contains(
                e,
                "bitrate="@ + kbps,
            ) && contains(e, "gop-size="@ + fps)
            &&& c.encoder_choice is None && !nvenc_found && vaapi_found ==> starts_with(
                e,
                "vah264enc "@,
            ) && contains(e, "bitrate="@ + kbps) && contains(e, "key-int-max="@ + fps)
            &&& c.encoder_choice is None && !nvenc_found && !vaapi_found && x264_found
                ==> starts_with(e, "x264enc "@) && contains(e, "bitrate="@ + kbps) && contains(
                e,
                "key-int-max="@ + fps,
            )
            &&& falls_back_to_openh264(c, nvenc_found, vaapi_found, x264_found) ==> starts_with(
                e,
                "openh264enc "@,
            ) && contains(e, "bitrate="@ + decimal((c.bitrate_kbps * 1000) as nat)) && contains(
                e,
                "gop-size="@ + fps,
            )
        }),
{
    let e = encoder_spec(c, nvenc_found, vaapi_found, x264_found);
    let kbps = decimal(c.bitrate_kbps as nat);
    let fps = decimal(c.fps as nat);
    let br = "bitrate="@;
    let gop = "gop-size="@;
    let kim = "key-int-max="@;
    reveal_strlit("bitrate=");
    reveal_strlit("gop-size=");
    reveal_strlit("key-int-max=");
    if c.encoder_choice is None {
        if nvenc_found {
            let l1 = "nvh264enc preset=p1 tune=ultra-low-latency rc-mode=cbr bframes=0 gop-size="@;
            let l2 = " repeat-sequence-header=true bitrate="@;
            let l3 = " ! video/x-h264,profile=main"@;
            reveal_strlit("nvh264enc preset=p1 tune=ultra-low-latency rc-mode=cbr bframes=0 gop-size=");
            reveal_strlit(" repeat-sequence-header=true bitrate=");
            reveal_strlit("nvh264enc ");
            assert(l1.subrange(l1.len() - gop.len(), l1.len() as int) =~= gop);
            lemma_split_tail(l1, gop);
            assert(l2.subrange(l2.len() - br.len(), l2.len() as int) =~= br);
            lemma_split_tail(l2, br);
            let p1 = l1.take(l1.len() - gop.len());
            let p2 = l2.take(l2.len() - br.len());
            assert(e =~= p1 + (gop + fps) + (p2 + br + kbps + l3));
            assert(e =~= (p1 + gop + fps + p2) + (br + kbps) + l3);
            lemma_contains_middle(p1, gop + fps, p2 + br + kbps + l3);
            lemma_contains_middle(p1 + gop + fps + p2, br + kbps, l3);
            assert(e.subrange(0, 10) =~= "nvh264enc "@);
        } else if vaapi_found {
            let l1 = "vah264enc bitrate="@;
            let l2 = " rate-control=cbr b-frames=0 key-int-max="@;
            let l3 = " ! video/x-h264,profile=main"@;
            reveal_strlit("vah264enc bitrate=");
            reveal_strlit(" rate-control=cbr b-frames=0 key-int-max=");
            reveal_strlit("vah264enc ");
            assert(l1.subrange(l1.len() - br.len(), l1.len() as int) =~= br);
            lemma_split_tail(l1, br);
            assert(l2.subrange(l2.len() - kim.len(), l2.len() as int) =~= kim);
            lemma_split_tail(l2, kim);
            let p1 = l1.take(l1.len() - br.len());
            let p2 = l2.take(l2.len() - kim.len());
            assert(e =~= p1 + (br + kbps) + (p2 + kim + fps + l3));
            assert(e =~= (p1 + br + kbps + p2) + (kim + fps) + l3);
            lemma_contains_middle(p1, br + kbps, p2 + kim + fps + l3);
            lemma_contains_middle(p1 + br + kbps + p2, kim + fps, l3);
            assert(e.subrange(0, 10) =~= "vah264enc "@);
        } else if x264_found {
            let l1 = "x264enc tune=zerolatency speed-preset=ultrafast bframes=0 key-int-max="@;
            let l2 = " bitrate="@;
            let l3 = " ! video/x-h264,profile=main"@;
            reveal_strlit("x264enc tune=zerolatency speed-preset=ultrafast bframes=0 key-int-max=");
            reveal_strlit(" bitrate=");
            reveal_strlit("x264enc ");
            assert(l1.subrange(l1.len() - kim.len(), l1.len() as int) =~= kim);
            lemma_split_tail(l1, kim);
            assert(l2.subrange(l2.len() - br.len(), l2.len() as int) =~= br);
            lemma_split_tail(l2, br);
            let p1 = l1.take(l1.len() - kim.len());
            let p2 = l2.take(l2.len() - br.len());
            assert(e =~= p1 + (kim + fps) + (p2 + br + kbps + l3));
            assert(e =~= (p1 + kim + fps + p2) + (br + kbps) + l3);
            lemma_contains_middle(p1, kim + fps, p2 + br + kbps + l3);
            lemma_contains_middle(p1 + kim + fps + p2, br + kbps, l3);
            assert(e.subrange(0, 8) =~= "x264enc "@);
        } else {
            let bps = decimal((c.bitrate_kbps * 1000) as nat);
            let l1 = "openh264enc bitrate="@;
            let l2 = " gop-size="@;
            let l3 = " rate-control=bitrate ! video/x-h264,profile=baseline"@;
            reveal_strlit("openh264enc bitrate=");
            reveal_strlit(" gop-size=");
            reveal_strlit("openh264enc ");
            assert(l1.subrange(l1.len() - br.len(), l1.len() as int) =~= br);
            lemma_split_tail(l1, br);
            assert(l2.subrange(l2.len() - gop.len(), l2.len() as int) =~= gop);
            lemma_split_tail(l2, gop);
            let p1 = l1.take(l1.len() - br.len());
            let p2 = l2.take(l2.len() - gop.len());
            assert(e =~= p1 + (br + bps) + (p2 + gop + fps + l3));
            assert(e =~= (p1 + br + bps + p2) + (gop + fps) + l3);
            lemma_contains_middle(p1, br + bps, p2 + gop + fps + l3);
            lemma_contains_middle(p1 + br + bps + p2, gop + fps, l3);
            assert(e.subrange(0, 12) =~= "openh264enc "@);
        }
    }
}

/// The capture part of the pipeline: a live SMPTE test pattern; or the
/// region `bounds` (start x, start y, end x, end y) of the X11 screen,
/// scaled; or PipeWire when it is there; or the whole X11 screen, scaled.
pub open spec fn source_spec(
    c: StreamConfig,
    bounds: Option<(u32, u32, u32, u32)>,
    pipewire_found: bool,
) -> Seq<char> {
    let w = decimal(c.width as nat);
    let h = decimal(c.height as nat);
    let f = decimal(c.fps as nat);
    if c.test_pattern {
        "videotestsrc pattern=smpte is-live=true ! video/x-raw,width="@ + w + ",height="@ + h
            + ",framerate="@ + f + "/1"@
    } else if let Some((sx, sy, ex, ey)) = bounds {
        "ximagesrc use-damage=0 startx="@ + decimal(sx as nat) + " starty="@ + decimal(sy as nat)
            + " endx="@ + decimal(ex as nat) + " endy="@ + decimal(ey as nat)
            + " ! video/x-raw,framerate="@ + f + "/1 ! videoscale ! video/x-raw,width="@ + w
            + ",height="@ + h
    } else if pipewire_found {
        "pipewiresrc do-timestamp=true keepalive-time=1000 ! video/x-raw,width="@ + w
            + ",height="@ + h + ",framerate="@ + f + "/1"@
    } else {
        "ximagesrc use-damage=0 ! video/x-raw,framerate="@ + f
            + "/1 ! videoscale ! video/x-raw,width="@ + w + ",height="@ + h
    }
}

/// `tail` is how `s` ends.
pub open spec fn ends_with(s: Seq<char>, tail: Seq<char>) -> bool {
    tail.len() <= s.len() && s.subrange(s.len() - tail.len(), s.len() as int) == tail
}

/// `a + b` ends with `b`.
proof fn lemma_ends_with_concat(a: Seq<char>, b: Seq<char>)
    ensures
        ends_with(a + b, b),
{
    assert((a + b).subrange(a.len() as int, (a + b).len() as int) =~= b);
}

/// `a + b` starts with `a`.
proof fn lemma_starts_with_concat(a: Seq<char>, b: Seq<char>)
    ensures
        starts_with(a + b, a),
{
    assert((a + b).subrange(0, a.len() as int) =~= a);
}

/// Law: every capture part names the configured size as the size of the
/// frames it hands on. Capturing from the X11 screen (the virtual
/// monitor's region `bounds` when it was found, else the whole screen), it
/// ends by scaling to the configured width and height at the configured
/// frame rate; and a region capture starts with that region's first column,
/// first row, last column and last row. The test pattern and PipeWire
/// capture end with caps of the configured width, height and frame rate.
pub proof fn lemma_source_sized_to_config(
    c: StreamConfig,
    bounds: Option<(u32, u32, u32, u32)>,
    pipewire_found: bool,
)
    ensures
        !c.test_pattern && (bounds is Some || !pipewire_found) ==> ends_with(
            source_spec(c, bounds, pipewire_found),
            " ! video/x-raw,framerate="@ + decimal(c.fps as nat) + "/1 ! videoscale ! video/x-raw,width="@
                + decimal(c.width as nat) + ",height="@ + decimal(c.height as nat),
        ),
        !c.test_pattern ==> match bounds {
            Some((sx, sy, ex, ey)) => starts_with(
                source_spec(c, bounds, pipewire_found),
                "ximagesrc use-damage=0 startx="@ + decimal(sx as nat) + " starty="@ + decimal(
                    sy as nat,
                ) + " endx="@ + decimal(ex as nat) + " endy="@ + decimal(ey as nat),
            ),
            None => true,
        },
        c.test_pattern || (bounds is None && pipewire_found) ==> ends_with(
            source_spec(c, bounds, pipewire_found),
            "video/x-raw,width="@ + decimal(c.width as nat) + ",height="@ + decimal(c.height as nat)
                + ",framerate="@ + decimal(c.fps as nat) + "/1"@,
        ),
{
    let w = decimal(c.width as nat);
    let h = decimal(c.height as nat);
    let f = decimal(c.fps as nat);
    let s = source_spec(c, bounds, pipewire_found);
    if c.test_pattern || (bounds is None && pipewire_found) {
        let head: Seq<char> = if c.test_pattern {
            "videotestsrc pattern=smpte is-live=true ! video/x-raw,width="@
        } else {
            "pipewiresrc do-timestamp=true keepalive-time=1000 ! video/x-raw,width="@
        };
        let caps = "video/x-raw,width="@;
        reveal_strlit("videotestsrc pattern=smpte is-live=true ! video/x-raw,width=");
        reveal_strlit("pipewiresrc do-timestamp=true keepalive-time=1000 ! video/x-raw,width=");
        reveal_strlit("video/x-raw,width=");
        let pre = head.subrange(0, head.len() - caps.len());
        assert(head =~= pre + caps);
        let tail = caps + w + ",height="@ + h + ",framerate="@ + f + "/1"@;
        assert(s =~= pre + tail);
        lemma_ends_with_concat(pre, tail);
    } else {
        let tail = " ! video/x-raw,framerate="@ + f + "/1 ! videoscale ! video/x-raw,width="@ + w
            + ",height="@ + h;
        if let Some((sx, sy, ex, ey)) = bounds {
            let head = "ximagesrc use-damage=0 startx="@ + decimal(sx as nat) + " starty="@
                + decimal(sy as nat) + " endx="@ + decimal(ex as nat) + " endy="@ + decimal(
                ey as nat,
            );
            assert(s =~= head + tail);
            lemma_ends_with_concat(head, tail);
            lemma_starts_with_concat(head, tail);
        } else {
            let head = "ximagesrc use-damage=0"@;
            let lit = " ! video/x-raw,framerate="@;
            reveal_strlit("ximagesrc use-damage=0 ! video/x-raw,framerate=");
            reveal_strlit("ximagesrc use-damage=0");
            reveal_strlit(" ! video/x-raw,framerate=");
            assert("ximagesrc use-damage=0 ! video/x-raw,framerate="@ =~= head + lit);
            assert(s =~= head + tail);
            lemma_ends_with_concat(head, tail);
        }
    }
}

/// The whole pipeline: capture, colour conversion, the encoder, and an
/// Annex-B byte stream of whole access units on standard output.
pub open spec fn pipeline_spec(source: Seq<char>, encoder: Seq<char>) -> Seq<char> {
    source + " ! videoconvert ! "@ + encoder
        + " ! h264parse config-interval=1 ! video/x-h264,stream-format=byte-stream,alignment=au ! fdsink fd=1"@
}

/// The arguments of `gst-launch-1.0`: the custom pipeline if there is one,
/// else the built one, split at white space.
pub open spec fn pipeline_args_spec(
    c: StreamConfig,
    nvenc_found: bool,
    vaapi_found: bool,
    x264_found: bool,
    bounds: Option<(u32, u32, u32, u32)>,
    pipewire_found: bool,
) -> Seq<Seq<char>> {
    match c.custom_pipeline {
        Some(p) => split_ws(p@),
        None => split_ws(
            pipeline_spec(
                source_spec(c, bounds, pipewire_found),
                encoder_spec(c, nvenc_found, vaapi_found, x264_found),
            ),
        ),
    }
}

/// `wf-recorder` capturing `Virtual-1` with NVENC at the configured frame
/// rate: ultra-low-latency preset, constant bitrate at the configured
/// bitrate, no B-frames, a key frame each second, Main profile, writing raw
/// H.264 to standard output.
pub open spec fn wf_recorder_spec(c: StreamConfig) -> (Seq<char>, Seq<Seq<char>>) {
    cmd(
        "wf-recorder"@,
        seq![
            "-o"@,
            "Virtual-1"@,
            "--codec=h264_nvenc"@,
            "-r"@,
            decimal(c.fps as nat),
            "-p"@,
            "preset=p1"@,
            "-p"@,
            "tune=ull"@,
            "-p"@,
            "rc=cbr"@,
            "-p"@,
            "bf=0"@,
            "-p"@,
            "g="@ + decimal(c.fps as nat),
            "-p"@,
            "profile=main"@,
            "-p"@,
            "pix_fmt=yuv420p"@,
            "-p"@,
            "b="@ + decimal(c.bitrate_kbps as nat) + "k"@,
            "--muxer=h264"@,
            "-f"@,
            "pipe:1"@,
        ],
    )
}

impl StreamConfig {
    /// The encoder element, given which encoders are there; see
    /// `encoder_spec`.
    pub fn detect_encoder(&self, nvenc_found: bool, vaapi_found: bool, x264_found: bool) -> (e: String)
        requires
            falls_back_to_openh264(*self, nvenc_found, vaapi_found, x264_found) ==> self.bitrate_kbps
                * 1000 <= u32::MAX,
        ensures
            e@ == encoder_spec(*self, nvenc_found, vaapi_found, x264_found),
    {
        if let Some(enc) = &self.encoder_choice {
            return enc.clone();
        }
        let mut s = String::new();
        if nvenc_found {
            s.append("nvh264enc preset=p1 tune=ultra-low-latency rc-mode=cbr bframes=0 gop-size=");
            push_decimal(&mut s, self.fps as u128);
            s.append(" repeat-sequence-header=true bitrate=");
            push_decimal(&mut s, self.bitrate_kbps as u128);
            s.append(" ! video/x-h264,profile=main");
        } else if vaapi_found {
            s.append("vah264enc bitrate=");
            push_decimal(&mut s, self.bitrate_kbps as u128);
            s.append(" rate-control=cbr b-frames=0 key-int-max=");
            push_decimal(&mut s, self.fps as u128);
            s.append(" ! video/x-h264,profile=main");
        } else if x264_found {
            s.append("x264enc tune=zerolatency speed-preset=ultrafast bframes=0 key-int-max=");
            push_decimal(&mut s, self.fps as u128);
            s.append(" bitrate=");
            push_decimal(&mut s, self.bitrate_kbps as u128);
            s.append(" ! video/x-h264,profile=main");
        } else {
            s.append("openh264enc bitrate=");
            push_decimal(&mut s, (self.bitrate_kbps * 1000) as u128);
            s.append(" gop-size=");
            push_decimal(&mut s, self.fps as u128);
            s.append(" rate-control=bitrate ! video/x-h264,profile=baseline");
        }
        assert(s@ =~= encoder_spec(*self, nvenc_found, vaapi_found, x264_found));
        s
    }

    /// The capture part of the pipeline; see `source_spec`.
    fn source_pipeline(&self, bounds: Option<(u32, u32, u32, u32)>, pipewire_found: bool) -> (s: String)
        ensures
            s@ == source_spec(*self, bounds, pipewire_found),
    {
        let mut s = String::new();
        if self.test_pattern {
            s.append("videotestsrc pattern=smpte is-live=true ! video/x-raw,width=");
            push_decimal(&mut s, self.width as u128);
            s.append(",height=");
            push_decimal(&mut s, self.height as u128);
            s.append(",framerate=");
            push_decimal(&mut s, self.fps as u128);
            s.append("/1");
        } else if let Some((startx, starty, endx, endy)) = bounds {
            s.append("ximagesrc use-damage=0 startx=");
            push_decimal(&mut s, startx as u128);
            s.append(" starty=");
            push_decimal(&mut s, starty as u128);
            s.append(" endx=");
            push_decimal(&mut s, endx as u128);
            s.append(" endy=");
            push_decimal(&mut s, endy as u128);
            s.append(" ! video/x-raw,framerate=");
            push_decimal(&mut s, self.fps as u128);
            s.append("/1 ! videoscale ! video/x-raw,width=");
            push_decimal(&mut s, self.width as u128);
            s.append(",height=");
            push_decimal(&mut s, self.height as u128);
        } else if pipewire_found {
            s.append("pipewiresrc do-timestamp=true keepalive-time=1000 ! video/x-raw,width=");
            push_decimal(&mut s, self.width as u128);
            s.append(",height=");
            push_decimal(&mut s, self.height as u128);
            s.append(",framerate=");
            push_decimal(&mut s, self.fps as u128);
            s.append("/1");
        } else {
            s.append("ximagesrc use-damage=0 ! video/x-raw,framerate=");
            push_decimal(&mut s, self.fps as u128);
            s.append("/1 ! videoscale ! video/x-raw,width=");
            push_decimal(&mut s, self.width as u128);
            s.append(",height=");
            push_decimal(&mut s, self.height as u128);
        }
        assert(s@ =~= source_spec(*self, bounds, pipewire_found));
        s
    }

    /// The arguments of `gst-launch-1.0`, given which encoders are there,
    /// the bounds of the virtual monitor on the X11 screen if it was found,
    /// and whether PipeWire capture is there; see `pipeline_args_spec`.
    pub fn build_pipeline_args(
        &self,
        nvenc_found: bool,
        vaapi_found: bool,
        x264_found: bool,
        bounds: Option<(u32, u32, u32, u32)>,
        pipewire_found: bool,
    ) -> (args: Vec<String>)
        requires
            self.custom_pipeline is None && falls_back_to_openh264(
                *self,
                nvenc_found,
                vaapi_found,
                x264_found,
            ) ==> self.bitrate_kbps * 1000 <= u32::MAX,
        ensures
            strings_view(args@) == pipeline_args_spec(
                *self,
                nvenc_found,
                vaapi_found,
                x264_found,
                bounds,
                pipewire_found,
            ),
    {
        if let Some(custom) = &self.custom_pipeline {
            return split_whitespace(custom.as_str());
        }
        let encoder_str = self.detect_encoder(nvenc_found, vaapi_found, x264_found);
        let mut full = self.source_pipeline(bounds, pipewire_found);
        full.append(" ! videoconvert ! ");
        full.append(encoder_str.as_str());
        full.append(
            " ! h264parse config-interval=1 ! video/x-h264,stream-format=byte-stream,alignment=au ! fdsink fd=1",
        );
        assert(full@ =~= pipeline_spec(
            source_spec(*self, bounds, pipewire_found),
            encoder_spec(*self, nvenc_found, vaapi_found, x264_found),
        ));
        split_whitespace(full.as_str())
    }

    /// Whether the stream comes from `wf-recorder`: under Wayland, when it
    /// is on the path, and not for the test pattern.
    pub fn uses_wf_recorder(&self, is_wayland: bool, wf_recorder_found: bool) -> (b: bool)
        ensures
            b == (is_wayland && wf_recorder_found && !self.test_pattern),
    {
        is_wayland && wf_recorder_found && !self.test_pattern
    }

    /// The `wf-recorder` command; see `wf_recorder_spec`.
    pub fn wf_recorder_command(&self) -> (c: CommandLine)
        ensures
            c@ == wf_recorder_spec(*self),
    {
        let mut rate = String::new();
        push_decimal(&mut rate, self.fps as u128);
        let mut bitrate = String::new();
        bitrate.append("b=");
        push_decimal(&mut bitrate, self.bitrate_kbps as u128);
        bitrate.append("k");
        let mut gop = String::new();
        gop.append("g=");
        push_decimal(&mut gop, self.fps as u128);
        let ghost gop_view = gop@;
        let ghost rate_view = rate@;
        let ghost bitrate_view = bitrate@;
        let mut args: Vec<String> = Vec::new();
        push_str(&mut args, "-o");
        push_str(&mut args, "Virtual-1");
        push_str(&mut args, "--codec=h264_nvenc");
        push_str(&mut args, "-r");
        push_string(&mut args, rate);
        push_str(&mut args, "-p");
        push_str(&mut args, "preset=p1");
        push_str(&mut args, "-p");
        push_str(&mut args, "tune=ull");
        push_str(&mut args, "-p");
        push_str(&mut args, "rc=cbr");
        push_str(&mut args, "-p");
        push_str(&mut args, "bf=0");
        push_str(&mut args, "-p");
        push_string(&mut args, gop);
        push_str(&mut args, "-p");
        push_str(&mut args, "profile=main");
        push_str(&mut args, "-p");
        push_str(&mut args, "pix_fmt=yuv420p");
        push_str(&mut args, "-p");
        push_string(&mut args, bitrate);
        push_str(&mut args, "--muxer=h264");
        push_str(&mut args, "-f");
        push_str(&mut args, "pipe:1");
        assert(rate_view =~= decimal(self.fps as nat));
        assert(gop_view =~= "g="@ + decimal(self.fps as nat));
        assert(bitrate_view =~= "b="@ + decimal(self.bitrate_kbps as nat) + "k"@);
        assert(strings_view(args@) =~= wf_recorder_spec(*self).1);
        command("wf-recorder", args)
    }
}

/// `gst-launch-1.0 -q` followed by the pipeline arguments.
pub open spec fn gst_launch_spec(pipeline: Seq<Seq<char>>) -> (Seq<char>, Seq<Seq<char>>) {
    cmd("gst-launch-1.0"@, seq!["-q"@] + pipeline)
}

/// The GStreamer command that runs the pipeline `pipeline_args`.
pub fn gst_launch_command(pipeline_args: Vec<String>) -> (c: CommandLine)
    ensures
        c@ == gst_launch_spec(strings_view(pipeline_args@)),
{
    let mut args: Vec<String> = Vec::new();
    push_str(&mut args, "-q");
    let mut i: usize = 0;
    let n = pipeline_args.len();
    while i < n
        invariant
            n == pipeline_args@.len(),
            i <= n,
            strings_view(args@) == seq!["-q"@] + strings_view(pipeline_args@).take(i as int),
        decreases n - i,
    {
        let a = pipeline_args[i].clone();
        push_str(&mut args, a.as_str());
        assert(strings_view(pipeline_args@).take(i + 1) =~= strings_view(pipeline_args@).take(
            i as int,
        ).push(pipeline_args@[i as int]@));
        i = i + 1;
    }
    assert(strings_view(pipeline_args@).take(n as int) =~= strings_view(pipeline_args@));
    command("gst-launch-1.0", args)
}

/// Where an output sits on the X11 screen and how large it is.
#[derive(Debug, Clone, Copy, PartialEq, Eq, Structural)]
pub struct OutputGeometry {
    pub width: u32,
    pub height: u32,
    pub x: u32,
    pub y: u32,
}

/// The geometry an `xrandr` word such as `1920x1080+1920+0` gives: width
/// `x` height before the first `+`, then x `+` y after it, each a `u32`.
pub open spec fn word_geometry(word: Seq<char>) -> Option<OutputGeometry> {
    match split_once_spec(word, '+') {
        None => None,
        Some((geom, pos)) => match split_once_spec(geom, 'x') {
            None => None,
            Some((w, h)) => match (parse_u32_spec(w), parse_u32_spec(h)) {
                (Some(width), Some(height)) => match split_once_spec(pos, '+') {
                    None => None,
                    Some((xs, ys)) => match (parse_u32_spec(xs), parse_u32_spec(ys)) {
                        (Some(x), Some(y)) => Some(OutputGeometry { width, height, x, y }),
                        _ => None,
                    },
                },
                _ => None,
            },
        },
    }
}

/// A run of decimal digits holds neither `x` nor `+`, and reads as the
/// number it writes when that fits in 32 bits.
proof fn lemma_decimal_field(n: u32)
    ensures
        forall|i: int| 0 <= i < decimal(n as nat).len() ==> decimal(n as nat)[i] != 'x' && decimal(
            n as nat,
        )[i] != '+',
        parse_u32_spec(decimal(n as nat)) == Some(n),
{
    lemma_decimal_reads_back(n as nat);
    let d = decimal(n as nat);
    assert(is_digit(d[0]));
    assert(unsigned_digits(d) == d);
    assert forall|i: int| 0 <= i < d.len() implies d[i] != 'x' && d[i] != '+' by {
        assert(is_digit(d[i]));
    }
}

/// Law: the word `WxH+X+Y`, the four numbers in decimal, reads as the
/// geometry of width W, height H, at column X and row Y.
pub proof fn lemma_word_geometry_reads(w: u32, h: u32, x: u32, y: u32)
    ensures
        word_geometry(
            decimal(w as nat) + seq!['x'] + decimal(h as nat) + seq!['+'] + decimal(x as nat) + seq!['+']
                + decimal(y as nat),
        ) == Some(OutputGeometry { width: w, height: h, x: x, y: y }),
{
    let dw = decimal(w as nat);
    let dh = decimal(h as nat);
    let dx = decimal(x as nat);
    let dy = decimal(y as nat);
    lemma_decimal_field(w);
    lemma_decimal_field(h);
    lemma_decimal_field(x);
    lemma_decimal_field(y);
    let geom = dw + seq!['x'] + dh;
    let pos = dx + seq!['+'] + dy;
    let word = dw + seq!['x'] + dh + seq!['+'] + dx + seq!['+'] + dy;
    assert(word =~= geom + seq!['+'] + pos);
    assert forall|i: int| 0 <= i < geom.len() implies geom[i] != '+' by {
        if i < dw.len() {
            assert(geom[i] == dw[i]);
        } else if i > dw.len() {
            assert(geom[i] == dh[i - dw.len() - 1]);
        }
    }
    lemma_split_once_at(geom, '+', pos);
    lemma_split_once_at(dw, 'x', dh);
    lemma_split_once_at(dx, '+', dy);
}

/// An `xrandr` line that may describe the extended monitor: it names a
/// virtual or headless output or mentions "connected", is not the primary
/// output, and is connected.
pub open spec fn is_extended_output_line(line: Seq<char>) -> bool {
    &&& (starts_with(line, "Virtual"@) || starts_with(line, "HEADLESS"@) || contains(
        line,
        "connected"@,
    ))
    &&& !contains(line, "primary"@)
    &&& contains(line, "connected"@)
    &&& !contains(line, "disconnected"@)
}

/// The geometry of the first word among `words` that has one.
pub open spec fn first_word_geometry(words: Seq<Seq<char>>) -> Option<OutputGeometry>
    decreases words.len(),
{
    if words.len() == 0 {
        None
    } else {
        match word_geometry(words[0]) {
            Some(g) => Some(g),
            None => first_word_geometry(words.drop_first()),
        }
    }
}

/// The first geometry found, line by line, in the words of the lines that
/// may describe the extended monitor.
pub open spec fn first_line_geometry(lines: Seq<Seq<char>>) -> Option<OutputGeometry>
    decreases lines.len(),
{
    if lines.len() == 0 {
        None
    } else {
        let here = if is_extended_output_line(lines[0]) {
            first_word_geometry(split_ws(lines[0]))
        } else {
            None
        };
        match here {
            Some(g) => Some(g),
            None => first_line_geometry(lines.drop_first()),
        }
    }
}

/// Law: the geometry found among `words` is that of the first word that
/// has one; there is none only when no word has one.
pub proof fn lemma_first_word_geometry(words: Seq<Seq<char>>)
    ensures
        match first_word_geometry(words) {
            Some(g) => exists|k: int|
                0 <= k < words.len() && word_geometry(#[trigger] words[k]) == Some(g) && forall|
                    l: int,
                | 0 <= l < k ==> word_geometry(#[trigger] words[l]) is None,
            None => forall|k: int| 0 <= k < words.len() ==> word_geometry(#[trigger] words[k]) is None,
        },
    decreases words.len(),
{
    if words.len() > 0 {
        let rest = words.drop_first();
        lemma_first_word_geometry(rest);
        match word_geometry(words[0]) {
            Some(g) => {
                assert(word_geometry(words[0]) == Some(g));
            },
            None => {
                match first_word_geometry(rest) {
                    Some(g) => {
                        let k = choose|k: int|
                            0 <= k < rest.len() && word_geometry(#[trigger] rest[k]) == Some(g)
                                && forall|l: int| 0 <= l < k ==> word_geometry(#[trigger] rest[l]) is None;
                        assert(words[k + 1] == rest[k]);
                        assert forall|l: int| 0 <= l < k + 1 implies word_geometry(#[trigger] words[l]) is None by {
                            if l > 0 {
                                assert(words[l] == rest[l - 1]);
                            }
                        }
                    },
                    None => {
                        assert forall|k: int| 0 <= k < words.len() implies word_geometry(#[trigger] words[k]) is None by {
                            if k > 0 {
                                assert(words[k] == rest[k - 1]);
                            }
                        }
                    },
                }
            },
        }
    }
}

/// The line `line` may describe the extended monitor and one of its words
/// has a geometry.
pub open spec fn line_has_geometry(line: Seq<char>) -> bool {
    is_extended_output_line(line) && first_word_geometry(split_ws(line)) is Some
}

/// Law: the geometry found among `lines` is that of the first line that
/// may describe the extended monitor and has a word with a geometry; lines
/// before it that qualify but carry no geometry are passed over. There is
/// none only when no line both qualifies and has one.
pub proof fn lemma_first_line_geometry(lines: Seq<Seq<char>>)
    ensures
        match first_line_geometry(lines) {
            Some(g) => exists|i: int|
                0 <= i < lines.len() && is_extended_output_line(#[trigger] lines[i])
                    && first_word_geometry(split_ws(lines[i])) == Some(g) && forall|j: int|
                    0 <= j < i ==> !line_has_geometry(#[trigger] lines[j]),
            None => forall|i: int| 0 <= i < lines.len() ==> !line_has_geometry(#[trigger] lines[i]),
        },
    decreases lines.len(),
{
    if lines.len() > 0 {
        let rest = lines.drop_first();
        lemma_first_line_geometry(rest);
        if line_has_geometry(lines[0]) {
            assert(is_extended_output_line(lines[0]));
        } else {
            match first_line_geometry(rest) {
                Some(g) => {
                    let i = choose|i: int|
                        0 <= i < rest.len() && is_extended_output_line(#[trigger] rest[i])
                            && first_word_geometry(split_ws(rest[i])) == Some(g) && forall|j: int|
                            0 <= j < i ==> !line_has_geometry(#[trigger] rest[j]);
                    assert(lines[i + 1] == rest[i]);
                    assert forall|j: int| 0 <= j < i + 1 implies !line_has_geometry(#[trigger] lines[j]) by {
                        if j > 0 {
                            assert(lines[j] == rest[j - 1]);
                        }
                    }
                },
                None => {
                    assert forall|i: int| 0 <= i < lines.len() implies !line_has_geometry(#[trigger] lines[i]) by {
                        if i > 0 {
                            assert(lines[i] == rest[i - 1]);
                        }
                    }
                },
            }
        }
    }
}

/// Reads the geometry in one `xrandr` word.
pub fn parse_word_geometry(word: &str) -> (g: Option<OutputGeometry>)
    ensures
        g == word_geometry(word@),
{
    let (geom, pos) = match split_once(word, '+') {
        Some(p) => p,
        None => {
            return None;
        },
    };
    let (w_str, h_str) = match split_once(geom, 'x') {
        Some(p) => p,
        None => {
            return None;
        },
    };
    let width = match parse_u32(w_str) {
        Some(v) => v,
        None => {
            return None;
        },
    };
    let height = match parse_u32(h_str) {
        Some(v) => v,
        None => {
            return None;
        },
    };
    let (x_str, y_str) = match split_once(pos, '+') {
        Some(p) => p,
        None => {
            return None;
        },
    };
    let x = match parse_u32(x_str) {
        Some(v) => v,
        None => {
            return None;
        },
    };
    let y = match parse_u32(y_str) {
        Some(v) => v,
        None => {
            return None;
        },
    };
    Some(OutputGeometry { width, height, x, y })
}

/// Whether an `xrandr` line may describe the extended monitor.
pub fn extended_output_line(line: &str) -> (b: bool)
    ensures
        b == is_extended_output_line(line@),
{
    (str_starts_with(line, "Virtual") || str_starts_with(line, "HEADLESS") || str_contains(
        line,
        "connected",
    )) && !str_contains(line, "primary") && str_contains(line, "connected") && !str_contains(
        line,
        "disconnected",
    )
}

/// Finds the extended monitor in the output of `xrandr`: the first word
/// with a geometry on the first line that may describe it and has one.
pub fn virtual_output_geometry(xrandr_output: &str) -> (g: Option<OutputGeometry>)
    ensures
        g == first_line_geometry(lines_spec(xrandr_output@)),
{
    let ls = lines(xrandr_output);
    let ghost lv = strings_view(ls@);
    let n = ls.len();
    let mut i: usize = 0;
    assert(lv.skip(0) =~= lv);
    while i < n
        invariant
            n == ls@.len(),
            lv == strings_view(ls@),
            lv == lines_spec(xrandr_output@),
            i <= n,
            first_line_geometry(lv) == first_line_geometry(lv.skip(i as int)),
        decreases n - i,
    {
        let line = ls[i].as_str();
        assert(lv.skip(i as int)[0] == line@);
        assert(lv.skip(i as int).drop_first() =~= lv.skip(i + 1));
        if extended_output_line(line) {
            let words = split_whitespace(line);
            let ghost wv = strings_view(words@);
            let m = words.len();
            let mut j: usize = 0;
            assert(wv.skip(0) =~= wv);
            while j < m
                invariant
                    i < n,
                    lv == lines_spec(xrandr_output@),
                    first_line_geometry(lv) == first_line_geometry(lv.skip(i as int)),
                    lv.skip(i as int)[0] == line@,
                    lv.skip(i as int).len() > 0,
                    is_extended_output_line(line@),
                    m == words@.len(),
                    wv == strings_view(words@),
                    wv == split_ws(line@),
                    j <= m,
                    first_word_geometry(wv) == first_word_geometry(wv.skip(j as int)),
                decreases m - j,
            {
                assert(wv.skip(j as int)[0] == words@[j as int]@);
                assert(wv.skip(j as int).drop_first() =~= wv.skip(j + 1));
                let g = parse_word_geometry(words[j].as_str());
                if g.is_some() {
                    return g;
                }
                j = j + 1;
            }
            assert(wv.skip(m as int) =~= Seq::<Seq<char>>::empty());
        }
        i = i + 1;
    }
    assert(lv.skip(n as int) =~= Seq::<Seq<char>>::empty());
    None
}

impl OutputGeometry {
    /// The region's last column and row can be computed: x + width and
    /// y + height neither exceed `u32::MAX` nor are zero.
    pub open spec fn bounds_fit(self) -> bool {
        1 <= self.x + self.width <= u32::MAX && 1 <= self.y + self.height <= u32::MAX
    }

    /// Whether the region's bounds can be computed.
    pub fn bounds_computable(&self) -> (b: bool)
        ensures
            b == self.bounds_fit(),
    {
        self.x <= u32::MAX - self.width && self.x + self.width >= 1 && self.y <= u32::MAX
            - self.height && self.y + self.height >= 1
    }

    /// The region as first column, first row, last column, last row.
    pub fn bounds(&self) -> (r: (u32, u32, u32, u32))
        requires
            self.bounds_fit(),
        ensures
            r == (self.x, self.y, (self.x + self.width - 1) as u32, (self.y + self.height - 1) as u32),
    {
        (self.x, self.y, self.x + self.width - 1, self.y + self.height - 1)
    }
}

} // verus!
