use desklink::adb::{AdbManager, ForwardPlan};
use desklink::command::CommandLine;
use desklink::compositor::{detect_compositor, detect_compositor_lowered, CompositorManager, CompositorType};

fn words(c: &CommandLine) -> Vec<&str> {
    let mut v = vec![c.program.as_str()];
    v.extend(c.args.iter().map(|a| a.as_str()));
    v
}

#[test]
fn compositor_detection_order() {
    assert_eq!(detect_compositor("hyprland", false, false, false), CompositorType::Hyprland);
    assert_eq!(detect_compositor("", true, true, true), CompositorType::Hyprland);
    assert_eq!(detect_compositor("", false, true, true), CompositorType::X11);
    assert_eq!(detect_compositor("niri", false, false, false), CompositorType::Niri);
    assert_eq!(detect_compositor("gnome", true, false, true), CompositorType::Niri);
    assert_eq!(detect_compositor("kde", true, false, false), CompositorType::KWin);
    assert_eq!(detect_compositor("x-plasma", false, false, false), CompositorType::KWin);
    assert_eq!(detect_compositor("sway:wlroots", true, false, false), CompositorType::SwayWlroots);
    assert_eq!(detect_compositor("gnome", true, false, false), CompositorType::GenericWayland);
    assert_eq!(detect_compositor("xfce", false, false, false), CompositorType::X11);
    assert_eq!(detect_compositor("KDE", false, false, false), CompositorType::KWin);
    assert_eq!(detect_compositor("Hyprland", false, false, false), CompositorType::Hyprland);
    assert_eq!(detect_compositor_lowered("KDE", false, false, false), CompositorType::X11);
}

#[test]
fn hyprland_create_and_destroy() {
    let mut m = CompositorManager::new(CompositorType::Hyprland);
    let cmds = m.create_virtual_output_commands(1920, 1080, 60, "1920x1080@60.000000");
    assert_eq!(cmds.len(), 1);
    assert_eq!(words(&cmds[0]), vec!["hyprctl", "output", "create", "virtual"]);
    assert!(!m.create_virtual_output(false));
    assert!(!m.virtual_output_created());
    assert!(m.destroy_virtual_output().is_empty());
    assert!(m.create_virtual_output(true));
    assert!(m.virtual_output_created());
    let off = m.destroy_virtual_output();
    assert_eq!(words(&off[0]), vec!["hyprctl", "output", "remove", "HEADLESS-1"]);
    assert!(!m.virtual_output_created());
    assert!(m.destroy_virtual_output().is_empty());
}

#[test]
fn niri_commands() {
    let mut m = CompositorManager::new(CompositorType::Niri);
    let cmds = m.create_virtual_output_commands(2560, 1600, 120, "2560x1600@59.987000");
    assert_eq!(
        words(&cmds[0]),
        vec!["wlr-randr", "--output", "Virtual-1", "--on", "--mode", "2560x1600@59.987000"]
    );
    assert_eq!(words(&cmds[1]), vec!["niri", "msg", "output", "Virtual-1", "on"]);
    assert!(m.create_virtual_output(false));
    let off = m.destroy_virtual_output();
    assert_eq!(words(&off[0]), vec!["niri", "msg", "output", "Virtual-1", "off"]);
}

#[test]
fn x11_commands() {
    let mut m = CompositorManager::new(CompositorType::X11);
    let cmds = m.create_virtual_output_commands(1280, 800, 60, "unused");
    assert_eq!(cmds.len(), 3);
    assert_eq!(
        words(&cmds[0]),
        vec![
            "xrandr", "--newmode", "DeskLink_1280x800_60", "71.712", "1280", "1328", "1360",
            "1440", "800", "803", "809", "830", "+hsync", "-vsync",
        ]
    );
    assert_eq!(words(&cmds[1]), vec!["xrandr", "--addmode", "VIRTUAL-1", "DeskLink_1280x800_60"]);
    assert_eq!(
        words(&cmds[2]),
        vec!["xrandr", "--output", "VIRTUAL-1", "--mode", "DeskLink_1280x800_60"]
    );
    // 1920x1080 at 60 Hz: 2080 x 1110 x 60 = 138.528 MHz; fractions keep their zeros.
    let hd = m.create_virtual_output_commands(1920, 1080, 60, "unused");
    assert_eq!(hd[0].args[2], "138.528");
    let odd = m.create_virtual_output_commands(840, 970, 1, "unused");
    assert_eq!(odd[0].args[2], "1.000");
    let huge = m.create_virtual_output_commands(u32::MAX, u32::MAX, u32::MAX, "unused");
    assert_eq!(huge[0].args[6], "4294967455");
    assert!(m.create_virtual_output(false));
    let off = m.destroy_virtual_output();
    assert_eq!(words(&off[0]), vec!["xrandr", "--output", "VIRTUAL-1", "--off"]);
}

#[test]
fn kwin_desktop_over_dbus() {
    let mut m = CompositorManager::new(CompositorType::KWin);
    let cmds = m.create_virtual_output_commands(1920, 1080, 60, "unused");
    assert_eq!(
        words(&cmds[0]),
        vec![
            "qdbus",
            "org.kde.KWin",
            "/VirtualDesktopManager",
            "org.kde.KWin.VirtualDesktopManager.createDesktop",
            "4294967295",
            "DeskLink",
        ]
    );
    // The outcome of the D-Bus call is not looked at.
    assert!(m.create_virtual_output(false));
    assert!(m.virtual_output_created());
    assert!(m.destroy_virtual_output().is_empty());
    assert!(!m.virtual_output_created());
    assert!(m.create_virtual_output(true));
    assert!(m.virtual_output_created());
}

#[test]
fn quiet_desktops_need_no_commands() {
    for t in [CompositorType::SwayWlroots, CompositorType::GenericWayland] {
        let mut m = CompositorManager::new(t);
        assert!(m.create_virtual_output_commands(1, 2, 3, "x").is_empty());
        assert!(m.create_virtual_output(false));
        assert!(m.virtual_output_created());
        assert!(m.destroy_virtual_output().is_empty());
        assert!(!m.virtual_output_created());
        assert_eq!(m.compositor_type(), t);
    }
}

#[test]
fn adb_forwarding_plans() {
    let off = AdbManager::new(9999, false);
    assert!(matches!(off.setup_forwarding(true), ForwardPlan::Disabled));
    assert!(off.setup_forwarding(true).outcome(false));
    assert!(off.watch_command().is_none());

    let on = AdbManager::new(9999, true);
    let missing = on.setup_forwarding(false);
    assert!(matches!(missing, ForwardPlan::AdbMissing));
    assert!(!missing.outcome(true));

    match on.setup_forwarding(true) {
        ForwardPlan::Run(c) => {
            assert_eq!(words(&c), vec!["adb", "forward", "tcp:9999", "tcp:9999"]);
            let plan = ForwardPlan::Run(c);
            assert!(plan.outcome(true));
            assert!(!plan.outcome(false));
        }
        _ => panic!("expected a forward command"),
    }
    let watch = AdbManager::new(0, true).watch_command().unwrap();
    assert_eq!(words(&watch), vec!["adb", "forward", "tcp:0", "tcp:0"]);
    let top = AdbManager::new(65535, true).watch_command().unwrap();
    assert_eq!(words(&top), vec!["adb", "forward", "tcp:65535", "tcp:65535"]);
}
