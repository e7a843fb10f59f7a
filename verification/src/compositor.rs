//! Which desktop the daemon runs under, and the commands that switch the
//! virtual output on and off there.
use vstd::prelude::*;
use crate::command::{command, commands_view, push_str, push_string, strings_view, CommandLine};
use crate::text::{
    contains, decimal, lowercase, push_decimal, push_decimal3, str_contains, to_lowercase,
};

verus! {

/// The desktop environments the daemon knows how to drive.
#[derive(Debug, Clone, Copy, PartialEq, Eq, Structural)]
pub enum CompositorType {
    Hyprland,
    Niri,
    KWin,
    SwayWlroots,
    X11,
    GenericWayland,
}

/// The desktop, from the lower-cased `XDG_CURRENT_DESKTOP` (`desktop`),
/// whether `WAYLAND_DISPLAY` is set, and whether the `hyprctl` and `niri`
/// programs are on the path. Hyprland and Niri are recognised by name, or
/// by their program under Wayland; KDE or Plasma means KWin; Sway means a
/// wlroots compositor; otherwise a generic Wayland session or X11.
pub open spec fn spec_detect_compositor(
    desktop: Seq<char>,
    wayland_display: bool,
    hyprctl_found: bool,
    niri_found: bool,
) -> CompositorType {
    if contains(desktop, "hyprland"@) || (hyprctl_found && wayland_display) {
        CompositorType::Hyprland
    } else if contains(desktop, "niri"@) || (niri_found && wayland_display) {
        CompositorType::Niri
    } else if contains(desktop, "kde"@) || contains(desktop, "plasma"@) {
        CompositorType::KWin
    } else if contains(desktop, "sway"@) {
        CompositorType::SwayWlroots
    } else if wayland_display {
        CompositorType::GenericWayland
    } else {
        CompositorType::X11
    }
}

/// Detects the desktop from the raw `XDG_CURRENT_DESKTOP`
/// (`xdg_current_desktop`, lower-cased here), whether `WAYLAND_DISPLAY` is
/// set, and whether `hyprctl` and `niri` are on the path.
pub fn detect_compositor(
    xdg_current_desktop: &str,
    wayland_display: bool,
    hyprctl_found: bool,
    niri_found: bool,
) -> (t: CompositorType)
    ensures
        t == spec_detect_compositor(
            lowercase(xdg_current_desktop@),
            wayland_display,
            hyprctl_found,
            niri_found,
        ),
{
    let desktop = to_lowercase(xdg_current_desktop);
    detect_compositor_lowered(desktop.as_str(), wayland_display, hyprctl_found, niri_found)
}

/// Detects the desktop from the lower-cased `XDG_CURRENT_DESKTOP`; see
/// `spec_detect_compositor`.
pub fn detect_compositor_lowered(
    desktop: &str,
    wayland_display: bool,
    hyprctl_found: bool,
    niri_found: bool,
) -> (t: CompositorType)
    ensures
        t == spec_detect_compositor(desktop@, wayland_display, hyprctl_found, niri_found),
{
    if str_contains(desktop, "hyprland") || (hyprctl_found && wayland_display) {
        CompositorType::Hyprland
    } else if str_contains(desktop, "niri") || (niri_found && wayland_display) {
        CompositorType::Niri
    } else if str_contains(desktop, "kde") || str_contains(desktop, "plasma") {
        CompositorType::KWin
    } else if str_contains(desktop, "sway") {
        CompositorType::SwayWlroots
    } else if wayland_display {
        CompositorType::GenericWayland
    } else {
        CompositorType::X11
    }
}

/// Law: the desktop is decided in a fixed order of precedence. A desktop
/// name that mentions Hyprland, or `hyprctl` under Wayland, means Hyprland
/// whatever else holds; failing that, Niri by name or by its program under
/// Wayland; then KDE or Plasma by name means KWin; then Sway by name; a
/// Wayland session that matched none of these is a generic one, and
/// anything else is X11.
pub proof fn lemma_detect_precedence(
    desktop: Seq<char>,
    wayland_display: bool,
    hyprctl_found: bool,
    niri_found: bool,
)
    ensures
        ({
            let t = spec_detect_compositor(desktop, wayland_display, hyprctl_found, niri_found);
            let hypr = contains(desktop, "hyprland"@) || (hyprctl_found && wayland_display);
            let niri = contains(desktop, "niri"@) || (niri_found && wayland_display);
            let kde = contains(desktop, "kde"@) || contains(desktop, "plasma"@);
            let sway = contains(desktop, "sway"@);
            &&& (t == CompositorType::Hyprland) <==> hypr
            &&& (t == CompositorType::Niri) <==> !hypr && niri
            &&& (t == CompositorType::KWin) <==> !hypr && !niri && kde
            &&& (t == CompositorType::SwayWlroots) <==> !hypr && !niri && !kde && sway
            &&& (t == CompositorType::GenericWayland) <==> !hypr && !niri && !kde && !sway
                && wayland_display
            &&& (t == CompositorType::X11) <==> !hypr && !niri && !kde && !sway && !wayland_display
        }),
{
}

/// The name of the X11 mode made for a `width` by `height` display at
/// `refresh_rate` Hz: `DeskLink_<width>x<height>_<refresh_rate>`.
pub open spec fn x11_mode_name(width: u32, height: u32, refresh_rate: u32) -> Seq<char> {
    "DeskLink_"@ + decimal(width as nat) + "x"@ + decimal(height as nat) + "_"@ + decimal(
        refresh_rate as nat,
    )
}

/// Horizontal blanking of the made-up X11 mode, in pixels (front porch 48,
/// sync 32, back porch 80).
pub const X11_H_BLANK: u32 = 160;

/// Pixels from the end of the visible line to the start of the sync.
pub const X11_H_FRONT: u32 = 48;

/// Pixels from the end of the visible line to the end of the sync.
pub const X11_H_SYNC_END: u32 = 80;

/// Vertical blanking of the made-up X11 mode, in lines (front porch 3,
/// sync 6, back porch 21).
pub const X11_V_BLANK: u32 = 30;

/// Lines from the end of the visible frame to the start of the sync.
pub const X11_V_FRONT: u32 = 3;

/// Lines from the end of the visible frame to the end of the sync.
pub const X11_V_SYNC_END: u32 = 9;

/// The pixel clock, in whole kHz, of the made-up mode: total pixels per
/// line times total lines times the refresh rate, over 1000.
pub open spec fn x11_clock_khz(width: u32, height: u32, refresh_rate: u32) -> nat {
    (((width + X11_H_BLANK) * (height + X11_V_BLANK) * refresh_rate) / 1000) as nat
}

/// The pixel clock in MHz with three decimals, as `xrandr --newmode` takes it.
pub open spec fn x11_clock_mhz(width: u32, height: u32, refresh_rate: u32) -> Seq<char> {
    let k = x11_clock_khz(width, height, refresh_rate);
    decimal(k / 1000) + "."@ + crate::text::decimal3(k % 1000)
}

/// Law: the pixel clock of the made-up mode is the whole number of kHz in
/// total pixels per line times total lines times the refresh rate, rounded
/// down, with 160 blank pixels per line and 30 blank lines; written in MHz,
/// its digits after the point are its last three digits in kHz.
pub proof fn lemma_x11_clock(width: u32, height: u32, refresh_rate: u32)
    ensures
        ({
            let k = x11_clock_khz(width, height, refresh_rate) as int;
            let n = (width + 160) * (height + 30) * refresh_rate;
            &&& k * 1000 <= n < k * 1000 + 1000
            &&& x11_clock_mhz(width, height, refresh_rate) == decimal((k / 1000) as nat) + seq!['.'] + seq![
                crate::text::digit_char(k / 100 % 10),
                crate::text::digit_char(k / 10 % 10),
                crate::text::digit_char(k % 10),
            ]
        }),
{
    let n = (width + 160) * (height + 30) * refresh_rate;
    assert(n >= 0) by (nonlinear_arith)
        requires
            n == (width + 160) * (height + 30) * refresh_rate,
            width >= 0,
            height >= 0,
            refresh_rate >= 0,
    ;
    let k = x11_clock_khz(width, height, refresh_rate) as int;
    assert(k == n / 1000);
    assert(k * 1000 <= n < k * 1000 + 1000) by (nonlinear_arith)
        requires
            k == n / 1000,
            n >= 0,
    ;
    reveal_strlit(".");
    assert(k % 1000 / 100 == k / 100 % 10) by (nonlinear_arith)
        requires
            k >= 0,
    ;
    assert(k % 1000 / 10 % 10 == k / 10 % 10) by (nonlinear_arith)
        requires
            k >= 0,
    ;
    assert(k % 1000 % 10 == k % 10) by (nonlinear_arith)
        requires
            k >= 0,
    ;
}

/// The arguments of `xrandr --newmode` for the made-up mode: its name, its
/// pixel clock, then the horizontal timings (visible, sync start, sync
/// end, total), the vertical ones, and the sync polarities.
pub open spec fn x11_newmode_args(width: u32, height: u32, refresh_rate: u32) -> Seq<Seq<char>> {
    seq![
        "--newmode"@,
        x11_mode_name(width, height, refresh_rate),
        x11_clock_mhz(width, height, refresh_rate),
        decimal(width as nat),
        decimal((width + X11_H_FRONT) as nat),
        decimal((width + X11_H_SYNC_END) as nat),
        decimal((width + X11_H_BLANK) as nat),
        decimal(height as nat),
        decimal((height + X11_V_FRONT) as nat),
        decimal((height + X11_V_SYNC_END) as nat),
        decimal((height + X11_V_BLANK) as nat),
        "+hsync"@,
        "-vsync"@,
    ]
}

/// Under X11: create the mode, add it to `VIRTUAL-1`, and switch
/// `VIRTUAL-1` to it.
pub open spec fn x11_create_commands(width: u32, height: u32, refresh_rate: u32) -> Seq<
    (Seq<char>, Seq<Seq<char>>),
> {
    let ghost name = x11_mode_name(width, height, refresh_rate);
    seq![
        cmd("xrandr"@, x11_newmode_args(width, height, refresh_rate)),
        cmd("xrandr"@, seq!["--addmode"@, "VIRTUAL-1"@, name]),
        cmd("xrandr"@, seq!["--output"@, "VIRTUAL-1"@, "--mode"@, name]),
    ]
}

/// Under KWin: a new virtual desktop named `DeskLink`, through the D-Bus
/// method `createDesktop` of `org.kde.KWin.VirtualDesktopManager`, at the
/// last position (KWin clamps the position to the number of desktops).
pub open spec fn kwin_create_command() -> (Seq<char>, Seq<Seq<char>>) {
    cmd(
        "qdbus"@,
        seq![
            "org.kde.KWin"@,
            "/VirtualDesktopManager"@,
            "org.kde.KWin.VirtualDesktopManager.createDesktop"@,
            "4294967295"@,
            "DeskLink"@,
        ],
    )
}

/// A command as program and arguments.
pub open spec fn cmd(program: Seq<char>, args: Seq<Seq<char>>) -> (Seq<char>, Seq<Seq<char>>) {
    (program, args)
}

/// The commands that switch the virtual output on: Hyprland creates a
/// virtual output; Niri turns `Virtual-1` on with `wlr-randr` in the mode
/// `niri_mode`, then tells Niri; X11 creates a mode for the display with
/// `xrandr` and puts `VIRTUAL-1` in it; KWin adds a virtual desktop over
/// D-Bus; Sway and other Wayland sessions need no command.
pub open spec fn create_commands_spec(
    t: CompositorType,
    width: u32,
    height: u32,
    refresh_rate: u32,
    niri_mode: Seq<char>,
) -> Seq<(Seq<char>, Seq<Seq<char>>)> {
    match t {
        CompositorType::Hyprland => seq![cmd("hyprctl"@, seq!["output"@, "create"@, "virtual"@])],
        CompositorType::Niri => seq![
            cmd("wlr-randr"@, seq!["--output"@, "Virtual-1"@, "--on"@, "--mode"@, niri_mode]),
            cmd("niri"@, seq!["msg"@, "output"@, "Virtual-1"@, "on"@]),
        ],
        CompositorType::X11 => x11_create_commands(width, height, refresh_rate),
        CompositorType::KWin => seq![kwin_create_command()],
        _ => Seq::empty(),
    }
}

/// The commands that switch a virtual output off again: Hyprland removes
/// `HEADLESS-1`, Niri turns `Virtual-1` off, X11 turns `VIRTUAL-1` off; the
/// other desktops need no command (the KWin interface removes a desktop
/// only by an id that its creation does not hand back).
pub open spec fn destroy_commands_spec(t: CompositorType) -> Seq<(Seq<char>, Seq<Seq<char>>)> {
    match t {
        CompositorType::Hyprland => seq![cmd("hyprctl"@, seq!["output"@, "remove"@, "HEADLESS-1"@])],
        CompositorType::Niri => seq![cmd("niri"@, seq!["msg"@, "output"@, "Virtual-1"@, "off"@])],
        CompositorType::X11 => seq![cmd("xrandr"@, seq!["--output"@, "VIRTUAL-1"@, "--off"@])],
        _ => Seq::empty(),
    }
}

/// The commands a switch-off runs and the state after it, from the
/// desktop `t` and whether an output is up (`created`): the desktop's
/// switch-off commands if an output was up, none otherwise; no output is up
/// afterwards.
pub open spec fn destroy_step(t: CompositorType, created: bool) -> (
    bool,
    Seq<(Seq<char>, Seq<Seq<char>>)>,
) {
    (false, if created {
        destroy_commands_spec(t)
    } else {
        Seq::empty()
    })
}

/// The outcome of a switch-on and whether an output is up after it, from
/// the desktop `t`, whether one was up (`created`) and how its command
/// went: only Hyprland looks at the command, and a failure there changes
/// nothing; elsewhere the output counts as up whatever the commands did.
pub open spec fn create_step(t: CompositorType, created: bool, command_succeeded: bool) -> (
    bool,
    bool,
) {
    let ok = t != CompositorType::Hyprland || command_succeeded;
    (ok || created, ok)
}

/// Law: a second switch-off in a row runs no command.
pub proof fn lemma_destroy_twice(t: CompositorType, created: bool)
    ensures
        destroy_step(t, destroy_step(t, created).0) == (false, Seq::<(Seq<char>, Seq<Seq<char>>)>::empty()),
{
}

/// Law: once a switch-on has succeeded, the next switch-off runs the
/// desktop's switch-off commands and leaves no output up.
pub proof fn lemma_create_then_destroy(t: CompositorType, created: bool, command_succeeded: bool)
    requires
        create_step(t, created, command_succeeded).1,
    ensures
        destroy_step(t, create_step(t, created, command_succeeded).0) == (false, destroy_commands_spec(t)),
{
}

/// Law: a switch-on fails only under Hyprland, when `hyprctl` failed; on
/// every other desktop it succeeds and the output is up, whatever its
/// commands did.
pub proof fn lemma_create_fails_only_on_hyprctl(t: CompositorType, created: bool, command_succeeded: bool)
    ensures
        !create_step(t, created, command_succeeded).1 <==> (t == CompositorType::Hyprland
            && !command_succeeded),
        t != CompositorType::Hyprland ==> create_step(t, created, command_succeeded) == (true, true),
{
}

/// The decimal representation of `n` as an argument.
fn number_arg(n: u128) -> (s: String)
    ensures
        s@ == decimal(n as nat),
{
    let mut s = String::new();
    push_decimal(&mut s, n);
    assert(s@ =~= decimal(n as nat));
    s
}

/// The name of the made-up X11 mode.
fn x11_mode_name_string(width: u32, height: u32, refresh_rate: u32) -> (s: String)
    ensures
        s@ == x11_mode_name(width, height, refresh_rate),
{
    let mut s = String::new();
    s.append("DeskLink_");
    push_decimal(&mut s, width as u128);
    s.append("x");
    push_decimal(&mut s, height as u128);
    s.append("_");
    push_decimal(&mut s, refresh_rate as u128);
    assert(s@ =~= x11_mode_name(width, height, refresh_rate));
    s
}

/// The `xrandr` commands that create the X11 mode and switch `VIRTUAL-1` to
/// it; see `x11_create_commands`.
fn x11_commands(width: u32, height: u32, refresh_rate: u32) -> (cmds: Vec<CommandLine>)
    ensures
        commands_view(cmds@) == x11_create_commands(width, height, refresh_rate),
{
    let w = width as u128;
    let h = height as u128;
    let r = refresh_rate as u128;
    let line = w + X11_H_BLANK as u128;
    let frame = h + X11_V_BLANK as u128;
    assert(line * frame <= 0x2_0000_0000u128 * 0x2_0000_0000u128) by (nonlinear_arith)
        requires
            line <= 0x2_0000_0000u128,
            frame <= 0x2_0000_0000u128,
    ;
    assert(line * frame * r <= 0x2_0000_0000u128 * 0x2_0000_0000u128 * 0x1_0000_0000u128) by (
    nonlinear_arith)
        requires
            line * frame <= 0x2_0000_0000u128 * 0x2_0000_0000u128,
            r <= 0x1_0000_0000u128,
    ;
    let khz = line * frame * r / 1000;
    assert(khz == x11_clock_khz(width, height, refresh_rate));
    let mut clock = String::new();
    push_decimal(&mut clock, khz / 1000);
    clock.append(".");
    push_decimal3(&mut clock, khz % 1000);
    assert(clock@ =~= x11_clock_mhz(width, height, refresh_rate));
    let mut newmode: Vec<String> = Vec::new();
    push_str(&mut newmode, "--newmode");
    push_string(&mut newmode, x11_mode_name_string(width, height, refresh_rate));
    push_string(&mut newmode, clock);
    push_string(&mut newmode, number_arg(w));
    push_string(&mut newmode, number_arg(w + X11_H_FRONT as u128));
    push_string(&mut newmode, number_arg(w + X11_H_SYNC_END as u128));
    push_string(&mut newmode, number_arg(w + X11_H_BLANK as u128));
    push_string(&mut newmode, number_arg(h));
    push_string(&mut newmode, number_arg(h + X11_V_FRONT as u128));
    push_string(&mut newmode, number_arg(h + X11_V_SYNC_END as u128));
    push_string(&mut newmode, number_arg(h + X11_V_BLANK as u128));
    push_str(&mut newmode, "+hsync");
    push_str(&mut newmode, "-vsync");
    assert(strings_view(newmode@) =~= x11_newmode_args(width, height, refresh_rate));
    let mut addmode: Vec<String> = Vec::new();
    push_str(&mut addmode, "--addmode");
    push_str(&mut addmode, "VIRTUAL-1");
    push_string(&mut addmode, x11_mode_name_string(width, height, refresh_rate));
    let mut output: Vec<String> = Vec::new();
    push_str(&mut output, "--output");
    push_str(&mut output, "VIRTUAL-1");
    push_str(&mut output, "--mode");
    push_string(&mut output, x11_mode_name_string(width, height, refresh_rate));
    let ghost name = x11_mode_name(width, height, refresh_rate);
    assert(strings_view(addmode@) =~= seq!["--addmode"@, "VIRTUAL-1"@, name]);
    assert(strings_view(output@) =~= seq!["--output"@, "VIRTUAL-1"@, "--mode"@, name]);
    let cmds = vec![command("xrandr", newmode), command("xrandr", addmode), command("xrandr", output)];
    assert(commands_view(cmds@) =~= x11_create_commands(width, height, refresh_rate));
    cmds
}

/// The desktop and whether a virtual output is up on it.
pub struct CompositorManager {
    compositor_type: CompositorType,
    virtual_output_created: bool,
}

impl CompositorManager {
    /// The desktop.
    pub closed spec fn spec_type(&self) -> CompositorType {
        self.compositor_type
    }

    /// Whether a virtual output is up.
    pub closed spec fn spec_created(&self) -> bool {
        self.virtual_output_created
    }

    /// A manager for the desktop `compositor_type`, with no virtual output.
    pub fn new(compositor_type: CompositorType) -> (m: Self)
        ensures
            m.spec_type() == compositor_type,
            !m.spec_created(),
    {
        CompositorManager { compositor_type, virtual_output_created: false }
    }

    /// The desktop.
    pub fn compositor_type(&self) -> (t: CompositorType)
        ensures
            t == self.spec_type(),
    {
        self.compositor_type
    }

    /// Whether a virtual output is up.
    pub fn virtual_output_created(&self) -> (b: bool)
        ensures
            b == self.spec_created(),
    {
        self.virtual_output_created
    }

    /// The commands to run to switch the virtual output on for a `width` by
    /// `height` display at `refresh_rate` Hz; `niri_mode` is the standard
    /// mode closest to that display, used under Niri.
    pub fn create_virtual_output_commands(
        &self,
        width: u32,
        height: u32,
        refresh_rate: u32,
        niri_mode: &str,
    ) -> (cmds: Vec<CommandLine>)
        ensures
            commands_view(cmds@) == create_commands_spec(
                self.spec_type(),
                width,
                height,
                refresh_rate,
                niri_mode@,
            ),
    {
        let mut cmds: Vec<CommandLine> = Vec::new();
        match self.compositor_type {
            CompositorType::Hyprland => {
                let mut args: Vec<String> = Vec::new();
                push_str(&mut args, "output");
                push_str(&mut args, "create");
                push_str(&mut args, "virtual");
                assert(strings_view(args@) =~= seq!["output"@, "create"@, "virtual"@]);
                let ghost before = commands_view(cmds@);
                cmds.push(command("hyprctl", args));
                assert(commands_view(cmds@) =~= before.push(cmd("hyprctl"@, seq!["output"@, "create"@, "virtual"@])));
            },
            CompositorType::Niri => {
                let mut args: Vec<String> = Vec::new();
                push_str(&mut args, "--output");
                push_str(&mut args, "Virtual-1");
                push_str(&mut args, "--on");
                push_str(&mut args, "--mode");
                push_str(&mut args, niri_mode);
                assert(strings_view(args@) =~= seq!["--output"@, "Virtual-1"@, "--on"@, "--mode"@, niri_mode@]);
                let ghost before = commands_view(cmds@);
                cmds.push(command("wlr-randr", args));
                assert(commands_view(cmds@) =~= before.push(cmd("wlr-randr"@, seq!["--output"@, "Virtual-1"@, "--on"@, "--mode"@, niri_mode@])));
                let mut args2: Vec<String> = Vec::new();
                push_str(&mut args2, "msg");
                push_str(&mut args2, "output");
                push_str(&mut args2, "Virtual-1");
                push_str(&mut args2, "on");
                assert(strings_view(args2@) =~= seq!["msg"@, "output"@, "Virtual-1"@, "on"@]);
                let ghost before = commands_view(cmds@);
                cmds.push(command("niri", args2));
                assert(commands_view(cmds@) =~= before.push(cmd("niri"@, seq!["msg"@, "output"@, "Virtual-1"@, "on"@])));
            },
            CompositorType::X11 => {
                cmds = x11_commands(width, height, refresh_rate);
            },
            CompositorType::KWin => {
                let mut args: Vec<String> = Vec::new();
                push_str(&mut args, "org.kde.KWin");
                push_str(&mut args, "/VirtualDesktopManager");
                push_str(&mut args, "org.kde.KWin.VirtualDesktopManager.createDesktop");
                push_str(&mut args, "4294967295");
                push_str(&mut args, "DeskLink");
                assert(strings_view(args@) =~= kwin_create_command().1);
                cmds.push(command("qdbus", args));
                assert(commands_view(cmds@) =~= seq![kwin_create_command()]);
            },
            _ => {},
        }
        assert(commands_view(cmds@) =~= create_commands_spec(
            self.spec_type(),
            width,
            height,
            refresh_rate,
            niri_mode@,
        ));
        cmds
    }

    /// Records the outcome of switching the virtual output on, once its
    /// commands have run (`command_succeeded`: all of them succeeded); see
    /// `create_step`.
    pub fn create_virtual_output(&mut self, command_succeeded: bool) -> (ok: bool)
        ensures
            (final(self).spec_created(), ok) == create_step(
                old(self).spec_type(),
                old(self).spec_created(),
                command_succeeded,
            ),
            final(self).spec_type() == old(self).spec_type(),
    {
        match self.compositor_type {
            CompositorType::Hyprland => {
                if command_succeeded {
                    self.virtual_output_created = true;
                    true
                } else {
                    false
                }
            },
            _ => {
                self.virtual_output_created = true;
                true
            },
        }
    }

    /// Switches the virtual output off: gives the commands to run (none if
    /// no output is up) and records that no output is up.
    pub fn destroy_virtual_output(&mut self) -> (cmds: Vec<CommandLine>)
        ensures
            (final(self).spec_created(), commands_view(cmds@)) == destroy_step(
                old(self).spec_type(),
                old(self).spec_created(),
            ),
            final(self).spec_type() == old(self).spec_type(),
    {
        let mut cmds: Vec<CommandLine> = Vec::new();
        if self.virtual_output_created {
            match self.compositor_type {
                CompositorType::Hyprland => {
                    let mut args: Vec<String> = Vec::new();
                    push_str(&mut args, "output");
                    push_str(&mut args, "remove");
                    push_str(&mut args, "HEADLESS-1");
                    assert(strings_view(args@) =~= seq!["output"@, "remove"@, "HEADLESS-1"@]);
                    let ghost before = commands_view(cmds@);
                    cmds.push(command("hyprctl", args));
                    assert(commands_view(cmds@) =~= before.push(cmd("hyprctl"@, seq!["output"@, "remove"@, "HEADLESS-1"@])));
                },
                CompositorType::Niri => {
                    let mut args: Vec<String> = Vec::new();
                    push_str(&mut args, "msg");
                    push_str(&mut args, "output");
                    push_str(&mut args, "Virtual-1");
                    push_str(&mut args, "off");
                    assert(strings_view(args@) =~= seq!["msg"@, "output"@, "Virtual-1"@, "off"@]);
                    let ghost before = commands_view(cmds@);
                    cmds.push(command("niri", args));
                    assert(commands_view(cmds@) =~= before.push(cmd("niri"@, seq!["msg"@, "output"@, "Virtual-1"@, "off"@])));
                },
                CompositorType::X11 => {
                    let mut args: Vec<String> = Vec::new();
                    push_str(&mut args, "--output");
                    push_str(&mut args, "VIRTUAL-1");
                    push_str(&mut args, "--off");
                    assert(strings_view(args@) =~= seq!["--output"@, "VIRTUAL-1"@, "--off"@]);
                    let ghost before = commands_view(cmds@);
                    cmds.push(command("xrandr", args));
                    assert(commands_view(cmds@) =~= before.push(cmd("xrandr"@, seq!["--output"@, "VIRTUAL-1"@, "--off"@])));
                },
                _ => {},
            }
        }
        self.virtual_output_created = false;
        assert(commands_view(cmds@) =~= (if old(self).spec_created() {
            destroy_commands_spec(old(self).spec_type())
        } else {
            Seq::empty()
        }));
        cmds
    }
}

} // verus!
