//! Events broadcast to the user interface, requests sent to the app loop,
//! and the tray menu that issues them.
use vstd::prelude::*;
use crate::kernel::KernelStatus;
use crate::version::UpdateEventPayload;

verus! {

/// The command that installs dsh.
pub const INSTALL_COMMAND: &'static str = "npm i -g @deepseek-ai/dsh";

/// An event broadcast to the user interface.
#[derive(Debug)]
pub enum AppEvent {
    /// The kernel of `profile` changed status.
    KernelStatus { profile: String, status: KernelStatus },
    /// Result of an update check.
    Update(UpdateEventPayload),
    /// Result of a check asked for by the user.
    UpdateCheckResult { ok: bool, message: String },
    /// Result of upgrading dsh.
    UpdateInstallResult { ok: bool, message: String },
    /// dsh was installed.
    DshInstalled,
    /// A plugin operation started on `profile`.
    PluginOpStarted { profile: String, message: String },
    /// A plugin operation finished on `profile`.
    PluginOpResult { profile: String, ok: bool, message: String },
    /// Plugins of `profile` with a newer version: (name, latest).
    PluginOutdated { profile: String, updates: Vec<(String, String)> },
}

/// A request to the app loop, from the tray, the settings or the wizard.
#[derive(Debug)]
pub enum Control {
    OpenMain,
    RestartKernel,
    OpenBrowser,
    CopyDiagnostics,
    OpenLog,
    OpenConfig,
    ToggleAutostart,
    SetAutostart(bool),
    CheckUpdate,
    InstallUpdate,
    InstallDsh,
    SetLockPort(bool),
    SwitchProfile(String),
    CreateProfile,
    DeleteProfile(String),
    Stop,
    Quit,
}

/// The request a tray menu item other than `switch-…` stands for.
pub open spec fn fixed_control(id: Seq<char>) -> Option<Control> {
        if id == "open-main"@ {
            Some(Control::OpenMain)
        } else if id == "restart-kernel"@ {
            Some(Control::RestartKernel)
        } else if id == "open-browser"@ {
            Some(Control::OpenBrowser)
        } else if id == "copy-diagnostics"@ {
            Some(Control::CopyDiagnostics)
        } else if id == "open-log"@ {
            Some(Control::OpenLog)
        } else if id == "open-config"@ {
            Some(Control::OpenConfig)
        } else if id == "check-update"@ {
            Some(Control::CheckUpdate)
        } else if id == "install-update"@ {
            Some(Control::InstallUpdate)
        } else if id == "toggle-autostart"@ {
            Some(Control::ToggleAutostart)
        } else if id == "quit"@ {
            Some(Control::Quit)
        } else {
            None
        }
}

/// The request sent for the tray menu item `id`: `switch-<profile>`
/// switches profile; the other known ids map one to one; unknown ids send
/// nothing.
pub fn dispatch(id: &str) -> (r: Option<Control>)
    ensures
        match crate::text::strip_prefix(id@, "switch-"@) {
            Some(name) => (r matches Some(Control::SwitchProfile(n)) && n@ == name),
            None => r == fixed_control(id@),
        },
{
    let chars = crate::text::chars_of(id);
    match crate::text::strip_prefix_vec(&chars, &crate::text::lit("switch-")) {
        Some(rest) => {
            let name = crate::text::string_from_chars(&rest);
            return Some(Control::SwitchProfile(name));
        },
        None => {},
    }
    if crate::text::str_eq(id, "open-main") {
        Some(Control::OpenMain)
    } else if crate::text::str_eq(id, "restart-kernel") {
        Some(Control::RestartKernel)
    } else if crate::text::str_eq(id, "open-browser") {
        Some(Control::OpenBrowser)
    } else if crate::text::str_eq(id, "copy-diagnostics") {
        Some(Control::CopyDiagnostics)
    } else if crate::text::str_eq(id, "open-log") {
        Some(Control::OpenLog)
    } else if crate::text::str_eq(id, "open-config") {
        Some(Control::OpenConfig)
    } else if crate::text::str_eq(id, "check-update") {
        Some(Control::CheckUpdate)
    } else if crate::text::str_eq(id, "install-update") {
        Some(Control::InstallUpdate)
    } else if crate::text::str_eq(id, "toggle-autostart") {
        Some(Control::ToggleAutostart)
    } else if crate::text::str_eq(id, "quit") {
        Some(Control::Quit)
    } else {
        None
    }
}

/// RGBA pixels reordered as ARGB (the tray's icon format): each 4-byte
/// pixel (r, g, b, a) becomes (a, r, g, b); a trailing partial pixel is dropped.
pub open spec fn argb_spec(raw: Seq<u8>) -> Seq<u8>
    decreases raw.len(),
{
    if raw.len() < 4 {
        Seq::empty()
    } else {
        seq![raw[3], raw[0], raw[1], raw[2]] + argb_spec(raw.skip(4))
    }
}

/// The icon pixels `raw` (RGBA) as ARGB.
pub fn rgba_to_argb(raw: &Vec<u8>) -> (r: Vec<u8>)
    ensures
        r@ == argb_spec(raw@),
{
    let mut out: Vec<u8> = Vec::new();
    let mut b: usize = 0;
    assert(raw@.skip(0) =~= raw@);
    while raw.len() - b >= 4
        invariant
            b <= raw@.len(),
            argb_spec(raw@) == out@ + argb_spec(raw@.skip(b as int)),
        decreases raw.len() - b,
    {
        let ghost rest = raw@.skip(b as int);
        out.push(raw[b + 3]);
        out.push(raw[b]);
        out.push(raw[b + 1]);
        out.push(raw[b + 2]);
        proof {
            assert(rest.skip(4) =~= raw@.skip(b + 4));
            assert(seq![rest[3], rest[0], rest[1], rest[2]] =~= seq![raw@[b + 3], raw@[b as int], raw@[b + 1], raw@[b + 2]]);
        }
        b = b + 4;
    }
    assert(argb_spec(raw@.skip(b as int)) =~= Seq::<u8>::empty());
    assert(out@ + Seq::<u8>::empty() =~= out@);
    out
}

} // verus!
