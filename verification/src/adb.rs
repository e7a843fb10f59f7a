//! The `adb forward` rule that carries the client's TCP connection over USB.
use vstd::prelude::*;
use crate::command::{command, push_str, push_string, strings_view, CommandLine};
use crate::compositor::cmd;
use crate::text::{decimal, push_decimal};

verus! {

/// Seconds between two renewals of the forward rule.
pub const WATCH_INTERVAL_SECS: u64 = 5;

/// The `adb forward` endpoint of TCP port `port`: `tcp:<port>`.
pub open spec fn forward_endpoint(port: u16) -> Seq<char> {
    "tcp:"@ + decimal(port as nat)
}

/// `adb forward tcp:<port> tcp:<port>`.
pub open spec fn forward_command_spec(port: u16) -> (Seq<char>, Seq<Seq<char>>) {
    cmd("adb"@, seq!["forward"@, forward_endpoint(port), forward_endpoint(port)])
}

/// What setting up the forward rule comes to.
#[derive(Debug, Clone)]
pub enum ForwardPlan {
    /// Forwarding is switched off: nothing to do, and that counts as success.
    Disabled,
    /// `adb` is not on the path: nothing can be done, and that is a failure.
    AdbMissing,
    /// Run this command; its success is the outcome.
    Run(CommandLine),
}

/// The ADB forwarding settings.
#[derive(Debug, Clone, Copy, PartialEq, Eq, Structural)]
pub struct AdbManager {
    pub port: u16,
    pub enabled: bool,
}

/// Builds `adb forward tcp:<port> tcp:<port>`.
fn forward_command(port: u16) -> (c: CommandLine)
    ensures
        c@ == forward_command_spec(port),
{
    let mut endpoint = String::new();
    endpoint.append("tcp:");
    push_decimal(&mut endpoint, port as u128);
    let mut endpoint2 = String::new();
    endpoint2.append("tcp:");
    push_decimal(&mut endpoint2, port as u128);
    assert(endpoint@ =~= forward_endpoint(port));
    assert(endpoint2@ =~= forward_endpoint(port));
    let mut args: Vec<String> = Vec::new();
    push_str(&mut args, "forward");
    push_string(&mut args, endpoint);
    push_string(&mut args, endpoint2);
    assert(strings_view(args@) =~= seq!["forward"@, forward_endpoint(port), forward_endpoint(port)]);
    command("adb", args)
}

impl ForwardPlan {
    /// The outcome of setting up forwarding once the plan has been carried
    /// out, `command_succeeded` telling how the command went if there was one.
    pub fn outcome(&self, command_succeeded: bool) -> (ok: bool)
        ensures
            ok == match self {
                ForwardPlan::Disabled => true,
                ForwardPlan::AdbMissing => false,
                ForwardPlan::Run(_) => command_succeeded,
            },
    {
        match self {
            ForwardPlan::Disabled => true,
            ForwardPlan::AdbMissing => false,
            ForwardPlan::Run(_) => command_succeeded,
        }
    }
}

impl AdbManager {
    /// Forwarding settings for TCP port `port`, switched on or off.
    pub fn new(port: u16, enabled: bool) -> (m: Self)
        ensures
            m.port == port,
            m.enabled == enabled,
    {
        AdbManager { port, enabled }
    }

    /// What setting up forwarding comes to, given whether `adb` is on the
    /// path: nothing when forwarding is off; a failure without `adb`;
    /// otherwise the forward command for the port.
    pub fn setup_forwarding(&self, adb_found: bool) -> (plan: ForwardPlan)
        ensures
            !self.enabled ==> plan is Disabled,
            self.enabled && !adb_found ==> plan is AdbMissing,
            self.enabled && adb_found ==> (plan matches ForwardPlan::Run(c) && c@
                == forward_command_spec(self.port)),
    {
        if !self.enabled {
            return ForwardPlan::Disabled;
        }
        if !adb_found {
            return ForwardPlan::AdbMissing;
        }
        ForwardPlan::Run(forward_command(self.port))
    }

    /// The command the watch loop renews every `WATCH_INTERVAL_SECS`
    /// seconds, or none when forwarding is off.
    pub fn watch_command(&self) -> (c: Option<CommandLine>)
        ensures
            !self.enabled ==> c is None,
            self.enabled ==> (c matches Some(c) && c@ == forward_command_spec(self.port)),
    {
        if !self.enabled {
            return None;
        }
        Some(forward_command(self.port))
    }
}

} // verus!
