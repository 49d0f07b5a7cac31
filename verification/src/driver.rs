//! The process loop's decisions: what to do when a chat session ends, and
//! how a pending profile switch carries into the next iteration's freshly
//! loaded configuration. The loop itself — loading the config file,
//! constructing the remote client, running the session — lives outside;
//! it asks this module which way to branch.

use vstd::prelude::*;
use crate::chat::SessionEnd;
use crate::commands::{spec_parse, CmdModel};
use crate::config::{Config, ConfigModel};
use crate::errors::ParseError;

verus! {

/// What the process loop does after a session ends.
pub enum DriverAction {
    /// Stop the loop; the process ends successfully.
    Stop,
    /// Reload the configuration from scratch, override the active profile
    /// with the carried name, and run a fresh session (conversation
    /// history is discarded by design).
    Restart(String),
    /// Print the carried diagnostic, then stop the loop.
    Report(String),
}

/// Decides the process loop's next step from a session's termination
/// reason: a plain exit or exhausted input stops the loop, a profile
/// switch restarts it under the new name, and a remote failure is
/// reported and stops it.
pub fn next_action(end: SessionEnd) -> (a: DriverAction)
    ensures
        match end {
            SessionEnd::Exit => a == DriverAction::Stop,
            SessionEnd::Idle => a == DriverAction::Stop,
            SessionEnd::ProfileSwitch(n) => a matches DriverAction::Restart(m) && m@ == n@,
            SessionEnd::Failure(f) => a matches DriverAction::Report(m) && m@
                == f.spec_diagnostic(),
        },
{
    match end {
        SessionEnd::Exit => DriverAction::Stop,
        SessionEnd::Idle => DriverAction::Stop,
        SessionEnd::ProfileSwitch(n) => DriverAction::Restart(n),
        SessionEnd::Failure(f) => DriverAction::Report(f.diagnostic()),
    }
}

/// A configuration with a pending profile override applied: only the
/// active-profile pointer changes.
pub open spec fn spec_apply_override(c: ConfigModel, pending: Option<Seq<char>>) -> ConfigModel {
    match pending {
        Some(n) => ConfigModel { active_profile: n, ..c },
        None => c,
    }
}

/// Applies the override carried over from the previous session, if any:
/// a pending profile switch replaces the freshly loaded active-profile
/// pointer; everything else stays as it was read from disk.
pub fn apply_override(config: &mut Config, pending: &Option<String>)
    ensures
        final(config)@ == spec_apply_override(old(config)@, pending.deep_view()),
{
    match pending {
        Some(n) => {
            config.active_profile = n.clone();
        },
        None => {},
    }
}

/// Profile-switch round trip: a `profile <name>` line, for a name other
/// than `list`, parses to a switch command — so the session terminates
/// with that name (see `ChatSession::dispatch_line`) — and the next
/// iteration's configuration, freshly reloaded and overridden, points at
/// exactly that profile while its credential, profiles and color are the
/// reloaded ones, untouched.
pub proof fn lemma_profile_switch_round_trip(
    line: Seq<char>,
    name: Seq<char>,
    reloaded: ConfigModel,
)
    requires
        spec_parse(line) == Ok::<CmdModel, ParseError>(CmdModel::Profile(name)),
        name != "list"@,
    ensures
        spec_apply_override(reloaded, Some(name)).active_profile == name,
        spec_apply_override(reloaded, Some(name)).api_key == reloaded.api_key,
        spec_apply_override(reloaded, Some(name)).profiles == reloaded.profiles,
        spec_apply_override(reloaded, Some(name)).color == reloaded.color,
{
}

} // verus!
