//! Per-user settings: how long a user waits in the queue and whether the user
//! is told on timing out. Storing them is up to the caller.
use crate::functions::DEFAULT_TIMEOUT_SECS;
use vstd::prelude::*;

verus! {

/// The stored settings of one user.
#[derive(Clone, Copy, Debug, PartialEq, Eq, Structural)]
pub struct Settings {
    /// The user's id.
    pub id: u64,
    /// How long the user stays in the queue, in seconds.
    pub timeout: u64,
    /// Whether the user is told on timing out of the queue.
    pub notify: bool,
}

/// The settings of a user who has none stored yet.
pub open spec fn spec_default_settings(user: u64) -> Settings {
    Settings { id: user, timeout: DEFAULT_TIMEOUT_SECS, notify: true }
}

/// The settings of a user who has none stored yet: three hours in the queue,
/// told on timing out.
pub fn default_settings(user: u64) -> (s: Settings)
    ensures
        s == spec_default_settings(user),
{
    Settings { id: user, timeout: DEFAULT_TIMEOUT_SECS, notify: true }
}

/// The settings in force: those stored, else the defaults.
pub open spec fn settings_in_force(user: u64, stored: Option<Settings>) -> Settings {
    match stored {
        Some(s) => s,
        None => spec_default_settings(user),
    }
}

/// How long a new entry of `user` may wait, in seconds: the timeout in force
/// (as set with `/expire`, else three hours).
pub fn join_timeout(user: u64, stored: Option<Settings>) -> (t: u64)
    ensures
        t == settings_in_force(user, stored).timeout,
{
    match stored {
        Some(s) => s.timeout,
        None => default_settings(user).timeout,
    }
}

/// What a command does to the settings store and what it answers.
pub struct SettingsUpdate {
    /// The settings to write for the user, if any.
    pub store: Option<Settings>,
    /// The reply shown to the user.
    pub response: String,
}

} // verus!
