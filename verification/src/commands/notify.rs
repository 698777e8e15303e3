//! `/notify`: toggles whether the user is told on timing out of the queue.
use crate::usersettings::{default_settings, settings_in_force, Settings, SettingsUpdate};
use vstd::prelude::*;

verus! {

/// The reply when notifications are turned off.
pub open spec fn notify_off_reply() -> Seq<char> {
    "You will no longer be notified when you expire from the queue."@
}

/// The reply when notifications are turned on.
pub open spec fn notify_on_reply() -> Seq<char> {
    "You will now be notified when you expire from the queue."@
}

/// The settings after toggling: the timeout in force, the flag flipped.
pub open spec fn toggled_settings(user: u64, stored: Option<Settings>) -> Settings {
    Settings {
        id: user,
        timeout: settings_in_force(user, stored).timeout,
        notify: !settings_in_force(user, stored).notify,
    }
}

/// Toggles the notification flag of `user`, whose stored settings are
/// `stored` (`None` when the user has none yet: the defaults apply). The new
/// settings keep the timeout and are to be stored; the reply says which way
/// the flag went.
pub fn run(user: u64, stored: Option<Settings>) -> (r: SettingsUpdate)
    ensures
        r.store == Some(toggled_settings(user, stored)),
        r.response@ == (if settings_in_force(user, stored).notify {
            notify_off_reply()
        } else {
            notify_on_reply()
        }),
{
    let settings = match stored {
        Some(s) => s,
        None => default_settings(user),
    };
    let response;
    let settings = Settings {
        id: user,
        timeout: settings.timeout,
        notify: {
            match settings.notify {
                true => {
                    response = "You will no longer be notified when you expire from the queue.".to_owned();
                    false
                },
                false => {
                    response = "You will now be notified when you expire from the queue.".to_owned();
                    true
                },
            }
        },
    };
    SettingsUpdate { store: Some(settings), response: response }
}

} // verus!
