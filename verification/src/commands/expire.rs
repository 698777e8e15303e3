//! `/expire`: shows or sets how long the user stays in the queue.
use crate::text::{decimal, push_decimal};
use crate::usersettings::{default_settings, settings_in_force, Settings, SettingsUpdate};
use vstd::prelude::*;

verus! {

/// The magnitude of a number of minutes given to the command.
pub open spec fn abs_minutes(minutes: i64) -> nat {
    if minutes < 0 { (-minutes) as nat } else { minutes as nat }
}

/// The reply after setting a stay of `minutes` minutes.
pub open spec fn set_reply(minutes: nat) -> Seq<char> {
    "You will now remain in the queue for "@ + decimal(minutes) + " minutes"@
}

/// The reply that shows the current stay of `minutes` minutes.
pub open spec fn show_reply(minutes: nat) -> Seq<char> {
    "You're expiration duration is currently set to "@ + decimal(minutes) + " minutes."@
}

fn unsigned_abs(minutes: i64) -> (r: u64)
    ensures
        r == abs_minutes(minutes),
{
    if minutes < 0 {
        if minutes == i64::MIN {
            9223372036854775808u64
        } else {
            (-minutes) as u64
        }
    } else {
        minutes as u64
    }
}

/// `/expire` for `user`, whose stored settings are `stored` (`None` when the
/// user has none yet: the defaults are stored). With a number of minutes, the
/// stay becomes that many minutes (its magnitude), the notification flag is
/// kept, and the reply confirms it. Without, the reply shows the current stay
/// in whole minutes.
pub fn run(user: u64, stored: Option<Settings>, minutes: Option<i64>) -> (r: SettingsUpdate)
    requires
        minutes matches Some(m) ==> abs_minutes(m) * 60 <= u64::MAX,
    ensures
        match minutes {
            Some(m) => {
                &&& r.store == Some(
                    Settings {
                        id: user,
                        timeout: (abs_minutes(m) * 60) as u64,
                        notify: settings_in_force(user, stored).notify,
                    },
                )
                &&& r.response@ == set_reply(abs_minutes(m))
            },
            None => {
                &&& r.store == (if stored is Some {
                    None
                } else {
                    Some(settings_in_force(user, stored))
                })
                &&& r.response@ == show_reply(settings_in_force(user, stored).timeout as nat / 60)
            },
        },
{
    let settings = match stored {
        Some(s) => s,
        None => default_settings(user),
    };
    match minutes {
        Some(m) => {
            let timeout = unsigned_abs(m) * 60;
            let settings = Settings { id: user, timeout: timeout, notify: settings.notify };
            let mut response = "You will now remain in the queue for ".to_owned();
            push_decimal(&mut response, settings.timeout / 60);
            response.append(" minutes");
            SettingsUpdate { store: Some(settings), response: response }
        },
        None => {
            let mut response = "You're expiration duration is currently set to ".to_owned();
            push_decimal(&mut response, settings.timeout / 60);
            response.append(" minutes.");
            let store = match stored {
                Some(_) => None,
                None => Some(settings),
            };
            SettingsUpdate { store: store, response: response }
        },
    }
}

} // verus!
