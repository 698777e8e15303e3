use pickup_queue::commands::{expire, notify};
use pickup_queue::usersettings::{default_settings, join_timeout, Settings};

#[test]
fn defaults_are_three_hours_with_notifications() {
    assert_eq!(default_settings(9), Settings { id: 9, timeout: 10800, notify: true });
}

#[test]
fn notify_turns_off_then_on() {
    let first = notify::run(9, None);
    assert_eq!(first.store, Some(Settings { id: 9, timeout: 10800, notify: false }));
    assert_eq!(first.response, "You will no longer be notified when you expire from the queue.");
    let second = notify::run(9, first.store);
    assert_eq!(second.store, Some(Settings { id: 9, timeout: 10800, notify: true }));
    assert_eq!(second.response, "You will now be notified when you expire from the queue.");
}

#[test]
fn notify_keeps_the_stored_timeout() {
    let r = notify::run(3, Some(Settings { id: 3, timeout: 1800, notify: false }));
    assert_eq!(r.store, Some(Settings { id: 3, timeout: 1800, notify: true }));
}

#[test]
fn expire_sets_minutes_and_keeps_notify() {
    let r = expire::run(4, Some(Settings { id: 4, timeout: 10800, notify: false }), Some(45));
    assert_eq!(r.store, Some(Settings { id: 4, timeout: 2700, notify: false }));
    assert_eq!(r.response, "You will now remain in the queue for 45 minutes");
}

#[test]
fn expire_takes_the_magnitude_of_negative_minutes() {
    let r = expire::run(4, None, Some(-30));
    assert_eq!(r.store, Some(Settings { id: 4, timeout: 1800, notify: true }));
    assert_eq!(r.response, "You will now remain in the queue for 30 minutes");
}

#[test]
fn expire_without_minutes_shows_the_stay() {
    let r = expire::run(4, Some(Settings { id: 4, timeout: 5430, notify: true }), None);
    assert_eq!(r.store, None);
    assert_eq!(r.response, "You're expiration duration is currently set to 90 minutes.");
    let r = expire::run(5, None, None);
    assert_eq!(r.store, Some(Settings { id: 5, timeout: 10800, notify: true }));
    assert_eq!(r.response, "You're expiration duration is currently set to 180 minutes.");
}

#[test]
fn joining_takes_the_stored_timeout() {
    assert_eq!(join_timeout(4, Some(Settings { id: 4, timeout: 1800, notify: false })), 1800);
    assert_eq!(join_timeout(4, None), 10800);
}
