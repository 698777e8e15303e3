//! The decisions taken on the events of the chat service: messages, button
//! presses and slash commands. Fetching and sending is up to the caller.
use crate::clock::now_nanos;
use crate::functions::{
    check_group_found, check_user_in_queue, create_player_at, group_search, in_queue, leave_queue,
    without_users, Player, Roles,
};
use std::collections::VecDeque;
use vstd::prelude::*;

verus! {

/// What a button press asks for.
#[derive(Clone, Copy, Debug, PartialEq, Eq, Structural)]
pub enum ButtonAction {
    Join(Roles),
    Leave,
    Unknown,
}

/// The action of the button whose id is `custom_id`.
pub open spec fn spec_button_action(custom_id: Seq<char>) -> ButtonAction {
    if custom_id == "add_tank"@ {
        ButtonAction::Join(Roles::Tank)
    } else if custom_id == "add_healer"@ {
        ButtonAction::Join(Roles::Healer)
    } else if custom_id == "add_dps"@ {
        ButtonAction::Join(Roles::Dps)
    } else if custom_id == "leave"@ {
        ButtonAction::Leave
    } else {
        ButtonAction::Unknown
    }
}

/// The action of the button whose id is `custom_id`.
pub fn button_action(custom_id: &String) -> (a: ButtonAction)
    ensures
        a == spec_button_action(custom_id@),
{
    if custom_id.eq(&"add_tank".to_owned()) {
        ButtonAction::Join(Roles::Tank)
    } else if custom_id.eq(&"add_healer".to_owned()) {
        ButtonAction::Join(Roles::Healer)
    } else if custom_id.eq(&"add_dps".to_owned()) {
        ButtonAction::Join(Roles::Dps)
    } else if custom_id.eq(&"leave".to_owned()) {
        ButtonAction::Leave
    } else {
        ButtonAction::Unknown
    }
}

/// The name of a role in replies.
pub open spec fn role_label(r: Roles) -> Seq<char> {
    match r {
        Roles::Tank => "Tank"@,
        Roles::Healer => "Healer"@,
        Roles::Dps => "DPS"@,
    }
}

fn role_string(r: Roles) -> (s: String)
    ensures
        s@ == role_label(r),
{
    match r {
        Roles::Tank => "Tank".to_owned(),
        Roles::Healer => "Healer".to_owned(),
        Roles::Dps => "DPS".to_owned(),
    }
}

/// The reply to a user who joined.
pub open spec fn joined_reply(display_name: Seq<char>, r: Roles) -> Seq<char> {
    display_name + " has been added to the queue as "@ + role_label(r)
}

/// The reply to a user who left.
pub open spec fn left_reply() -> Seq<char> {
    "You have left the queue"@
}

/// What a button press leads to.
pub struct ButtonOutcome {
    /// The private reply to the user who pressed; `None` for an empty reply.
    pub reply: Option<String>,
    /// The announcement of a group that the press completed.
    pub announcement: Option<String>,
    /// The press changed nothing: the user is told "You are already in the
    /// queue."
    pub already_in_queue: bool,
    /// The entry that the press added to the queue.
    pub joined: Option<Player>,
}

/// What a press of the button `action` by `user`, shown as `name`, at time
/// `now` does to the queue `q` (leaving `after`) and answers (`out`). Joining
/// under a role adds an entry that joined at `now` and may wait
/// `timeout_secs` seconds, unless the user already waits under that role, and
/// then looks for a group; leaving removes every entry of the user; an
/// unknown button changes nothing.
pub open spec fn button_effect(
    q: Seq<Player>,
    action: ButtonAction,
    user: u64,
    name: Seq<char>,
    timeout_secs: u64,
    now: i128,
    out: ButtonOutcome,
    after: Seq<Player>,
) -> bool {
    match action {
        ButtonAction::Join(role) => if in_queue(q, user, role) {
            &&& after == q
            &&& out.reply is None
            &&& out.announcement is None
            &&& out.already_in_queue
            &&& out.joined is None
        } else {
            &&& out.joined matches Some(p)
            &&& p == (Player { id: user, role: role, timeout: timeout_secs, timestamp: now })
            &&& out.reply matches Some(m)
            &&& m@ == joined_reply(name, role)
            &&& !out.already_in_queue
            &&& group_search(q.push(p), out.announcement, after)
        },
        ButtonAction::Leave => {
            &&& after == without_users(q, seq![user])
            &&& out.reply matches Some(m)
            &&& m@ == left_reply()
            &&& out.announcement is None
            &&& !out.already_in_queue
            &&& out.joined is None
        },
        ButtonAction::Unknown => {
            &&& after == q
            &&& out.reply is None
            &&& out.announcement is None
            &&& out.already_in_queue
            &&& out.joined is None
        },
    }
}

/// Handles a press of a queue button by `user`, shown as `display_name`, at
/// time `now`; a new entry may wait `timeout_secs` seconds (see
/// `button_effect`).
pub fn handle_button_at(
    queue: &mut VecDeque<Player>,
    action: ButtonAction,
    user: u64,
    display_name: &String,
    timeout_secs: u64,
    now: i128,
) -> (out: ButtonOutcome)
    ensures
        button_effect(old(queue)@, action, user, display_name@, timeout_secs, now, out, final(queue)@),
{
    match action {
        ButtonAction::Join(role) => {
            if check_user_in_queue(queue, user, role) {
                let player = create_player_at(user, role, timeout_secs, now);
                queue.push_back(player);
                let mut message = display_name.clone();
                message.append(" has been added to the queue as ");
                let label = role_string(role);
                message.append(label.as_str());
                let announcement = check_group_found(queue);
                ButtonOutcome {
                    reply: Some(message),
                    announcement: announcement,
                    already_in_queue: false,
                    joined: Some(player),
                }
            } else {
                ButtonOutcome {
                    reply: None,
                    announcement: None,
                    already_in_queue: true,
                    joined: None,
                }
            }
        },
        ButtonAction::Leave => {
            leave_queue(queue, user);
            ButtonOutcome {
                reply: Some("You have left the queue".to_owned()),
                announcement: None,
                already_in_queue: false,
                joined: None,
            }
        },
        ButtonAction::Unknown => ButtonOutcome {
            reply: None,
            announcement: None,
            already_in_queue: true,
            joined: None,
        },
    }
}

/// Handles a press of a queue button by `user`, shown as `display_name`, at
/// the current time; a new entry may wait `timeout_secs` seconds (see
/// `button_effect`). Which time the clock reads is not stated.
pub fn handle_button(
    queue: &mut VecDeque<Player>,
    action: ButtonAction,
    user: u64,
    display_name: &String,
    timeout_secs: u64,
) -> (out: ButtonOutcome)
    ensures
        exists|now: i128|
            #[trigger] button_effect(old(queue)@, action, user, display_name@, timeout_secs, now, out, final(queue)@),
{
    let now = now_nanos();
    let out = handle_button_at(queue, action, user, display_name, timeout_secs, now);
    assert(button_effect(old(queue)@, action, user, display_name@, timeout_secs, now, out, queue@));
    out
}

/// The slash commands.
#[derive(Clone, Copy, Debug, PartialEq, Eq, Structural)]
pub enum CommandKind {
    Notify,
    Expire,
    Queue,
    /// A command without an implementation: answered "not implemented".
    Other,
}

/// The command named `name`.
pub fn command_kind(name: &String) -> (k: CommandKind)
    ensures
        k == (if name@ == "notify"@ {
            CommandKind::Notify
        } else if name@ == "expire"@ {
            CommandKind::Expire
        } else if name@ == "queue"@ {
            CommandKind::Queue
        } else {
            CommandKind::Other
        }),
{
    if name.eq(&"notify".to_owned()) {
        CommandKind::Notify
    } else if name.eq(&"expire".to_owned()) {
        CommandKind::Expire
    } else if name.eq(&"queue".to_owned()) {
        CommandKind::Queue
    } else {
        CommandKind::Other
    }
}

/// Whether a new message by `author` is one to act on: it is unless the bot
/// (`bot`) wrote it. Acting means cleaning the bot's old queue messages in the
/// channel, then `posts_queue`.
pub fn plan_message(author: u64, bot: u64) -> (act: bool)
    ensures
        act == (author != bot),
{
    author != bot
}

/// Whether a fresh queue message goes to the channel `channel_name` of a
/// message acted on: exactly when it is the listen channel.
pub fn posts_queue(channel_name: &String, listen_channel_name: &String) -> (post: bool)
    ensures
        post == (channel_name@ == listen_channel_name@),
{
    channel_name.eq(listen_channel_name)
}

} // verus!
