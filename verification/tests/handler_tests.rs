use pickup_queue::commands::queue;
use pickup_queue::functions::{
    check_first_launch, find_listen_channel, get_display_name, get_listen_channel, make_buttons,
    messages_to_clean, ButtonStyle, ChannelInfo, Data, MessageInfo, Player, Roles,
};
use pickup_queue::handler::{
    button_action, command_kind, handle_button, handle_button_at, plan_message, posts_queue,
    ButtonAction, CommandKind,
};
use pickup_queue::text::to_decimal_string;
use std::collections::VecDeque;

fn entry(id: u64, role: Roles) -> Player {
    Player { id, role, timeout: 10800, timestamp: 0 }
}

#[test]
fn buttons_and_their_actions() {
    let buttons = make_buttons();
    let ids: Vec<&str> = buttons.iter().map(|b| b.custom_id.as_str()).collect();
    let labels: Vec<&str> = buttons.iter().map(|b| b.label.as_str()).collect();
    assert_eq!(ids, vec!["add_tank", "add_healer", "add_dps", "leave"]);
    assert_eq!(labels, vec!["Tank", "Healer", "DPS", "Leave"]);
    assert_eq!(buttons[0].style, ButtonStyle::Primary);
    assert_eq!(buttons[1].style, ButtonStyle::Success);
    assert_eq!(buttons[2].style, ButtonStyle::Danger);
    assert_eq!(buttons[3].style, ButtonStyle::Secondary);
    let actions: Vec<ButtonAction> = buttons.iter().map(|b| button_action(&b.custom_id)).collect();
    assert_eq!(
        actions,
        vec![
            ButtonAction::Join(Roles::Tank),
            ButtonAction::Join(Roles::Healer),
            ButtonAction::Join(Roles::Dps),
            ButtonAction::Leave
        ]
    );
    assert_eq!(button_action(&"add_support".to_string()), ButtonAction::Unknown);
}

#[test]
fn joining_replies_and_refuses_a_second_join() {
    let mut queue: VecDeque<Player> = VecDeque::new();
    let name = "Alice".to_string();
    let out = handle_button(&mut queue, ButtonAction::Join(Roles::Dps), 5, &name, 10800);
    assert_eq!(out.reply.as_deref(), Some("Alice has been added to the queue as DPS"));
    assert!(out.announcement.is_none());
    assert!(!out.already_in_queue);
    assert_eq!(queue.len(), 1);
    assert_eq!(out.joined, Some(queue[0]));
    let out = handle_button(&mut queue, ButtonAction::Join(Roles::Dps), 5, &name, 10800);
    assert!(out.reply.is_none());
    assert!(out.already_in_queue);
    assert!(out.joined.is_none());
    assert_eq!(queue.len(), 1);
    let out = handle_button(&mut queue, ButtonAction::Join(Roles::Tank), 5, &name, 10800);
    assert_eq!(out.reply.as_deref(), Some("Alice has been added to the queue as Tank"));
    assert_eq!(queue.len(), 2);
}

#[test]
fn fifth_join_announces_the_group() {
    let mut queue: VecDeque<Player> = VecDeque::new();
    queue.push_back(entry(1, Roles::Tank));
    queue.push_back(entry(2, Roles::Healer));
    queue.push_back(entry(3, Roles::Dps));
    queue.push_back(entry(4, Roles::Dps));
    let out = handle_button(&mut queue, ButtonAction::Join(Roles::Dps), 5, &"Eve".to_string(), 10800);
    assert_eq!(out.reply.as_deref(), Some("Eve has been added to the queue as DPS"));
    assert_eq!(
        out.announcement.as_deref(),
        Some("Game found! The players are: <@5>, <@4>, <@3>, <@2>, <@1>, ")
    );
    assert!(queue.is_empty());
}

#[test]
fn leaving_and_unknown_buttons() {
    let mut queue: VecDeque<Player> = VecDeque::new();
    queue.push_back(entry(1, Roles::Tank));
    queue.push_back(entry(1, Roles::Healer));
    queue.push_back(entry(2, Roles::Tank));
    let out = handle_button(&mut queue, ButtonAction::Unknown, 1, &"Bob".to_string(), 10800);
    assert!(out.reply.is_none());
    assert!(out.already_in_queue);
    assert_eq!(queue.len(), 3);
    let out = handle_button(&mut queue, ButtonAction::Leave, 1, &"Bob".to_string(), 10800);
    assert_eq!(out.reply.as_deref(), Some("You have left the queue"));
    assert!(!out.already_in_queue);
    let left: Vec<Player> = queue.iter().cloned().collect();
    assert_eq!(left, vec![entry(2, Roles::Tank)]);
}

#[test]
fn commands_by_name() {
    assert_eq!(command_kind(&"notify".to_string()), CommandKind::Notify);
    assert_eq!(command_kind(&"expire".to_string()), CommandKind::Expire);
    assert_eq!(command_kind(&"queue".to_string()), CommandKind::Queue);
    assert_eq!(command_kind(&"ping".to_string()), CommandKind::Other);
}

#[test]
fn messages_in_the_listen_channel_get_a_fresh_queue_message() {
    let listen = "mythic-plus-pickup".to_string();
    assert!(plan_message(1, 99));
    assert!(!plan_message(99, 99));
    assert!(posts_queue(&listen, &listen));
    assert!(!posts_queue(&"general".to_string(), &listen));
}

#[test]
fn listen_channel_is_the_first_with_its_name() {
    let channels = vec![
        ChannelInfo { id: 1, name: "general".to_string() },
        ChannelInfo { id: 2, name: "mythic-plus-pickup".to_string() },
        ChannelInfo { id: 3, name: "mythic-plus-pickup".to_string() },
    ];
    assert!(find_listen_channel(&channels, &"mythic-plus-pickup".to_string()));
    assert_eq!(get_listen_channel(&channels, &"mythic-plus-pickup".to_string()), 2);
    assert!(!find_listen_channel(&channels, &"raids".to_string()));
}

#[test]
fn joined_entry_takes_the_given_timeout_and_time() {
    let mut queue: VecDeque<Player> = VecDeque::new();
    let out = handle_button_at(&mut queue, ButtonAction::Join(Roles::Healer), 8, &"Hal".to_string(), 1800, 42);
    let expected = Player { id: 8, role: Roles::Healer, timeout: 1800, timestamp: 42 };
    assert_eq!(out.joined, Some(expected));
    assert_eq!(queue[0], expected);
}

#[test]
fn only_the_bots_embeds_are_cleaned() {
    let messages = vec![
        MessageInfo { id: 10, author: 99, embeds: 1 },
        MessageInfo { id: 11, author: 99, embeds: 0 },
        MessageInfo { id: 12, author: 5, embeds: 2 },
        MessageInfo { id: 13, author: 99, embeds: 3 },
    ];
    assert_eq!(messages_to_clean(&messages, 99), vec![10, 13]);
}

#[test]
fn display_name_prefers_nick_then_global_name() {
    let n = Some("Nick".to_string());
    let g = Some("Global".to_string());
    let name = "account".to_string();
    assert_eq!(get_display_name(n, g.clone(), name.clone()), "Nick");
    assert_eq!(get_display_name(None, g, name.clone()), "Global");
    assert_eq!(get_display_name(None, None, name), "account");
}

#[test]
fn first_launch_is_reported_once() {
    let mut data = Data {
        first_launch: true,
        queue: VecDeque::new(),
        listen_channel: "mythic-plus-pickup".to_string(),
        user_settings: VecDeque::new(),
    };
    assert!(check_first_launch(&mut data));
    assert!(!check_first_launch(&mut data));
    assert_eq!(data.listen_channel, "mythic-plus-pickup");
}

#[test]
fn queue_listing_by_role() {
    let mut q: VecDeque<Player> = VecDeque::new();
    q.push_back(entry(1, Roles::Tank));
    q.push_back(entry(2, Roles::Dps));
    q.push_back(entry(3, Roles::Dps));
    q.push_back(entry(4, Roles::Dps));
    let names = vec!["Ann".to_string(), "Ben".to_string(), "Cy, , ".to_string(), "Dee".to_string()];
    let l = queue::run(&q, &names);
    assert_eq!(l.title, "The following players are in the queue");
    assert_eq!(l.colour, 0xF1C40F);
    let fields: Vec<(&str, &str, bool)> =
        l.fields.iter().map(|f| (f.name.as_str(), f.value.as_str(), f.inline)).collect();
    assert_eq!(
        fields,
        vec![
            ("<:tank:444634700523241512>", "Ann", true),
            ("<:heal:444634700363857921>", "", true),
            ("<:dps:444634700531630094>", "Ben, Cy, , , Dee", true)
        ]
    );
    let names = vec!["Ann".to_string(), "Ben".to_string(), "Cy".to_string(), "Dee, ".to_string()];
    let l = queue::run(&q, &names);
    assert_eq!(l.fields[2].value, "Ben, Cy, Dee");
}

#[test]
fn decimal_rendering() {
    assert_eq!(to_decimal_string(0), "0");
    assert_eq!(to_decimal_string(10), "10");
    assert_eq!(to_decimal_string(907), "907");
    assert_eq!(to_decimal_string(u64::MAX), u64::MAX.to_string());
}
