use pickup_queue::functions::{
    check_group_found, check_timeouts, check_timeouts_at, check_user_in_queue,
    create_message_contents, create_player, create_player_at, leave_queue, remove_timed_out,
    users_to_notify, Player, Roles,
};
use pickup_queue::usersettings::Settings;
use std::collections::VecDeque;

#[test]
fn test_queue() {
    let mut queue = VecDeque::new();
    let player1_tank = create_player(1, Roles::Tank);
    let player1_healer = create_player(1, Roles::Healer);
    let player2_healer = create_player(2, Roles::Healer);
    let player2_dps = create_player(2, Roles::Dps);
    let player2_tank = create_player(2, Roles::Tank);
    let player3_tank = create_player(3, Roles::Tank);
    let player3_healer = create_player(3, Roles::Healer);
    let player4_dps = create_player(4, Roles::Dps);
    let player5_tank = create_player(5, Roles::Tank);
    let player6_dps = create_player(6, Roles::Dps);
    let players = vec!["6", "4", "1", "2", "3"];

    queue.push_back(player1_tank.clone());
    assert!(check_group_found(&mut queue).is_none());
    queue.push_back(player1_healer.clone());
    assert!(check_group_found(&mut queue).is_none());
    queue.push_back(player2_healer);
    assert!(check_group_found(&mut queue).is_none());
    queue.push_back(player2_dps);
    assert!(check_group_found(&mut queue).is_none());
    queue.push_back(player2_tank);
    assert!(check_group_found(&mut queue).is_none());
    queue.push_back(player3_tank);
    assert!(check_group_found(&mut queue).is_none());
    queue.push_back(player3_healer);
    assert!(check_group_found(&mut queue).is_none());
    queue.push_back(player4_dps);
    assert!(check_group_found(&mut queue).is_none());
    queue.push_back(player5_tank.clone());
    assert!(check_group_found(&mut queue).is_none());
    queue.push_back(player6_dps.clone());
    let text = check_group_found(&mut queue).unwrap();
    println!("{text}");
    for player in players {
        assert!(text.contains(player));
    }
    assert!(queue.contains(&player5_tank));
    assert!(!queue.contains(&player1_tank));
    assert!(!queue.contains(&player1_healer));
}

fn entry(id: u64, role: Roles, timeout: u64, timestamp: i128) -> Player {
    Player { id, role, timeout, timestamp }
}

#[test]
fn group_message_names_users_last_dps_first() {
    let mut queue: VecDeque<Player> = VecDeque::new();
    for (id, role) in [
        (1, Roles::Tank),
        (1, Roles::Healer),
        (2, Roles::Healer),
        (2, Roles::Dps),
        (2, Roles::Tank),
        (3, Roles::Tank),
        (3, Roles::Healer),
        (4, Roles::Dps),
        (5, Roles::Tank),
        (6, Roles::Dps),
    ] {
        queue.push_back(entry(id, role, 10800, 7));
    }
    let text = check_group_found(&mut queue).unwrap();
    assert_eq!(text, "Game found! The players are: <@6>, <@4>, <@2>, <@3>, <@1>, ");
    let left: Vec<Player> = queue.iter().cloned().collect();
    assert_eq!(left, vec![entry(5, Roles::Tank, 10800, 7)]);
}

#[test]
fn group_needs_five_different_users() {
    let mut queue: VecDeque<Player> = VecDeque::new();
    queue.push_back(entry(1, Roles::Tank, 1, 0));
    queue.push_back(entry(2, Roles::Healer, 1, 0));
    queue.push_back(entry(3, Roles::Dps, 1, 0));
    queue.push_back(entry(4, Roles::Dps, 1, 0));
    queue.push_back(entry(3, Roles::Dps, 1, 0));
    assert!(check_group_found(&mut queue).is_none());
    assert_eq!(queue.len(), 5);
    queue.push_back(entry(5, Roles::Dps, 1, 0));
    let text = check_group_found(&mut queue).unwrap();
    assert_eq!(text, "Game found! The players are: <@5>, <@4>, <@3>, <@2>, <@1>, ");
    assert!(queue.is_empty());
}

#[test]
fn first_group_in_position_order_is_taken() {
    let mut queue: VecDeque<Player> = VecDeque::new();
    queue.push_back(entry(10, Roles::Tank, 1, 0));
    queue.push_back(entry(11, Roles::Tank, 1, 0));
    queue.push_back(entry(20, Roles::Healer, 1, 0));
    queue.push_back(entry(30, Roles::Dps, 1, 0));
    queue.push_back(entry(31, Roles::Dps, 1, 0));
    queue.push_back(entry(32, Roles::Dps, 1, 0));
    let text = check_group_found(&mut queue).unwrap();
    assert_eq!(text, "Game found! The players are: <@32>, <@31>, <@30>, <@20>, <@10>, ");
    let left: Vec<Player> = queue.iter().cloned().collect();
    assert_eq!(left, vec![entry(11, Roles::Tank, 1, 0)]);
}

#[test]
fn too_few_entries_form_no_group() {
    let mut queue: VecDeque<Player> = VecDeque::new();
    assert!(check_group_found(&mut queue).is_none());
    queue.push_back(entry(1, Roles::Dps, 1, 0));
    assert!(check_group_found(&mut queue).is_none());
    assert_eq!(queue.len(), 1);
}

#[test]
fn new_player_waits_three_hours() {
    let p = create_player(42, Roles::Healer);
    assert_eq!(p.id, 42);
    assert_eq!(p.role, Roles::Healer);
    assert_eq!(p.timeout, 10800);
    assert!(p.timestamp > 0);
}

#[test]
fn join_is_refused_for_same_role_only() {
    let mut queue: VecDeque<Player> = VecDeque::new();
    assert!(check_user_in_queue(&queue, 7, Roles::Tank));
    queue.push_back(entry(7, Roles::Tank, 1, 0));
    assert!(!check_user_in_queue(&queue, 7, Roles::Tank));
    assert!(check_user_in_queue(&queue, 7, Roles::Dps));
    assert!(check_user_in_queue(&queue, 8, Roles::Tank));
}

#[test]
fn leaving_removes_every_entry_of_the_user() {
    let mut queue: VecDeque<Player> = VecDeque::new();
    queue.push_back(entry(1, Roles::Tank, 1, 0));
    queue.push_back(entry(2, Roles::Dps, 1, 0));
    queue.push_back(entry(1, Roles::Dps, 1, 0));
    leave_queue(&mut queue, 1);
    let left: Vec<Player> = queue.iter().cloned().collect();
    assert_eq!(left, vec![entry(2, Roles::Dps, 1, 0)]);
}

#[test]
fn timed_out_users_leave_with_all_their_entries() {
    let second: i128 = 1_000_000_000;
    let mut queue: VecDeque<Player> = VecDeque::new();
    queue.push_back(entry(1, Roles::Tank, 10, 0));
    queue.push_back(entry(2, Roles::Dps, 10, 5 * second));
    queue.push_back(entry(1, Roles::Healer, 100, 0));
    queue.push_back(entry(3, Roles::Dps, 10, 0));
    let expired = remove_timed_out(&mut queue, 10 * second);
    assert_eq!(expired, vec![1, 3]);
    let left: Vec<Player> = queue.iter().cloned().collect();
    assert_eq!(left, vec![entry(2, Roles::Dps, 10, 5 * second)]);
}

#[test]
fn timeout_boundary_is_inclusive() {
    let second: i128 = 1_000_000_000;
    let mut queue: VecDeque<Player> = VecDeque::new();
    queue.push_back(entry(1, Roles::Tank, 10, 0));
    queue.push_back(entry(2, Roles::Tank, 10, 1));
    let expired = remove_timed_out(&mut queue, 10 * second);
    assert_eq!(expired, vec![1]);
    assert_eq!(queue.len(), 1);
}

#[test]
fn fresh_entries_do_not_time_out_now() {
    let mut queue: VecDeque<Player> = VecDeque::new();
    queue.push_back(create_player(1, Roles::Tank));
    queue.push_back(entry(2, Roles::Dps, 1, 0));
    let expired = check_timeouts(&mut queue).unwrap();
    assert_eq!(expired, vec![2]);
    assert_eq!(queue.len(), 1);
    assert_eq!(queue[0].id, 1);
}

#[test]
fn entries_from_the_future_stop_the_timeout_check() {
    let mut queue: VecDeque<Player> = VecDeque::new();
    queue.push_back(entry(2, Roles::Dps, 1, i128::MAX));
    assert!(check_timeouts(&mut queue).is_none());
    assert_eq!(queue.len(), 1);
}

#[test]
fn summary_counts_each_role() {
    let mut queue: VecDeque<Player> = VecDeque::new();
    let m = create_message_contents(&queue);
    let values: Vec<&str> = m.fields.iter().map(|f| f.value.as_str()).collect();
    assert_eq!(values, vec!["0", "0", "0"]);
    for i in 0..12 {
        queue.push_back(entry(i, Roles::Dps, 1, 0));
    }
    queue.push_back(entry(50, Roles::Tank, 1, 0));
    let m = create_message_contents(&queue);
    assert_eq!(m.title, "The current queue is:");
    assert_eq!(m.colour, 0x11CA80);
    let names: Vec<&str> = m.fields.iter().map(|f| f.name.as_str()).collect();
    assert_eq!(
        names,
        vec!["<:tank:444634700523241512>", "<:heal:444634700363857921>", "<:dps:444634700531630094>"]
    );
    let values: Vec<&str> = m.fields.iter().map(|f| f.value.as_str()).collect();
    assert_eq!(values, vec!["1", "0", "12"]);
    assert!(m.fields.iter().all(|f| f.inline));
    let ids: Vec<&str> = m.buttons.iter().map(|b| b.custom_id.as_str()).collect();
    assert_eq!(ids, vec!["add_tank", "add_healer", "add_dps", "leave"]);
}

#[test]
fn entry_at_a_given_time() {
    let p = create_player_at(3, Roles::Dps, 1800, -5);
    assert_eq!(p, entry(3, Roles::Dps, 1800, -5));
}

#[test]
fn timeout_check_at_a_given_time() {
    let second: i128 = 1_000_000_000;
    let mut queue: VecDeque<Player> = VecDeque::new();
    queue.push_back(entry(1, Roles::Tank, 1800, 0));
    queue.push_back(entry(2, Roles::Dps, 1800, 100 * second));
    assert_eq!(check_timeouts_at(&mut queue, 50 * second), None);
    assert_eq!(queue.len(), 2);
    assert_eq!(check_timeouts_at(&mut queue, 1800 * second), Some(vec![1]));
    let left: Vec<Player> = queue.iter().cloned().collect();
    assert_eq!(left, vec![entry(2, Roles::Dps, 1800, 100 * second)]);
    let mut before_epoch: VecDeque<Player> = VecDeque::new();
    before_epoch.push_back(entry(7, Roles::Tank, 1, -3 * second));
    assert_eq!(check_timeouts_at(&mut before_epoch, -2 * second), Some(vec![7]));
}

#[test]
fn only_users_asking_for_it_are_told() {
    let expired = vec![1, 2, 3, 1];
    let stored = vec![
        Some(Settings { id: 1, timeout: 1800, notify: true }),
        Some(Settings { id: 2, timeout: 1800, notify: false }),
        None,
        Some(Settings { id: 1, timeout: 1800, notify: true }),
    ];
    assert_eq!(users_to_notify(&expired, &stored), vec![1, 3, 1]);
}

#[test]
fn empty_queue_timeout_check_succeeds() {
    let mut queue: VecDeque<Player> = VecDeque::new();
    assert_eq!(check_timeouts(&mut queue), Some(vec![]));
    assert!(queue.is_empty());
}

fn sample_entries() -> Vec<Player> {
    vec![
        entry(1, Roles::Tank, 1, 0),
        entry(1, Roles::Healer, 1, 0),
        entry(2, Roles::Healer, 1, 0),
        entry(2, Roles::Dps, 1, 0),
        entry(3, Roles::Tank, 1, 0),
        entry(4, Roles::Dps, 1, 0),
        entry(6, Roles::Dps, 1, 0),
    ]
}

#[test]
fn group_exists_whatever_the_order() {
    let entries = sample_entries();
    let mut forward: VecDeque<Player> = entries.iter().cloned().collect();
    let mut backward: VecDeque<Player> = entries.iter().rev().cloned().collect();
    assert!(check_group_found(&mut forward).is_some());
    assert!(check_group_found(&mut backward).is_some());
    let without_six: Vec<Player> = entries.into_iter().filter(|p| p.id != 6).collect();
    let mut forward: VecDeque<Player> = without_six.iter().cloned().collect();
    let mut backward: VecDeque<Player> = without_six.iter().rev().cloned().collect();
    assert!(check_group_found(&mut forward).is_none());
    assert!(check_group_found(&mut backward).is_none());
}

#[test]
fn no_group_is_left_after_each_join() {
    let mut queue: VecDeque<Player> = VecDeque::new();
    for p in sample_entries() {
        queue.push_back(p);
        check_group_found(&mut queue);
        let mut again = queue.clone();
        assert!(check_group_found(&mut again).is_none());
    }
}
