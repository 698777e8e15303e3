//! The queue of players and the search for a complete group in it.
use crate::combos::{is_combination, lex_lt, lemma_lex_lt_asymmetric, all_combinations_in_order, pending_combinations, index_combinations, next_combination};
use crate::clock::now_nanos;
use crate::text::{decimal, push_decimal, to_decimal_string};
use crate::usersettings::{default_settings, settings_in_force, Settings};
use std::collections::VecDeque;
use vstd::prelude::*;

verus! {

/// The role a player queues for.
#[derive(Clone, Copy, Debug, PartialEq, Eq, Structural)]
pub enum Roles {
    Tank,
    Healer,
    Dps,
}

/// One entry of the queue: a user waiting under one role.
#[derive(Clone, Copy, Debug, PartialEq, Eq, Structural)]
pub struct Player {
    /// The user's id.
    pub id: u64,
    pub role: Roles,
    /// How long the entry may wait, in seconds.
    pub timeout: u64,
    /// When the entry joined, in nanoseconds since the Unix epoch (negative
    /// before it).
    pub timestamp: i128,
}

// ---------------------------------------------------------------------------
// Model of a group
// ---------------------------------------------------------------------------

/// The ids of the entries of `s` that have role `r`, in queue order.
pub open spec fn role_ids(s: Seq<Player>, r: Roles) -> Seq<u64>
    decreases s.len(),
{
    if s.len() == 0 {
        Seq::empty()
    } else {
        let rest = role_ids(s.drop_last(), r);
        if s.last().role == r {
            rest.push(s.last().id)
        } else {
            rest
        }
    }
}

/// No user occurs twice among the entries of `s`.
pub open spec fn distinct_users(s: Seq<Player>) -> bool {
    forall|i: int, j: int| 0 <= i < j < s.len() ==> s[i].id != s[j].id
}

/// Five entries of five different users: one tank, one healer, three dps.
pub open spec fn is_valid_group(s: Seq<Player>) -> bool {
    &&& s.len() == 5
    &&& distinct_users(s)
    &&& role_ids(s, Roles::Tank).len() == 1
    &&& role_ids(s, Roles::Healer).len() == 1
    &&& role_ids(s, Roles::Dps).len() == 3
}

/// The users of a group: its tank, its healer, then its dps in order.
pub open spec fn group_ids(s: Seq<Player>) -> Seq<u64> {
    role_ids(s, Roles::Tank) + role_ids(s, Roles::Healer) + role_ids(s, Roles::Dps)
}

/// The entries of `q` at the positions `c`.
pub open spec fn entries_at(q: Seq<Player>, c: Seq<usize>) -> Seq<Player> {
    c.map_values(|i: usize| q[i as int])
}

/// Some choice of five positions of `q` forms a valid group.
pub open spec fn has_valid_group(q: Seq<Player>) -> bool {
    exists|c: Seq<usize>| is_combination(c, q.len(), 5) && is_valid_group(#[trigger] entries_at(q, c))
}

/// `c` is the lexicographically first choice of five positions of `q` that
/// forms a valid group.
pub open spec fn is_first_valid_combination(q: Seq<Player>, c: Seq<usize>) -> bool {
    &&& is_combination(c, q.len(), 5)
    &&& is_valid_group(entries_at(q, c))
    &&& forall|d: Seq<usize>|
        is_combination(d, q.len(), 5) && lex_lt(d, c) ==> !is_valid_group(#[trigger] entries_at(q, d))
}

/// `q` without the entries of the users in `ids`, order kept.
pub open spec fn without_users(q: Seq<Player>, ids: Seq<u64>) -> Seq<Player>
    decreases q.len(),
{
    if q.len() == 0 {
        Seq::empty()
    } else {
        let rest = without_users(q.drop_last(), ids);
        if ids.contains(q.last().id) {
            rest
        } else {
            rest.push(q.last())
        }
    }
}

/// How a user is mentioned in the announcement of a group.
pub open spec fn mention(id: u64) -> Seq<char> {
    "<@"@ + decimal(id as nat) + ">, "@
}

/// The mentions of `ids`, last id first.
pub open spec fn mentions_reversed(ids: Seq<u64>) -> Seq<char>
    decreases ids.len(),
{
    if ids.len() == 0 {
        Seq::empty()
    } else {
        mention(ids.last()) + mentions_reversed(ids.drop_last())
    }
}

/// The announcement of a group whose users are `ids`.
pub open spec fn game_found_message(ids: Seq<u64>) -> Seq<char> {
    "Game found! The players are: "@ + mentions_reversed(ids)
}

// ---------------------------------------------------------------------------
// Lemmas on the model
// ---------------------------------------------------------------------------

/// Every entry lands in exactly one role list.
pub proof fn lemma_role_ids_total(s: Seq<Player>)
    ensures
        role_ids(s, Roles::Tank).len() + role_ids(s, Roles::Healer).len() + role_ids(
            s,
            Roles::Dps,
        ).len() == s.len(),
    decreases s.len(),
{
    if s.len() > 0 {
        lemma_role_ids_total(s.drop_last());
    }
}

/// An id is listed for role `r` exactly when some entry of role `r` has it.
pub proof fn lemma_role_ids_contains(s: Seq<Player>, r: Roles, x: u64)
    ensures
        role_ids(s, r).contains(x) <==> exists|j: int|
            0 <= j < s.len() && #[trigger] s[j].role == r && s[j].id == x,
    decreases s.len(),
{
    if s.len() > 0 {
        let t = s.drop_last();
        lemma_role_ids_contains(t, r, x);
        if role_ids(s, r).contains(x) {
            if s.last().role == r && s.last().id == x {
                assert(s[s.len() - 1].role == r);
            } else {
                if s.last().role == r {
                    let k = choose|k: int| 0 <= k < role_ids(s, r).len() && role_ids(s, r)[k] == x;
                    assert(role_ids(t, r)[k] == x);
                }
                assert(role_ids(t, r).contains(x));
                let j = choose|j: int| 0 <= j < t.len() && #[trigger] t[j].role == r && t[j].id == x;
                assert(s[j] == t[j]);
            }
        } else {
            if exists|j: int| 0 <= j < s.len() && #[trigger] s[j].role == r && s[j].id == x {
                let j = choose|j: int| 0 <= j < s.len() && #[trigger] s[j].role == r && s[j].id == x;
                if j == s.len() - 1 {
                    assert(role_ids(s, r)[role_ids(s, r).len() - 1] == x);
                } else {
                    assert(t[j] == s[j]);
                    assert(role_ids(t, r).contains(x));
                    let k = choose|k: int| 0 <= k < role_ids(t, r).len() && role_ids(t, r)[k] == x;
                    if s.last().role == r {
                        assert(role_ids(s, r)[k] == x);
                    }
                }
            }
        }
    }
}


/// How many entries of role `r` a group holds.
pub open spec fn role_cap(r: Roles) -> nat {
    match r {
        Roles::Tank => 1,
        Roles::Healer => 1,
        Roles::Dps => 3,
    }
}

/// The entries of `s` could still grow into a group: different users, and no
/// role over its share.
spec fn feasible(s: Seq<Player>) -> bool {
    &&& distinct_users(s)
    &&& role_ids(s, Roles::Tank).len() <= 1
    &&& role_ids(s, Roles::Healer).len() <= 1
    &&& role_ids(s, Roles::Dps).len() <= 3
}

pub proof fn lemma_role_ids_push(t: Seq<Player>, p: Player, r: Roles)
    ensures
        role_ids(t.push(p), r) == (if p.role == r {
            role_ids(t, r).push(p.id)
        } else {
            role_ids(t, r)
        }),
{
    assert(t.push(p).drop_last() =~= t);
}

/// Appending one entry to a prefix keeps it feasible exactly when the entry's
/// user is new and its role has room left.
proof fn lemma_feasible_push(t: Seq<Player>, p: Player)
    ensures
        feasible(t.push(p)) <==> (feasible(t) && (forall|j: int| 0 <= j < t.len() ==> #[trigger] t[j].id != p.id)
            && role_ids(t, p.role).len() < role_cap(p.role)),
{
    let t2 = t.push(p);
    lemma_role_ids_push(t, p, Roles::Tank);
    lemma_role_ids_push(t, p, Roles::Healer);
    lemma_role_ids_push(t, p, Roles::Dps);
    if feasible(t2) {
        assert forall|i: int, j: int| 0 <= i < j < t.len() implies t[i].id != t[j].id by {
            assert(t2[i] == t[i] && t2[j] == t[j]);
        }
        assert forall|j: int| 0 <= j < t.len() implies #[trigger] t[j].id != p.id by {
            assert(t2[j] == t[j] && t2[t.len() as int] == p);
        }
    }
    if feasible(t) && (forall|j: int| 0 <= j < t.len() ==> #[trigger] t[j].id != p.id) && role_ids(
        t,
        p.role,
    ).len() < role_cap(p.role) {
        assert forall|i: int, j: int| 0 <= i < j < t2.len() implies t2[i].id != t2[j].id by {
            if j == t.len() {
                assert(t2[i] == t[i]);
            } else {
                assert(t2[i] == t[i] && t2[j] == t[j]);
            }
        }
    }
}

/// `x` is listed in one of the role lists of `t` exactly when an entry of
/// `t` has it.
proof fn lemma_listed_somewhere(t: Seq<Player>, x: u64)
    ensures
        (role_ids(t, Roles::Tank).contains(x) || role_ids(t, Roles::Healer).contains(x) || role_ids(
            t,
            Roles::Dps,
        ).contains(x)) <==> exists|j: int| 0 <= j < t.len() && #[trigger] t[j].id == x,
{
    lemma_role_ids_contains(t, Roles::Tank, x);
    lemma_role_ids_contains(t, Roles::Healer, x);
    lemma_role_ids_contains(t, Roles::Dps, x);
    if exists|j: int| 0 <= j < t.len() && #[trigger] t[j].id == x {
        let j = choose|j: int| 0 <= j < t.len() && #[trigger] t[j].id == x;
        match t[j].role {
            Roles::Tank => {},
            Roles::Healer => {},
            Roles::Dps => {},
        }
    }
}

fn contains_id(v: &Vec<u64>, x: u64) -> (b: bool)
    ensures
        b == v@.contains(x),
{
    let mut i: usize = 0;
    while i < v.len()
        invariant
            i <= v.len(),
            forall|j: int| 0 <= j < i ==> v@[j] != x,
        decreases v.len() - i,
    {
        if v[i] == x {
            assert(v@[i as int] == x);
            return true;
        }
        i += 1;
    }
    false
}

/// Walks the entries at positions `c` in order and takes each one whose user
/// is not taken yet and whose role has room; the users of the group once it
/// is complete, `None` if it never is.
fn group_of(queue: &VecDeque<Player>, c: &Vec<usize>) -> (r: Option<Vec<u64>>)
    requires
        is_combination(c@, queue@.len(), 5),
    ensures
        r is Some <==> is_valid_group(entries_at(queue@, c@)),
        r matches Some(ids) ==> ids@ == group_ids(entries_at(queue@, c@)),
{
    let ghost e = entries_at(queue@, c@);
    let mut tanks: Vec<u64> = Vec::new();
    let mut healers: Vec<u64> = Vec::new();
    let mut dps: Vec<u64> = Vec::new();
    let mut i: usize = 0;
    proof {
        assert(e.take(0) =~= Seq::<Player>::empty());
        assert(role_ids(e.take(0), Roles::Tank) =~= Seq::<u64>::empty());
        assert(role_ids(e.take(0), Roles::Healer) =~= Seq::<u64>::empty());
        assert(role_ids(e.take(0), Roles::Dps) =~= Seq::<u64>::empty());
    }
    while i < c.len()
        invariant
            is_combination(c@, queue@.len(), 5),
            e == entries_at(queue@, c@),
            e.len() == 5,
            0 <= i <= 5,
            tanks.len() <= 1,
            healers.len() <= 1,
            dps.len() <= 3,
            !(tanks.len() == 1 && healers.len() == 1 && dps.len() == 3),
            feasible(e.take(i as int)) ==> {
                &&& tanks@ == role_ids(e.take(i as int), Roles::Tank)
                &&& healers@ == role_ids(e.take(i as int), Roles::Healer)
                &&& dps@ == role_ids(e.take(i as int), Roles::Dps)
            },
            !feasible(e.take(i as int)) ==> tanks.len() + healers.len() + dps.len() < i,
        decreases 5 - i,
    {
        let idx = c[i];
        let player = queue[idx];
        let ghost t = e.take(i as int);
        let ghost old_counts = tanks.len() + healers.len() + dps.len();
        proof {
            assert(c@[i as int] < queue@.len());
            assert(player == e[i as int]);
            assert(e.take(i + 1) =~= t.push(player));
            lemma_feasible_push(t, player);
            lemma_role_ids_push(t, player, Roles::Tank);
            lemma_role_ids_push(t, player, Roles::Healer);
            lemma_role_ids_push(t, player, Roles::Dps);
            lemma_listed_somewhere(t, player.id);
            lemma_role_ids_total(t);
        }
        match player.role {
            Roles::Tank => {
                if !contains_id(&tanks, player.id) && !contains_id(&dps, player.id) && !contains_id(
                    &healers,
                    player.id,
                ) && tanks.is_empty() {
                    tanks.push(player.id);
                }
            },
            Roles::Healer => {
                if !contains_id(&healers, player.id) && !contains_id(&tanks, player.id)
                    && !contains_id(&dps, player.id) && healers.is_empty() {
                    healers.push(player.id);
                }
            },
            Roles::Dps => {
                if !contains_id(&dps, player.id) && !contains_id(&tanks, player.id) && !contains_id(
                    &healers,
                    player.id,
                ) && dps.len() < 3 {
                    dps.push(player.id);
                }
            },
        }
        if tanks.len() == 1 && healers.len() == 1 && dps.len() == 3 {
            proof {
                lemma_role_ids_total(e.take(i + 1));
                assert(e.take(i + 1) =~= e);
            }
            let group = vec![tanks[0], healers[0], dps[0], dps[1], dps[2]];
            proof {
                assert(group@ =~= group_ids(e));
            }
            return Some(group);
        }
        i += 1;
    }
    proof {
        assert(e.take(5) =~= e);
    }
    None
}


/// Keeps the entries of `queue` whose user is not in `ids`, order kept.
fn remove_users(queue: &mut VecDeque<Player>, ids: &Vec<u64>)
    ensures
        final(queue)@ == without_users(old(queue)@, ids@),
{
    let mut kept: VecDeque<Player> = VecDeque::new();
    let mut i: usize = 0;
    proof {
        assert(queue@.take(0) =~= Seq::<Player>::empty());
    }
    while i < queue.len()
        invariant
            i <= queue@.len(),
            kept@ == without_users(queue@.take(i as int), ids@),
        decreases queue@.len() - i,
    {
        let p = queue[i];
        proof {
            assert(queue@.take(i + 1).drop_last() =~= queue@.take(i as int));
            assert(queue@.take(i + 1).last() == p);
        }
        if !contains_id(ids, p.id) {
            kept.push_back(p);
        }
        i += 1;
    }
    proof {
        assert(queue@.take(queue@.len() as int) =~= queue@);
    }
    *queue = kept;
}

/// The mention of one user: `<@id>, `.
fn format_game_found_output(player: u64) -> (s: String)
    ensures
        s@ == mention(player),
{
    let mut player_string = String::new();
    player_string.append("<@");
    push_decimal(&mut player_string, player);
    player_string.append(">, ");
    proof {
        assert(Seq::<char>::empty() + "<@"@ == "<@"@);
    }
    player_string
}

/// The announcement for the last five users of `queue`, last one first.
fn add_players_to_game_found(queue: Vec<u64>) -> (s: String)
    requires
        queue@.len() >= 5,
    ensures
        s@ == game_found_message(queue@.subrange(queue@.len() - 5, queue@.len() as int)),
{
    let ghost g = queue@;
    let ghost len = queue@.len() as int;
    let mut current_queue = queue.clone();
    let mut final_queue: String = "Game found! The players are: ".to_owned();
    let mut t: usize = 0;
    proof {
        assert(mentions_reversed(g.subrange(len - 5, len)) =~= Seq::<char>::empty()
            + mentions_reversed(g.subrange(len - 5, len - 0)));
    }
    while t < 5
        invariant
            0 <= t <= 5,
            g == queue@,
            len == g.len(),
            len >= 5,
            current_queue@ == g.take(len - t),
            exists|done: Seq<char>|
                #![trigger done + mentions_reversed(g.subrange(len - 5, len - t))]
                final_queue@ == "Game found! The players are: "@ + done && done
                    + mentions_reversed(g.subrange(len - 5, len - t)) == mentions_reversed(
                    g.subrange(len - 5, len),
                ),
        decreases 5 - t,
    {
        let ghost done = choose|done: Seq<char>|
            #![trigger done + mentions_reversed(g.subrange(len - 5, len - t))]
            final_queue@ == "Game found! The players are: "@ + done && done + mentions_reversed(
                g.subrange(len - 5, len - t),
            ) == mentions_reversed(g.subrange(len - 5, len));
        let id = current_queue.pop().unwrap();
        let piece = format_game_found_output(id);
        final_queue.append(piece.as_str());
        proof {
            let rest = g.subrange(len - 5, len - t);
            assert(rest.drop_last() =~= g.subrange(len - 5, len - t - 1));
            assert(rest.last() == id);
            assert(mentions_reversed(rest) == mention(id) + mentions_reversed(rest.drop_last()));
            let done2 = done + mention(id);
            assert(done2 + mentions_reversed(g.subrange(len - 5, len - (t + 1))) =~= done
                + mentions_reversed(rest));
            assert(final_queue@ =~= "Game found! The players are: "@ + done2);
            assert(current_queue@ =~= g.take(len - (t + 1)));
        }
        t += 1;
    }
    proof {
        let done = choose|done: Seq<char>|
            #![trigger done + mentions_reversed(g.subrange(len - 5, len - 5))]
            final_queue@ == "Game found! The players are: "@ + done && done + mentions_reversed(
                g.subrange(len - 5, len - 5),
            ) == mentions_reversed(g.subrange(len - 5, len));
        assert(g.subrange(len - 5, len - 5).len() == 0);
        assert(done + mentions_reversed(g.subrange(len - 5, len - 5)) =~= done);
    }
    final_queue
}


/// What a search for a group in `q` may answer (`r`) and leave behind
/// (`after`): on the lexicographically first choice of five positions that
/// forms a valid group, the announcement naming its users, with every entry of
/// those users gone; without any such choice, `None` and `q` unchanged.
pub open spec fn group_search(q: Seq<Player>, r: Option<String>, after: Seq<Player>) -> bool {
    match r {
        Some(msg) => exists|c: Seq<usize>|
            #![trigger entries_at(q, c)]
            {
                &&& is_first_valid_combination(q, c)
                &&& msg@ == game_found_message(group_ids(entries_at(q, c)))
                &&& after == without_users(q, group_ids(entries_at(q, c)))
            },
        None => !has_valid_group(q) && after == q,
    }
}

/// Looks for a group among the entries of the queue, trying the choices of
/// five entries in lexicographic order of their positions. On the first
/// choice that forms a valid group (five different users: one tank, one
/// healer, three dps), every entry of those five users leaves the queue and
/// the announcement naming them is returned. Without such a choice the queue
/// stays as it is and the result is `None`.
pub fn check_group_found(queue: &mut VecDeque<Player>) -> (r: Option<String>)
    ensures
        group_search(old(queue)@, r, final(queue)@),
{
    let n = queue.len();
    let mut combos = index_combinations(n, 5);
    let ghost all = pending_combinations(combos);
    let ghost mut k: int = 0;
    loop
        invariant
            queue@ == old(queue)@,
            n == queue@.len(),
            all_combinations_in_order(all, n as nat, 5),
            0 <= k <= all.len(),
            pending_combinations(combos) == all.skip(k),
            forall|j: int| 0 <= j < k ==> !is_valid_group(#[trigger] entries_at(queue@, all[j])),
        decreases pending_combinations(combos).len(),
    {
        let ghost before = pending_combinations(combos);
        match next_combination(&mut combos) {
            None => {
                proof {
                    assert(k == all.len());
                    assert forall|c: Seq<usize>|
                        is_combination(c, queue@.len(), 5) implies !is_valid_group(
                        #[trigger] entries_at(queue@, c),
                    ) by {
                        assert(all.contains(c));
                        let j = choose|j: int| 0 <= j < all.len() && all[j] == c;
                        assert(!is_valid_group(entries_at(queue@, all[j])));
                    }
                }
                return None;
            },
            Some(c) => {
                proof {
                    assert(before[0] == all[k]);
                    assert(c@ == all[k]);
                    assert(is_combination(all[k], n as nat, 5));
                }
                match group_of(queue, &c) {
                    Some(ids) => {
                        let ghost q0 = queue@;
                        proof {
                            assert forall|d: Seq<usize>|
                                is_combination(d, q0.len(), 5) && lex_lt(d, c@) implies !is_valid_group(
                                #[trigger] entries_at(q0, d),
                            ) by {
                                assert(all.contains(d));
                                let m = choose|m: int| 0 <= m < all.len() && all[m] == d;
                                lemma_lex_lt_asymmetric(d, c@);
                                if m > k {
                                    assert(lex_lt(all[k], all[m]));
                                } else if m == k {
                                } else {
                                    assert(!is_valid_group(entries_at(q0, all[m])));
                                }
                            }
                            assert(is_first_valid_combination(q0, c@));
                        }
                        let message = add_players_to_game_found(ids.clone());
                        proof {
                            assert(ids@.subrange(ids@.len() - 5, ids@.len() as int) =~= ids@);
                        }
                        remove_users(queue, &ids);
                        proof {
                            assert(is_first_valid_combination(q0, c@) && message@
                                == game_found_message(group_ids(entries_at(q0, c@))));
                        }
                        return Some(message);
                    },
                    None => {
                        proof {
                            assert(pending_combinations(combos) =~= all.skip(k + 1));
                            k = k + 1;
                        }
                    },
                }
            },
        }
    }
}


// ---------------------------------------------------------------------------
// Joining and leaving
// ---------------------------------------------------------------------------

/// How long a new entry may wait when its user has no stored setting: three
/// hours, in seconds.
pub const DEFAULT_TIMEOUT_SECS: u64 = 10800;

/// The queue holds an entry of `user` under `role`.
pub open spec fn in_queue(q: Seq<Player>, user: u64, role: Roles) -> bool {
    exists|i: int| 0 <= i < q.len() && #[trigger] q[i].id == user && q[i].role == role
}

/// A new entry of `user` under `role`, joined at `now`, allowed to wait
/// `timeout_secs` seconds.
pub fn create_player_at(user: u64, role: Roles, timeout_secs: u64, now: i128) -> (p: Player)
    ensures
        p == (Player { id: user, role: role, timeout: timeout_secs, timestamp: now }),
{
    Player { id: user, role: role, timeout: timeout_secs, timestamp: now }
}

/// A new entry of `user` under `role`, stamped with the current time, allowed
/// to wait three hours. The time is the clock's reading, which is not stated.
pub fn create_player(user: u64, role: Roles) -> (p: Player)
    ensures
        p.id == user,
        p.role == role,
        p.timeout == DEFAULT_TIMEOUT_SECS,
{
    create_player_at(user, role, DEFAULT_TIMEOUT_SECS, now_nanos())
}

/// Whether `user` may join under `role`: true exactly when the queue holds no
/// entry of that user under that role.
pub fn check_user_in_queue(queue: &VecDeque<Player>, user: u64, role: Roles) -> (b: bool)
    ensures
        b == !in_queue(queue@, user, role),
{
    let mut i: usize = 0;
    while i < queue.len()
        invariant
            i <= queue@.len(),
            forall|j: int| 0 <= j < i ==> !(#[trigger] queue@[j].id == user && queue@[j].role == role),
        decreases queue@.len() - i,
    {
        let p = queue[i];
        if p.id == user && p.role == role {
            assert(queue@[i as int].id == user);
            return false;
        }
        i += 1;
    }
    true
}

/// Every entry of `user` leaves the queue; the other entries stay in order.
pub fn leave_queue(queue: &mut VecDeque<Player>, user: u64)
    ensures
        final(queue)@ == without_users(old(queue)@, seq![user]),
{
    let users = vec![user];
    proof {
        assert(users@ =~= seq![user]);
    }
    remove_users(queue, &users);
}

// ---------------------------------------------------------------------------
// Timeouts
// ---------------------------------------------------------------------------

/// Nanoseconds per second.
pub const NANOS_PER_SEC: i128 = 1_000_000_000;

/// The entry has waited at least its timeout at time `now` (nanoseconds since
/// the Unix epoch).
pub open spec fn timed_out(p: Player, now: i128) -> bool {
    now - p.timestamp >= p.timeout * NANOS_PER_SEC
}

/// No entry of the queue joined after `now`.
pub open spec fn joined_by(q: Seq<Player>, now: i128) -> bool {
    forall|i: int| 0 <= i < q.len() ==> #[trigger] q[i].timestamp <= now
}

/// The users of the timed-out entries of `q`, in queue order, once per entry.
pub open spec fn timed_out_ids(q: Seq<Player>, now: i128) -> Seq<u64>
    decreases q.len(),
{
    if q.len() == 0 {
        Seq::empty()
    } else {
        let rest = timed_out_ids(q.drop_last(), now);
        if timed_out(q.last(), now) {
            rest.push(q.last().id)
        } else {
            rest
        }
    }
}

fn is_timed_out(p: Player, now: i128) -> (b: bool)
    ensures
        b == timed_out(p, now),
{
    let limit = (p.timeout as i128) * NANOS_PER_SEC;
    if now >= i128::MIN + limit {
        now - limit >= p.timestamp
    } else {
        false
    }
}

/// At time `now`, collects the users of the entries that have waited their
/// timeout out (once per such entry, in queue order), and removes every entry
/// of those users from the queue. The users are returned so that each can be
/// told.
pub fn remove_timed_out(queue: &mut VecDeque<Player>, now: i128) -> (expired: Vec<u64>)
    requires
        joined_by(old(queue)@, now),
    ensures
        expired@ == timed_out_ids(old(queue)@, now),
        final(queue)@ == without_users(old(queue)@, expired@),
{
    let mut expired: Vec<u64> = Vec::new();
    let mut i: usize = 0;
    proof {
        assert(queue@.take(0) =~= Seq::<Player>::empty());
    }
    while i < queue.len()
        invariant
            i <= queue@.len(),
            joined_by(queue@, now),
            expired@ == timed_out_ids(queue@.take(i as int), now),
        decreases queue@.len() - i,
    {
        let p = queue[i];
        proof {
            assert(queue@.take(i + 1).drop_last() =~= queue@.take(i as int));
            assert(queue@.take(i + 1).last() == p);
        }
        if is_timed_out(p, now) {
            expired.push(p.id);
        }
        i += 1;
    }
    proof {
        assert(queue@.take(queue@.len() as int) =~= queue@);
    }
    remove_users(queue, &expired);
    expired
}

/// The timeout check at time `now` on the queue `q`, answering `r` and
/// leaving `after`: when an entry joined after `now` the check fails (`None`)
/// and nothing changes; otherwise the users of the timed-out entries are
/// answered and every entry of those users is gone.
pub open spec fn timeout_check(q: Seq<Player>, now: i128, r: Option<Vec<u64>>, after: Seq<Player>) -> bool {
    &&& (r is None <==> !joined_by(q, now))
    &&& r is None ==> after == q
    &&& r matches Some(e) ==> e@ == timed_out_ids(q, now) && after == without_users(q, e@)
}

/// The timeout check at time `now` (see `timeout_check`).
pub fn check_timeouts_at(queue: &mut VecDeque<Player>, now: i128) -> (r: Option<Vec<u64>>)
    ensures
        timeout_check(old(queue)@, now, r, final(queue)@),
{
    let mut i: usize = 0;
    while i < queue.len()
        invariant
            i <= queue@.len(),
            forall|j: int| 0 <= j < i ==> #[trigger] queue@[j].timestamp <= now,
        decreases queue@.len() - i,
    {
        if queue[i].timestamp > now {
            assert(!joined_by(queue@, now));
            return None;
        }
        i += 1;
    }
    let expired = remove_timed_out(queue, now);
    Some(expired)
}

/// The timeout check at the current time: the clock is read and
/// `check_timeouts_at` decides. Which time the clock reads is not stated.
pub fn check_timeouts(queue: &mut VecDeque<Player>) -> (r: Option<Vec<u64>>)
    ensures
        exists|now: i128| #[trigger] timeout_check(old(queue)@, now, r, final(queue)@),
{
    let now = now_nanos();
    let r = check_timeouts_at(queue, now);
    assert(timeout_check(old(queue)@, now, r, queue@));
    r
}

/// The users among `expired` who are to be told, in order: those whose
/// settings in force (`stored[i]` for `expired[i]`, else the defaults) ask
/// for notifications.
pub open spec fn users_to_notify_spec(expired: Seq<u64>, stored: Seq<Option<Settings>>) -> Seq<u64>
    decreases expired.len(),
{
    if expired.len() == 0 {
        Seq::empty()
    } else {
        let rest = users_to_notify_spec(expired.drop_last(), stored);
        let u = expired.last();
        if settings_in_force(u, stored[expired.len() - 1]).notify {
            rest.push(u)
        } else {
            rest
        }
    }
}

/// Picks, among the timed-out users `expired`, those to be told; `stored[i]`
/// is what the settings store holds for `expired[i]`.
pub fn users_to_notify(expired: &Vec<u64>, stored: &Vec<Option<Settings>>) -> (r: Vec<u64>)
    requires
        stored@.len() == expired@.len(),
    ensures
        r@ == users_to_notify_spec(expired@, stored@),
{
    let mut r: Vec<u64> = Vec::new();
    let mut i: usize = 0;
    proof {
        assert(expired@.take(0) =~= Seq::<u64>::empty());
    }
    while i < expired.len()
        invariant
            i <= expired@.len(),
            stored@.len() == expired@.len(),
            r@ == users_to_notify_spec(expired@.take(i as int), stored@),
        decreases expired@.len() - i,
    {
        let u = expired[i];
        proof {
            assert(expired@.take(i + 1).drop_last() =~= expired@.take(i as int));
            assert(expired@.take(i + 1).last() == u);
        }
        let notify = match stored[i] {
            Some(s) => s.notify,
            None => default_settings(u).notify,
        };
        if notify {
            r.push(u);
        }
        i += 1;
    }
    proof {
        assert(expired@.take(expired@.len() as int) =~= expired@);
    }
    r
}

// ---------------------------------------------------------------------------
// Queue message
// ---------------------------------------------------------------------------

/// A field of an embed.
pub struct EmbedField {
    pub name: String,
    pub value: String,
    /// Shown beside the other inline fields.
    pub inline: bool,
}

/// The queue message: an embed (title, colour as 0xRRGGBB, fields) and the
/// queue buttons.
pub struct QueueMessage {
    pub title: String,
    pub colour: u32,
    pub fields: Vec<EmbedField>,
    pub buttons: Vec<ButtonSpec>,
}

/// The emoji naming the tank field.
pub open spec fn tank_field_name() -> Seq<char> {
    "<:tank:444634700523241512>"@
}

/// The emoji naming the healer field.
pub open spec fn healer_field_name() -> Seq<char> {
    "<:heal:444634700363857921>"@
}

/// The emoji naming the dps field.
pub open spec fn dps_field_name() -> Seq<char> {
    "<:dps:444634700531630094>"@
}

/// The colour of the queue message (Discord's "fooyoo" green).
pub const QUEUE_COLOUR: u32 = 0x11CA80;

/// `f` is an inline field named `name` that shows `value`.
pub open spec fn is_field(f: EmbedField, name: Seq<char>, value: Seq<char>) -> bool {
    f.name@ == name && f.value@ == value && f.inline
}

fn field(name: &str, value: String) -> (f: EmbedField)
    ensures
        is_field(f, name@, value@),
{
    EmbedField { name: name.to_owned(), value: value, inline: true }
}

fn count_role(queue: &VecDeque<Player>, role: Roles) -> (n: usize)
    ensures
        n == role_ids(queue@, role).len(),
{
    let mut n: usize = 0;
    let mut i: usize = 0;
    proof {
        assert(queue@.take(0) =~= Seq::<Player>::empty());
    }
    while i < queue.len()
        invariant
            i <= queue@.len(),
            n == role_ids(queue@.take(i as int), role).len(),
            n <= i,
        decreases queue@.len() - i,
    {
        proof {
            assert(queue@.take(i + 1).drop_last() =~= queue@.take(i as int));
        }
        if queue[i].role == role {
            n += 1;
        }
        i += 1;
    }
    proof {
        assert(queue@.take(queue@.len() as int) =~= queue@);
    }
    n
}

/// The queue message: titled "The current queue is:", in the queue colour,
/// with the counts of tanks, healers and dps (in decimal) as three inline
/// fields named by their emoji, and the four queue buttons.
pub fn create_message_contents(queue: &VecDeque<Player>) -> (m: QueueMessage)
    ensures
        m.title@ == "The current queue is:"@,
        m.colour == QUEUE_COLOUR,
        m.fields@.len() == 3,
        is_field(m.fields@[0], tank_field_name(), decimal(role_ids(queue@, Roles::Tank).len())),
        is_field(m.fields@[1], healer_field_name(), decimal(role_ids(queue@, Roles::Healer).len())),
        is_field(m.fields@[2], dps_field_name(), decimal(role_ids(queue@, Roles::Dps).len())),
        are_queue_buttons(m.buttons@),
{
    let tank_queue_len = count_role(queue, Roles::Tank);
    let healer_queue_len = count_role(queue, Roles::Healer);
    let dps_queue_len = count_role(queue, Roles::Dps);
    let fields = vec![
        field("<:tank:444634700523241512>", to_decimal_string(tank_queue_len as u64)),
        field("<:heal:444634700363857921>", to_decimal_string(healer_queue_len as u64)),
        field("<:dps:444634700531630094>", to_decimal_string(dps_queue_len as u64)),
    ];
    QueueMessage {
        title: "The current queue is:".to_owned(),
        colour: QUEUE_COLOUR,
        fields: fields,
        buttons: make_buttons(),
    }
}

// ---------------------------------------------------------------------------
// Shared state, names, buttons, channels and messages
// ---------------------------------------------------------------------------

/// The state of the bot.
pub struct Data {
    /// Whether the bot has not yet been ready once.
    pub first_launch: bool,
    /// The players waiting for a group, earliest first.
    pub queue: VecDeque<Player>,
    /// The name of the channel where the queue message is posted.
    pub listen_channel: String,
    /// Settings the caller may keep at hand; no function of the library reads
    /// them (the settings store is the caller's).
    pub user_settings: VecDeque<crate::usersettings::Settings>,
}

/// Whether this is the first launch; the flag is cleared, nothing else
/// changes.
pub fn check_first_launch(data: &mut Data) -> (first: bool)
    ensures
        first == old(data).first_launch,
        final(data).first_launch == false,
        final(data).queue@ == old(data).queue@,
        final(data).listen_channel@ == old(data).listen_channel@,
        final(data).user_settings@ == old(data).user_settings@,
{
    if data.first_launch {
        data.first_launch = false;
        true
    } else {
        false
    }
}

/// The name shown for a user: the nickname in the guild if there is one,
/// else the global display name if there is one, else the account name.
pub fn get_display_name(nick: Option<String>, global_name: Option<String>, name: String) -> (s: String)
    ensures
        s@ == (match nick {
            Some(n) => n@,
            None => match global_name {
                Some(g) => g@,
                None => name@,
            },
        }),
{
    match nick {
        Some(n) => n,
        None => match global_name {
            Some(g) => g,
            None => name,
        },
    }
}

/// The look of a button.
#[derive(Clone, Copy, Debug, PartialEq, Eq, Structural)]
pub enum ButtonStyle {
    Primary,
    Success,
    Danger,
    Secondary,
}

/// A button of the queue message.
pub struct ButtonSpec {
    /// The id that the button reports when pressed.
    pub custom_id: String,
    pub label: String,
    pub style: ButtonStyle,
}

/// The buttons of the queue message, in order: join as tank, as healer, as
/// dps, and leave.
pub open spec fn are_queue_buttons(b: Seq<ButtonSpec>) -> bool {
    &&& b.len() == 4
    &&& b[0].custom_id@ == "add_tank"@
    &&& b[0].label@ == "Tank"@
    &&& b[0].style == ButtonStyle::Primary
    &&& b[1].custom_id@ == "add_healer"@
    &&& b[1].label@ == "Healer"@
    &&& b[1].style == ButtonStyle::Success
    &&& b[2].custom_id@ == "add_dps"@
    &&& b[2].label@ == "DPS"@
    &&& b[2].style == ButtonStyle::Danger
    &&& b[3].custom_id@ == "leave"@
    &&& b[3].label@ == "Leave"@
    &&& b[3].style == ButtonStyle::Secondary
}

/// The buttons of the queue message (see `are_queue_buttons`).
pub fn make_buttons() -> (buttons: Vec<ButtonSpec>)
    ensures
        are_queue_buttons(buttons@),
{
    let tank_button = ButtonSpec {
        custom_id: "add_tank".to_owned(),
        label: "Tank".to_owned(),
        style: ButtonStyle::Primary,
    };
    let healer_button = ButtonSpec {
        custom_id: "add_healer".to_owned(),
        label: "Healer".to_owned(),
        style: ButtonStyle::Success,
    };
    let dps_button = ButtonSpec {
        custom_id: "add_dps".to_owned(),
        label: "DPS".to_owned(),
        style: ButtonStyle::Danger,
    };
    let leave_button = ButtonSpec {
        custom_id: "leave".to_owned(),
        label: "Leave".to_owned(),
        style: ButtonStyle::Secondary,
    };
    vec![tank_button, healer_button, dps_button, leave_button]
}

/// A channel of the guilds the bot is in.
pub struct ChannelInfo {
    pub id: u64,
    pub name: String,
}

/// Some channel of `channels` is named `name`.
pub open spec fn has_channel_named(channels: Seq<ChannelInfo>, name: Seq<char>) -> bool {
    exists|i: int| 0 <= i < channels.len() && #[trigger] channels[i].name@ == name
}

/// Whether some channel is named `listen_channel`.
pub fn find_listen_channel(channels: &Vec<ChannelInfo>, listen_channel: &String) -> (b: bool)
    ensures
        b == has_channel_named(channels@, listen_channel@),
{
    let mut i: usize = 0;
    while i < channels.len()
        invariant
            i <= channels@.len(),
            forall|j: int| 0 <= j < i ==> #[trigger] channels@[j].name@ != listen_channel@,
        decreases channels@.len() - i,
    {
        if channels[i].name.eq(listen_channel) {
            return true;
        }
        i += 1;
    }
    false
}

/// The id of the first channel named `listen_channel`.
pub fn get_listen_channel(channels: &Vec<ChannelInfo>, listen_channel: &String) -> (id: u64)
    requires
        has_channel_named(channels@, listen_channel@),
    ensures
        exists|i: int|
            0 <= i < channels@.len() && #[trigger] channels@[i].name@ == listen_channel@
                && channels@[i].id == id && forall|j: int|
                0 <= j < i ==> channels@[j].name@ != listen_channel@,
{
    let mut i: usize = 0;
    while i < channels.len()
        invariant
            i <= channels@.len(),
            has_channel_named(channels@, listen_channel@),
            forall|j: int| 0 <= j < i ==> #[trigger] channels@[j].name@ != listen_channel@,
        decreases channels@.len() - i,
    {
        if channels[i].name.eq(listen_channel) {
            return channels[i].id;
        }
        i += 1;
    }
    proof {
        let k = choose|k: int| 0 <= k < channels@.len() && #[trigger] channels@[k].name@ == listen_channel@;
        assert(channels@[k].name@ != listen_channel@);
    }
    0
}

/// A message of a channel.
#[derive(Clone, Copy, Debug, PartialEq, Eq, Structural)]
pub struct MessageInfo {
    pub id: u64,
    pub author: u64,
    /// How many embeds the message carries.
    pub embeds: usize,
}

/// The ids of the messages of `msgs` written by `user` that carry an embed,
/// in order.
pub open spec fn messages_to_clean_spec(msgs: Seq<MessageInfo>, user: u64) -> Seq<u64>
    decreases msgs.len(),
{
    if msgs.len() == 0 {
        Seq::empty()
    } else {
        let rest = messages_to_clean_spec(msgs.drop_last(), user);
        if msgs.last().author == user && msgs.last().embeds > 0 {
            rest.push(msgs.last().id)
        } else {
            rest
        }
    }
}

/// The messages to delete before posting a new queue message: those of
/// `user` (the bot) that carry an embed, in order.
pub fn messages_to_clean(messages: &Vec<MessageInfo>, user: u64) -> (ids: Vec<u64>)
    ensures
        ids@ == messages_to_clean_spec(messages@, user),
{
    let mut ids: Vec<u64> = Vec::new();
    let mut i: usize = 0;
    proof {
        assert(messages@.take(0) =~= Seq::<MessageInfo>::empty());
    }
    while i < messages.len()
        invariant
            i <= messages@.len(),
            ids@ == messages_to_clean_spec(messages@.take(i as int), user),
        decreases messages@.len() - i,
    {
        let message = messages[i];
        proof {
            assert(messages@.take(i + 1).drop_last() =~= messages@.take(i as int));
            assert(messages@.take(i + 1).last() == message);
        }
        if message.author == user && message.embeds != 0 {
            ids.push(message.id);
        }
        i += 1;
    }
    proof {
        assert(messages@.take(messages@.len() as int) =~= messages@);
    }
    ids
}

} // verus!
