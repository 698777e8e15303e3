//! Properties that hold across the operations of the library.
use crate::combos::is_combination;
use crate::commands::notify::toggled_settings;
use crate::functions::{
    distinct_users, entries_at, group_ids, group_search, in_queue, is_valid_group,
    joined_by, lemma_role_ids_contains, lemma_role_ids_total, role_ids, timed_out, timed_out_ids,
    without_users, Player, Roles,
};
use crate::commands::queue::role_names;
use crate::functions::{has_valid_group, lemma_role_ids_push, messages_to_clean_spec, MessageInfo};
use crate::handler::{button_effect, spec_button_action, ButtonAction, ButtonOutcome};
use crate::usersettings::{settings_in_force, Settings};
use vstd::prelude::*;

verus! {

/// No user waits twice under the same role.
pub open spec fn entries_unique(q: Seq<Player>) -> bool {
    forall|i: int, j: int|
        0 <= i < j < q.len() ==> !(q[i].id == q[j].id && q[i].role == q[j].role)
}

/// Once an entry is added, its user waits under its role: a second join
/// under the same role is refused.
pub proof fn law_join_then_in_queue(q: Seq<Player>, p: Player)
    ensures
        in_queue(q.push(p), p.id, p.role),
{
    assert(q.push(p)[q.len() as int] == p);
}

/// Adding an entry of a user who does not wait under its role keeps every
/// user under each role at most once.
pub proof fn law_join_keeps_entries_unique(q: Seq<Player>, p: Player)
    requires
        entries_unique(q),
        !in_queue(q, p.id, p.role),
    ensures
        entries_unique(q.push(p)),
{
    let q2 = q.push(p);
    assert forall|i: int, j: int| 0 <= i < j < q2.len() implies !(q2[i].id == q2[j].id
        && q2[i].role == q2[j].role) by {
        if j == q.len() {
            assert(q2[i] == q[i]);
            if q[i].id == p.id && q[i].role == p.role {
                assert(in_queue(q, p.id, p.role));
            }
        } else {
            assert(q2[i] == q[i] && q2[j] == q[j]);
        }
    }
}

/// Removing the entries of some users keeps exactly the entries of the other
/// users.
pub proof fn law_without_users_keeps_the_others(q: Seq<Player>, ids: Seq<u64>, p: Player)
    ensures
        without_users(q, ids).contains(p) <==> (q.contains(p) && !ids.contains(p.id)),
    decreases q.len(),
{
    if q.len() > 0 {
        let t = q.drop_last();
        law_without_users_keeps_the_others(t, ids, p);
        let rest = without_users(t, ids);
        if q.contains(p) && !ids.contains(p.id) {
            let k = choose|k: int| 0 <= k < q.len() && q[k] == p;
            if k < q.len() - 1 {
                assert(t[k] == p);
                if !ids.contains(q.last().id) {
                    let m = choose|m: int| 0 <= m < rest.len() && rest[m] == p;
                    assert(rest.push(q.last())[m] == p);
                }
            } else {
                assert(rest.push(q.last())[rest.len() as int] == p);
            }
        }
        if without_users(q, ids).contains(p) {
            if ids.contains(q.last().id) {
                assert(rest.contains(p));
            } else {
                let m = choose|m: int| 0 <= m < rest.len() + 1 && rest.push(q.last())[m] == p;
                if m < rest.len() {
                    assert(rest[m] == p);
                    assert(rest.contains(p));
                } else {
                    assert(q[q.len() - 1] == p);
                }
            }
            if rest.contains(p) {
                let k = choose|k: int| 0 <= k < t.len() && t[k] == p;
                assert(q[k] == p);
            }
        }
    }
}

/// Removing the entries of some users keeps every user under each role at
/// most once.
pub proof fn law_without_users_keeps_entries_unique(q: Seq<Player>, ids: Seq<u64>)
    requires
        entries_unique(q),
    ensures
        entries_unique(without_users(q, ids)),
    decreases q.len(),
{
    if q.len() > 0 {
        let t = q.drop_last();
        assert(entries_unique(t)) by {
            assert forall|i: int, j: int| 0 <= i < j < t.len() implies !(t[i].id == t[j].id
                && t[i].role == t[j].role) by {
                assert(t[i] == q[i] && t[j] == q[j]);
            }
        }
        law_without_users_keeps_entries_unique(t, ids);
        let rest = without_users(t, ids);
        let p = q.last();
        if !ids.contains(p.id) {
            if in_queue(rest, p.id, p.role) {
                let i = choose|i: int| 0 <= i < rest.len() && #[trigger] rest[i].id == p.id && rest[i].role == p.role;
                law_without_users_keeps_the_others(t, ids, rest[i]);
                assert(rest.contains(rest[i]));
                let k = choose|k: int| 0 <= k < t.len() && t[k] == rest[i];
                assert(q[k] == t[k]);
                assert(q[q.len() - 1] == p);
            }
            law_join_keeps_entries_unique(rest, p);
        }
    }
}

/// The role list of a group of different users holds no user twice.
proof fn lemma_role_ids_distinct(s: Seq<Player>, r: Roles)
    requires
        distinct_users(s),
    ensures
        forall|a: int, b: int|
            0 <= a < b < role_ids(s, r).len() ==> role_ids(s, r)[a] != role_ids(s, r)[b],
    decreases s.len(),
{
    if s.len() > 0 {
        let t = s.drop_last();
        assert(distinct_users(t)) by {
            assert forall|i: int, j: int| 0 <= i < j < t.len() implies t[i].id != t[j].id by {
                assert(t[i] == s[i] && t[j] == s[j]);
            }
        }
        lemma_role_ids_distinct(t, r);
        if s.last().role == r {
            let rt = role_ids(t, r);
            let x = s.last().id;
            lemma_role_ids_contains(t, r, x);
            if rt.contains(x) {
                let j = choose|j: int| 0 <= j < t.len() && #[trigger] t[j].role == r && t[j].id == x;
                assert(s[j] == t[j]);
                assert(s[s.len() - 1].id == x);
            }
            assert forall|a: int, b: int|
                0 <= a < b < role_ids(s, r).len() implies role_ids(s, r)[a] != role_ids(s, r)[b] by {
                if b == rt.len() {
                    assert(role_ids(s, r)[a] == rt[a]);
                    if rt[a] == x {
                        assert(rt.contains(x));
                    }
                } else {
                    assert(role_ids(s, r)[a] == rt[a] && role_ids(s, r)[b] == rt[b]);
                }
            }
        } else {
            assert(role_ids(s, r) == role_ids(t, r));
        }
    }
}

/// A formed group names five different users: its tank, its healer and its
/// three dps, each the user of an entry of the group with that role.
pub proof fn law_group_has_five_different_users(e: Seq<Player>)
    requires
        is_valid_group(e),
    ensures
        group_ids(e).len() == 5,
        forall|a: int, b: int| 0 <= a < b < 5 ==> group_ids(e)[a] != group_ids(e)[b],
        forall|x: u64| #[trigger] group_ids(e).contains(x) <==> exists|j: int| 0 <= j < 5 && e[j].id == x,
{
    let rt = role_ids(e, Roles::Tank);
    let rh = role_ids(e, Roles::Healer);
    let rd = role_ids(e, Roles::Dps);
    let g = group_ids(e);
    lemma_role_ids_distinct(e, Roles::Dps);
    assert(g =~= seq![rt[0], rh[0], rd[0], rd[1], rd[2]]);
    lemma_role_ids_contains(e, Roles::Tank, rt[0]);
    lemma_role_ids_contains(e, Roles::Healer, rh[0]);
    lemma_role_ids_contains(e, Roles::Dps, rd[0]);
    lemma_role_ids_contains(e, Roles::Dps, rd[1]);
    lemma_role_ids_contains(e, Roles::Dps, rd[2]);
    assert(rt.contains(rt[0]) && rh.contains(rh[0]));
    assert(rd.contains(rd[0]) && rd.contains(rd[1]) && rd.contains(rd[2]));
    let jt = choose|j: int| 0 <= j < e.len() && #[trigger] e[j].role == Roles::Tank && e[j].id == rt[0];
    let jh = choose|j: int| 0 <= j < e.len() && #[trigger] e[j].role == Roles::Healer && e[j].id == rh[0];
    let j0 = choose|j: int| 0 <= j < e.len() && #[trigger] e[j].role == Roles::Dps && e[j].id == rd[0];
    let j1 = choose|j: int| 0 <= j < e.len() && #[trigger] e[j].role == Roles::Dps && e[j].id == rd[1];
    let j2 = choose|j: int| 0 <= j < e.len() && #[trigger] e[j].role == Roles::Dps && e[j].id == rd[2];
    assert forall|a: int, b: int| 0 <= a < b < 5 implies g[a] != g[b] by {
        if a == 0 {
            assert(jt != jh && jt != j0 && jt != j1 && jt != j2);
        } else if a == 1 {
            assert(jh != j0 && jh != j1 && jh != j2);
        }
    }
    assert forall|x: u64| #[trigger] g.contains(x) implies exists|j: int| 0 <= j < 5 && e[j].id == x by {
        let k = choose|k: int| 0 <= k < 5 && g[k] == x;
        if k == 0 {
            assert(e[jt].id == x);
        } else if k == 1 {
            assert(e[jh].id == x);
        } else if k == 2 {
            assert(e[j0].id == x);
        } else if k == 3 {
            assert(e[j1].id == x);
        } else {
            assert(e[j2].id == x);
        }
    }
    assert forall|x: u64| (exists|j: int| 0 <= j < 5 && e[j].id == x) implies #[trigger] g.contains(x) by {
        let j = choose|j: int| 0 <= j < 5 && e[j].id == x;
        lemma_role_ids_contains(e, e[j].role, x);
        match e[j].role {
            Roles::Tank => {
                let k = choose|k: int| 0 <= k < rt.len() && rt[k] == x;
                assert(g[0] == x);
            },
            Roles::Healer => {
                let k = choose|k: int| 0 <= k < rh.len() && rh[k] == x;
                assert(g[1] == x);
            },
            Roles::Dps => {
                let k = choose|k: int| 0 <= k < rd.len() && rd[k] == x;
                assert(g[2 + k] == x);
            },
        }
    }
}

/// When a search finds a group, the announced group is five different users
/// of the queue, none of them waits any more, and every entry of every other
/// user is still there.
pub proof fn law_found_group_leaves_the_queue(q: Seq<Player>, r: Option<String>, after: Seq<Player>)
    requires
        group_search(q, r, after),
        r is Some,
    ensures
        exists|c: Seq<usize>|
            #![trigger entries_at(q, c)]
            {
                &&& is_combination(c, q.len(), 5)
                &&& is_valid_group(entries_at(q, c))
                &&& forall|a: int, b: int|
                    0 <= a < b < 5 ==> group_ids(entries_at(q, c))[a] != group_ids(entries_at(q, c))[b]
                &&& forall|p: Player| #[trigger]
                    after.contains(p) <==> (q.contains(p) && !group_ids(entries_at(q, c)).contains(
                        p.id,
                    ))
            },
{
    let c = choose|c: Seq<usize>|
        #![trigger entries_at(q, c)]
        {
            &&& crate::functions::is_first_valid_combination(q, c)
            &&& r->0@ == crate::functions::game_found_message(group_ids(entries_at(q, c)))
            &&& after == without_users(q, group_ids(entries_at(q, c)))
        };
    law_group_has_five_different_users(entries_at(q, c));
    assert forall|p: Player| #[trigger]
        after.contains(p) <==> (q.contains(p) && !group_ids(entries_at(q, c)).contains(p.id)) by {
        law_without_users_keeps_the_others(q, group_ids(entries_at(q, c)), p);
    }
}

/// Every button press keeps every user under each role at most once in the
/// queue.
pub proof fn law_button_keeps_entries_unique(
    q: Seq<Player>,
    action: ButtonAction,
    user: u64,
    name: Seq<char>,
    timeout_secs: u64,
    now: i128,
    out: ButtonOutcome,
    after: Seq<Player>,
)
    requires
        entries_unique(q),
        button_effect(q, action, user, name, timeout_secs, now, out, after),
    ensures
        entries_unique(after),
{
    match action {
        ButtonAction::Join(role) => {
            if !in_queue(q, user, role) {
                let p = out.joined->0;
                law_join_keeps_entries_unique(q, p);
                match out.announcement {
                    Some(msg) => {
                        let c = choose|c: Seq<usize>|
                            #![trigger entries_at(q.push(p), c)]
                            {
                                &&& crate::functions::is_first_valid_combination(q.push(p), c)
                                &&& msg@ == crate::functions::game_found_message(
                                    group_ids(entries_at(q.push(p), c)),
                                )
                                &&& after == without_users(q.push(p), group_ids(entries_at(q.push(p), c)))
                            };
                        law_without_users_keeps_entries_unique(
                            q.push(p),
                            group_ids(entries_at(q.push(p), c)),
                        );
                    },
                    None => {},
                }
            }
        },
        ButtonAction::Leave => {
            law_without_users_keeps_entries_unique(q, seq![user]);
        },
        ButtonAction::Unknown => {},
    }
}

/// After the timed-out users are removed at time `now`, no remaining entry
/// has timed out, and every entry of a user without a timed-out entry stays.
pub proof fn law_no_timed_out_entry_remains(q: Seq<Player>, now: i128)
    requires
        joined_by(q, now),
    ensures
        forall|p: Player| #[trigger]
            without_users(q, timed_out_ids(q, now)).contains(p) ==> !timed_out(p, now),
        forall|p: Player|
            q.contains(p) && !timed_out_ids(q, now).contains(p.id) ==> #[trigger] without_users(
                q,
                timed_out_ids(q, now),
            ).contains(p),
{
    assert forall|p: Player| #[trigger]
        without_users(q, timed_out_ids(q, now)).contains(p) implies !timed_out(p, now) by {
        law_without_users_keeps_the_others(q, timed_out_ids(q, now), p);
        if timed_out(p, now) {
            lemma_timed_out_listed(q, now, p);
        }
    }
    assert forall|p: Player|
        q.contains(p) && !timed_out_ids(q, now).contains(p.id) implies #[trigger] without_users(
        q,
        timed_out_ids(q, now),
    ).contains(p) by {
        law_without_users_keeps_the_others(q, timed_out_ids(q, now), p);
    }
}

proof fn lemma_timed_out_listed(q: Seq<Player>, now: i128, p: Player)
    requires
        q.contains(p),
        timed_out(p, now),
    ensures
        timed_out_ids(q, now).contains(p.id),
    decreases q.len(),
{
    let t = q.drop_last();
    let rest = timed_out_ids(t, now);
    if q.last() == p {
        assert(rest.push(p.id)[rest.len() as int] == p.id);
    } else {
        let k = choose|k: int| 0 <= k < q.len() && q[k] == p;
        assert(t[k] == p);
        lemma_timed_out_listed(t, now, p);
        let m = choose|m: int| 0 <= m < rest.len() && rest[m] == p.id;
        if timed_out(q.last(), now) {
            assert(rest.push(q.last().id)[m] == p.id);
        }
    }
}

/// Every entry of the queue counts under exactly one role.
pub proof fn law_role_counts_cover_the_queue(q: Seq<Player>)
    ensures
        role_ids(q, Roles::Tank).len() + role_ids(q, Roles::Healer).len() + role_ids(
            q,
            Roles::Dps,
        ).len() == q.len(),
{
    lemma_role_ids_total(q);
}

/// Toggling notifications twice restores the flag and keeps the timeout.
pub proof fn law_notify_twice_restores(user: u64, stored: Option<Settings>)
    ensures
        toggled_settings(user, Some(toggled_settings(user, stored))) == (Settings {
            id: user,
            timeout: settings_in_force(user, stored).timeout,
            notify: settings_in_force(user, stored).notify,
        }),
{
}

/// Each button of the queue message asks for what its label says.
pub proof fn law_buttons_ask_for_their_action()
    ensures
        spec_button_action("add_tank"@) == ButtonAction::Join(Roles::Tank),
        spec_button_action("add_healer"@) == ButtonAction::Join(Roles::Healer),
        spec_button_action("add_dps"@) == ButtonAction::Join(Roles::Dps),
        spec_button_action("leave"@) == ButtonAction::Leave,
{
    reveal_strlit("add_tank");
    reveal_strlit("add_healer");
    reveal_strlit("add_dps");
    reveal_strlit("leave");
    assert("add_healer"@[4] != "add_tank"@[4]);
    assert("add_dps"@[4] != "add_tank"@[4]);
    assert("add_dps"@[4] != "add_healer"@[4]);
    assert("leave"@.len() != "add_tank"@.len());
    assert("leave"@.len() != "add_healer"@.len());
    assert("leave"@[0] != "add_dps"@[0]);
}


// ---------------------------------------------------------------------------
// Whether a group exists, independent of positions
// ---------------------------------------------------------------------------

/// Five different users, waiting in `q` as a tank (`t`), a healer (`h`) and
/// three dps (`d1`, `d2`, `d3`).
pub open spec fn group_available(q: Seq<Player>, t: u64, h: u64, d1: u64, d2: u64, d3: u64) -> bool {
    &&& t != h && t != d1 && t != d2 && t != d3
    &&& h != d1 && h != d2 && h != d3
    &&& d1 != d2 && d1 != d3 && d2 != d3
    &&& in_queue(q, t, Roles::Tank)
    &&& in_queue(q, h, Roles::Healer)
    &&& in_queue(q, d1, Roles::Dps)
    &&& in_queue(q, d2, Roles::Dps)
    &&& in_queue(q, d3, Roles::Dps)
}

/// The users of a valid group at positions `c` are available in `q` as such.
proof fn lemma_valid_group_available(q: Seq<Player>, c: Seq<usize>)
    requires
        is_combination(c, q.len(), 5),
        is_valid_group(entries_at(q, c)),
    ensures
        ({
            let g = group_ids(entries_at(q, c));
            group_available(q, g[0], g[1], g[2], g[3], g[4])
        }),
{
    let e = entries_at(q, c);
    let g = group_ids(e);
    law_group_has_five_different_users(e);
    let rt = role_ids(e, Roles::Tank);
    let rh = role_ids(e, Roles::Healer);
    let rd = role_ids(e, Roles::Dps);
    assert(g =~= seq![rt[0], rh[0], rd[0], rd[1], rd[2]]);
    assert(g[0] != g[1] && g[0] != g[2] && g[0] != g[3] && g[0] != g[4]);
    assert(g[1] != g[2] && g[1] != g[3] && g[1] != g[4]);
    assert(g[2] != g[3] && g[2] != g[4] && g[3] != g[4]);
    lemma_entry_of_role_waits(q, c, Roles::Tank, rt[0]);
    lemma_entry_of_role_waits(q, c, Roles::Healer, rh[0]);
    lemma_entry_of_role_waits(q, c, Roles::Dps, rd[0]);
    lemma_entry_of_role_waits(q, c, Roles::Dps, rd[1]);
    lemma_entry_of_role_waits(q, c, Roles::Dps, rd[2]);
}

proof fn lemma_entry_of_role_waits(q: Seq<Player>, c: Seq<usize>, r: Roles, x: u64)
    requires
        forall|i: int| 0 <= i < c.len() ==> #[trigger] c[i] < q.len(),
        role_ids(entries_at(q, c), r).contains(x),
    ensures
        in_queue(q, x, r),
{
    let e = entries_at(q, c);
    lemma_role_ids_contains(e, r, x);
    let j = choose|j: int| 0 <= j < e.len() && #[trigger] e[j].role == r && e[j].id == x;
    assert(c[j] < q.len());
    assert(e[j] == q[c[j] as int]);
    assert(q[c[j] as int].id == x);
}

/// 1 when position `k` lies below `n`.
spec fn below(k: usize, n: nat) -> nat {
    if k < n { 1 } else { 0 }
}

/// The positions among `a`, `b`, `c`, `d`, `e` that lie below `n`, in
/// increasing order.
spec fn pick(n: nat, a: usize, b: usize, c: usize, d: usize, e: usize) -> Seq<usize>
    decreases n,
{
    if n == 0 {
        Seq::empty()
    } else {
        let rest = pick((n - 1) as nat, a, b, c, d, e);
        let k = (n - 1) as usize;
        if k == a || k == b || k == c || k == d || k == e {
            rest.push(k)
        } else {
            rest
        }
    }
}

proof fn lemma_pick(q: Seq<Player>, n: nat, a: usize, b: usize, c: usize, d: usize, e: usize)
    requires
        n <= q.len() <= usize::MAX,
        a < q.len() && b < q.len() && c < q.len() && d < q.len() && e < q.len(),
        a != b && a != c && a != d && a != e && b != c && b != d && b != e && c != d && c != e && d != e,
        q[a as int].role == Roles::Tank,
        q[b as int].role == Roles::Healer,
        q[c as int].role == Roles::Dps,
        q[d as int].role == Roles::Dps,
        q[e as int].role == Roles::Dps,
    ensures
        ({
            let s = pick(n, a, b, c, d, e);
            &&& s.len() == below(a, n) + below(b, n) + below(c, n) + below(d, n) + below(e, n)
            &&& forall|i: int| 0 <= i < s.len() ==> #[trigger] s[i] < n
            &&& forall|i: int| 0 <= i < s.len() ==> (#[trigger] s[i] == a || s[i] == b || s[i] == c
                || s[i] == d || s[i] == e)
            &&& forall|i: int, j: int| 0 <= i < j < s.len() ==> s[i] < s[j]
            &&& role_ids(entries_at(q, s), Roles::Tank).len() == below(a, n)
            &&& role_ids(entries_at(q, s), Roles::Healer).len() == below(b, n)
            &&& role_ids(entries_at(q, s), Roles::Dps).len() == below(c, n) + below(d, n) + below(
                e,
                n,
            )
        }),
    decreases n,
{
    if n == 0 {
        let s = pick(n, a, b, c, d, e);
        assert(entries_at(q, s) =~= Seq::<Player>::empty());
    } else {
        let m = (n - 1) as nat;
        lemma_pick(q, m, a, b, c, d, e);
        let rest = pick(m, a, b, c, d, e);
        let k = m as usize;
        if k == a || k == b || k == c || k == d || k == e {
            let s = rest.push(k);
            assert(entries_at(q, s) =~= entries_at(q, rest).push(q[k as int]));
            lemma_role_ids_push(entries_at(q, rest), q[k as int], Roles::Tank);
            lemma_role_ids_push(entries_at(q, rest), q[k as int], Roles::Healer);
            lemma_role_ids_push(entries_at(q, rest), q[k as int], Roles::Dps);
            assert forall|i: int, j: int| 0 <= i < j < s.len() implies s[i] < s[j] by {
                if j < rest.len() {
                    assert(s[i] == rest[i] && s[j] == rest[j]);
                } else {
                    assert(s[i] == rest[i]);
                }
            }
            assert forall|i: int| 0 <= i < s.len() implies (#[trigger] s[i] == a || s[i] == b
                || s[i] == c || s[i] == d || s[i] == e) by {
                if i < rest.len() {
                    assert(s[i] == rest[i]);
                }
            }
            assert forall|i: int| 0 <= i < s.len() implies #[trigger] s[i] < n by {
                if i < rest.len() {
                    assert(s[i] == rest[i]);
                }
            }
        }
    }
}

/// Five available users make a valid group at some choice of positions.
proof fn lemma_available_group_is_found(q: Seq<Player>, t: u64, h: u64, d1: u64, d2: u64, d3: u64)
    requires
        q.len() <= usize::MAX,
        group_available(q, t, h, d1, d2, d3),
    ensures
        has_valid_group(q),
{
    let a = choose|i: int| 0 <= i < q.len() && #[trigger] q[i].id == t && q[i].role == Roles::Tank;
    let b = choose|i: int| 0 <= i < q.len() && #[trigger] q[i].id == h && q[i].role == Roles::Healer;
    let c = choose|i: int| 0 <= i < q.len() && #[trigger] q[i].id == d1 && q[i].role == Roles::Dps;
    let d = choose|i: int| 0 <= i < q.len() && #[trigger] q[i].id == d2 && q[i].role == Roles::Dps;
    let e = choose|i: int| 0 <= i < q.len() && #[trigger] q[i].id == d3 && q[i].role == Roles::Dps;
    let (a, b, c, d, e) = (a as usize, b as usize, c as usize, d as usize, e as usize);
    lemma_pick(q, q.len(), a, b, c, d, e);
    let s = pick(q.len(), a, b, c, d, e);
    let en = entries_at(q, s);
    assert(is_combination(s, q.len(), 5));
    assert forall|i: int, j: int| 0 <= i < j < en.len() implies en[i].id != en[j].id by {
        assert(en[i] == q[s[i] as int] && en[j] == q[s[j] as int]);
        assert(s[i] != s[j]);
    }
    assert(is_valid_group(en));
}

/// A queue has a valid group exactly when five different users wait in it as
/// a tank, a healer and three dps.
pub proof fn law_group_exists_iff_available(q: Seq<Player>)
    requires
        q.len() <= usize::MAX,
    ensures
        has_valid_group(q) <==> exists|t: u64, h: u64, d1: u64, d2: u64, d3: u64|
            #[trigger] group_available(q, t, h, d1, d2, d3),
{
    if has_valid_group(q) {
        let c = choose|c: Seq<usize>| is_combination(c, q.len(), 5) && is_valid_group(#[trigger] entries_at(q, c));
        lemma_valid_group_available(q, c);
        let g = group_ids(entries_at(q, c));
        assert(group_available(q, g[0], g[1], g[2], g[3], g[4]));
    }
    if exists|t: u64, h: u64, d1: u64, d2: u64, d3: u64| #[trigger] group_available(q, t, h, d1, d2, d3) {
        let (t, h, d1, d2, d3) = choose|t: u64, h: u64, d1: u64, d2: u64, d3: u64|
            #[trigger] group_available(q, t, h, d1, d2, d3);
        lemma_available_group_is_found(q, t, h, d1, d2, d3);
    }
}

proof fn lemma_in_queue_transfer(q1: Seq<Player>, q2: Seq<Player>, u: u64, r: Roles)
    requires
        in_queue(q1, u, r),
        forall|p: Player| q1.contains(p) ==> #[trigger] q2.contains(p),
    ensures
        in_queue(q2, u, r),
{
    let i = choose|i: int| 0 <= i < q1.len() && #[trigger] q1[i].id == u && q1[i].role == r;
    let x = q1[i];
    assert(q1.contains(x));
    assert(q2.contains(x));
    let j = choose|j: int| 0 <= j < q2.len() && q2[j] == x;
    assert(q2[j].id == u && q2[j].role == r);
}

proof fn lemma_available_transfer(q1: Seq<Player>, q2: Seq<Player>, t: u64, h: u64, d1: u64, d2: u64, d3: u64)
    requires
        group_available(q1, t, h, d1, d2, d3),
        forall|p: Player| q1.contains(p) ==> #[trigger] q2.contains(p),
    ensures
        group_available(q2, t, h, d1, d2, d3),
{
    lemma_in_queue_transfer(q1, q2, t, Roles::Tank);
    lemma_in_queue_transfer(q1, q2, h, Roles::Healer);
    lemma_in_queue_transfer(q1, q2, d1, Roles::Dps);
    lemma_in_queue_transfer(q1, q2, d2, Roles::Dps);
    lemma_in_queue_transfer(q1, q2, d3, Roles::Dps);
}

/// A queue whose entries all occur in another has a valid group only if the
/// other has one.
pub proof fn law_group_exists_monotone(q1: Seq<Player>, q2: Seq<Player>)
    requires
        q2.len() <= usize::MAX,
        forall|p: Player| q1.contains(p) ==> #[trigger] q2.contains(p),
        has_valid_group(q1),
    ensures
        has_valid_group(q2),
{
    let c = choose|c: Seq<usize>| is_combination(c, q1.len(), 5) && is_valid_group(#[trigger] entries_at(q1, c));
    lemma_valid_group_available(q1, c);
    let g = group_ids(entries_at(q1, c));
    lemma_available_transfer(q1, q2, g[0], g[1], g[2], g[3], g[4]);
    lemma_available_group_is_found(q2, g[0], g[1], g[2], g[3], g[4]);
}

/// Whether a queue holds a group does not depend on the order of its entries
/// (nor on entries repeated): two queues with the same entries both hold one
/// or both do not.
pub proof fn law_group_exists_regardless_of_order(q1: Seq<Player>, q2: Seq<Player>)
    requires
        q1.len() <= usize::MAX,
        q2.len() <= usize::MAX,
        forall|p: Player| #[trigger] q1.contains(p) <==> q2.contains(p),
    ensures
        has_valid_group(q1) == has_valid_group(q2),
{
    if has_valid_group(q1) {
        law_group_exists_monotone(q1, q2);
    }
    if has_valid_group(q2) {
        law_group_exists_monotone(q2, q1);
    }
}

proof fn lemma_in_queue_without_new(q: Seq<Player>, p: Player, x: u64, r: Roles)
    requires
        in_queue(q.push(p), x, r),
        x != p.id,
    ensures
        in_queue(q, x, r),
{
    let q1 = q.push(p);
    let i = choose|i: int| 0 <= i < q1.len() && #[trigger] q1[i].id == x && q1[i].role == r;
    assert(i != q.len());
    assert(q[i] == q1[i]);
}

proof fn lemma_in_queue_after_removal(q: Seq<Player>, ids: Seq<u64>, x: u64, r: Roles)
    requires
        in_queue(without_users(q, ids), x, r),
    ensures
        in_queue(q, x, r),
        !ids.contains(x),
{
    let a = without_users(q, ids);
    let i = choose|i: int| 0 <= i < a.len() && #[trigger] a[i].id == x && a[i].role == r;
    assert(a.contains(a[i]));
    law_without_users_keeps_the_others(q, ids, a[i]);
    let j = choose|j: int| 0 <= j < q.len() && q[j] == a[i];
    assert(q[j].id == x);
}

/// A button press on a queue that holds no group leaves a queue that holds
/// none: every group is announced at the press that completes it.
pub proof fn law_press_leaves_no_group(
    q: Seq<Player>,
    action: ButtonAction,
    user: u64,
    name: Seq<char>,
    timeout_secs: u64,
    now: i128,
    out: ButtonOutcome,
    after: Seq<Player>,
)
    requires
        q.len() <= usize::MAX,
        !has_valid_group(q),
        button_effect(q, action, user, name, timeout_secs, now, out, after),
    ensures
        !has_valid_group(after),
{
    match action {
        ButtonAction::Join(role) => {
            if !in_queue(q, user, role) {
                let p = out.joined->0;
                let q1 = q.push(p);
                match out.announcement {
                    Some(msg) => {
                        let c = choose|c: Seq<usize>|
                            #![trigger entries_at(q1, c)]
                            {
                                &&& crate::functions::is_first_valid_combination(q1, c)
                                &&& msg@ == crate::functions::game_found_message(
                                    group_ids(entries_at(q1, c)),
                                )
                                &&& after == without_users(q1, group_ids(entries_at(q1, c)))
                            };
                        let g = group_ids(entries_at(q1, c));
                        lemma_valid_group_available(q1, c);
                        law_group_has_five_different_users(entries_at(q1, c));
                        if !g.contains(p.id) {
                            assert(g[0] != p.id && g[1] != p.id && g[2] != p.id && g[3] != p.id
                                && g[4] != p.id) by {
                                if g[0] == p.id { assert(g.contains(g[0])); }
                                if g[1] == p.id { assert(g.contains(g[1])); }
                                if g[2] == p.id { assert(g.contains(g[2])); }
                                if g[3] == p.id { assert(g.contains(g[3])); }
                                if g[4] == p.id { assert(g.contains(g[4])); }
                            }
                            lemma_in_queue_without_new(q, p, g[0], Roles::Tank);
                            lemma_in_queue_without_new(q, p, g[1], Roles::Healer);
                            lemma_in_queue_without_new(q, p, g[2], Roles::Dps);
                            lemma_in_queue_without_new(q, p, g[3], Roles::Dps);
                            lemma_in_queue_without_new(q, p, g[4], Roles::Dps);
                            lemma_available_group_is_found(q, g[0], g[1], g[2], g[3], g[4]);
                        }
                        if has_valid_group(after) {
                            let c2 = choose|c2: Seq<usize>|
                                is_combination(c2, after.len(), 5) && is_valid_group(
                                    #[trigger] entries_at(after, c2),
                                );
                            lemma_valid_group_available(after, c2);
                            let w = group_ids(entries_at(after, c2));
                            lemma_in_queue_after_removal(q1, g, w[0], Roles::Tank);
                            lemma_in_queue_after_removal(q1, g, w[1], Roles::Healer);
                            lemma_in_queue_after_removal(q1, g, w[2], Roles::Dps);
                            lemma_in_queue_after_removal(q1, g, w[3], Roles::Dps);
                            lemma_in_queue_after_removal(q1, g, w[4], Roles::Dps);
                            lemma_in_queue_without_new(q, p, w[0], Roles::Tank);
                            lemma_in_queue_without_new(q, p, w[1], Roles::Healer);
                            lemma_in_queue_without_new(q, p, w[2], Roles::Dps);
                            lemma_in_queue_without_new(q, p, w[3], Roles::Dps);
                            lemma_in_queue_without_new(q, p, w[4], Roles::Dps);
                            lemma_available_group_is_found(q, w[0], w[1], w[2], w[3], w[4]);
                        }
                    },
                    None => {},
                }
            }
        },
        ButtonAction::Leave => {
            if has_valid_group(after) {
                let c2 = choose|c2: Seq<usize>|
                    is_combination(c2, after.len(), 5) && is_valid_group(#[trigger] entries_at(after, c2));
                lemma_valid_group_available(after, c2);
                let w = group_ids(entries_at(after, c2));
                lemma_in_queue_after_removal(q, seq![user], w[0], Roles::Tank);
                lemma_in_queue_after_removal(q, seq![user], w[1], Roles::Healer);
                lemma_in_queue_after_removal(q, seq![user], w[2], Roles::Dps);
                lemma_in_queue_after_removal(q, seq![user], w[3], Roles::Dps);
                lemma_in_queue_after_removal(q, seq![user], w[4], Roles::Dps);
                lemma_available_group_is_found(q, w[0], w[1], w[2], w[3], w[4]);
            }
        },
        ButtonAction::Unknown => {},
    }
}


// ---------------------------------------------------------------------------
// Removal keeps order; listings and cleaning pick exactly their entries
// ---------------------------------------------------------------------------

/// Removing the entries of some users keeps exactly the entries of the other
/// users, in their original order: the result is the queue filtered by "the
/// entry's user is not among `ids`".
pub proof fn law_without_users_keeps_order(q: Seq<Player>, ids: Seq<u64>)
    ensures
        without_users(q, ids) == q.filter(|p: Player| !ids.contains(p.id)),
    decreases q.len(),
{
    let keep = |p: Player| !ids.contains(p.id);
    if q.len() == 0 {
        reveal(Seq::filter);
    } else {
        let t = q.drop_last();
        law_without_users_keeps_order(t, ids);
        t.lemma_filter_push(q.last(), keep);
        assert(t.push(q.last()) =~= q);
    }
}

/// The text listed for a role is, entry by entry in queue order, the display
/// name of every entry of that role followed by ", ", and nothing for the
/// entries of other roles.
pub proof fn law_listing_names_every_entry(q: Seq<Player>, names: Seq<Seq<char>>, r: Roles)
    ensures
        role_names(q, names, r) == Seq::new(
            q.len(),
            |i: int|
                if q[i].role == r {
                    names[i] + ", "@
                } else {
                    Seq::<char>::empty()
                },
        ).flatten(),
    decreases q.len(),
{
    let f = |i: int|
        if q[i].role == r {
            names[i] + ", "@
        } else {
            Seq::<char>::empty()
        };
    if q.len() == 0 {
        assert(Seq::new(0, f) =~= Seq::<Seq<char>>::empty());
    } else {
        let t = q.drop_last();
        law_listing_names_every_entry(t, names, r);
        let ft = |i: int|
            if t[i].role == r {
                names[i] + ", "@
            } else {
                Seq::<char>::empty()
            };
        let n = (q.len() - 1) as int;
        assert(Seq::new(q.len(), f) =~= Seq::new(t.len(), ft).push(f(n)));
        Seq::new(t.len(), ft).lemma_flatten_push(f(n));
        if q.last().role != r {
            assert(Seq::new(t.len(), ft).flatten() + Seq::<char>::empty() =~= Seq::new(
                t.len(),
                ft,
            ).flatten());
        } else {
            assert(Seq::new(t.len(), ft).flatten() + (names[n] + ", "@) =~= Seq::new(
                t.len(),
                ft,
            ).flatten() + names[n] + ", "@);
        }
    }
}

/// The messages picked for cleaning are exactly those written by `user` that
/// carry an embed, in order: their ids, no others.
pub proof fn law_cleaning_picks_the_users_embeds(msgs: Seq<MessageInfo>, user: u64)
    ensures
        messages_to_clean_spec(msgs, user) == msgs.filter(
            |m: MessageInfo| m.author == user && m.embeds > 0,
        ).map_values(|m: MessageInfo| m.id),
        forall|k: int|
            #![trigger messages_to_clean_spec(msgs, user)[k]]
            0 <= k < messages_to_clean_spec(msgs, user).len() ==> exists|j: int|
                0 <= j < msgs.len() && #[trigger] msgs[j].id == messages_to_clean_spec(msgs, user)[k]
                    && msgs[j].author == user && msgs[j].embeds > 0,
    decreases msgs.len(),
{
    let pick = |m: MessageInfo| m.author == user && m.embeds > 0;
    if msgs.len() == 0 {
        reveal(Seq::filter);
        assert(msgs.filter(pick).map_values(|m: MessageInfo| m.id) =~= Seq::<u64>::empty());
    } else {
        let t = msgs.drop_last();
        law_cleaning_picks_the_users_embeds(t, user);
        t.lemma_filter_push(msgs.last(), pick);
        assert(t.push(msgs.last()) =~= msgs);
        if pick(msgs.last()) {
            assert(t.filter(pick).push(msgs.last()).map_values(|m: MessageInfo| m.id)
                =~= t.filter(pick).map_values(|m: MessageInfo| m.id).push(msgs.last().id));
        }
        let res = messages_to_clean_spec(msgs, user);
        let rt = messages_to_clean_spec(t, user);
        assert forall|k: int| #![trigger res[k]] 0 <= k < res.len() implies exists|j: int|
            0 <= j < msgs.len() && #[trigger] msgs[j].id == res[k] && msgs[j].author == user
                && msgs[j].embeds > 0 by {
            if k < rt.len() {
                assert(res[k] == rt[k]);
                let j = choose|j: int|
                    0 <= j < t.len() && #[trigger] t[j].id == rt[k] && t[j].author == user
                        && t[j].embeds > 0;
                assert(msgs[j] == t[j]);
            } else {
                assert(msgs[msgs.len() - 1].id == res[k]);
            }
        }
    }
}

} // verus!
