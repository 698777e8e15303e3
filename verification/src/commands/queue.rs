//! `/queue`: lists the display names of the queued players by role.
use crate::functions::{
    dps_field_name, healer_field_name, is_field, tank_field_name, EmbedField, Player, Roles,
};
use std::collections::VecDeque;
use vstd::prelude::*;

verus! {

/// The names of the entries of role `r`, each followed by ", ", in queue
/// order; `names[i]` is the name of the entry `q[i]`.
pub open spec fn role_names(q: Seq<Player>, names: Seq<Seq<char>>, r: Roles) -> Seq<char>
    decreases q.len(),
{
    if q.len() == 0 {
        Seq::empty()
    } else {
        let rest = role_names(q.drop_last(), names, r);
        if q.last().role == r {
            rest + names[q.len() - 1] + ", "@
        } else {
            rest
        }
    }
}

/// `s` with every trailing ", " removed, repeatedly.
pub open spec fn trim_separators(s: Seq<char>) -> Seq<char>
    decreases s.len(),
{
    if s.len() >= 2 && s[s.len() - 2] == ',' && s[s.len() - 1] == ' ' {
        trim_separators(s.take(s.len() - 2))
    } else {
        s
    }
}

/// The text of one role's field in the queue listing.
pub open spec fn role_field(q: Seq<Player>, names: Seq<Seq<char>>, r: Roles) -> Seq<char> {
    trim_separators(role_names(q, names, r))
}

/// The queue listing: an embed (title, colour as 0xRRGGBB, fields).
pub struct QueueListing {
    pub title: String,
    pub colour: u32,
    pub fields: Vec<EmbedField>,
}

/// The colour of the queue listing (Discord's gold).
pub const LISTING_COLOUR: u32 = 0xF1C40F;

/// `s.trim_end_matches(", ")`.
fn trim_end_separators(s: &String) -> (r: String)
    ensures
        r@ == trim_separators(s@),
{
    let text = s.as_str();
    let len = text.unicode_len();
    let mut end = len;
    proof {
        assert(s@.take(len as int) =~= s@);
    }
    while end >= 2 && text.get_char(end - 2) == ',' && text.get_char(end - 1) == ' '
        invariant
            end <= len,
            len == s@.len(),
            text@ == s@,
            trim_separators(s@.take(end as int)) == trim_separators(s@),
        decreases end,
    {
        proof {
            let t = s@.take(end as int);
            assert(t[t.len() - 2] == s@[end - 2]);
            assert(t[t.len() - 1] == s@[end - 1]);
            assert(t.take(t.len() - 2) =~= s@.take(end - 2));
        }
        end -= 2;
    }
    proof {
        let t = s@.take(end as int);
        if end >= 2 {
            assert(t[t.len() - 2] == s@[end - 2]);
            assert(t[t.len() - 1] == s@[end - 1]);
        }
        assert(s@.subrange(0, end as int) =~= t);
    }
    text.substring_char(0, end).to_owned()
}

fn names_of_role(queue: &VecDeque<Player>, names: &Vec<String>, role: Roles) -> (r: String)
    requires
        names@.len() == queue@.len(),
    ensures
        r@ == role_names(queue@, names@.map_values(|n: String| n@), role),
{
    let ghost views = names@.map_values(|n: String| n@);
    let mut list = String::new();
    let mut i: usize = 0;
    proof {
        assert(queue@.take(0) =~= Seq::<Player>::empty());
    }
    while i < queue.len()
        invariant
            i <= queue@.len(),
            names@.len() == queue@.len(),
            views == names@.map_values(|n: String| n@),
            list@ == role_names(queue@.take(i as int), views, role),
        decreases queue@.len() - i,
    {
        let player = queue[i];
        proof {
            let t = queue@.take(i + 1);
            assert(t.drop_last() =~= queue@.take(i as int));
            assert(t.last() == player);
            assert(views[i as int] == names@[i as int]@);
        }
        if player.role == role {
            list.append(names[i].as_str());
            list.append(", ");
            proof {
                assert(list@ =~= role_names(queue@.take(i as int), views, role) + views[i as int] + ", "@);
            }
        }
        i += 1;
    }
    proof {
        assert(queue@.take(queue@.len() as int) =~= queue@);
    }
    list
}

/// The queue listing, titled "The following players are in the queue", in
/// gold, with one inline field per role named by its emoji: the display names
/// of the role's entries in queue order, separated by ", " (trailing ", "
/// removed). `names[i]` is the display name of the user of the entry
/// `queue[i]`.
pub fn run(queue: &VecDeque<Player>, names: &Vec<String>) -> (r: QueueListing)
    requires
        names@.len() == queue@.len(),
    ensures
        r.title@ == "The following players are in the queue"@,
        r.colour == LISTING_COLOUR,
        r.fields@.len() == 3,
        is_field(
            r.fields@[0],
            tank_field_name(),
            role_field(queue@, names@.map_values(|n: String| n@), Roles::Tank),
        ),
        is_field(
            r.fields@[1],
            healer_field_name(),
            role_field(queue@, names@.map_values(|n: String| n@), Roles::Healer),
        ),
        is_field(
            r.fields@[2],
            dps_field_name(),
            role_field(queue@, names@.map_values(|n: String| n@), Roles::Dps),
        ),
{
    let tank_queue = names_of_role(queue, names, Roles::Tank);
    let healer_queue = names_of_role(queue, names, Roles::Healer);
    let dps_queue = names_of_role(queue, names, Roles::Dps);
    let fields = vec![
        EmbedField {
            name: "<:tank:444634700523241512>".to_owned(),
            value: trim_end_separators(&tank_queue),
            inline: true,
        },
        EmbedField {
            name: "<:heal:444634700363857921>".to_owned(),
            value: trim_end_separators(&healer_queue),
            inline: true,
        },
        EmbedField {
            name: "<:dps:444634700531630094>".to_owned(),
            value: trim_end_separators(&dps_queue),
            inline: true,
        },
    ];
    QueueListing {
        title: "The following players are in the queue".to_owned(),
        colour: LISTING_COLOUR,
        fields: fields,
    }
}

} // verus!
