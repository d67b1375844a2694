use vstd::prelude::*;

use crate::error::{AugurError, PendingMessage};
use crate::royalroad::royalstruct::{pairs_view, swapped, RoyalGuild};
use crate::text::{decimal, u64_to_decimal};

verus! {

/// The line that says that channel `channel` follows the novel at `link`.
pub open spec fn houses_line(channel: Seq<char>, link: Seq<char>) -> Seq<char> {
    "<#"@ + channel + "> currently houses <"@ + link + ">\n"@
}

/// The lines for the `(channel_id, novel_link)` pairs `pairs`, in order.
pub open spec fn houses_text(pairs: Seq<(Seq<char>, Seq<char>)>) -> Seq<char>
    decreases pairs.len(),
{
    if pairs.len() == 0 {
        seq![]
    } else {
        houses_text(pairs.drop_last()) + houses_line(pairs.last().0, pairs.last().1)
    }
}

/// The reply to `>royalroad check`, from the rows `(novel_link, channel_id)`
/// that the database returned for the guild (`None` where the query failed).
pub open spec fn check_reply(rows: Option<Seq<(Seq<char>, Seq<char>)>>) -> Seq<char> {
    match rows {
        None => AugurError::FailedQuery.spec_text(),
        Some(v) => if v.len() == 0 {
            AugurError::NonExistentGuild.spec_text()
        } else {
            houses_text(swapped(v))
        },
    }
}

/// The view of optional rows of string pairs.
pub open spec fn opt_pairs_view(rows: Option<Vec<(String, String)>>) -> Option<Seq<(Seq<char>, Seq<char>)>> {
    match rows {
        Some(v) => Some(pairs_view(v@)),
        None => None,
    }
}

/// The value by which the rows of a guild are looked up in `Guilds`: its id in
/// decimal. There must be a guild: the bot cannot go on without one.
pub fn guild_key(guild: Option<u64>) -> (key: String)
    requires
        guild is Some,
    ensures
        key@ == decimal(guild->0 as nat),
{
    match guild {
        Some(g) => u64_to_decimal(g),
        None => String::new(),
    }
}

/// The reply to `>royalroad check`: one line for each channel and the novel it
/// follows, from the rows `(novel_link, channel_id)` that the database returned
/// for the guild (`None` where the query failed).
pub fn check(rows: Option<Vec<(String, String)>>) -> (m: PendingMessage)
    ensures
        m@ == check_reply(opt_pairs_view(rows)),
{
    let contain = match RoyalGuild::check(rows) {
        Ok(contain) => contain,
        Err(e) => {
            return PendingMessage(e.text());
        },
    };
    let ghost cv = pairs_view(contain@);
    let mut temp = String::new();
    let mut i: usize = 0;
    while i < contain.len()
        invariant
            0 <= i <= contain.len(),
            cv == pairs_view(contain@),
            temp@ == houses_text(cv.take(i as int)),
        decreases contain.len() - i,
    {
        temp.append("<#");
        temp.append(contain[i].0.as_str());
        temp.append("> currently houses <");
        temp.append(contain[i].1.as_str());
        temp.append(">\n");
        assert(cv.take(i + 1).drop_last() =~= cv.take(i as int));
        assert(cv[i as int] == (contain@[i as int].0@, contain@[i as int].1@));
        assert(temp@ =~= houses_text(cv.take(i + 1)));
        i = i + 1;
    }
    assert(cv.take(contain.len() as int) =~= cv);
    PendingMessage(temp)
}

proof fn lemma_houses_text_lines(pairs: Seq<(Seq<char>, Seq<char>)>)
    ensures
        houses_text(pairs) == pairs.map_values(|q: (Seq<char>, Seq<char>)| houses_line(q.0, q.1)).flatten(),
    decreases pairs.len(),
{
    broadcast use Seq::lemma_flatten_push;

    let f = |q: (Seq<char>, Seq<char>)| houses_line(q.0, q.1);
    if pairs.len() > 0 {
        lemma_houses_text_lines(pairs.drop_last());
        assert(pairs.map_values(f) =~= pairs.drop_last().map_values(f).push(f(pairs.last())));
    } else {
        assert(pairs.map_values(f) =~= Seq::<Seq<char>>::empty());
    }
}

/// The reply to `>royalroad check` on the rows `v` that the database returned
/// for the guild, `(novel_link, channel_id)` each: where there are rows, it is
/// one line per row, in the order of the rows, saying that the row's channel
/// houses the row's novel; where there are none, it says that no novel is set
/// up in the guild; where the query failed, it says so.
pub proof fn lemma_check_reply_lines(rows: Option<Seq<(Seq<char>, Seq<char>)>>)
    ensures
        rows is None ==> check_reply(rows) == AugurError::FailedQuery.spec_text(),
        rows is Some && rows->0.len() == 0 ==> check_reply(rows) == AugurError::NonExistentGuild.spec_text(),
        rows is Some && rows->0.len() > 0 ==> check_reply(rows) == rows->0.map_values(
            |r: (Seq<char>, Seq<char>)| houses_line(r.1, r.0),
        ).flatten(),
{
    if rows is Some && rows->0.len() > 0 {
        let v = rows->0;
        lemma_houses_text_lines(swapped(v));
        assert(swapped(v).map_values(|q: (Seq<char>, Seq<char>)| houses_line(q.0, q.1)) =~= v.map_values(
            |r: (Seq<char>, Seq<char>)| houses_line(r.1, r.0),
        ));
    }
}

} // verus!
