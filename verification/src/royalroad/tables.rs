use vstd::prelude::*;

use crate::error::AugurError;
use crate::royalroad::add::{
    add_transition, subscription, AddAnswerView, AddFlowView, AddStageView, AddStepView, SETUP_DONE,
};
use crate::royalroad::remove::{cleared_text, remove_transition, RemoveAnswerView, RemoveFlowView, RemoveStepView};
use crate::royalroad::royalstruct::{chapters_of_page, stored_novels, update_outcome, GuildView, NovelView};
use crate::update::{refreshed, update_transition, UpdateAnswerView, UpdateRunView, UpdateStageView, UpdateStepView};

verus! {

// What the commands and the update do to the database, stated over the two
// tables as the schema defines them: `Novels` keyed by `novel_id`, and
// `Guilds` with `UNIQUE(channel_id, novel_id)`. The tables answer each request
// of a flow as SQL does; a flow runs alone against them.

/// The two tables: each stored novel id with its link and chapter list, and the
/// subscription rows.
pub struct Tables {
    pub novels: Map<Seq<char>, (Seq<char>, Seq<char>)>,
    pub guilds: Set<GuildView>,
}

/// Whether a novel with the link `link` is stored.
pub open spec fn link_known(t: Tables, link: Seq<char>) -> bool {
    exists|id: Seq<char>| #[trigger] t.novels.contains_key(id) && t.novels[id].0 == link
}

/// Whether a subscription row for the same channel and novel as `g` is stored.
pub open spec fn has_key(guilds: Set<GuildView>, g: GuildView) -> bool {
    exists|r: GuildView| #[trigger] guilds.contains(r) && r.channel_id == g.channel_id && r.novel_id == g.novel_id
}

/// What the bot keeps true of its tables: a link is stored under one id only,
/// a channel follows a novel through one row only, and every subscription names
/// a stored novel.
pub open spec fn tables_wf(t: Tables) -> bool {
    &&& forall|i: Seq<char>, j: Seq<char>|
        #[trigger] t.novels.contains_key(i) && #[trigger] t.novels.contains_key(j) && t.novels[i].0
            == t.novels[j].0 ==> i == j
    &&& forall|r: GuildView, q: GuildView|
        #[trigger] t.guilds.contains(r) && #[trigger] t.guilds.contains(q) && r.channel_id
            == q.channel_id && r.novel_id == q.novel_id ==> r == q
    &&& forall|r: GuildView| #[trigger] t.guilds.contains(r) ==> t.novels.contains_key(r.novel_id)
}

/// The lookup of a novel by its link: the id stored under that link, if any.
pub open spec fn found_by_link(t: Tables, link: Seq<char>, found: Option<Seq<char>>) -> bool {
    &&& (found is Some <==> link_known(t, link))
    &&& found is Some ==> t.novels.contains_key(found->0) && t.novels[found->0].0 == link
}

/// How the tables answer what `>royalroad add` asks for (`a`), and what they
/// hold afterwards (`t2`). A page can come back as anything.
pub open spec fn tables_answer_add(t: Tables, s: AddStepView, a: AddAnswerView, t2: Tables) -> bool {
    match s {
        AddStepView::FindNovel(link) => {
            &&& t2 == t
            &&& a is Found
            &&& found_by_link(t, link, a->Found_0)
        },
        AddStepView::FetchPage(_) => t2 == t && a is Page,
        AddStepView::InsertNovel(n) => {
            let ok = !t.novels.contains_key(n.novel_id);
            &&& a == AddAnswerView::Stored(ok)
            &&& t2 == if ok {
                Tables { novels: t.novels.insert(n.novel_id, (n.novel_link, n.chapter_id)), guilds: t.guilds }
            } else {
                t
            }
        },
        AddStepView::InsertGuild(g) => {
            let ok = !has_key(t.guilds, g);
            &&& a == AddAnswerView::Stored(ok)
            &&& t2 == if ok { Tables { novels: t.novels, guilds: t.guilds.insert(g) } } else { t }
        },
        _ => false,
    }
}

/// How the tables answer what `>royalroad remove` asks for: the delete drops
/// every row of the channel for the novel.
pub open spec fn tables_answer_remove(t: Tables, s: RemoveStepView, a: RemoveAnswerView, t2: Tables) -> bool {
    match s {
        RemoveStepView::FindNovel(link) => {
            &&& t2 == t
            &&& a is Found
            &&& found_by_link(t, link, a->Found_0)
        },
        RemoveStepView::DeleteGuild(g) => {
            &&& a == RemoveAnswerView::Deleted(true)
            &&& t2 == Tables {
                novels: t.novels,
                guilds: t.guilds.filter(|r: GuildView| !(r.channel_id == g.channel_id && r.novel_id == g.novel_id)),
            }
        },
        _ => false,
    }
}

/// What holds of `>royalroad add` at the flow `f`, asking `s`, on tables that
/// were `t0` when it started and are `t` now: the tables stay well-formed,
/// subscriptions are untouched until the last insert, and the reply
/// `Setup has been successful` comes exactly with the one new subscription row.
pub open spec fn add_run_inv(f: AddFlowView, s: AddStepView, t0: Tables, t: Tables) -> bool {
    &&& tables_wf(t)
    &&& match s {
        AddStepView::FindNovel(link) => f.stage is LookUp && link == f.novel_link && t == t0,
        AddStepView::FetchPage(link) => {
            &&& f.stage is Fetch
            &&& link == f.novel_link
            &&& !link_known(t, f.novel_link)
            &&& t.guilds == t0.guilds
        },
        AddStepView::InsertNovel(n) => {
            &&& f.stage == AddStageView::StoreNovel { novel: n }
            &&& n.novel_link == f.novel_link
            &&& !n.precedent
            &&& !link_known(t, f.novel_link)
            &&& t.guilds == t0.guilds
        },
        AddStepView::InsertGuild(g) => {
            &&& f.stage is StoreGuild
            &&& g == subscription(f, g.novel_id)
            &&& t.novels.contains_key(g.novel_id)
            &&& t.novels[g.novel_id].0 == f.novel_link
            &&& t.guilds == t0.guilds
        },
        AddStepView::Reply(m) => if m == SETUP_DONE@ {
            exists|id: Seq<char>|
                #[trigger] t.novels.contains_key(id) && t.novels[id].0 == f.novel_link
                    && !has_key(t0.guilds, subscription(f, id)) && t.guilds == t0.guilds.insert(
                    subscription(f, id),
                )
        } else {
            t.guilds == t0.guilds
        },
        AddStepView::Halt => t.guilds == t0.guilds,
    }
}

proof fn lemma_error_text_not_setup(e: AugurError)
    ensures
        e.spec_text() != SETUP_DONE@,
{
    reveal_strlit("Setup has been successful");
    reveal_strlit("NonExistentNovel, Novel not found");
    reveal_strlit("NonExistentGuild, No novels setup in Guild");
    reveal_strlit("UniqueConstraint, Novel has already been setup in this channel");
    reveal_strlit("NoChapters, No chapters found for provided novel");
    reveal_strlit("InvalidLink, Provided novel link is invalid");
    reveal_strlit("FailedQuery, Something went wrong while querying the database");
    reveal_strlit("FailedDiscordRequest, Request to Discord API failed");
    assert(e.spec_text().len() != SETUP_DONE@.len());
}

/// `>royalroad add` starts its run on well-formed tables.
pub proof fn lemma_add_run_start(f: AddFlowView, t0: Tables)
    requires
        tables_wf(t0),
        f.stage is LookUp,
    ensures
        add_run_inv(f, AddStepView::FindNovel(f.novel_link), t0, t0),
{
}

/// Each step of `>royalroad add` against the tables keeps its run invariant:
/// whatever it replies, the tables stay well-formed, and the subscriptions
/// change only by the one row that a successful add reports.
pub proof fn lemma_add_run_step(
    f: AddFlowView,
    s: AddStepView,
    t0: Tables,
    t: Tables,
    a: AddAnswerView,
    t2: Tables,
    g: AddFlowView,
    s2: AddStepView,
)
    requires
        add_run_inv(f, s, t0, t),
        tables_answer_add(t, s, a, t2),
        add_transition(f, a, g, s2),
    ensures
        add_run_inv(g, s2, t0, t2),
{
    match s {
        AddStepView::FindNovel(link) => {},
        AddStepView::FetchPage(link) => {
            match s2 {
                AddStepView::Reply(m) => {
                    let page = a->Page_0;
                    let e = crate::royalroad::royalstruct::chapters_of_page(page)->0->Err_0;
                    lemma_error_text_not_setup(e);
                },
                _ => {},
            }
        },
        AddStepView::InsertNovel(n) => {
            if a == AddAnswerView::Stored(true) {
                assert(t2.novels.contains_key(n.novel_id));
                assert forall|i: Seq<char>, j: Seq<char>|
                    #[trigger] t2.novels.contains_key(i) && #[trigger] t2.novels.contains_key(j)
                        && t2.novels[i].0 == t2.novels[j].0 implies i == j by {
                    if i != n.novel_id && j != n.novel_id {
                        assert(t.novels.contains_key(i) && t.novels.contains_key(j));
                    } else if i != j {
                        let k = if i == n.novel_id { j } else { i };
                        assert(t.novels.contains_key(k) && t.novels[k].0 == f.novel_link);
                    }
                }
            } else {
                lemma_error_text_not_setup(AugurError::UniqueConstraint);
            }
        },
        AddStepView::InsertGuild(row) => {
            let id = row.novel_id;
            if a == AddAnswerView::Stored(true) {
                assert(t2.guilds.contains(row));
                assert(subscription(g, id) == row);
                assert(t.novels.contains_key(id) && t2.novels[id].0 == g.novel_link);
                assert(!has_key(t0.guilds, subscription(g, id)));
                assert forall|r: GuildView, q: GuildView|
                    #[trigger] t2.guilds.contains(r) && #[trigger] t2.guilds.contains(q)
                        && r.channel_id == q.channel_id && r.novel_id == q.novel_id implies r == q by {
                    if r != row && q != row {
                        assert(t.guilds.contains(r) && t.guilds.contains(q));
                    } else if r != q {
                        let k = if r == row { q } else { r };
                        assert(t.guilds.contains(k));
                    }
                }
                assert(s2 == AddStepView::Reply(SETUP_DONE@));
            } else {
                lemma_error_text_not_setup(AugurError::UniqueConstraint);
            }
        },
        _ => {},
    }
}

/// A second `>royalroad add` of a novel the channel already follows is refused
/// with `UniqueConstraint` and leaves the tables as they were.
pub proof fn lemma_second_add_refused(
    f: AddFlowView,
    t: Tables,
    a1: AddAnswerView,
    t1: Tables,
    g1: AddFlowView,
    s1: AddStepView,
    a2: AddAnswerView,
    t2: Tables,
    g2: AddFlowView,
    s2: AddStepView,
)
    requires
        tables_wf(t),
        f.stage is LookUp,
        exists|id: Seq<char>|
            #[trigger] t.novels.contains_key(id) && t.novels[id].0 == f.novel_link && t.guilds.contains(
                subscription(f, id),
            ),
        tables_answer_add(t, AddStepView::FindNovel(f.novel_link), a1, t1),
        add_transition(f, a1, g1, s1),
        tables_answer_add(t1, s1, a2, t2),
        add_transition(g1, a2, g2, s2),
    ensures
        s2 == AddStepView::Reply(AugurError::UniqueConstraint.spec_text()),
        t2 == t,
{
    let id = choose|id: Seq<char>|
        #[trigger] t.novels.contains_key(id) && t.novels[id].0 == f.novel_link && t.guilds.contains(
            subscription(f, id),
        );
    let found = a1->Found_0;
    assert(found is Some);
    assert(found->0 == id);
    let row = subscription(f, id);
    assert(s1 == AddStepView::InsertGuild(row));
    assert(has_key(t1.guilds, row));
}

/// `>royalroad remove` undoes a successful `>royalroad add` of the same link in
/// the same channel of the same guild: it answers that the subscription was
/// cleared and leaves the subscriptions as they were before the add (the novel
/// that add may have stored stays).
pub proof fn lemma_remove_undoes_add(
    fa: AddFlowView,
    t0: Tables,
    t1: Tables,
    rf: RemoveFlowView,
    a1: RemoveAnswerView,
    t2: Tables,
    g1: RemoveFlowView,
    s1: RemoveStepView,
    a2: RemoveAnswerView,
    t3: Tables,
    g2: RemoveFlowView,
    s2: RemoveStepView,
)
    requires
        add_run_inv(fa, AddStepView::Reply(SETUP_DONE@), t0, t1),
        rf.stage is LookUp,
        rf.novel_link == fa.novel_link,
        rf.guild == fa.guild,
        rf.channel == fa.channel,
        tables_answer_remove(t1, RemoveStepView::FindNovel(rf.novel_link), a1, t2),
        remove_transition(rf, a1, g1, s1),
        tables_answer_remove(t2, s1, a2, t3),
        remove_transition(g1, a2, g2, s2),
    ensures
        s2 is Reply,
        s1 is DeleteGuild,
        s2 == RemoveStepView::Reply(cleared_text(rf.novel_link, s1->DeleteGuild_0)),
        t3.guilds == t0.guilds,
{
    let id = choose|id: Seq<char>|
        #[trigger] t1.novels.contains_key(id) && t1.novels[id].0 == fa.novel_link && !has_key(
            t0.guilds,
            subscription(fa, id),
        ) && t1.guilds == t0.guilds.insert(subscription(fa, id));
    let row = subscription(fa, id);
    let found = a1->Found_0;
    assert(found is Some);
    assert(found->0 == id);
    assert(s1 == RemoveStepView::DeleteGuild(row));
    let pred = |r: GuildView| !(r.channel_id == row.channel_id && r.novel_id == row.novel_id);
    assert(t3.guilds =~= t0.guilds) by {
        assert forall|r: GuildView| t3.guilds.contains(r) == t0.guilds.contains(r) by {
            if t0.guilds.contains(r) {
                if !pred(r) {
                    assert(has_key(t0.guilds, row));
                }
            }
        }
    }
}

/// Whether `ns` are the rows of `Novels` in `t`, as `SELECT novel_id,
/// novel_link, chapter_id FROM Novels` gives them: each names a stored novel
/// with its link and chapter list, no id comes twice, and every stored novel
/// comes.
pub open spec fn novels_match(t: Tables, ns: Seq<NovelView>) -> bool {
    &&& forall|j: int|
        #![trigger ns[j]]
        0 <= j < ns.len() ==> t.novels.contains_key(ns[j].novel_id) && t.novels[ns[j].novel_id] == (
            ns[j].novel_link,
            ns[j].chapter_id,
        )
    &&& forall|i: int, j: int|
        0 <= i < ns.len() && 0 <= j < ns.len() && i != j ==> #[trigger] ns[i].novel_id != #[trigger] ns[j].novel_id
    &&& forall|k: Seq<char>|
        #[trigger] t.novels.contains_key(k) ==> exists|j: int| 0 <= j < ns.len() && #[trigger] ns[j].novel_id == k
}

/// Whether `ids` are the channels of the rows of `Guilds` in `t` for the novel
/// `id`, as `SELECT channel_id FROM Guilds WHERE novel_id = ?` gives them.
pub open spec fn channels_match(t: Tables, id: Seq<char>, ids: Seq<Seq<char>>) -> bool {
    &&& forall|i: int|
        0 <= i < ids.len() ==> exists|r: GuildView|
            #[trigger] t.guilds.contains(r) && r.novel_id == id && r.channel_id == #[trigger] ids[i]
    &&& forall|r: GuildView| #[trigger] t.guilds.contains(r) && r.novel_id == id ==> ids.contains(r.channel_id)
}

/// The tables after `UPDATE Novels SET chapter_id = ? WHERE novel_id = ?` for
/// the novel `n`, where `ran` says whether the statement ran: the row of that
/// id, if there is one, gets the chapter list of `n`; nothing else changes.
pub open spec fn chapters_stored(t: Tables, n: NovelView, ran: bool) -> Tables {
    if ran && t.novels.contains_key(n.novel_id) {
        Tables {
            novels: t.novels.insert(n.novel_id, (t.novels[n.novel_id].0, n.chapter_id)),
            guilds: t.guilds,
        }
    } else {
        t
    }
}

/// How the tables answer what an update asks for (`a`), and what they hold
/// afterwards (`t2`). A page can come back as anything, and a query can fail.
pub open spec fn tables_answer_update(t: Tables, s: UpdateStepView, a: UpdateAnswerView, t2: Tables) -> bool {
    match s {
        UpdateStepView::LoadNovels => {
            &&& t2 == t
            &&& a is Novels
            &&& a->Novels_0 is Some ==> novels_match(t, stored_novels(a->Novels_0->0))
        },
        UpdateStepView::FetchPage(_) => t2 == t && a is Page,
        UpdateStepView::StoreChapters(n) => a is Stored && t2 == chapters_stored(t, n, a->Stored_0),
        UpdateStepView::LoadChannels(id) => {
            &&& t2 == t
            &&& a is Channels
            &&& a->Channels_0 is Some ==> channels_match(t, id, a->Channels_0->0)
        },
        UpdateStepView::Send { .. } => t2 == t && a == UpdateAnswerView::Sent,
        _ => false,
    }
}

/// Storing a novel's chapter list: where `RoyalNovel::update` reports `Ok`,
/// the row of that novel holds the new list and keeps its link, and no other
/// row changes and none is added; where it reports `FailedQuery`, `Novels` is
/// as it was. `Guilds` never changes.
pub proof fn lemma_store_chapters(t: Tables, n: NovelView, stored: bool, t2: Tables)
    requires
        tables_answer_update(t, UpdateStepView::StoreChapters(n), UpdateAnswerView::Stored(stored), t2),
    ensures
        t2.guilds == t.guilds,
        t2.novels.dom() == t.novels.dom(),
        forall|k: Seq<char>| #[trigger] t2.novels.contains_key(k) && k != n.novel_id ==> t2.novels[k] == t.novels[k],
        update_outcome(stored) == Ok::<(), AugurError>(()) && t.novels.contains_key(n.novel_id) ==> t2.novels[n.novel_id]
            == (t.novels[n.novel_id].0, n.chapter_id),
        update_outcome(stored) == Err::<(), AugurError>(AugurError::FailedQuery) ==> t2 == t,
{
    if stored && t.novels.contains_key(n.novel_id) {
        assert(t2.novels.dom() =~= t.novels.dom());
    }
}

/// The chapter list that the row of novel `j` of `ns` holds once the lists
/// `lists` were stored for the first novels: its own stored list, or the one
/// it was read with.
pub open spec fn list_now(ns: Seq<NovelView>, lists: Seq<Seq<char>>, j: int) -> Seq<char> {
    if j < lists.len() {
        lists[j]
    } else {
        ns[j].chapter_id
    }
}

/// The tables `t` during an update that read the novels `ns` from the tables
/// `t0` and has stored `lists` for the first of them: `Guilds` is untouched,
/// `Novels` has the same rows with the same links, and each row holds its
/// list now.
pub open spec fn rows_hold(t0: Tables, t: Tables, ns: Seq<NovelView>, lists: Seq<Seq<char>>) -> bool {
    &&& novels_match(t0, ns)
    &&& lists.len() <= ns.len()
    &&& t.guilds == t0.guilds
    &&& t.novels.dom() == t0.novels.dom()
    &&& forall|j: int|
        0 <= j < ns.len() ==> #[trigger] t.novels[ns[j].novel_id] == (ns[j].novel_link, list_now(ns, lists, j))
}

/// What holds of an update at the run `f`, asking `s`, on tables that were
/// `t0` when it started and are `t` now, where `lists` are the chapter lists
/// that the rows of the novels done so far hold.
pub open spec fn update_run_inv(f: UpdateRunView, s: UpdateStepView, t0: Tables, t: Tables, lists: Seq<Seq<char>>) -> bool {
    match s {
        UpdateStepView::LoadNovels => f.stage is Load && t == t0 && lists.len() == 0,
        UpdateStepView::FetchPage(link) => {
            &&& f.stage is Fetch
            &&& lists.len() == f.stage->Fetch_index < f.novels.len()
            &&& link == f.novels[f.stage->Fetch_index].novel_link
            &&& rows_hold(t0, t, f.novels, lists)
        },
        UpdateStepView::StoreChapters(n) => {
            &&& f.stage is Store
            &&& f.stage->fresh == n
            &&& lists.len() == f.stage->Store_index < f.novels.len()
            &&& n.novel_id == f.novels[f.stage->Store_index].novel_id
            &&& rows_hold(t0, t, f.novels, lists)
        },
        UpdateStepView::LoadChannels(_) => {
            &&& f.stage is Channels
            &&& lists.len() == f.stage->Channels_index + 1 <= f.novels.len()
            &&& rows_hold(t0, t, f.novels, lists)
        },
        UpdateStepView::Send { .. } => {
            &&& f.stage is Send
            &&& lists.len() == f.stage->Send_index + 1 <= f.novels.len()
            &&& rows_hold(t0, t, f.novels, lists)
        },
        UpdateStepView::Finish(Err(_)) => t == t0,
        _ => rows_hold(t0, t, f.novels, lists),
    }
}

/// An update starts on the tables as they are, with nothing stored yet.
pub proof fn lemma_update_run_start(f: UpdateRunView, t0: Tables)
    requires
        f.stage is Load,
    ensures
        update_run_inv(f, UpdateStepView::LoadNovels, t0, t0, Seq::<Seq<char>>::empty()),
{
}

/// Each step of an update against the tables keeps its run invariant. The
/// store of a novel's chapter list adds that list to the lists stored where
/// it ran, and the list the row had where it did not; no other step stores
/// anything. An update that ends in `Finish(Ok(()))` other than on a failed
/// read of a novel's channels has stored a list for every novel.
pub proof fn lemma_update_run_step(
    f: UpdateRunView,
    s: UpdateStepView,
    t0: Tables,
    t: Tables,
    lists: Seq<Seq<char>>,
    a: UpdateAnswerView,
    t2: Tables,
    g: UpdateRunView,
    s2: UpdateStepView,
) -> (lists2: Seq<Seq<char>>)
    requires
        update_run_inv(f, s, t0, t, lists),
        tables_answer_update(t, s, a, t2),
        update_transition(f, a, g, s2),
    ensures
        update_run_inv(g, s2, t0, t2, lists2),
        lists2 == match s {
            UpdateStepView::StoreChapters(n) => lists.push(
                if a == UpdateAnswerView::Stored(true) {
                    n.chapter_id
                } else {
                    f.novels[lists.len() as int].chapter_id
                },
            ),
            _ => lists,
        },
        s2 == UpdateStepView::Finish(Ok(())) && !(s is LoadChannels) ==> lists2.len() == g.novels.len(),
{
    if s is StoreChapters {
        let n = s->StoreChapters_0;
        let i = lists.len() as int;
        let ns = f.novels;
        let v = if a == UpdateAnswerView::Stored(true) { n.chapter_id } else { ns[i].chapter_id };
        let next = lists.push(v);
        assert(t.novels.contains_key(ns[i].novel_id));
        assert forall|j: int| 0 <= j < ns.len() implies #[trigger] t2.novels[ns[j].novel_id] == (
            ns[j].novel_link,
            list_now(ns, next, j),
        ) by {
            assert(t0.novels.contains_key(ns[j].novel_id));
            if j != i {
                assert(ns[j].novel_id != ns[i].novel_id);
            }
        }
        assert(t2.novels.dom() =~= t0.novels.dom());
        next
    } else {
        lists
    }
}

/// When an update has gone through every novel, `Guilds` is as it was before
/// it, and `Novels` has the same rows with the same links, each holding the
/// chapter list stored for it.
pub proof fn lemma_update_run_end(f: UpdateRunView, t0: Tables, t: Tables, lists: Seq<Seq<char>>)
    requires
        update_run_inv(f, UpdateStepView::Finish(Ok(())), t0, t, lists),
        lists.len() == f.novels.len(),
    ensures
        t.guilds == t0.guilds,
        t.novels.dom() == t0.novels.dom(),
        forall|k: Seq<char>| #[trigger] t.novels.contains_key(k) ==> exists|j: int|
            0 <= j < f.novels.len() && #[trigger] f.novels[j].novel_id == k && t.novels[k] == (t0.novels[k].0, lists[j]),
{
    assert forall|k: Seq<char>| #[trigger] t.novels.contains_key(k) implies exists|j: int|
        0 <= j < f.novels.len() && #[trigger] f.novels[j].novel_id == k && t.novels[k] == (t0.novels[k].0, lists[j]) by {
        assert(t0.novels.contains_key(k));
        let j = choose|j: int| 0 <= j < f.novels.len() && #[trigger] f.novels[j].novel_id == k;
        assert(t.novels[f.novels[j].novel_id] == (f.novels[j].novel_link, list_now(f.novels, lists, j)));
        assert(t0.novels.contains_key(f.novels[j].novel_id));
    }
}

/// What an update reads off a novel's page ends up in that novel's row: once
/// the store that follows the page has run, the row holds the chapter list
/// read off the page (an empty one where none could be read) and keeps its
/// link, while every other row, and `Guilds`, are as they were.
pub proof fn lemma_update_stores_page(
    f: UpdateRunView,
    s: UpdateStepView,
    t0: Tables,
    t: Tables,
    lists: Seq<Seq<char>>,
    page: Option<Seq<char>>,
    g: UpdateRunView,
    s2: UpdateStepView,
    t2: Tables,
)
    requires
        s is FetchPage,
        update_run_inv(f, s, t0, t, lists),
        update_transition(f, UpdateAnswerView::Page(page), g, s2),
        s2 is StoreChapters,
        tables_answer_update(t, s2, UpdateAnswerView::Stored(true), t2),
    ensures
        chapters_of_page(page) is Some,
        t2.guilds == t0.guilds,
        t2.novels.dom() == t0.novels.dom(),
        t2.novels[f.novels[lists.len() as int].novel_id] == (
            f.novels[lists.len() as int].novel_link,
            refreshed(f.novels[lists.len() as int], chapters_of_page(page)->0).chapter_id,
        ),
        forall|k: Seq<char>|
            #[trigger] t2.novels.contains_key(k) && k != f.novels[lists.len() as int].novel_id ==> t2.novels[k]
                == t.novels[k],
{
    let i = lists.len() as int;
    assert(t0.novels.contains_key(f.novels[i].novel_id));
    assert(t.novels[f.novels[i].novel_id] == (f.novels[i].novel_link, list_now(f.novels, lists, i)));
    assert(t2.novels.dom() =~= t0.novels.dom());
}

/// `>royalroad add` of a link the tables do not know, whose page lists
/// chapters, stores the novel under the id it drew, with the link and the
/// chapter list read off the page, subscribes the channel to it, and replies
/// `Setup has been successful`; the tables stay well-formed. The id is drawn at
/// random (a version 4 UUID); this holds for every draw that is not already a
/// key of `Novels`.
pub proof fn lemma_add_new_novel_succeeds(
    f: AddFlowView,
    t0: Tables,
    a1: AddAnswerView,
    t1: Tables,
    g1: AddFlowView,
    s1: AddStepView,
    page: Option<Seq<char>>,
    t2: Tables,
    g2: AddFlowView,
    s2: AddStepView,
    a3: AddAnswerView,
    t3: Tables,
    g3: AddFlowView,
    s3: AddStepView,
    a4: AddAnswerView,
    t4: Tables,
    g4: AddFlowView,
    s4: AddStepView,
)
    requires
        tables_wf(t0),
        f.stage is LookUp,
        !link_known(t0, f.novel_link),
        tables_answer_add(t0, AddStepView::FindNovel(f.novel_link), a1, t1),
        add_transition(f, a1, g1, s1),
        tables_answer_add(t1, s1, AddAnswerView::Page(page), t2),
        add_transition(g1, AddAnswerView::Page(page), g2, s2),
        chapters_of_page(page) matches Some(Ok(_)),
        g1.stage is Fetch ==> !t0.novels.contains_key(g1.stage->novel_id),
        tables_answer_add(t2, s2, a3, t3),
        add_transition(g2, a3, g3, s3),
        tables_answer_add(t3, s3, a4, t4),
        add_transition(g3, a4, g4, s4),
    ensures
        g1.stage is Fetch,
        s4 == AddStepView::Reply(SETUP_DONE@),
        t4.novels == t0.novels.insert(
            g1.stage->novel_id,
            (f.novel_link, chapters_of_page(page)->0->Ok_0),
        ),
        !t0.guilds.contains(subscription(f, g1.stage->novel_id)),
        t4.guilds == t0.guilds.insert(subscription(f, g1.stage->novel_id)),
        tables_wf(t4),
{
    let id = g1.stage->novel_id;
    let row = subscription(f, id);
    assert(a1 == AddAnswerView::Found(None));
    assert(s2 is InsertNovel);
    assert(a3 == AddAnswerView::Stored(true));
    assert(s3 == AddStepView::InsertGuild(row));
    assert(!has_key(t3.guilds, row)) by {
        if has_key(t3.guilds, row) {
            let r = choose|r: GuildView|
                #[trigger] t3.guilds.contains(r) && r.channel_id == row.channel_id && r.novel_id == row.novel_id;
            assert(t0.guilds.contains(r));
        }
    }
    assert(a4 == AddAnswerView::Stored(true));
    assert(t3.novels.contains_key(id));
    assert forall|i: Seq<char>, j: Seq<char>|
        #[trigger] t4.novels.contains_key(i) && #[trigger] t4.novels.contains_key(j) && t4.novels[i].0
            == t4.novels[j].0 implies i == j by {
        if i != id && j != id {
            assert(t0.novels.contains_key(i) && t0.novels.contains_key(j));
        } else if i != j {
            let k = if i == id { j } else { i };
            assert(t0.novels.contains_key(k) && t0.novels[k].0 == f.novel_link);
        }
    }
    assert forall|r: GuildView, q: GuildView|
        #[trigger] t4.guilds.contains(r) && #[trigger] t4.guilds.contains(q) && r.channel_id == q.channel_id
            && r.novel_id == q.novel_id implies r == q by {
        if r != row && q != row {
            assert(t0.guilds.contains(r) && t0.guilds.contains(q));
        } else if r != q {
            let k = if r == row { q } else { r };
            assert(t0.guilds.contains(k));
        }
    }
}

} // verus!
