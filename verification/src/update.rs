use vstd::prelude::*;

use crate::error::AugurError;
use crate::royalroad::royalstruct::{
    link_line, all_parse, chapters_of_page, chunk_texts, new_chapters, novels_view, opt_string_view,
    parsed_all, rows_view, stored_novels, MessageView, NovelView, RoyalMessage, RoyalNovel,
};
use crate::text::{parse_u64, strings_view, words};

verus! {

/// Where an update of every novel stands.
pub enum UpdateStage {
    /// Waiting for the novels stored in the database.
    Load,
    /// Waiting for the page of novel `index`.
    Fetch { index: usize },
    /// Waiting for the store of the fresh chapter list `fresh` of novel `index`.
    Store { index: usize, fresh: RoyalNovel },
    /// Waiting for the channels that follow novel `index`, to which `message`
    /// goes.
    Channels { index: usize, message: RoyalMessage },
    /// Waiting for the announcements of novel `index` to be sent.
    Send { index: usize },
    /// Over.
    Done,
}

/// An update of every novel: each novel's page is fetched again, its new
/// chapters are stored and announced in the channels that follow it.
pub struct UpdateRun {
    pub novels: Vec<RoyalNovel>,
    pub stage: UpdateStage,
}

/// What the update asks for next.
pub enum UpdateStep {
    /// Read every row of `Novels`; answer `Novels`.
    LoadNovels,
    /// Fetch the page at this address; answer `Page` with its text.
    FetchPage(String),
    /// Store this novel's chapter list (`UPDATE Novels`); answer `Stored`.
    StoreChapters(RoyalNovel),
    /// Read the channels that follow the novel with this id; answer `Channels`.
    LoadChannels(String),
    /// Send each text, in order, to each channel, in order (channel after
    /// channel); answer `Sent`.
    Send { channels: Vec<u64>, texts: Vec<String> },
    /// The update is over, with this outcome.
    Finish(Result<(), AugurError>),
    /// Stop: the chapter pattern failed on a page or a stored channel id does
    /// not read as a number (the bot cannot go on after either), or the answer did
    /// not fit what was asked.
    Halt,
}

/// The answer to what the update asked for.
pub enum UpdateAnswer {
    /// The rows `(novel_id, novel_link, chapter_id)` of `Novels`, or `None`
    /// where the query failed.
    Novels(Option<Vec<(String, String, String)>>),
    /// The text of the page, or `None` where it could not be fetched.
    Page(Option<String>),
    /// Whether the store ran (the update goes on either way).
    Stored(bool),
    /// The channel ids of the novel's rows in `Guilds`, or `None` where the
    /// query failed.
    Channels(Option<Vec<String>>),
    /// The texts were sent.
    Sent,
}

pub enum UpdateStageView {
    Load,
    Fetch { index: int },
    Store { index: int, fresh: NovelView },
    Channels { index: int, message: MessageView },
    Send { index: int },
    Done,
}

pub struct UpdateRunView {
    pub novels: Seq<NovelView>,
    pub stage: UpdateStageView,
}

pub enum UpdateStepView {
    LoadNovels,
    FetchPage(Seq<char>),
    StoreChapters(NovelView),
    LoadChannels(Seq<char>),
    Send { channels: Seq<u64>, texts: Seq<Seq<char>> },
    Finish(Result<(), AugurError>),
    Halt,
}

pub enum UpdateAnswerView {
    Novels(Option<Seq<(Seq<char>, Seq<char>, Seq<char>)>>),
    Page(Option<Seq<char>>),
    Stored(bool),
    Channels(Option<Seq<Seq<char>>>),
    Sent,
}

impl View for UpdateStage {
    type V = UpdateStageView;

    open spec fn view(&self) -> UpdateStageView {
        match self {
            UpdateStage::Load => UpdateStageView::Load,
            UpdateStage::Fetch { index } => UpdateStageView::Fetch { index: *index as int },
            UpdateStage::Store { index, fresh } => UpdateStageView::Store {
                index: *index as int,
                fresh: fresh@,
            },
            UpdateStage::Channels { index, message } => UpdateStageView::Channels {
                index: *index as int,
                message: message@,
            },
            UpdateStage::Send { index } => UpdateStageView::Send { index: *index as int },
            UpdateStage::Done => UpdateStageView::Done,
        }
    }
}

impl View for UpdateRun {
    type V = UpdateRunView;

    open spec fn view(&self) -> UpdateRunView {
        UpdateRunView { novels: novels_view(self.novels@), stage: self.stage@ }
    }
}

impl View for UpdateStep {
    type V = UpdateStepView;

    open spec fn view(&self) -> UpdateStepView {
        match self {
            UpdateStep::LoadNovels => UpdateStepView::LoadNovels,
            UpdateStep::FetchPage(l) => UpdateStepView::FetchPage(l@),
            UpdateStep::StoreChapters(n) => UpdateStepView::StoreChapters(n@),
            UpdateStep::LoadChannels(id) => UpdateStepView::LoadChannels(id@),
            UpdateStep::Send { channels, texts } => UpdateStepView::Send {
                channels: channels@,
                texts: strings_view(texts@),
            },
            UpdateStep::Finish(r) => UpdateStepView::Finish(*r),
            UpdateStep::Halt => UpdateStepView::Halt,
        }
    }
}

impl View for UpdateAnswer {
    type V = UpdateAnswerView;

    open spec fn view(&self) -> UpdateAnswerView {
        match self {
            UpdateAnswer::Novels(rows) => UpdateAnswerView::Novels(
                match rows {
                    Some(v) => Some(rows_view(v@)),
                    None => None,
                },
            ),
            UpdateAnswer::Page(p) => UpdateAnswerView::Page(opt_string_view(*p)),
            UpdateAnswer::Stored(b) => UpdateAnswerView::Stored(*b),
            UpdateAnswer::Channels(rows) => UpdateAnswerView::Channels(
                match rows {
                    Some(v) => Some(strings_view(v@)),
                    None => None,
                },
            ),
            UpdateAnswer::Sent => UpdateAnswerView::Sent,
        }
    }
}

/// The run `r` moves on to novel `i`: it fetches that novel's page, or is over
/// once every novel had its turn.
pub open spec fn advance(r: UpdateRunView, i: int, g: UpdateRunView, s: UpdateStepView) -> bool {
    if i >= r.novels.len() {
        g == UpdateRunView { stage: UpdateStageView::Done, ..r } && s == UpdateStepView::Finish(Ok(()))
    } else {
        &&& g == UpdateRunView { stage: UpdateStageView::Fetch { index: i }, ..r }
        &&& s == UpdateStepView::FetchPage(r.novels[i].novel_link)
    }
}

/// Novel `n` with the chapter list `chapters` read off its page; where no list
/// could be read (the page was not fetched, or shows no chapter) the list is
/// empty.
pub open spec fn refreshed(n: NovelView, chapters: Result<Seq<char>, AugurError>) -> NovelView {
    NovelView {
        novel_id: n.novel_id,
        novel_link: n.novel_link,
        chapter_id: match chapters {
            Ok(c) => c,
            Err(_) => seq![],
        },
        precedent: true,
    }
}

/// The message that announces what `fresh` lists and `n` did not.
pub open spec fn news(n: NovelView, fresh: NovelView) -> MessageView {
    MessageView {
        novel_id: n.novel_id,
        novel_link: n.novel_link,
        chapter_id: new_chapters(n.chapter_id, fresh.chapter_id),
        channel_id: None,
    }
}

/// One step of the update: from the run `f` and the answer `a`, the run `g`
/// and what it asks for next, `s`. The novels are taken in the order of the
/// database; a failed read of a novel's channels ends the whole update.
pub open spec fn update_transition(f: UpdateRunView, a: UpdateAnswerView, g: UpdateRunView, s: UpdateStepView) -> bool {
    match (f.stage, a) {
        (UpdateStageView::Load, UpdateAnswerView::Novels(None)) => {
            &&& g == UpdateRunView { stage: UpdateStageView::Done, ..f }
            &&& s == UpdateStepView::Finish(Err(AugurError::FailedQuery))
        },
        (UpdateStageView::Load, UpdateAnswerView::Novels(Some(rows))) => advance(
            UpdateRunView { novels: stored_novels(rows), stage: f.stage },
            0,
            g,
            s,
        ),
        (UpdateStageView::Fetch { index }, UpdateAnswerView::Page(page)) if 0 <= index
            < f.novels.len() => match chapters_of_page(page) {
            None => g == UpdateRunView { stage: UpdateStageView::Done, ..f } && s
                == UpdateStepView::Halt,
            Some(chapters) => {
                let fresh = refreshed(f.novels[index], chapters);
                &&& g == UpdateRunView { stage: UpdateStageView::Store { index, fresh }, ..f }
                &&& s == UpdateStepView::StoreChapters(fresh)
            },
        },
        (UpdateStageView::Store { index, fresh }, UpdateAnswerView::Stored(_)) if 0 <= index
            < f.novels.len() => {
            let message = news(f.novels[index], fresh);
            &&& g == UpdateRunView { stage: UpdateStageView::Channels { index, message }, ..f }
            &&& s == UpdateStepView::LoadChannels(f.novels[index].novel_id)
        },
        (UpdateStageView::Channels { index, message }, UpdateAnswerView::Channels(None)) => {
            &&& g == UpdateRunView { stage: UpdateStageView::Done, ..f }
            &&& s == UpdateStepView::Finish(Ok(()))
        },
        (UpdateStageView::Channels { index, message }, UpdateAnswerView::Channels(Some(ids))) => if all_parse(ids) {
            &&& g == UpdateRunView { stage: UpdateStageView::Send { index }, ..f }
            &&& s == UpdateStepView::Send {
                channels: parsed_all(ids),
                texts: chunk_texts(message.chapter_id),
            }
        } else {
            g == UpdateRunView { stage: UpdateStageView::Done, ..f } && s == UpdateStepView::Halt
        },
        (UpdateStageView::Send { index }, UpdateAnswerView::Sent) => advance(f, index + 1, g, s),
        _ => g == f && s == UpdateStepView::Halt,
    }
}

fn all_ids_parse(v: &Vec<String>) -> (b: bool)
    ensures
        b == all_parse(strings_view(v@)),
{
    let mut i: usize = 0;
    while i < v.len()
        invariant
            0 <= i <= v.len(),
            forall|j: int| 0 <= j < i ==> #[trigger] crate::text::parsed_u64(strings_view(v@)[j]) is Some,
        decreases v.len() - i,
    {
        assert(strings_view(v@)[i as int] == v@[i as int]@);
        if parse_u64(v[i].as_str()).is_none() {
            return false;
        }
        i = i + 1;
    }
    true
}

/// Starts an update of every novel: the stored novels are read first.
pub fn start_update() -> (r: (UpdateRun, UpdateStep))
    ensures
        r.0@ == (UpdateRunView { novels: seq![], stage: UpdateStageView::Load }),
        r.1@ == UpdateStepView::LoadNovels,
{
    let run = UpdateRun { novels: Vec::new(), stage: UpdateStage::Load };
    assert(run@.novels =~= Seq::<NovelView>::empty());
    (run, UpdateStep::LoadNovels)
}

impl UpdateRun {
    fn advance(novels: Vec<RoyalNovel>, index: usize) -> (r: (UpdateRun, UpdateStep))
        ensures
            advance(
                UpdateRunView { novels: novels_view(novels@), stage: UpdateStageView::Done },
                index as int,
                r.0@,
                r.1@,
            ),
    {
        if index >= novels.len() {
            (UpdateRun { novels, stage: UpdateStage::Done }, UpdateStep::Finish(Ok(())))
        } else {
            let link = novels[index].novel_link.clone();
            (UpdateRun { novels, stage: UpdateStage::Fetch { index } }, UpdateStep::FetchPage(link))
        }
    }

    /// Takes the answer to what the update asked for, and gives what it asks
    /// next.
    pub fn step(self, answer: UpdateAnswer) -> (r: (UpdateRun, UpdateStep))
        ensures
            update_transition(self@, answer@, r.0@, r.1@),
    {
        let UpdateRun { novels, stage } = self;
        match (stage, answer) {
            (UpdateStage::Load, UpdateAnswer::Novels(rows)) => {
                match RoyalNovel::retrieve_old(rows) {
                    Err(e) => (UpdateRun { novels, stage: UpdateStage::Done }, UpdateStep::Finish(Err(e))),
                    Ok(stored) => Self::advance(stored, 0),
                }
            },
            (UpdateStage::Fetch { index }, UpdateAnswer::Page(page)) if index < novels.len() => {
                let chapter_id = match RoyalNovel::get_chapters(page) {
                    None => return (UpdateRun { novels, stage: UpdateStage::Done }, UpdateStep::Halt),
                    Some(Ok(chapters)) => chapters,
                    Some(Err(_)) => String::new(),
                };
                let fresh = RoyalNovel {
                    novel_id: novels[index].novel_id.clone(),
                    novel_link: novels[index].novel_link.clone(),
                    chapter_id: chapter_id.clone(),
                    precedent: true,
                };
                let kept = RoyalNovel {
                    novel_id: novels[index].novel_id.clone(),
                    novel_link: novels[index].novel_link.clone(),
                    chapter_id,
                    precedent: true,
                };
                (UpdateRun { novels, stage: UpdateStage::Store { index, fresh: kept } }, UpdateStep::StoreChapters(fresh))
            },
            (UpdateStage::Store { index, fresh }, UpdateAnswer::Stored(_)) if index < novels.len() => {
                let message = novels[index].compare(&fresh);
                let id = novels[index].novel_id.clone();
                (UpdateRun { novels, stage: UpdateStage::Channels { index, message } }, UpdateStep::LoadChannels(id))
            },
            (UpdateStage::Channels { index, message }, UpdateAnswer::Channels(rows)) => {
                match rows {
                    None => (UpdateRun { novels, stage: UpdateStage::Done }, UpdateStep::Finish(Ok(()))),
                    Some(ids) => {
                        if !all_ids_parse(&ids) {
                            return (UpdateRun { novels, stage: UpdateStage::Done }, UpdateStep::Halt);
                        }
                        let channels = match RoyalMessage::retrieve_channel_groups(Some(ids)) {
                            Some(c) => c,
                            None => Vec::new(),
                        };
                        let texts = message.announcements();
                        (UpdateRun { novels, stage: UpdateStage::Send { index } }, UpdateStep::Send { channels, texts })
                    },
                }
            },
            (UpdateStage::Send { index }, UpdateAnswer::Sent) => {
                if index >= novels.len() {
                    return (UpdateRun { novels, stage: UpdateStage::Done }, UpdateStep::Finish(Ok(())));
                }
                Self::advance(novels, index + 1)
            },
            (stage, _) => (UpdateRun { novels, stage }, UpdateStep::Halt),
        }
    }
}


/// How far an update has come: novel by novel, and within a novel, stage by
/// stage.
pub open spec fn update_rank(stage: UpdateStageView) -> int {
    match stage {
        UpdateStageView::Load => 0,
        UpdateStageView::Fetch { index } => 4 * index + 1,
        UpdateStageView::Store { index, .. } => 4 * index + 2,
        UpdateStageView::Channels { index, .. } => 4 * index + 3,
        UpdateStageView::Send { index } => 4 * index + 4,
        UpdateStageView::Done => 0,
    }
}

/// Whether the stage of the run `r` names one of its novels.
pub open spec fn update_wf(r: UpdateRunView) -> bool {
    match r.stage {
        UpdateStageView::Fetch { index } => 0 <= index < r.novels.len(),
        UpdateStageView::Store { index, .. } => 0 <= index < r.novels.len(),
        UpdateStageView::Channels { index, .. } => 0 <= index < r.novels.len(),
        UpdateStageView::Send { index } => 0 <= index < r.novels.len(),
        _ => true,
    }
}

/// Every step of an update keeps its stage on one of its novels, and either
/// ends it or moves it forward, so an update of `n` novels is over after at
/// most `4 * n + 1` answers; it ends with `Finish` or `Halt`, and a finished
/// update asks for nothing more.
pub proof fn lemma_update_progress(f: UpdateRunView, a: UpdateAnswerView, g: UpdateRunView, s: UpdateStepView)
    requires
        update_transition(f, a, g, s),
        update_wf(f),
    ensures
        update_wf(g),
        !(s is Halt) && !(g.stage is Done) ==> update_rank(g.stage) > update_rank(f.stage),
        update_rank(g.stage) <= 4 * g.novels.len(),
        s is Finish ==> g.stage is Done,
        f.stage is Done ==> s is Halt,
{
}

/// A novel whose page lists the same chapters as before announces nothing:
/// the channels that follow it get no text.
pub proof fn lemma_unchanged_page_announces_nothing(
    f: UpdateRunView,
    a: UpdateAnswerView,
    g: UpdateRunView,
    s: UpdateStepView,
    a2: UpdateAnswerView,
    g2: UpdateRunView,
    s2: UpdateStepView,
)
    requires
        update_transition(f, a, g, s),
        update_transition(g, a2, g2, s2),
        f.stage is Store,
        0 <= f.stage->Store_index < f.novels.len(),
        f.stage->fresh.chapter_id == f.novels[f.stage->Store_index].chapter_id,
        a is Stored,
        s2 is Send,
    ensures
        s2->texts == Seq::<Seq<char>>::empty(),
{
    let n = f.novels[f.stage->Store_index];
    crate::royalroad::royalstruct::lemma_compare_unchanged(n.chapter_id);
    assert(g.stage->message.chapter_id == Seq::<Seq<char>>::empty());
}

/// Once a novel's fresh chapter list is stored, the update announces in the
/// channels that follow it every chapter that the fresh list holds and the
/// stored one lacks, and nothing else: put together, the texts it sends are
/// one line per such chapter, in the order of the fresh list.
pub proof fn lemma_update_announces_every_new_chapter(
    f: UpdateRunView,
    a: UpdateAnswerView,
    g: UpdateRunView,
    s: UpdateStepView,
    a2: UpdateAnswerView,
    g2: UpdateRunView,
    s2: UpdateStepView,
)
    requires
        f.stage is Store,
        0 <= f.stage->Store_index < f.novels.len(),
        a is Stored,
        update_transition(f, a, g, s),
        update_transition(g, a2, g2, s2),
        s2 is Send,
    ensures
        s2->texts.flatten() == words(f.stage->fresh.chapter_id).filter(
            |x: Seq<char>| !words(f.novels[f.stage->Store_index].chapter_id).contains(x),
        ).map_values(|x: Seq<char>| link_line(x)).flatten(),
{
    let m = g.stage->message;
    crate::royalroad::royalstruct::lemma_chunk_texts_cover(m.chapter_id);
}

} // verus!
