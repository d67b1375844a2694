use vstd::prelude::*;

use crate::error::{AugurError, PendingMessage};
use crate::royalroad::royalstruct::{
    chapters_of_page, guild_text, is_uuid_v4_text, opt_string_view, GuildView, NovelView,
    RoyalGuild, RoyalNovel,
};
use crate::text::decimal;

verus! {

/// The reply to a subscription that was set up.
pub const SETUP_DONE: &'static str = "Setup has been successful";

/// Where `>royalroad add` stands.
pub enum AddStage {
    /// Waiting for the lookup of the novel by its link.
    LookUp,
    /// Waiting for the fiction page of a novel that is new, under this id.
    Fetch { novel_id: String },
    /// Waiting for the insert of this new novel.
    StoreNovel { novel: RoyalNovel },
    /// Waiting for the insert of the subscription.
    StoreGuild,
    /// Over.
    Done,
}

/// `>royalroad add <link>`, given in `channel` of `guild`.
pub struct AddFlow {
    pub novel_link: String,
    pub guild: Option<u64>,
    pub channel: u64,
    pub stage: AddStage,
}

/// What `>royalroad add` asks for next.
pub enum AddStep {
    /// Look up the novel with this link in `Novels`; answer `Found` with its id.
    FindNovel(String),
    /// Fetch the page at this address; answer `Page` with its text.
    FetchPage(String),
    /// Insert this novel into `Novels`; answer `Stored`.
    InsertNovel(RoyalNovel),
    /// Insert this subscription into `Guilds`; answer `Stored`.
    InsertGuild(RoyalGuild),
    /// Send this reply; the command is over.
    Reply(PendingMessage),
    /// Stop: the chapter pattern failed on the page (the bot cannot go on),
    /// or the answer did not fit what was asked.
    Halt,
}

/// The answer to what `>royalroad add` asked for.
pub enum AddAnswer {
    /// The id of the novel found, if any.
    Found(Option<String>),
    /// The text of the page, or `None` where it could not be fetched.
    Page(Option<String>),
    /// Whether the database stored the row.
    Stored(bool),
}

pub enum AddStageView {
    LookUp,
    Fetch { novel_id: Seq<char> },
    StoreNovel { novel: NovelView },
    StoreGuild,
    Done,
}

pub struct AddFlowView {
    pub novel_link: Seq<char>,
    pub guild: Option<u64>,
    pub channel: u64,
    pub stage: AddStageView,
}

pub enum AddStepView {
    FindNovel(Seq<char>),
    FetchPage(Seq<char>),
    InsertNovel(NovelView),
    InsertGuild(GuildView),
    Reply(Seq<char>),
    Halt,
}

pub enum AddAnswerView {
    Found(Option<Seq<char>>),
    Page(Option<Seq<char>>),
    Stored(bool),
}

impl View for AddStage {
    type V = AddStageView;

    open spec fn view(&self) -> AddStageView {
        match self {
            AddStage::LookUp => AddStageView::LookUp,
            AddStage::Fetch { novel_id } => AddStageView::Fetch { novel_id: novel_id@ },
            AddStage::StoreNovel { novel } => AddStageView::StoreNovel { novel: novel@ },
            AddStage::StoreGuild => AddStageView::StoreGuild,
            AddStage::Done => AddStageView::Done,
        }
    }
}

impl View for AddFlow {
    type V = AddFlowView;

    open spec fn view(&self) -> AddFlowView {
        AddFlowView {
            novel_link: self.novel_link@,
            guild: self.guild,
            channel: self.channel,
            stage: self.stage@,
        }
    }
}

impl View for AddStep {
    type V = AddStepView;

    open spec fn view(&self) -> AddStepView {
        match self {
            AddStep::FindNovel(l) => AddStepView::FindNovel(l@),
            AddStep::FetchPage(l) => AddStepView::FetchPage(l@),
            AddStep::InsertNovel(n) => AddStepView::InsertNovel(n@),
            AddStep::InsertGuild(g) => AddStepView::InsertGuild(g@),
            AddStep::Reply(m) => AddStepView::Reply(m@),
            AddStep::Halt => AddStepView::Halt,
        }
    }
}

impl View for AddAnswer {
    type V = AddAnswerView;

    open spec fn view(&self) -> AddAnswerView {
        match self {
            AddAnswer::Found(f) => AddAnswerView::Found(opt_string_view(*f)),
            AddAnswer::Page(p) => AddAnswerView::Page(opt_string_view(*p)),
            AddAnswer::Stored(b) => AddAnswerView::Stored(*b),
        }
    }
}

/// The flow `f` with its stage set to `stage`.
pub open spec fn at_stage(f: AddFlowView, stage: AddStageView) -> AddFlowView {
    AddFlowView { stage, ..f }
}

/// The subscription that the flow `f` sets up for the novel stored as `novel_id`.
pub open spec fn subscription(f: AddFlowView, novel_id: Seq<char>) -> GuildView {
    GuildView { guild_id: guild_text(f.guild), channel_id: decimal(f.channel as nat), novel_id }
}

/// One step of `>royalroad add`: from the flow `f` and the answer `a`, the flow
/// `g` and what it asks for next, `s`.
///
/// A novel the database already knows keeps its id, its page is not fetched
/// and it is not stored again: the subscription is inserted at once. A new
/// novel gets a fresh random id; its chapters are read off its page and it is
/// stored before its subscription. A refused insert of either row means the
/// channel already follows the novel.
pub open spec fn add_transition(f: AddFlowView, a: AddAnswerView, g: AddFlowView, s: AddStepView) -> bool {
    match (f.stage, a) {
        (AddStageView::LookUp, AddAnswerView::Found(Some(id))) => {
            &&& g == at_stage(f, AddStageView::StoreGuild)
            &&& s == AddStepView::InsertGuild(subscription(f, id))
        },
        (AddStageView::LookUp, AddAnswerView::Found(None)) => {
            &&& g.stage is Fetch
            &&& is_uuid_v4_text(g.stage->novel_id)
            &&& g == at_stage(f, g.stage)
            &&& s == AddStepView::FetchPage(f.novel_link)
        },
        (AddStageView::Fetch { novel_id }, AddAnswerView::Page(page)) => match chapters_of_page(page) {
            None => g == at_stage(f, AddStageView::Done) && s == AddStepView::Halt,
            Some(Err(e)) => g == at_stage(f, AddStageView::Done) && s == AddStepView::Reply(e.spec_text()),
            Some(Ok(chapters)) => {
                let novel = NovelView { novel_id, novel_link: f.novel_link, chapter_id: chapters, precedent: false };
                &&& g == at_stage(f, AddStageView::StoreNovel { novel })
                &&& s == AddStepView::InsertNovel(novel)
            },
        },
        (AddStageView::StoreNovel { novel }, AddAnswerView::Stored(ok)) => if ok || novel.precedent {
            &&& g == at_stage(f, AddStageView::StoreGuild)
            &&& s == AddStepView::InsertGuild(subscription(f, novel.novel_id))
        } else {
            &&& g == at_stage(f, AddStageView::Done)
            &&& s == AddStepView::Reply(AugurError::UniqueConstraint.spec_text())
        },
        (AddStageView::StoreGuild, AddAnswerView::Stored(ok)) => {
            &&& g == at_stage(f, AddStageView::Done)
            &&& s == AddStepView::Reply(
                if ok { SETUP_DONE@ } else { AugurError::UniqueConstraint.spec_text() },
            )
        },
        _ => g == f && s == AddStepView::Halt,
    }
}

/// Starts `>royalroad add <novel_link>` in `channel` of `guild`: the novel is
/// first looked up by its link.
pub fn add(novel_link: String, guild: Option<u64>, channel: u64) -> (r: (AddFlow, AddStep))
    ensures
        r.0@ == (AddFlowView { novel_link: novel_link@, guild, channel, stage: AddStageView::LookUp }),
        r.1@ == AddStepView::FindNovel(novel_link@),
{
    let link = novel_link.clone();
    (AddFlow { novel_link, guild, channel, stage: AddStage::LookUp }, AddStep::FindNovel(link))
}

impl AddFlow {
    /// Takes the answer to what the flow asked for, and gives what it asks next.
    pub fn step(self, answer: AddAnswer) -> (r: (AddFlow, AddStep))
        ensures
            add_transition(self@, answer@, r.0@, r.1@),
    {
        let AddFlow { novel_link, guild, channel, stage } = self;
        match (stage, answer) {
            (AddStage::LookUp, AddAnswer::Found(found)) => {
                let (novel_id, precedent) = RoyalNovel::check(found);
                if precedent {
                    let novel = match RoyalNovel::new(novel_link.clone(), (novel_id, precedent), None) {
                        Some(Ok(novel)) => novel,
                        _ => {
                            assert(false);
                            return (AddFlow { novel_link, guild, channel, stage: AddStage::Done }, AddStep::Halt);
                        },
                    };
                    let guild_row = match novel.process(guild, channel, true) {
                        Ok(g) => g,
                        Err(_) => {
                            assert(false);
                            return (AddFlow { novel_link, guild, channel, stage: AddStage::Done }, AddStep::Halt);
                        },
                    };
                    (
                        AddFlow { novel_link, guild, channel, stage: AddStage::StoreGuild },
                        AddStep::InsertGuild(guild_row),
                    )
                } else {
                    let link = novel_link.clone();
                    (
                        AddFlow { novel_link, guild, channel, stage: AddStage::Fetch { novel_id } },
                        AddStep::FetchPage(link),
                    )
                }
            },
            (AddStage::Fetch { novel_id }, AddAnswer::Page(page)) => {
                match RoyalNovel::new(novel_link.clone(), (novel_id, false), page) {
                    None => (AddFlow { novel_link, guild, channel, stage: AddStage::Done }, AddStep::Halt),
                    Some(Err(e)) => (
                        AddFlow { novel_link, guild, channel, stage: AddStage::Done },
                        AddStep::Reply(PendingMessage(e.text())),
                    ),
                    Some(Ok(novel)) => {
                        let stored = RoyalNovel {
                            novel_id: novel.novel_id.clone(),
                            novel_link: novel.novel_link.clone(),
                            chapter_id: novel.chapter_id.clone(),
                            precedent: novel.precedent,
                        };
                        (
                            AddFlow { novel_link, guild, channel, stage: AddStage::StoreNovel { novel: stored } },
                            AddStep::InsertNovel(novel),
                        )
                    },
                }
            },
            (AddStage::StoreNovel { novel }, AddAnswer::Stored(ok)) => {
                match novel.process(guild, channel, ok) {
                    Ok(guild_row) => (
                        AddFlow { novel_link, guild, channel, stage: AddStage::StoreGuild },
                        AddStep::InsertGuild(guild_row),
                    ),
                    Err(e) => (
                        AddFlow { novel_link, guild, channel, stage: AddStage::Done },
                        AddStep::Reply(PendingMessage(e.text())),
                    ),
                }
            },
            (AddStage::StoreGuild, AddAnswer::Stored(ok)) => {
                let reply = if ok {
                    SETUP_DONE.to_string()
                } else {
                    AugurError::UniqueConstraint.text()
                };
                (AddFlow { novel_link, guild, channel, stage: AddStage::Done }, AddStep::Reply(PendingMessage(reply)))
            },
            (stage, _) => (AddFlow { novel_link, guild, channel, stage }, AddStep::Halt),
        }
    }
}


/// How far `>royalroad add` has come.
pub open spec fn add_rank(stage: AddStageView) -> int {
    match stage {
        AddStageView::LookUp => 0,
        AddStageView::Fetch { .. } => 1,
        AddStageView::StoreNovel { .. } => 2,
        AddStageView::StoreGuild => 3,
        AddStageView::Done => 4,
    }
}

/// Every step of `>royalroad add` that does not halt moves the command forward,
/// and a reply ends it: whatever the answers, the command is over after at most
/// four of them.
pub proof fn lemma_add_progress(f: AddFlowView, a: AddAnswerView, g: AddFlowView, s: AddStepView)
    requires
        add_transition(f, a, g, s),
    ensures
        !(s is Halt) ==> add_rank(g.stage) > add_rank(f.stage),
        s is Reply ==> g.stage is Done,
        f.stage is Done ==> s is Halt,
{
}

/// Whatever `>royalroad add` stores, the subscription it inserts names the id
/// under which the novel is stored: the id found for a known novel, or the id
/// of the novel it inserted.
pub proof fn lemma_add_subscribes_stored_novel(f: AddFlowView, a: AddAnswerView, g: AddFlowView, s: AddStepView)
    requires
        add_transition(f, a, g, s),
        s is InsertGuild,
    ensures
        s->InsertGuild_0.novel_id == match (f.stage, a) {
            (AddStageView::StoreNovel { novel }, _) => novel.novel_id,
            (_, AddAnswerView::Found(found)) => found->0,
            _ => seq![],
        },
        s->InsertGuild_0.channel_id == decimal(f.channel as nat),
{
}

} // verus!
