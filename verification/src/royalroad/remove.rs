use vstd::prelude::*;

use crate::error::{AugurError, PendingMessage};
use crate::royalroad::royalstruct::{guild_text, opt_string_view, GuildView, NovelView, RoyalGuild, RoyalNovel};
use crate::royalroad::add::{add_transition, AddAnswerView, AddFlowView, AddStepView};
use crate::text::decimal;

verus! {

/// Where `>royalroad remove` stands.
pub enum RemoveStage {
    /// Waiting for the lookup of the novel by its link.
    LookUp,
    /// Waiting for the delete of this subscription to this novel.
    Delete { novel: RoyalNovel, guild: RoyalGuild },
    /// Over.
    Done,
}

/// `>royalroad remove <link>`, given in `channel` of `guild`.
pub struct RemoveFlow {
    pub novel_link: String,
    pub guild: Option<u64>,
    pub channel: u64,
    pub stage: RemoveStage,
}

/// What `>royalroad remove` asks for next.
pub enum RemoveStep {
    /// Look up the novel with this link in `Novels`; answer `Found` with its id.
    FindNovel(String),
    /// Delete this subscription from `Guilds`; answer `Deleted`.
    DeleteGuild(RoyalGuild),
    /// Send this reply; the command is over.
    Reply(PendingMessage),
    /// Stop: the answer did not fit what was asked.
    Halt,
}

/// The answer to what `>royalroad remove` asked for.
pub enum RemoveAnswer {
    /// The id of the novel found, if any.
    Found(Option<String>),
    /// Whether the delete ran.
    Deleted(bool),
}

pub enum RemoveStageView {
    LookUp,
    Delete { novel: NovelView, guild: GuildView },
    Done,
}

pub struct RemoveFlowView {
    pub novel_link: Seq<char>,
    pub guild: Option<u64>,
    pub channel: u64,
    pub stage: RemoveStageView,
}

pub enum RemoveStepView {
    FindNovel(Seq<char>),
    DeleteGuild(GuildView),
    Reply(Seq<char>),
    Halt,
}

pub enum RemoveAnswerView {
    Found(Option<Seq<char>>),
    Deleted(bool),
}

impl View for RemoveStage {
    type V = RemoveStageView;

    open spec fn view(&self) -> RemoveStageView {
        match self {
            RemoveStage::LookUp => RemoveStageView::LookUp,
            RemoveStage::Delete { novel, guild } => RemoveStageView::Delete {
                novel: novel@,
                guild: guild@,
            },
            RemoveStage::Done => RemoveStageView::Done,
        }
    }
}

impl View for RemoveFlow {
    type V = RemoveFlowView;

    open spec fn view(&self) -> RemoveFlowView {
        RemoveFlowView {
            novel_link: self.novel_link@,
            guild: self.guild,
            channel: self.channel,
            stage: self.stage@,
        }
    }
}

impl View for RemoveStep {
    type V = RemoveStepView;

    open spec fn view(&self) -> RemoveStepView {
        match self {
            RemoveStep::FindNovel(l) => RemoveStepView::FindNovel(l@),
            RemoveStep::DeleteGuild(g) => RemoveStepView::DeleteGuild(g@),
            RemoveStep::Reply(m) => RemoveStepView::Reply(m@),
            RemoveStep::Halt => RemoveStepView::Halt,
        }
    }
}

impl View for RemoveAnswer {
    type V = RemoveAnswerView;

    open spec fn view(&self) -> RemoveAnswerView {
        match self {
            RemoveAnswer::Found(f) => RemoveAnswerView::Found(opt_string_view(*f)),
            RemoveAnswer::Deleted(b) => RemoveAnswerView::Deleted(*b),
        }
    }
}

/// The reply to a removal of the subscription `guild` to the novel at
/// `novel_link`.
pub open spec fn cleared_text(novel_link: Seq<char>, guild: GuildView) -> Seq<char> {
    "Cleared any existing instances of <"@ + novel_link + "> from <#"@ + guild.channel_id + ">"@
}

/// One step of `>royalroad remove`: from the flow `f` and the answer `a`, the
/// flow `g` and what it asks for next, `s`. Only a novel the database knows can
/// be removed; its subscription in the flow's channel is then deleted.
pub open spec fn remove_transition(f: RemoveFlowView, a: RemoveAnswerView, g: RemoveFlowView, s: RemoveStepView) -> bool {
    match (f.stage, a) {
        (RemoveStageView::LookUp, RemoveAnswerView::Found(None)) => {
            &&& g == RemoveFlowView { stage: RemoveStageView::Done, ..f }
            &&& s == RemoveStepView::Reply(AugurError::NonExistentNovel.spec_text())
        },
        (RemoveStageView::LookUp, RemoveAnswerView::Found(Some(id))) => {
            let guild = GuildView {
                guild_id: guild_text(f.guild),
                channel_id: decimal(f.channel as nat),
                novel_id: id,
            };
            let novel = NovelView { novel_id: id, novel_link: f.novel_link, chapter_id: seq![], precedent: true };
            &&& g == RemoveFlowView {
                stage: RemoveStageView::Delete { novel, guild },
                ..f
            }
            &&& s == RemoveStepView::DeleteGuild(guild)
        },
        (RemoveStageView::Delete { novel, guild }, RemoveAnswerView::Deleted(ok)) => {
            &&& g == RemoveFlowView { stage: RemoveStageView::Done, ..f }
            &&& s == RemoveStepView::Reply(
                if ok { cleared_text(novel.novel_link, guild) } else { AugurError::FailedQuery.spec_text() },
            )
        },
        _ => g == f && s == RemoveStepView::Halt,
    }
}

/// Starts `>royalroad remove <novel_link>` in `channel` of `guild`: the novel
/// is first looked up by its link.
pub fn remove(novel_link: String, guild: Option<u64>, channel: u64) -> (r: (RemoveFlow, RemoveStep))
    ensures
        r.0@ == (RemoveFlowView { novel_link: novel_link@, guild, channel, stage: RemoveStageView::LookUp }),
        r.1@ == RemoveStepView::FindNovel(novel_link@),
{
    let link = novel_link.clone();
    (RemoveFlow { novel_link, guild, channel, stage: RemoveStage::LookUp }, RemoveStep::FindNovel(link))
}

impl RemoveFlow {
    /// Takes the answer to what the flow asked for, and gives what it asks next.
    pub fn step(self, answer: RemoveAnswer) -> (r: (RemoveFlow, RemoveStep))
        ensures
            remove_transition(self@, answer@, r.0@, r.1@),
    {
        let RemoveFlow { novel_link, guild, channel, stage } = self;
        match (stage, answer) {
            (RemoveStage::LookUp, RemoveAnswer::Found(found)) => {
                match RoyalNovel::proc_new(novel_link.clone(), found) {
                    Err(e) => (
                        RemoveFlow { novel_link, guild, channel, stage: RemoveStage::Done },
                        RemoveStep::Reply(PendingMessage(e.text())),
                    ),
                    Ok(novel) => {
                        let row = RoyalGuild::new(guild, channel, &novel);
                        let kept = RoyalGuild::new(guild, channel, &novel);
                        (
                            RemoveFlow { novel_link, guild, channel, stage: RemoveStage::Delete { novel, guild: kept } },
                            RemoveStep::DeleteGuild(row),
                        )
                    },
                }
            },
            (RemoveStage::Delete { novel, guild: row }, RemoveAnswer::Deleted(ok)) => {
                let reply = match row.remove(ok) {
                    Ok(_) => {
                        let mut text = "Cleared any existing instances of <".to_string();
                        text.append(novel.novel_link.as_str());
                        text.append("> from <#");
                        text.append(row.channel_id.as_str());
                        text.append(">");
                        text
                    },
                    Err(e) => e.text(),
                };
                (
                    RemoveFlow { novel_link, guild, channel, stage: RemoveStage::Done },
                    RemoveStep::Reply(PendingMessage(reply)),
                )
            },
            (stage, _) => (RemoveFlow { novel_link, guild, channel, stage }, RemoveStep::Halt),
        }
    }
}


/// How far `>royalroad remove` has come.
pub open spec fn remove_rank(stage: RemoveStageView) -> int {
    match stage {
        RemoveStageView::LookUp => 0,
        RemoveStageView::Delete { .. } => 1,
        RemoveStageView::Done => 2,
    }
}

/// Every step of `>royalroad remove` that does not halt moves the command
/// forward, and a reply ends it: the command is over after at most two answers.
pub proof fn lemma_remove_progress(f: RemoveFlowView, a: RemoveAnswerView, g: RemoveFlowView, s: RemoveStepView)
    requires
        remove_transition(f, a, g, s),
    ensures
        !(s is Halt) ==> remove_rank(g.stage) > remove_rank(f.stage),
        s is Reply ==> g.stage is Done,
        f.stage is Done ==> s is Halt,
{
}


/// `>royalroad remove` undoes `>royalroad add`: for the same channel of the same
/// guild, whenever add inserts a subscription (for a novel the database already
/// knew, or for one add stored itself), a remove that finds the novel under the
/// id that subscription names deletes exactly that row.
pub proof fn lemma_remove_deletes_what_add_inserts(
    f: AddFlowView,
    a: AddAnswerView,
    g: AddFlowView,
    s: AddStepView,
    rf: RemoveFlowView,
    rg: RemoveFlowView,
    rs: RemoveStepView,
)
    requires
        rf.stage is LookUp,
        f.guild == rf.guild,
        f.channel == rf.channel,
        add_transition(f, a, g, s),
        s is InsertGuild,
        remove_transition(rf, RemoveAnswerView::Found(Some(s->InsertGuild_0.novel_id)), rg, rs),
    ensures
        rs is DeleteGuild,
        s->InsertGuild_0 == rs->DeleteGuild_0,
{
}

} // verus!
