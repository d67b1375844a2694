use std::collections::{BTreeMap, BTreeSet};

use augur::error::AugurError;
use augur::royalroad::add::{add, AddAnswer, AddStep, SETUP_DONE};
use augur::royalroad::remove::{remove, RemoveAnswer, RemoveStep};
use augur::update::{start_update, UpdateAnswer, UpdateStep};

const LINK: &str = "https://www.royalroad.com/fiction/1";
const PAGE: &str = "<td><a href=\"/c/1\">1</a></td>";
const NEXT_PAGE: &str = "<td><a href=\"/c/1\">1</a></td><td><a href=\"/c/2\">2</a></td>";

/// The two tables, answering as the schema makes SQLite answer.
#[derive(Clone, PartialEq, Debug, Default)]
struct Tables {
    novels: BTreeMap<String, (String, String)>,
    guilds: BTreeSet<(String, String, String)>,
}

impl Tables {
    fn find(&self, link: &str) -> Option<String> {
        self.novels.iter().find(|(_, v)| v.0 == link).map(|(k, _)| k.clone())
    }
}

fn run_add(t: &mut Tables, guild: u64, channel: u64) -> String {
    let (mut flow, mut step) = add(LINK.to_string(), Some(guild), channel);
    loop {
        let answer = match step {
            AddStep::FindNovel(l) => AddAnswer::Found(t.find(&l)),
            AddStep::FetchPage(_) => AddAnswer::Page(Some(PAGE.to_string())),
            AddStep::InsertNovel(n) => {
                let ok = !t.novels.contains_key(&n.novel_id);
                if ok {
                    t.novels.insert(n.novel_id.clone(), (n.novel_link.clone(), n.chapter_id.clone()));
                }
                AddAnswer::Stored(ok)
            }
            AddStep::InsertGuild(g) => {
                let ok = !t.guilds.iter().any(|r| r.1 == g.channel_id && r.2 == g.novel_id);
                if ok {
                    t.guilds.insert((g.guild_id.clone(), g.channel_id.clone(), g.novel_id.clone()));
                }
                AddAnswer::Stored(ok)
            }
            AddStep::Reply(m) => return m.0,
            AddStep::Halt => panic!("halted"),
        };
        (flow, step) = flow.step(answer);
    }
}

fn run_remove(t: &mut Tables, guild: u64, channel: u64) -> String {
    let (mut flow, mut step) = remove(LINK.to_string(), Some(guild), channel);
    loop {
        let answer = match step {
            RemoveStep::FindNovel(l) => RemoveAnswer::Found(t.find(&l)),
            RemoveStep::DeleteGuild(g) => {
                t.guilds.retain(|r| !(r.1 == g.channel_id && r.2 == g.novel_id));
                RemoveAnswer::Deleted(true)
            }
            RemoveStep::Reply(m) => return m.0,
            RemoveStep::Halt => panic!("halted"),
        };
        (flow, step) = flow.step(answer);
    }
}

#[test]
fn a_second_add_is_refused_and_changes_nothing() {
    let mut t = Tables::default();
    assert_eq!(run_add(&mut t, 1, 2), SETUP_DONE);
    assert_eq!(t.novels.len(), 1);
    assert_eq!(t.guilds.len(), 1);
    let before = t.clone();
    assert_eq!(run_add(&mut t, 1, 2), AugurError::UniqueConstraint.text());
    assert_eq!(t, before);
}

#[test]
fn remove_undoes_add_of_a_new_novel() {
    let mut t = Tables::default();
    let guilds_before = t.guilds.clone();
    assert_eq!(run_add(&mut t, 1, 2), SETUP_DONE);
    let reply = run_remove(&mut t, 1, 2);
    assert_eq!(reply, format!("Cleared any existing instances of <{}> from <#2>", LINK));
    assert_eq!(t.guilds, guilds_before);
    assert_eq!(t.novels.len(), 1);
}

#[test]
fn adds_in_two_channels_share_one_novel() {
    let mut t = Tables::default();
    assert_eq!(run_add(&mut t, 1, 2), SETUP_DONE);
    assert_eq!(run_add(&mut t, 1, 3), SETUP_DONE);
    assert_eq!(t.novels.len(), 1);
    assert_eq!(t.guilds.len(), 2);
    let id = t.find(LINK).unwrap();
    assert!(t.guilds.iter().all(|r| r.2 == id));
}

/// Runs an update against the tables, every page showing `page`; gives what
/// was sent, as (channel, text) pairs.
fn run_update(t: &mut Tables, page: &str, store_runs: bool) -> Vec<(u64, String)> {
    let (mut run, mut step) = start_update();
    let mut sent = Vec::new();
    loop {
        let answer = match step {
            UpdateStep::LoadNovels => UpdateAnswer::Novels(Some(
                t.novels.iter().map(|(k, v)| (k.clone(), v.0.clone(), v.1.clone())).collect(),
            )),
            UpdateStep::FetchPage(_) => UpdateAnswer::Page(Some(page.to_string())),
            UpdateStep::StoreChapters(n) => {
                if store_runs {
                    if let Some(row) = t.novels.get_mut(&n.novel_id) {
                        row.1 = n.chapter_id.clone();
                    }
                }
                UpdateAnswer::Stored(store_runs)
            }
            UpdateStep::LoadChannels(id) => UpdateAnswer::Channels(Some(
                t.guilds.iter().filter(|r| r.2 == id).map(|r| r.1.clone()).collect(),
            )),
            UpdateStep::Send { channels, texts } => {
                for c in &channels {
                    for x in &texts {
                        sent.push((*c, x.clone()));
                    }
                }
                UpdateAnswer::Sent
            }
            UpdateStep::Finish(outcome) => {
                assert_eq!(outcome, Ok(()));
                return sent;
            }
            UpdateStep::Halt => panic!("halted"),
        };
        (run, step) = run.step(answer);
    }
}

#[test]
fn an_update_stores_the_fresh_list_and_leaves_guilds() {
    let mut t = Tables::default();
    assert_eq!(run_add(&mut t, 1, 2), SETUP_DONE);
    assert_eq!(run_add(&mut t, 1, 3), SETUP_DONE);
    let id = t.find(LINK).unwrap();
    assert_eq!(t.novels[&id].1, "/c/1 ");
    let guilds = t.guilds.clone();
    let sent = run_update(&mut t, NEXT_PAGE, true);
    assert_eq!(
        sent,
        vec![(2, "https://royalroad.com/c/2\n".to_string()), (3, "https://royalroad.com/c/2\n".to_string())]
    );
    assert_eq!(t.novels.len(), 1);
    assert_eq!(t.novels[&id], (LINK.to_string(), "/c/1 /c/2 ".to_string()));
    assert_eq!(t.guilds, guilds);
    assert!(run_update(&mut t, NEXT_PAGE, true).is_empty());
}

#[test]
fn an_update_whose_store_fails_changes_no_row() {
    let mut t = Tables::default();
    assert_eq!(run_add(&mut t, 1, 2), SETUP_DONE);
    let before = t.clone();
    let sent = run_update(&mut t, NEXT_PAGE, false);
    assert_eq!(sent, vec![(2, "https://royalroad.com/c/2\n".to_string())]);
    assert_eq!(t, before);
}
