use augur::error::AugurError;
use augur::royalroad::add::{add, AddAnswer, AddStep, SETUP_DONE};
use augur::royalroad::check::{check, guild_key};
use augur::royalroad::remove::{remove, RemoveAnswer, RemoveStep};
use augur::royalroad::{handle, RoyalRoute, ADD_USAGE, EMPTY_ARGUMENT, REMOVE_USAGE, UNKNOWN_SUBCOMMAND};
use augur::update::{start_update, UpdateAnswer, UpdateStep};

const LINK: &str = "https://www.royalroad.com/fiction/21220/mother-of-learning";
const PAGE: &str = "<td><a href=\"/c/1\">1</a></td><td><a href=\"/c/2\">2</a></td>";

fn args(words: &[&str]) -> Vec<String> {
    words.iter().map(|w| w.to_string()).collect()
}

fn reply_text(step: AddStep) -> String {
    match step {
        AddStep::Reply(m) => m.0,
        _ => panic!("expected a reply"),
    }
}

#[test]
fn routes_sub_commands() {
    assert!(matches!(handle(&args(&[">royalroad", "add", LINK])), RoyalRoute::Add(l) if l == LINK));
    assert!(matches!(handle(&args(&[">royalroad", "remove", LINK])), RoyalRoute::Remove(l) if l == LINK));
    assert!(matches!(handle(&args(&[">royalroad", "check"])), RoyalRoute::Check));
    match handle(&args(&[">royalroad", "add"])) {
        RoyalRoute::Reply { description, usage } => {
            assert_eq!(description, EMPTY_ARGUMENT);
            assert_eq!(usage, Some(ADD_USAGE.to_string()));
        }
        _ => panic!("expected the usage"),
    }
    match handle(&args(&[">royalroad", "remove"])) {
        RoyalRoute::Reply { usage, .. } => assert_eq!(usage, Some(REMOVE_USAGE.to_string())),
        _ => panic!("expected the usage"),
    }
    match handle(&args(&[">royalroad", "list"])) {
        RoyalRoute::Reply { description, usage } => {
            assert_eq!(description, UNKNOWN_SUBCOMMAND);
            assert_eq!(usage, None);
        }
        _ => panic!("expected an unknown sub-command"),
    }
}

#[test]
fn adding_a_known_novel_only_subscribes() {
    let (flow, step) = add(LINK.to_string(), Some(7), 8);
    assert!(matches!(step, AddStep::FindNovel(l) if l == LINK));
    let (flow, step) = flow.step(AddAnswer::Found(Some("uuid-1".to_string())));
    match step {
        AddStep::InsertGuild(g) => {
            assert_eq!((g.guild_id.as_str(), g.channel_id.as_str(), g.novel_id.as_str()), ("7", "8", "uuid-1"))
        }
        _ => panic!("expected the subscription"),
    }
    let (_, step) = flow.step(AddAnswer::Stored(true));
    assert_eq!(reply_text(step), SETUP_DONE);
}

#[test]
fn adding_a_new_novel_fetches_and_stores_it() {
    let (flow, _) = add(LINK.to_string(), Some(7), 8);
    let (flow, step) = flow.step(AddAnswer::Found(None));
    assert!(matches!(step, AddStep::FetchPage(l) if l == LINK));
    let (flow, step) = flow.step(AddAnswer::Page(Some(PAGE.to_string())));
    let id = match step {
        AddStep::InsertNovel(n) => {
            assert_eq!(n.chapter_id, "/c/1 /c/2 ");
            assert_eq!(n.novel_link, LINK);
            assert!(!n.precedent);
            assert_eq!(n.novel_id.len(), 36);
            n.novel_id
        }
        _ => panic!("expected the novel insert"),
    };
    let (flow, step) = flow.step(AddAnswer::Stored(true));
    match step {
        AddStep::InsertGuild(g) => assert_eq!(g.novel_id, id),
        _ => panic!("expected the subscription"),
    }
    let (_, step) = flow.step(AddAnswer::Stored(false));
    assert_eq!(reply_text(step), AugurError::UniqueConstraint.text());
}

#[test]
fn adding_an_unreachable_novel_reports_the_link() {
    let (flow, _) = add(LINK.to_string(), Some(7), 8);
    let (flow, _) = flow.step(AddAnswer::Found(None));
    let (_, step) = flow.step(AddAnswer::Page(None));
    assert_eq!(reply_text(step), "InvalidLink, Provided novel link is invalid");
}

#[test]
fn adding_a_page_without_chapters_reports_it() {
    let (flow, _) = add(LINK.to_string(), Some(7), 8);
    let (flow, _) = flow.step(AddAnswer::Found(None));
    let (_, step) = flow.step(AddAnswer::Page(Some("<html></html>".to_string())));
    assert_eq!(reply_text(step), "NoChapters, No chapters found for provided novel");
}

#[test]
fn a_refused_novel_insert_ends_the_add() {
    let (flow, _) = add(LINK.to_string(), None, 8);
    let (flow, _) = flow.step(AddAnswer::Found(None));
    let (flow, _) = flow.step(AddAnswer::Page(Some(PAGE.to_string())));
    let (flow, step) = flow.step(AddAnswer::Stored(false));
    assert_eq!(reply_text(step), "UniqueConstraint, Novel has already been setup in this channel");
    let (_, step) = flow.step(AddAnswer::Stored(true));
    assert!(matches!(step, AddStep::Halt));
}

#[test]
fn an_unexpected_answer_halts_the_add() {
    let (flow, _) = add(LINK.to_string(), None, 8);
    let (_, step) = flow.step(AddAnswer::Stored(true));
    assert!(matches!(step, AddStep::Halt));
}

#[test]
fn removing_a_known_novel() {
    let (flow, step) = remove(LINK.to_string(), Some(3), 4);
    assert!(matches!(step, RemoveStep::FindNovel(l) if l == LINK));
    let (flow, step) = flow.step(RemoveAnswer::Found(Some("id".to_string())));
    match step {
        RemoveStep::DeleteGuild(g) => {
            assert_eq!((g.guild_id.as_str(), g.channel_id.as_str(), g.novel_id.as_str()), ("3", "4", "id"))
        }
        _ => panic!("expected the delete"),
    }
    let (_, step) = flow.step(RemoveAnswer::Deleted(true));
    match step {
        RemoveStep::Reply(m) => assert_eq!(m.0, format!("Cleared any existing instances of <{}> from <#4>", LINK)),
        _ => panic!("expected a reply"),
    }
}

#[test]
fn removing_an_unknown_novel_or_failing_the_delete() {
    let (flow, _) = remove(LINK.to_string(), Some(3), 4);
    let (_, step) = flow.step(RemoveAnswer::Found(None));
    assert!(matches!(step, RemoveStep::Reply(m) if m.text() == "NonExistentNovel, Novel not found"));
    let (flow, _) = remove(LINK.to_string(), Some(3), 4);
    let (flow, _) = flow.step(RemoveAnswer::Found(Some("id".to_string())));
    let (_, step) = flow.step(RemoveAnswer::Deleted(false));
    assert!(matches!(step, RemoveStep::Reply(m) if m.text() == "FailedQuery, Something went wrong while querying the database"));
}

#[test]
fn checking_a_guild_lists_its_novels() {
    assert_eq!(guild_key(Some(99)), "99");
    let m = check(Some(vec![("l1".to_string(), "10".to_string()), ("l2".to_string(), "11".to_string())]));
    assert_eq!(m.0, "<#10> currently houses <l1>\n<#11> currently houses <l2>\n");
    assert_eq!(check(Some(vec![])).0, "NonExistentGuild, No novels setup in Guild");
    assert_eq!(check(None).0, AugurError::FailedQuery.text());
}

#[test]
fn an_update_announces_new_chapters_to_each_channel() {
    let (run, step) = start_update();
    assert!(matches!(step, UpdateStep::LoadNovels));
    let rows = vec![
        ("a".to_string(), "la".to_string(), "/c/1 ".to_string()),
        ("b".to_string(), "lb".to_string(), "/c/9 ".to_string()),
    ];
    let (run, step) = run.step(UpdateAnswer::Novels(Some(rows)));
    assert!(matches!(step, UpdateStep::FetchPage(l) if l == "la"));
    let (run, step) = run.step(UpdateAnswer::Page(Some(PAGE.to_string())));
    match step {
        UpdateStep::StoreChapters(n) => {
            assert_eq!((n.novel_id.as_str(), n.chapter_id.as_str(), n.precedent), ("a", "/c/1 /c/2 ", true))
        }
        _ => panic!("expected the store"),
    }
    let (run, step) = run.step(UpdateAnswer::Stored(false));
    assert!(matches!(step, UpdateStep::LoadChannels(id) if id == "a"));
    let (run, step) = run.step(UpdateAnswer::Channels(Some(vec!["5".to_string(), "6".to_string()])));
    match step {
        UpdateStep::Send { channels, texts } => {
            assert_eq!(channels, vec![5, 6]);
            assert_eq!(texts, vec!["https://royalroad.com/c/2\n".to_string()]);
        }
        _ => panic!("expected the announcements"),
    }
    let (run, step) = run.step(UpdateAnswer::Sent);
    assert!(matches!(step, UpdateStep::FetchPage(l) if l == "lb"));
    let (run, step) = run.step(UpdateAnswer::Page(None));
    match step {
        UpdateStep::StoreChapters(n) => assert_eq!(n.chapter_id, ""),
        _ => panic!("expected the store"),
    }
    let (run, _) = run.step(UpdateAnswer::Stored(true));
    let (run, step) = run.step(UpdateAnswer::Channels(Some(vec![])));
    assert!(matches!(step, UpdateStep::Send { channels, texts } if channels.is_empty() && texts.is_empty()));
    let (_, step) = run.step(UpdateAnswer::Sent);
    assert!(matches!(step, UpdateStep::Finish(Ok(()))));
}

#[test]
fn an_update_stops_where_the_database_fails() {
    let (run, _) = start_update();
    let (_, step) = run.step(UpdateAnswer::Novels(None));
    assert!(matches!(step, UpdateStep::Finish(Err(AugurError::FailedQuery))));

    let (run, _) = start_update();
    let rows = vec![
        ("a".to_string(), "la".to_string(), "".to_string()),
        ("b".to_string(), "lb".to_string(), "".to_string()),
    ];
    let (run, _) = run.step(UpdateAnswer::Novels(Some(rows)));
    let (run, _) = run.step(UpdateAnswer::Page(Some(PAGE.to_string())));
    let (run, _) = run.step(UpdateAnswer::Stored(true));
    let (_, step) = run.step(UpdateAnswer::Channels(None));
    assert!(matches!(step, UpdateStep::Finish(Ok(()))));
}

#[test]
fn an_update_with_no_novels_finishes_at_once() {
    let (run, _) = start_update();
    let (_, step) = run.step(UpdateAnswer::Novels(Some(vec![])));
    assert!(matches!(step, UpdateStep::Finish(Ok(()))));
}

#[test]
fn an_unreadable_channel_id_halts_the_update() {
    let (run, _) = start_update();
    let (run, _) = run.step(UpdateAnswer::Novels(Some(vec![("a".to_string(), "la".to_string(), "".to_string())])));
    let (run, _) = run.step(UpdateAnswer::Page(None));
    let (run, _) = run.step(UpdateAnswer::Stored(true));
    let (_, step) = run.step(UpdateAnswer::Channels(Some(vec!["x".to_string()])));
    assert!(matches!(step, UpdateStep::Halt));
}

#[test]
fn remove_deletes_the_row_that_add_inserts() {
    let (flow, _) = add(LINK.to_string(), Some(70), 80);
    let (_, step) = flow.step(AddAnswer::Found(Some("id-9".to_string())));
    let inserted = match step {
        AddStep::InsertGuild(g) => (g.guild_id, g.channel_id, g.novel_id),
        _ => panic!("expected the subscription"),
    };
    let (flow, _) = remove(LINK.to_string(), Some(70), 80);
    let (_, step) = flow.step(RemoveAnswer::Found(Some("id-9".to_string())));
    let deleted = match step {
        RemoveStep::DeleteGuild(g) => (g.guild_id, g.channel_id, g.novel_id),
        _ => panic!("expected the delete"),
    };
    assert_eq!(inserted, deleted);
}
