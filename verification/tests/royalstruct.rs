use augur::error::AugurError;
use augur::royalroad::royalstruct::{RoyalGuild, RoyalMessage, RoyalNovel};

fn novel(id: &str, link: &str, chapters: &str) -> RoyalNovel {
    RoyalNovel {
        novel_id: id.to_string(),
        novel_link: link.to_string(),
        chapter_id: chapters.to_string(),
        precedent: true,
    }
}

const PAGE: &str = r#"<table><tr>
<td>
    <a href="/fiction/1/x/chapter/10/one">One</a>
</td>
<td><a href='/fiction/1/x/chapter/11/two'>Two</a></td>
<td class="x"><a href="/skip">no</a></td>
</tr></table>"#;

#[test]
fn chapters_are_read_off_the_page() {
    let r = RoyalNovel::get_chapters(Some(PAGE.to_string()));
    assert_eq!(r, Some(Ok("/fiction/1/x/chapter/10/one /fiction/1/x/chapter/11/two ".to_string())));
}

#[test]
fn chapter_matches_make_a_spaced_list() {
    let caps = vec![Some("/a".to_string()), Some("/b".to_string())];
    assert_eq!(RoyalNovel::chapters_from_matches(caps), Some(Ok("/a /b ".to_string())));
    assert_eq!(RoyalNovel::chapters_from_matches(vec![]), Some(Err(AugurError::NoChapters)));
    assert_eq!(RoyalNovel::chapters_from_matches(vec![Some("/a".to_string()), None]), None);
}

#[test]
fn a_page_without_chapters_is_an_error() {
    assert_eq!(RoyalNovel::get_chapters(Some("<p>nothing</p>".to_string())), Some(Err(AugurError::NoChapters)));
}

#[test]
fn a_page_that_was_not_fetched_is_an_invalid_link() {
    assert_eq!(RoyalNovel::get_chapters(None), Some(Err(AugurError::InvalidLink)));
}

#[test]
fn a_new_novel_gets_a_random_v4_uuid() {
    let (id, known) = RoyalNovel::check(None);
    assert!(!known);
    assert_eq!(id.len(), 36);
    let b: Vec<char> = id.chars().collect();
    for (i, c) in b.iter().enumerate() {
        if [8, 13, 18, 23].contains(&i) {
            assert_eq!(*c, '-');
        } else {
            assert!(c.is_ascii_hexdigit() && !c.is_ascii_uppercase());
        }
    }
    assert_eq!(b[14], '4');
    assert!("89ab".contains(b[19]));
    let (id2, _) = RoyalNovel::check(None);
    assert_ne!(id, id2);
}

#[test]
fn a_known_novel_keeps_its_id() {
    assert_eq!(RoyalNovel::check(Some("abc".to_string())), ("abc".to_string(), true));
}

#[test]
fn proc_new_needs_a_known_novel() {
    assert!(matches!(RoyalNovel::proc_new("l".to_string(), None), Err(AugurError::NonExistentNovel)));
    let n = RoyalNovel::proc_new("l".to_string(), Some("id".to_string())).ok().unwrap();
    assert_eq!((n.novel_id.as_str(), n.novel_link.as_str(), n.chapter_id.as_str(), n.precedent), ("id", "l", "", true));
}

#[test]
fn a_subscription_writes_ids_in_decimal() {
    let g = RoyalGuild::new(Some(81384788765712384), 381880193700069377, &novel("n", "l", ""));
    assert_eq!(g.guild_id, "81384788765712384");
    assert_eq!(g.channel_id, "381880193700069377");
    assert_eq!(g.novel_id, "n");
    assert_eq!(RoyalGuild::new(None, 5, &novel("n", "l", "")).guild_id, "0");
}

#[test]
fn refused_rows_map_to_errors() {
    let g = RoyalGuild::new(Some(1), 2, &novel("n", "l", ""));
    assert_eq!(g.insert(true), Ok(()));
    assert_eq!(g.insert(false), Err(AugurError::UniqueConstraint));
    assert_eq!(g.remove(false), Err(AugurError::FailedQuery));
    let fresh = RoyalNovel { precedent: false, ..novel("n", "l", "") };
    assert_eq!(fresh.insert(false), Err(AugurError::UniqueConstraint));
    assert_eq!(novel("n", "l", "").insert(false), Ok(()));
    assert_eq!(novel("n", "l", "").update(false), Err(AugurError::FailedQuery));
}

#[test]
fn process_stores_new_novels_first() {
    let fresh = RoyalNovel { precedent: false, ..novel("n", "l", "c ") };
    assert!(matches!(fresh.process(Some(1), 2, false), Err(AugurError::UniqueConstraint)));
    let g = fresh.process(Some(1), 2, true).ok().unwrap();
    assert_eq!((g.guild_id.as_str(), g.channel_id.as_str(), g.novel_id.as_str()), ("1", "2", "n"));
}

#[test]
fn guild_check_swaps_columns() {
    assert!(matches!(RoyalGuild::check(None), Err(AugurError::FailedQuery)));
    assert!(matches!(RoyalGuild::check(Some(vec![])), Err(AugurError::NonExistentGuild)));
    let r = RoyalGuild::check(Some(vec![("link".to_string(), "42".to_string())])).ok().unwrap();
    assert_eq!(r, vec![("42".to_string(), "link".to_string())]);
}

#[test]
fn compare_keeps_only_new_chapters_in_order() {
    let old = novel("n", "l", "/c/1 /c/2 ");
    let new = novel("n", "l", "/c/1 /c/3 /c/2 /c/4 ");
    let m = old.compare(&new);
    assert_eq!(m.chapter_id, vec!["/c/3".to_string(), "/c/4".to_string()]);
    assert_eq!((m.novel_id.as_str(), m.novel_link.as_str()), ("n", "l"));
    assert!(m.channel_id.is_none());
}

#[test]
fn compare_with_itself_is_empty() {
    let old = novel("n", "l", "/c/1 /c/2 ");
    assert!(old.compare(&novel("n", "l", "/c/1 /c/2 ")).chapter_id.is_empty());
}

#[test]
fn stored_chapter_list_splits_back_into_links() {
    let text = RoyalNovel::get_chapters(Some(PAGE.to_string())).unwrap().unwrap();
    let empty = novel("n", "l", "");
    let m = empty.compare(&novel("n", "l", &text));
    assert_eq!(m.chapter_id, vec!["/fiction/1/x/chapter/10/one".to_string(), "/fiction/1/x/chapter/11/two".to_string()]);
}

#[test]
fn stored_novels_are_read_back() {
    assert!(matches!(RoyalNovel::retrieve_old(None), Err(AugurError::FailedQuery)));
    let v = RoyalNovel::retrieve_old(Some(vec![("i".to_string(), "l".to_string(), "c ".to_string())])).ok().unwrap();
    assert_eq!(v.len(), 1);
    assert_eq!((v[0].novel_id.as_str(), v[0].novel_link.as_str(), v[0].chapter_id.as_str(), v[0].precedent), ("i", "l", "c ", true));
}

#[test]
fn channel_ids_are_parsed() {
    assert_eq!(RoyalMessage::retrieve_channel_groups(None), None);
    assert_eq!(
        RoyalMessage::retrieve_channel_groups(Some(vec!["381880193700069377".to_string(), "7".to_string()])),
        Some(vec![381880193700069377, 7])
    );
}

#[test]
fn announcements_go_in_runs_of_five() {
    let chapters: Vec<String> = (1..=7).map(|i| format!("/c/{}", i)).collect();
    let m = RoyalMessage::new("n".to_string(), "l".to_string(), chapters);
    let texts = m.announcements();
    assert_eq!(texts.len(), 2);
    assert_eq!(
        texts[0],
        "https://royalroad.com/c/1\nhttps://royalroad.com/c/2\nhttps://royalroad.com/c/3\nhttps://royalroad.com/c/4\nhttps://royalroad.com/c/5\n"
    );
    assert_eq!(texts[1], "https://royalroad.com/c/6\nhttps://royalroad.com/c/7\n");
    assert!(RoyalMessage::new("n".to_string(), "l".to_string(), vec![]).announcements().is_empty());
}

#[test]
fn a_known_novel_is_built_without_its_page() {
    let n = RoyalNovel::new("l".to_string(), ("id".to_string(), true), Some(PAGE.to_string())).unwrap().ok().unwrap();
    assert_eq!((n.novel_id.as_str(), n.chapter_id.as_str(), n.precedent), ("id", "", true));
}

#[test]
fn a_new_novel_is_built_from_its_page() {
    let n = RoyalNovel::new("l".to_string(), ("id".to_string(), false), Some(PAGE.to_string())).unwrap().ok().unwrap();
    assert_eq!((n.novel_id.as_str(), n.chapter_id.as_str(), n.precedent), ("id", "/fiction/1/x/chapter/10/one /fiction/1/x/chapter/11/two ", false));
    assert!(matches!(RoyalNovel::new("l".to_string(), ("id".to_string(), false), None), Some(Err(AugurError::InvalidLink))));
}
