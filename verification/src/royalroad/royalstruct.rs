use vstd::prelude::*;

use crate::error::AugurError;
use crate::text::{decimal, is_white_space, parse_u64, parsed_u64, strings_view, u64_to_decimal, words};

verus! {

// Order of operation: a novel is first looked up by its link. Where the
// database knows it, its id is reused and no chapters are fetched; where it
// does not, a fresh id is made and the chapters are read off the fiction page.
// A `RoyalGuild` is then built from that `RoyalNovel`, so that a subscription
// always names the id under which the novel is stored.

/// A subscription of a channel of a guild to a novel, as a row of the `Guilds`
/// table holds it.
pub struct RoyalGuild {
    pub guild_id: String,
    pub channel_id: String,
    pub novel_id: String,
}

pub struct GuildView {
    pub guild_id: Seq<char>,
    pub channel_id: Seq<char>,
    pub novel_id: Seq<char>,
}

impl View for RoyalGuild {
    type V = GuildView;

    open spec fn view(&self) -> GuildView {
        GuildView {
            guild_id: self.guild_id@,
            channel_id: self.channel_id@,
            novel_id: self.novel_id@,
        }
    }
}

/// A novel, as a row of the `Novels` table holds it. `chapter_id` lists the
/// links of its chapters, each followed by a space. `precedent` says whether
/// the novel was already in the database.
pub struct RoyalNovel {
    pub novel_id: String,
    pub novel_link: String,
    pub chapter_id: String,
    pub precedent: bool,
}

pub struct NovelView {
    pub novel_id: Seq<char>,
    pub novel_link: Seq<char>,
    pub chapter_id: Seq<char>,
    pub precedent: bool,
}

impl View for RoyalNovel {
    type V = NovelView;

    open spec fn view(&self) -> NovelView {
        NovelView {
            novel_id: self.novel_id@,
            novel_link: self.novel_link@,
            chapter_id: self.chapter_id@,
            precedent: self.precedent,
        }
    }
}

/// The chapters of a novel that are to be announced, and the channels that
/// subscribed to it.
pub struct RoyalMessage {
    pub novel_id: String,
    pub novel_link: String,
    pub chapter_id: Vec<String>,
    pub channel_id: Option<Vec<u64>>,
}

pub struct MessageView {
    pub novel_id: Seq<char>,
    pub novel_link: Seq<char>,
    pub chapter_id: Seq<Seq<char>>,
    pub channel_id: Option<Seq<u64>>,
}

impl View for RoyalMessage {
    type V = MessageView;

    open spec fn view(&self) -> MessageView {
        MessageView {
            novel_id: self.novel_id@,
            novel_link: self.novel_link@,
            chapter_id: strings_view(self.chapter_id@),
            channel_id: match self.channel_id {
                Some(v) => Some(v@),
                None => None,
            },
        }
    }
}

/// The decimal text of a guild id, where a missing guild counts as id 0.
pub open spec fn guild_text(guild: Option<u64>) -> Seq<char> {
    decimal(
        match guild {
            Some(g) => g as nat,
            None => 0,
        },
    )
}

impl RoyalGuild {
    /// The subscription of `channel` of `guild` to `royal_novel`.
    pub fn new(guild: Option<u64>, channel: u64, royal_novel: &RoyalNovel) -> (g: RoyalGuild)
        ensures
            g@ == (GuildView {
                guild_id: guild_text(guild),
                channel_id: decimal(channel as nat),
                novel_id: royal_novel.novel_id@,
            }),
    {
        let guild_number = match guild {
            Some(g) => g,
            None => 0,
        };
        RoyalGuild {
            guild_id: u64_to_decimal(guild_number),
            channel_id: u64_to_decimal(channel),
            novel_id: royal_novel.novel_id.clone(),
        }
    }

    /// The outcome of inserting this subscription, given whether the database
    /// stored it: a refused insert means the channel already follows the novel.
    pub fn insert(&self, stored: bool) -> (r: Result<(), AugurError>)
        ensures
            r == (if stored { Ok(()) } else { Err(AugurError::UniqueConstraint) }),
    {
        if stored {
            Ok(())
        } else {
            Err(AugurError::UniqueConstraint)
        }
    }

    /// The outcome of deleting this subscription, given whether the query ran.
    pub fn remove(&self, deleted: bool) -> (r: Result<(), AugurError>)
        ensures
            r == (if deleted { Ok(()) } else { Err(AugurError::FailedQuery) }),
    {
        if deleted {
            Ok(())
        } else {
            Err(AugurError::FailedQuery)
        }
    }
}


/// The views of a vector of string pairs.
pub open spec fn pairs_view(v: Seq<(String, String)>) -> Seq<(Seq<char>, Seq<char>)> {
    v.map_values(|p: (String, String)| (p.0@, p.1@))
}

/// The pairs of `v`, each with its two parts swapped.
pub open spec fn swapped(v: Seq<(Seq<char>, Seq<char>)>) -> Seq<(Seq<char>, Seq<char>)> {
    v.map_values(|p: (Seq<char>, Seq<char>)| (p.1, p.0))
}

impl RoyalGuild {
    /// The novels followed in a guild, as `(channel_id, novel_link)` pairs, from
    /// the rows `(novel_link, channel_id)` that the database returned for the
    /// guild, or `None` where the query failed.
    pub fn check(rows: Option<Vec<(String, String)>>) -> (r: Result<Vec<(String, String)>, AugurError>)
        ensures
            match rows {
                None => r == Err::<Vec<(String, String)>, AugurError>(AugurError::FailedQuery),
                Some(v) => if v.len() == 0 {
                    r == Err::<Vec<(String, String)>, AugurError>(AugurError::NonExistentGuild)
                } else {
                    r is Ok && pairs_view(r->Ok_0@) == swapped(pairs_view(v@))
                },
            },
    {
        match rows {
            None => Err(AugurError::FailedQuery),
            Some(v) => {
                if v.len() == 0 {
                    return Err(AugurError::NonExistentGuild);
                }
                let mut out: Vec<(String, String)> = Vec::new();
                let mut i: usize = 0;
                while i < v.len()
                    invariant
                        0 <= i <= v.len(),
                        pairs_view(out@) == swapped(pairs_view(v@)).take(i as int),
                    decreases v.len() - i,
                {
                    let link = v[i].0.clone();
                    let channel = v[i].1.clone();
                    let ghost before = out@;
                    out.push((channel, link));
                    assert(pairs_view(out@) =~= pairs_view(before).push((v@[i as int].1@, v@[i as int].0@)));
                    assert(swapped(pairs_view(v@)).take(i + 1) =~= swapped(pairs_view(v@)).take(i as int).push((v@[i as int].1@, v@[i as int].0@)));
                    i = i + 1;
                }
                assert(swapped(pairs_view(v@)).take(v.len() as int) =~= swapped(pairs_view(v@)));
                Ok(out)
            },
        }
    }
}


/// Whether `c` is a lower-case hexadecimal digit.
pub open spec fn is_lower_hex(c: char) -> bool {
    ('0' <= c <= '9') || ('a' <= c <= 'f')
}

/// Whether `s` is a version-4 UUID written in hyphenated lower-case form:
/// 32 hexadecimal digits in groups of 8, 4, 4, 4 and 12, the version digit `4`
/// and a variant digit of `8`, `9`, `a` or `b`.
pub open spec fn is_uuid_v4_text(s: Seq<char>) -> bool {
    &&& s.len() == 36
    &&& forall|i: int|
        0 <= i < 36 ==> if i == 8 || i == 13 || i == 18 || i == 23 {
            #[trigger] s[i] == '-'
        } else {
            is_lower_hex(s[i])
        }
    &&& s[14] == '4'
    &&& (s[19] == '8' || s[19] == '9' || s[19] == 'a' || s[19] == 'b')
}

/// `uuid::Uuid::new_v4`, written out by its `Display` impl (`to_string`).
/// The contract claims what the crate's source shows of every outcome:
/// `new_v4` masks a random `u128` so that the version nibble is 4 and the
/// variant bits are `10`, and `Display` writes the hyphenated lower-case form.
/// Which UUID comes out is left open: it is random. The crate panics where the
/// operating system gives no random bytes; nothing here excludes that.
#[verifier::external_body]
fn random_uuid() -> (id: String)
    ensures
        is_uuid_v4_text(id@),
{
    uuid::Uuid::new_v4().to_string()
}

/// The pattern that finds the chapter links on a fiction page, and the name of
/// its group that holds the link.
pub const CHAPTER_PATTERN: &'static str = "(?sm)<td>\\s*<a\\s*href=[\"'](?P<chapter_link>[^\"']+)[\"']>";

pub const CHAPTER_GROUP: &'static str = "chapter_link";

/// What the `regex` crate finds in `haystack` for `pattern`: `None` where the
/// pattern does not compile, else, for each successive non-overlapping match,
/// the text of the group named `group`, or `None` where that group took no part
/// in the match.
pub uninterp spec fn regex_named_matches(pattern: Seq<char>, group: Seq<char>, haystack: Seq<char>) -> Option<Seq<Option<Seq<char>>>>;

/// The view of a list of optional strings.
pub open spec fn opt_strings_view(v: Seq<Option<String>>) -> Seq<Option<Seq<char>>> {
    v.map_values(
        |o: Option<String>|
            match o {
                Some(s) => Some(s@),
                None => None,
            },
    )
}

/// `regex::Regex::new(pattern)`, then, for each capture of `captures_iter` over
/// `haystack`, `Captures::name(group)` as an owned string. The contract names
/// the result (`regex_named_matches`): it is a function of the three strings.
#[verifier::external_body]
fn named_matches(pattern: &str, group: &str, haystack: &str) -> (r: Option<Vec<Option<String>>>)
    ensures
        regex_named_matches(pattern@, group@, haystack@) == match r {
            Some(v) => Some(opt_strings_view(v@)),
            None => None::<Seq<Option<Seq<char>>>>,
        },
{
    match regex::Regex::new(pattern) {
        Ok(re) => Some(
            re.captures_iter(haystack).map(|c| c.name(group).map(|m| m.as_str().to_string())).collect(),
        ),
        Err(_) => None,
    }
}

/// The chapter links `links`, each followed by one space.
pub open spec fn spaced(links: Seq<Seq<char>>) -> Seq<char>
    decreases links.len(),
{
    if links.len() == 0 {
        seq![]
    } else {
        links[0] + seq![' '] + spaced(links.drop_first())
    }
}

pub proof fn lemma_spaced_push(links: Seq<Seq<char>>, x: Seq<char>)
    ensures
        spaced(links.push(x)) == spaced(links) + x + seq![' '],
    decreases links.len(),
{
    if links.len() == 0 {
        assert(links.push(x).drop_first() =~= Seq::<Seq<char>>::empty());
        assert(spaced(Seq::<Seq<char>>::empty()) =~= Seq::<char>::empty());
        assert(links.push(x)[0] == x);
        assert(spaced(links.push(x)) =~= x + seq![' ']);
    } else {
        lemma_spaced_push(links.drop_first(), x);
        assert(links.push(x).drop_first() =~= links.drop_first().push(x));
        assert(spaced(links.push(x)) =~= spaced(links) + x + seq![' ']);
    }
}

/// Whether every match took the chapter group.
pub open spec fn all_present(caps: Seq<Option<Seq<char>>>) -> bool {
    forall|i: int| 0 <= i < caps.len() ==> #[trigger] caps[i] is Some
}

/// The texts of the chapter groups.
pub open spec fn present_texts(caps: Seq<Option<Seq<char>>>) -> Seq<Seq<char>> {
    caps.map_values(|c: Option<Seq<char>>| c->0)
}

/// The chapter list made of the matches `caps` of the chapter pattern: `None`
/// where a match lacks the chapter group (the bot cannot go on then), an error
/// where there is no match at all, else the spaced chapter links.
pub open spec fn chapters_from(caps: Seq<Option<Seq<char>>>) -> Option<Result<Seq<char>, AugurError>> {
    if !all_present(caps) {
        None
    } else if caps.len() == 0 {
        Some(Err(AugurError::NoChapters))
    } else {
        Some(Ok(spaced(present_texts(caps))))
    }
}

/// The chapter list of a novel, from the fiction page that was fetched for it
/// (`None` where the fetch failed). `None` where the chapter pattern does not
/// compile or a match lacks its chapter group: the bot cannot go on then.
pub open spec fn chapters_of_page(page: Option<Seq<char>>) -> Option<Result<Seq<char>, AugurError>> {
    match page {
        None => Some(Err(AugurError::InvalidLink)),
        Some(p) => match regex_named_matches(CHAPTER_PATTERN@, CHAPTER_GROUP@, p) {
            None => None,
            Some(caps) => chapters_from(caps),
        },
    }
}

/// The view of an optional string.
pub open spec fn opt_string_view(o: Option<String>) -> Option<Seq<char>> {
    match o {
        Some(s) => Some(s@),
        None => None,
    }
}

/// The view of an optional chapter list.
pub open spec fn opt_result_view(r: Option<Result<String, AugurError>>) -> Option<Result<Seq<char>, AugurError>> {
    match r {
        None => None,
        Some(Ok(s)) => Some(Ok(s@)),
        Some(Err(e)) => Some(Err(e)),
    }
}

/// The chapters that `new` lists and `old` does not, in the order of `new`.
pub open spec fn new_chapters(old: Seq<char>, new: Seq<char>) -> Seq<Seq<char>> {
    words(new).filter(|x: Seq<char>| !words(old).contains(x))
}

/// Whether `v` holds `x`.
fn contains_string(v: &Vec<String>, x: &String) -> (b: bool)
    ensures
        b == strings_view(v@).contains(x@),
{
    let mut i: usize = 0;
    while i < v.len()
        invariant
            0 <= i <= v.len(),
            forall|j: int| 0 <= j < i ==> v@[j]@ != x@,
        decreases v.len() - i,
    {
        if v[i] == *x {
            assert(strings_view(v@)[i as int] == x@);
            return true;
        }
        i = i + 1;
    }
    proof {
        if strings_view(v@).contains(x@) {
            let j = choose|j: int| 0 <= j < v@.len() && strings_view(v@)[j] == x@;
            assert(v@[j]@ == x@);
        }
    }
    false
}

impl RoyalNovel {
    /// The id of the novel that the lookup by link found, with `true`; where it
    /// found none, a fresh random id, with `false`.
    pub fn check(found: Option<String>) -> (r: (String, bool))
        ensures
            r.1 == found is Some,
            found is Some ==> r.0@ == found->0@,
            found is None ==> is_uuid_v4_text(r.0@),
    {
        match found {
            Some(novel_id) => (novel_id, true),
            None => (random_uuid(), false),
        }
    }

    /// The novel at `novel_link` as the database knows it, from the id that the
    /// lookup found; an error where it found none.
    pub fn proc_new(novel_link: String, found: Option<String>) -> (r: Result<RoyalNovel, AugurError>)
        ensures
            match found {
                None => r == Err::<RoyalNovel, AugurError>(AugurError::NonExistentNovel),
                Some(id) => r is Ok && r->Ok_0@ == (NovelView {
                    novel_id: id@,
                    novel_link: novel_link@,
                    chapter_id: seq![],
                    precedent: true,
                }),
            },
    {
        let (novel_id, precedent) = Self::check(found);
        if !precedent {
            return Err(AugurError::NonExistentNovel);
        }
        Ok(RoyalNovel { novel_id, novel_link, chapter_id: String::new(), precedent })
    }

    /// The chapter list read off a fiction page (`None` where fetching it
    /// failed): the chapter links, each followed by a space. `None` where the
    /// chapter pattern does not compile or a match lacks its group.
    pub fn get_chapters(page: Option<String>) -> (r: Option<Result<String, AugurError>>)
        ensures
            opt_result_view(r) == chapters_of_page(opt_string_view(page)),
    {
        let body = match page {
            Some(p) => p,
            None => return Some(Err(AugurError::InvalidLink)),
        };
        match named_matches(CHAPTER_PATTERN, CHAPTER_GROUP, body.as_str()) {
            Some(caps) => Self::chapters_from_matches(caps),
            None => None,
        }
    }

    /// The chapter list made of the matches `caps` of the chapter pattern: the
    /// chapter links, each followed by a space; an error where there is no
    /// match; `None` where a match lacks the chapter group.
    pub fn chapters_from_matches(caps: Vec<Option<String>>) -> (r: Option<Result<String, AugurError>>)
        ensures
            opt_result_view(r) == chapters_from(opt_strings_view(caps@)),
    {
        let ghost cv = opt_strings_view(caps@);
        let mut text = String::new();
        let mut i: usize = 0;
        while i < caps.len()
            invariant
                0 <= i <= caps.len(),
                cv == opt_strings_view(caps@),
                all_present(cv.take(i as int)),
                text@ == spaced(present_texts(cv.take(i as int))),
            decreases caps.len() - i,
        {
            match &caps[i] {
                Some(link) => {
                    proof {
                        lemma_spaced_push(present_texts(cv.take(i as int)), link@);
                        assert(present_texts(cv.take(i + 1)) =~= present_texts(cv.take(i as int)).push(link@));
                    }
                    text.append(link.as_str());
                    text.append(" ");
                    proof {
                        reveal_strlit(" ");
                    }
                    assert(all_present(cv.take(i + 1)));
                },
                None => {
                    assert(cv[i as int] is None);
                    assert(!all_present(cv));
                    return None;
                },
            }
            i = i + 1;
        }
        assert(cv.take(caps.len() as int) =~= cv);
        if text.as_str().is_empty() {
            proof {
                if cv.len() > 0 {
                    assert(spaced(present_texts(cv)).len() > 0);
                }
            }
            return Some(Err(AugurError::NoChapters));
        }
        Some(Ok(text))
    }

    /// The outcome of storing this novel, given whether the database stored it.
    /// A novel that was already there is not stored again.
    pub fn insert(&self, stored: bool) -> (r: Result<(), AugurError>)
        ensures
            r == (if self.precedent || stored { Ok(()) } else { Err(AugurError::UniqueConstraint) }),
    {
        if !self.precedent && !stored {
            return Err(AugurError::UniqueConstraint);
        }
        Ok(())
    }

    /// The outcome of storing this novel's chapter list, given whether the
    /// update ran.
    pub fn update(&self, stored: bool) -> (r: Result<(), AugurError>)
        ensures
            r == update_outcome(stored),
    {
        if stored {
            Ok(())
        } else {
            Err(AugurError::FailedQuery)
        }
    }

    /// The subscription of `channel` of `guild` to this novel, once the novel
    /// is stored: a novel that was not in the database yet must have been
    /// inserted (`inserted` says whether that worked).
    pub fn process(&self, guild: Option<u64>, channel: u64, inserted: bool) -> (r: Result<RoyalGuild, AugurError>)
        ensures
            !self.precedent && !inserted ==> r == Err::<RoyalGuild, AugurError>(AugurError::UniqueConstraint),
            self.precedent || inserted ==> r is Ok && r->Ok_0@ == (GuildView {
                guild_id: guild_text(guild),
                channel_id: decimal(channel as nat),
                novel_id: self.novel_id@,
            }),
    {
        match self.insert(inserted) {
            Ok(_) => Ok(RoyalGuild::new(guild, channel, self)),
            Err(e) => Err(e),
        }
    }

    /// What a fresh fetch of this novel's page changes: the chapters that
    /// `updated` lists and this novel did not, in order.
    pub fn compare(&self, updated: &RoyalNovel) -> (m: RoyalMessage)
        ensures
            m@ == (MessageView {
                novel_id: self.novel_id@,
                novel_link: self.novel_link@,
                chapter_id: new_chapters(self.chapter_id@, updated.chapter_id@),
                channel_id: None,
            }),
    {
        let one = crate::text::split_whitespace(self.chapter_id.as_str());
        let two = crate::text::split_whitespace(updated.chapter_id.as_str());
        let ghost old_words = words(self.chapter_id@);
        let ghost pred = |x: Seq<char>| !old_words.contains(x);
        let ghost tv = strings_view(two@);
        let mut three: Vec<String> = Vec::new();
        let mut i: usize = 0;
        while i < two.len()
            invariant
                0 <= i <= two.len(),
                strings_view(one@) == old_words,
                tv == strings_view(two@),
                pred == (|x: Seq<char>| !old_words.contains(x)),
                strings_view(three@) == tv.take(i as int).filter(pred),
            decreases two.len() - i,
        {
            proof {
                reveal_with_fuel(Seq::<_>::filter, 1);
                assert(tv.take(i + 1).drop_last() =~= tv.take(i as int));
            }
            let ghost before = three@;
            if !contains_string(&one, &two[i]) {
                three.push(two[i].clone());
                assert(strings_view(three@) =~= strings_view(before).push(tv[i as int]));
            }
            i = i + 1;
        }
        assert(tv.take(two.len() as int) =~= tv);
        RoyalMessage::new(self.novel_id.clone(), self.novel_link.clone(), three)
    }
}

impl RoyalMessage {
    /// A message that announces `chapter_id` for a novel, with its channels
    /// still to be found.
    pub fn new(novel_id: String, novel_link: String, chapter_id: Vec<String>) -> (m: RoyalMessage)
        ensures
            m@ == (MessageView {
                novel_id: novel_id@,
                novel_link: novel_link@,
                chapter_id: strings_view(chapter_id@),
                channel_id: None,
            }),
    {
        RoyalMessage { novel_id, novel_link, chapter_id, channel_id: None }
    }
}


/// The outcome of storing a novel's chapter list: `FailedQuery` where the
/// update did not run.
pub open spec fn update_outcome(stored: bool) -> Result<(), AugurError> {
    if stored {
        Ok(())
    } else {
        Err(AugurError::FailedQuery)
    }
}

/// The views of the rows `(novel_id, novel_link, chapter_id)` of `Novels`.
pub open spec fn rows_view(v: Seq<(String, String, String)>) -> Seq<(Seq<char>, Seq<char>, Seq<char>)> {
    v.map_values(|r: (String, String, String)| (r.0@, r.1@, r.2@))
}

/// The views of a list of novels.
pub open spec fn novels_view(v: Seq<RoyalNovel>) -> Seq<NovelView> {
    v.map_values(|n: RoyalNovel| n@)
}

/// The novels that the rows of `Novels` describe, all known to the database.
pub open spec fn stored_novels(rows: Seq<(Seq<char>, Seq<char>, Seq<char>)>) -> Seq<NovelView> {
    rows.map_values(
        |r: (Seq<char>, Seq<char>, Seq<char>)|
            NovelView { novel_id: r.0, novel_link: r.1, chapter_id: r.2, precedent: true },
    )
}

/// One line of an announcement: the full address of chapter `x`.
pub open spec fn link_line(x: Seq<char>) -> Seq<char> {
    "https://royalroad.com"@ + x + "\n"@
}

/// The lines of the chapters `xs`, one after the other.
pub open spec fn lines(xs: Seq<Seq<char>>) -> Seq<char>
    decreases xs.len(),
{
    if xs.len() == 0 {
        seq![]
    } else {
        lines(xs.drop_last()) + link_line(xs.last())
    }
}

/// The texts that announce the chapters `xs`: one text for each run of five
/// chapters, the last run possibly shorter.
pub open spec fn chunk_texts(xs: Seq<Seq<char>>) -> Seq<Seq<char>>
    decreases xs.len(),
{
    if xs.len() == 0 {
        seq![]
    } else if xs.len() <= 5 {
        seq![lines(xs)]
    } else {
        seq![lines(xs.take(5))] + chunk_texts(xs.skip(5))
    }
}

/// Whether every string of `v` reads as a `u64`.
pub open spec fn all_parse(v: Seq<Seq<char>>) -> bool {
    forall|i: int| 0 <= i < v.len() ==> #[trigger] parsed_u64(v[i]) is Some
}

/// The `u64`s that the strings of `v` read as.
pub open spec fn parsed_all(v: Seq<Seq<char>>) -> Seq<u64> {
    v.map_values(|s: Seq<char>| parsed_u64(s)->0)
}

impl RoyalNovel {
    /// The novels stored in the database, from the rows
    /// `(novel_id, novel_link, chapter_id)` of `Novels`, or `None` where the
    /// query failed.
    pub fn retrieve_old(rows: Option<Vec<(String, String, String)>>) -> (r: Result<Vec<RoyalNovel>, AugurError>)
        ensures
            match rows {
                None => r == Err::<Vec<RoyalNovel>, AugurError>(AugurError::FailedQuery),
                Some(v) => r is Ok && novels_view(r->Ok_0@) == stored_novels(rows_view(v@)),
            },
    {
        match rows {
            None => Err(AugurError::FailedQuery),
            Some(v) => {
                let ghost want = stored_novels(rows_view(v@));
                let mut out: Vec<RoyalNovel> = Vec::new();
                let mut i: usize = 0;
                while i < v.len()
                    invariant
                        0 <= i <= v.len(),
                        want == stored_novels(rows_view(v@)),
                        novels_view(out@) == want.take(i as int),
                    decreases v.len() - i,
                {
                    let novel = RoyalNovel {
                        novel_id: v[i].0.clone(),
                        novel_link: v[i].1.clone(),
                        chapter_id: v[i].2.clone(),
                        precedent: true,
                    };
                    let ghost before = out@;
                    out.push(novel);
                    assert(novels_view(out@) =~= novels_view(before).push(want[i as int]));
                    assert(want.take(i + 1) =~= want.take(i as int).push(want[i as int]));
                    i = i + 1;
                }
                assert(want.take(v.len() as int) =~= want);
                Ok(out)
            },
        }
    }
}

impl RoyalMessage {
    /// The channels subscribed to a novel, from the `channel_id` column of its
    /// rows in `Guilds`, or `None` where the query failed. Every id must read as
    /// a `u64`: the bot cannot go on with one that does not.
    pub fn retrieve_channel_groups(rows: Option<Vec<String>>) -> (r: Option<Vec<u64>>)
        requires
            rows is Some ==> all_parse(strings_view(rows->0@)),
        ensures
            match rows {
                None => r is None,
                Some(v) => r is Some && r->0@ == parsed_all(strings_view(v@)),
            },
    {
        match rows {
            None => None,
            Some(v) => {
                let ghost sv = strings_view(v@);
                let mut ids: Vec<u64> = Vec::new();
                let mut i: usize = 0;
                while i < v.len()
                    invariant
                        0 <= i <= v.len(),
                        sv == strings_view(v@),
                        all_parse(sv),
                        ids@ == parsed_all(sv).take(i as int),
                    decreases v.len() - i,
                {
                    assert(parsed_u64(sv[i as int]) is Some);
                    let id = match parse_u64(v[i].as_str()) {
                        Some(id) => id,
                        None => {
                            assert(false);
                            0
                        },
                    };
                    ids.push(id);
                    assert(parsed_all(sv).take(i + 1) =~= parsed_all(sv).take(i as int).push(id));
                    i = i + 1;
                }
                assert(parsed_all(sv).take(v.len() as int) =~= parsed_all(sv));
                Some(ids)
            },
        }
    }

    /// The texts that announce this message's chapters: each run of five
    /// chapters makes one text, one line per chapter, in order.
    pub fn announcements(&self) -> (texts: Vec<String>)
        ensures
            strings_view(texts@) == chunk_texts(self@.chapter_id),
    {
        let ghost xs = strings_view(self.chapter_id@);
        let n = self.chapter_id.len();
        let mut texts: Vec<String> = Vec::new();
        let mut i: usize = 0;
        assert(xs.skip(0) =~= xs);
        while i < n
            invariant
                n == self.chapter_id.len(),
                xs == strings_view(self.chapter_id@),
                0 <= i <= n,
                chunk_texts(xs) == strings_view(texts@) + chunk_texts(xs.skip(i as int)),
            decreases n - i,
        {
            let end: usize = if n - i > 5 { i + 5 } else { n };
            let mut t = String::new();
            let mut j: usize = i;
            assert(xs.subrange(i as int, i as int) =~= Seq::<Seq<char>>::empty());
            while j < end
                invariant
                    xs == strings_view(self.chapter_id@),
                    n == self.chapter_id.len(),
                    i <= j <= end <= n,
                    t@ == lines(xs.subrange(i as int, j as int)),
                decreases end - j,
            {
                t.append("https://royalroad.com");
                t.append(self.chapter_id[j].as_str());
                t.append("\n");
                assert(xs.subrange(i as int, j + 1).drop_last() =~= xs.subrange(i as int, j as int));
                assert(t@ =~= lines(xs.subrange(i as int, j + 1)));
                j = j + 1;
            }
            proof {
                let rest = xs.skip(i as int);
                if n - i > 5 {
                    assert(rest.take(5) =~= xs.subrange(i as int, end as int));
                    assert(rest.skip(5) =~= xs.skip(end as int));
                } else {
                    assert(rest =~= xs.subrange(i as int, end as int));
                    assert(xs.skip(end as int) =~= Seq::<Seq<char>>::empty());
                }
            }
            let ghost before = texts@;
            texts.push(t);
            assert(strings_view(texts@) =~= strings_view(before).push(t@));
            assert(strings_view(texts@) + chunk_texts(xs.skip(end as int)) =~= strings_view(before) + chunk_texts(xs.skip(i as int)));
            i = end;
        }
        assert(xs.skip(n as int) =~= Seq::<Seq<char>>::empty());
        assert(strings_view(texts@) + Seq::<Seq<char>>::empty() =~= strings_view(texts@));
        texts
    }
}


/// Whether every link of `links` is non-empty and free of white space, as the
/// chapter pattern's `[^"']+` group is where the page writes plain addresses.
pub open spec fn plain_links(links: Seq<Seq<char>>) -> bool {
    forall|i: int|
        0 <= i < links.len() ==> #[trigger] links[i].len() > 0 && forall|j: int|
            0 <= j < links[i].len() ==> !is_white_space(links[i][j])
}

/// The chapter list that `get_chapters` stores splits back into its links:
/// reading the stored list word by word gives the links that were found.
pub proof fn lemma_words_of_spaced(links: Seq<Seq<char>>)
    requires
        plain_links(links),
    ensures
        words(spaced(links)) == links,
    decreases links.len(),
{
    if links.len() == 0 {
        assert(spaced(links) =~= Seq::<char>::empty());
        assert(words(spaced(links)) =~= links);
    } else {
        let l = links[0];
        let tail = links.drop_first();
        let s = spaced(links);
        let rest = spaced(tail);
        assert(plain_links(tail)) by {
            assert forall|i: int| 0 <= i < tail.len() implies #[trigger] tail[i].len() > 0
                && forall|j: int| 0 <= j < tail[i].len() ==> !is_white_space(tail[i][j]) by {
                assert(tail[i] == links[i + 1]);
            }
        }
        lemma_words_of_spaced(tail);
        assert(s =~= l + (seq![' '] + rest));
        assert(l.len() > 0);
        assert forall|j: int| 0 <= j < l.len() implies !is_white_space(#[trigger] s[j]) by {
            assert(s[j] == l[j]);
        }
        assert(s[l.len() as int] == ' ');
        crate::text::lemma_word_len_bounds(s);
        crate::text::lemma_word_len_exact(s, l.len() as int);
        assert(s.take(l.len() as int) =~= l);
        let after = s.skip(l.len() as int);
        assert(after =~= seq![' '] + rest);
        assert(after.drop_first() =~= rest);
        assert(words(after) == words(rest));
        assert(words(s) == seq![l] + words(after));
        assert(words(s) =~= links);
    }
}

proof fn lemma_filter_none<A>(xs: Seq<A>, pred: spec_fn(A) -> bool)
    requires
        forall|i: int| 0 <= i < xs.len() ==> !pred(#[trigger] xs[i]),
    ensures
        xs.filter(pred) == Seq::<A>::empty(),
    decreases xs.len(),
{
    reveal_with_fuel(Seq::<_>::filter, 1);
    if xs.len() > 0 {
        assert forall|i: int| 0 <= i < xs.drop_last().len() implies !pred(#[trigger] xs.drop_last()[i]) by {
            assert(xs.drop_last()[i] == xs[i]);
        }
        lemma_filter_none(xs.drop_last(), pred);
        assert(!pred(xs.last()));
    }
    assert(xs.filter(pred) =~= Seq::<A>::empty());
}

proof fn lemma_filter_subset<A>(xs: Seq<A>, pred: spec_fn(A) -> bool, i: int)
    requires
        0 <= i < xs.filter(pred).len(),
    ensures
        xs.contains(xs.filter(pred)[i]),
    decreases xs.len(),
{
    reveal_with_fuel(Seq::<_>::filter, 1);
    let sub = xs.drop_last().filter(pred);
    if i < sub.len() {
        lemma_filter_subset(xs.drop_last(), pred, i);
        let j = choose|j: int| 0 <= j < xs.drop_last().len() && xs.drop_last()[j] == sub[i];
        assert(xs[j] == xs.filter(pred)[i]);
    } else {
        assert(xs[xs.len() - 1] == xs.filter(pred)[i]);
    }
}

/// Comparing a chapter list with itself finds nothing new: a novel whose page
/// did not change announces no chapter.
pub proof fn lemma_compare_unchanged(chapters: Seq<char>)
    ensures
        new_chapters(chapters, chapters) == Seq::<Seq<char>>::empty(),
{
    let ws = words(chapters);
    let pred = |x: Seq<char>| !ws.contains(x);
    assert forall|i: int| 0 <= i < ws.len() implies !pred(#[trigger] ws[i]) by {
        assert(ws.contains(ws[i]));
    }
    lemma_filter_none(ws, pred);
}

/// A chapter is announced exactly when the new list holds it and the old one
/// does not.
pub proof fn lemma_new_chapters_members(old: Seq<char>, new: Seq<char>, x: Seq<char>)
    ensures
        new_chapters(old, new).contains(x) <==> (words(new).contains(x) && !words(old).contains(x)),
{
    broadcast use vstd::seq_lib::group_filter_ensures;

    let pred = |y: Seq<char>| !words(old).contains(y);
    let f = words(new).filter(pred);
    if f.contains(x) {
        let i = choose|i: int| 0 <= i < f.len() && f[i] == x;
        assert(pred(f[i]));
        lemma_filter_subset(words(new), pred, i);
    }
    if words(new).contains(x) && !words(old).contains(x) {
        let i = choose|i: int| 0 <= i < words(new).len() && words(new)[i] == x;
        words(new).lemma_filter_contains(pred, i);
    }
}

/// Over chapter lists stored as `get_chapters` writes them, the chapters that an
/// update announces are the links of the new page that the old page did not
/// have, in the order of the new page.
pub proof fn lemma_update_announces_new_links(old: Seq<Seq<char>>, new: Seq<Seq<char>>)
    requires
        plain_links(old),
        plain_links(new),
    ensures
        new_chapters(spaced(old), spaced(new)) == new.filter(|x: Seq<char>| !old.contains(x)),
{
    lemma_words_of_spaced(old);
    lemma_words_of_spaced(new);
    assert((|x: Seq<char>| !words(spaced(old)).contains(x)) =~= (|x: Seq<char>| !old.contains(x)));
}


/// The novel at `novel_link`, from the lookup `(novel_id, precedent)` that
/// `check` gave and the fiction page fetched for it.
pub open spec fn novel_of(novel_link: Seq<char>, novel_id: Seq<char>, precedent: bool, page: Option<Seq<char>>) -> Option<Result<NovelView, AugurError>> {
    if precedent {
        Some(Ok(NovelView { novel_id, novel_link, chapter_id: seq![], precedent }))
    } else {
        match chapters_of_page(page) {
            None => None,
            Some(Err(e)) => Some(Err(e)),
            Some(Ok(chapter_id)) => Some(Ok(NovelView { novel_id, novel_link, chapter_id, precedent })),
        }
    }
}

/// The view of an optional novel.
pub open spec fn opt_novel_view(r: Option<Result<RoyalNovel, AugurError>>) -> Option<Result<NovelView, AugurError>> {
    match r {
        None => None,
        Some(Ok(n)) => Some(Ok(n@)),
        Some(Err(e)) => Some(Err(e)),
    }
}

impl RoyalNovel {
    /// The novel at `novel_link`, from the lookup `(novel_id, precedent)` that
    /// `check` gave. A novel the database knows gets no chapter list: its page
    /// is not read (nor fetched). A new novel gets the chapter list read off its
    /// page (`None` where fetching it failed). `None` where the chapter pattern
    /// does not compile or a match lacks its group.
    pub fn new(novel_link: String, lookup: (String, bool), page: Option<String>) -> (r: Option<Result<RoyalNovel, AugurError>>)
        ensures
            opt_novel_view(r) == novel_of(novel_link@, lookup.0@, lookup.1, opt_string_view(page)),
    {
        let (novel_id, precedent) = lookup;
        if precedent {
            return Some(Ok(RoyalNovel { novel_id, novel_link, chapter_id: String::new(), precedent }));
        }
        match Self::get_chapters(page) {
            None => None,
            Some(Err(e)) => Some(Err(e)),
            Some(Ok(chapter_id)) => Some(Ok(RoyalNovel { novel_id, novel_link, chapter_id, precedent })),
        }
    }
}

/// The text of the chapters `xs`: one line per chapter, in order, each the
/// full address of the chapter.
pub proof fn lemma_lines_are_link_lines(xs: Seq<Seq<char>>)
    ensures
        lines(xs) == xs.map_values(|x: Seq<char>| link_line(x)).flatten(),
    decreases xs.len(),
{
    broadcast use Seq::lemma_flatten_push;

    if xs.len() > 0 {
        lemma_lines_are_link_lines(xs.drop_last());
        assert(xs.map_values(|x: Seq<char>| link_line(x)) =~= xs.drop_last().map_values(
            |x: Seq<char>| link_line(x),
        ).push(link_line(xs.last())));
    } else {
        assert(xs.map_values(|x: Seq<char>| link_line(x)) =~= Seq::<Seq<char>>::empty());
    }
}

/// The announcements of the chapters `xs` go in runs of five: there are
/// `ceil(|xs| / 5)` texts, and text `k` holds the lines of chapters `5k` up to
/// `5k + 4` (the last text fewer, where `|xs|` is no multiple of five).
pub proof fn lemma_chunk_texts_runs(xs: Seq<Seq<char>>)
    ensures
        chunk_texts(xs).len() == (xs.len() + 4) / 5,
        forall|k: int|
            0 <= k < chunk_texts(xs).len() ==> #[trigger] chunk_texts(xs)[k] == xs.subrange(
                5 * k,
                if 5 * k + 5 <= xs.len() { 5 * k + 5 } else { xs.len() as int },
            ).map_values(|x: Seq<char>| link_line(x)).flatten(),
    decreases xs.len(),
{
    if xs.len() == 0 {
    } else if xs.len() <= 5 {
        assert(xs.subrange(0, xs.len() as int) =~= xs);
        lemma_lines_are_link_lines(xs);
    } else {
        let rest = xs.skip(5);
        lemma_chunk_texts_runs(rest);
        lemma_lines_are_link_lines(xs.take(5));
        assert(xs.subrange(0, 5) =~= xs.take(5));
        assert forall|k: int| 0 <= k < chunk_texts(xs).len() implies #[trigger] chunk_texts(xs)[k] == xs.subrange(
            5 * k,
            if 5 * k + 5 <= xs.len() { 5 * k + 5 } else { xs.len() as int },
        ).map_values(|x: Seq<char>| link_line(x)).flatten() by {
            if k > 0 {
                let k2 = k - 1;
                assert(chunk_texts(xs)[k] == chunk_texts(rest)[k2]);
                assert(rest.subrange(
                    5 * k2,
                    if 5 * k2 + 5 <= rest.len() { 5 * k2 + 5 } else { rest.len() as int },
                ) =~= xs.subrange(5 * k, if 5 * k + 5 <= xs.len() { 5 * k + 5 } else { xs.len() as int }));
            }
        }
    }
}

/// Put together, the announcements of the chapters `xs` are the lines of all
/// of them, in order: no chapter is left out or repeated.
pub proof fn lemma_chunk_texts_cover(xs: Seq<Seq<char>>)
    ensures
        chunk_texts(xs).flatten() == xs.map_values(|x: Seq<char>| link_line(x)).flatten(),
    decreases xs.len(),
{
    if xs.len() == 0 {
        assert(xs.map_values(|x: Seq<char>| link_line(x)) =~= Seq::<Seq<char>>::empty());
    } else if xs.len() <= 5 {
        lemma_lines_are_link_lines(xs);
        seq![lines(xs)].lemma_flatten_one_element();
    } else {
        let rest = xs.skip(5);
        lemma_chunk_texts_cover(rest);
        lemma_lines_are_link_lines(xs.take(5));
        vstd::seq_lib::lemma_flatten_concat(seq![lines(xs.take(5))], chunk_texts(rest));
        seq![lines(xs.take(5))].lemma_flatten_one_element();
        let f = |x: Seq<char>| link_line(x);
        assert(xs.map_values(f) =~= xs.take(5).map_values(f) + rest.map_values(f));
        vstd::seq_lib::lemma_flatten_concat(xs.take(5).map_values(f), rest.map_values(f));
    }
}

} // verus!
