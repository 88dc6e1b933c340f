//! File and folder names: the title, year, season, episode and provider
//! identifiers that the name of a media file tells.
//!
//! A provider tag such as `[tmdb=502419]` is read and taken out first. The
//! strongest sign of an episode is `S01E02`, a range of episodes before a
//! single one, then `1x02`, then a marker such as `EP02` and its Chinese forms.
//! A name without such a sign is a title, unless it is nothing but a number.

use vstd::prelude::*;
use vstd::string::*;

use crate::number::{
    all_digits, digit, digits_value, i32_of, i64_of, is_digit, lemma_nat_text, nat_text, parse_i32,
    parse_i64,
};
use crate::pattern::{
    BARE_SEASON, CHINESE_EPISODE, CHINESE_EPISODE_NUM, CROSSED, EPISODE_MARKER, EPISODE_RANGE,
    PROVIDER_TAG, SEASON_CHINESE, SEASON_CHINESE_NUM, SEASON_EPISODE, SEASON_WORD, TITLE_YEAR,
    YEAR_TOKEN, all_matches, captures, captures_iter, erase, erased, find, first_match, found,
    group, group_texts, head_before, is_alnum, match_texts, provider_tag, provider_word,
    split_head, tag_id, tagged, title_before_year,
};
use crate::text::{
    contains_text, first_of, is_space, join, last_position, lemma_joined_words, lemma_last_position,
    lemma_trim_bounds, lemma_trim_is_part, lemma_trim_twice, lemma_trim_within, lemma_well_spaced_stays, lemma_words, lower, lowered,
    occurs, occurs_at, opt, range_text, rfind_char, same, same_ignoring_case, single_spaced, space,
    to_chars, trim, trim_by, trimmed, well_spaced, words, words_of,
};

verus! {

/// What a file name tells. A season or an episode of zero is not known.
#[derive(Debug, Clone, PartialEq)]
pub struct ParsedName {
    pub title: String,
    pub year: Option<i32>,
    pub season: i64,
    pub episode: i64,
    /// The last episode of a range.
    pub episode_end: i64,
    /// Whether the episode rests on nothing but a bare number.
    pub weak_episode: bool,
    pub tmdb_id: Option<String>,
    pub imdb_id: Option<String>,
    pub tvdb_id: Option<String>,
}

impl Default for ParsedName {
    /// What a name tells that tells nothing.
    fn default() -> (r: Self)
        ensures
            r.title@ == Seq::<char>::empty(),
            r.year is None,
            r.season == 0,
            r.episode == 0,
            r.episode_end == 0,
            !r.weak_episode,
            r.tmdb_id is None,
            r.imdb_id is None,
            r.tvdb_id is None,
    {
        ParsedName {
            title: String::new(),
            year: None,
            season: 0,
            episode: 0,
            episode_end: 0,
            weak_episode: false,
            tmdb_id: None,
            imdb_id: None,
            tvdb_id: None,
        }
    }
}

impl ParsedName {
    /// Whether the name hints at a season or an episode.
    pub fn is_episode(&self) -> (r: bool)
        ensures
            r == (self.season > 0 || self.episode > 0),
    {
        self.season > 0 || self.episode > 0
    }
}

// ---------------------------------------------------------------------------
// Numbers

/// The value of a Chinese numeral below ten.
pub open spec fn numeral(c: char) -> Option<int> {
    if c == '零' || c == '〇' {
        Some(0)
    } else if c == '一' {
        Some(1)
    } else if c == '二' || c == '两' {
        Some(2)
    } else if c == '三' {
        Some(3)
    } else if c == '四' {
        Some(4)
    } else if c == '五' {
        Some(5)
    } else if c == '六' {
        Some(6)
    } else if c == '七' {
        Some(7)
    } else if c == '八' {
        Some(8)
    } else if c == '九' {
        Some(9)
    } else {
        None
    }
}

/// Whether `c` is a Chinese numeral up to ten.
pub open spec fn is_numeral(c: char) -> bool {
    numeral(c) is Some || c == '十'
}

/// The number that numerals below ten denote, one digit each.
pub open spec fn numerals_value(s: Seq<char>) -> int
    decreases s.len(),
{
    if s.len() == 0 {
        0
    } else {
        numerals_value(s.drop_last()) * 10 + numeral(s.last())->0
    }
}

/// The last numeral below ten; zero where there is none.
pub open spec fn last_numeral(s: Seq<char>) -> int
    decreases s.len(),
{
    if s.len() == 0 {
        0
    } else if s.last() == '十' {
        last_numeral(s.drop_last())
    } else {
        numeral(s.last())->0
    }
}

/// The number that Chinese numerals denote: digit by digit where there is no
/// ten (`一二三` is 123), and otherwise so many tens and units, where a ten
/// without a number before it counts as one (`十二` is 12).
pub open spec fn chinese_value(s: Seq<char>) -> Option<int> {
    let at = crate::text::position(s, '十');
    if exists|i: int| 0 <= i < s.len() && !is_numeral(#[trigger] s[i]) {
        None
    } else if at == s.len() {
        Some(numerals_value(s))
    } else {
        let tens = last_numeral(s.take(at));
        Some(
            (if tens == 0 {
                1
            } else {
                tens
            }) * 10 + last_numeral(s.skip(at + 1)),
        )
    }
}

fn numeral_value(c: char) -> (r: Option<i64>)
    ensures
        match numeral(c) {
            Some(n) => r == Some(n as i64) && 0 <= n <= 9,
            None => r is None,
        },
{
    if c == '零' || c == '〇' {
        Some(0)
    } else if c == '一' {
        Some(1)
    } else if c == '二' || c == '两' {
        Some(2)
    } else if c == '三' {
        Some(3)
    } else if c == '四' {
        Some(4)
    } else if c == '五' {
        Some(5)
    } else if c == '六' {
        Some(6)
    } else if c == '七' {
        Some(7)
    } else if c == '八' {
        Some(8)
    } else if c == '九' {
        Some(9)
    } else {
        None
    }
}

proof fn lemma_numeral_bound(c: char)
    ensures
        numeral(c) is Some ==> 0 <= numeral(c)->0 <= 9,
{
}

proof fn lemma_numerals_grow(s: Seq<char>, k: int)
    requires
        0 <= k <= s.len(),
        forall|i: int| 0 <= i < s.len() ==> numeral(#[trigger] s[i]) is Some,
    ensures
        0 <= numerals_value(s.take(k)) <= numerals_value(s),
    decreases s.len(),
{
    if s.len() == 0 {
        assert(s.take(k) =~= s);
    } else {
        let t = s.drop_last();
        assert(numeral(s[s.len() - 1]) is Some);
        lemma_numeral_bound(s.last());
        assert forall|i: int| 0 <= i < t.len() implies numeral(#[trigger] t[i]) is Some by {
            assert(t[i] == s[i]);
        }
        if k == s.len() {
            assert(s.take(k) =~= s);
            lemma_numerals_grow(t, t.len() as int);
            assert(t.take(t.len() as int) =~= t);
        } else {
            lemma_numerals_grow(t, k);
            assert(t.take(k) =~= s.take(k));
        }
    }
}

/// The last numeral below ten in `cs[from..to]`, where all are numerals up to ten.
fn last_numeral_of(cs: &Vec<char>, from: usize, to: usize) -> (r: i64)
    requires
        from <= to <= cs@.len(),
        forall|i: int| 0 <= i < cs@.len() ==> is_numeral(#[trigger] cs@[i]),
    ensures
        r == last_numeral(cs@.subrange(from as int, to as int)),
        0 <= r <= 9,
{
    let ghost s = cs@.subrange(from as int, to as int);
    let mut i: usize = to;
    assert(s.take(to - from) =~= s);
    while i > from
        invariant
            from <= i <= to <= cs@.len(),
            s == cs@.subrange(from as int, to as int),
            forall|i: int| 0 <= i < cs@.len() ==> is_numeral(#[trigger] cs@[i]),
            last_numeral(s) == last_numeral(s.take(i - from)),
        decreases i,
    {
        let c: char = cs[i - 1];
        proof {
            assert(s.take(i - from).last() == c);
            assert(s.take(i - from).drop_last() =~= s.take(i - from - 1));
            assert(is_numeral(cs@[i - 1]));
        }
        if c != '十' {
            return match numeral_value(c) {
                Some(n) => n,
                None => 0,
            };
        }
        i = i - 1;
    }
    0
}

/// The number that Chinese numerals denote; none where anything else stands
/// among them or the number is too great.
pub fn chinese_number(s: &str) -> (r: Option<i64>)
    ensures
        match chinese_value(s@) {
            Some(n) => 0 <= n && if n <= i64::MAX {
                r == Some(n as i64)
            } else {
                r is None
            },
            None => r is None,
        },
{
    let cs = to_chars(s);
    let n: usize = cs.len();
    let mut i: usize = 0;
    while i < n
        invariant
            i <= n == cs@.len(),
            cs@ == s@,
            forall|k: int| 0 <= k < i ==> is_numeral(#[trigger] cs@[k]),
        decreases n - i,
    {
        if cs[i] != '十' && numeral_value(cs[i]).is_none() {
            assert(!is_numeral(s@[i as int]));
            return None;
        }
        i = i + 1;
    }
    let at: usize = crate::text::find_char(cs.as_slice(), 0, n, '十');
    assert(cs@.subrange(0, n as int) =~= s@);
    if at == n {
        proof {
            assert forall|k: int| 0 <= k < s@.len() implies numeral(#[trigger] s@[k]) is Some by {
                assert(is_numeral(cs@[k]) && cs@[k] != '十');
            }
            assert(chinese_value(s@) == Some(numerals_value(s@)));
        }
        let mut v: i64 = 0;
        let mut k: usize = 0;
        assert(s@.take(0) =~= Seq::empty());
        while k < n
            invariant
                k <= n == cs@.len(),
                cs@ == s@,
                forall|j: int| 0 <= j < s@.len() ==> numeral(#[trigger] s@[j]) is Some,
                chinese_value(s@) == Some(numerals_value(s@)),
                v == numerals_value(s@.take(k as int)),
                v >= 0,
            decreases n - k,
        {
            assert(numeral(s@[k as int]) is Some);
            let d: i64 = match numeral_value(cs[k]) {
                Some(d) => d,
                None => 0,
            };
            proof {
                assert(s@.take(k + 1).drop_last() =~= s@.take(k as int));
                assert(s@.take(k + 1).last() == s@[k as int]);
                lemma_numerals_grow(s@, k + 1);
                lemma_numerals_grow(s@, n as int);
                assert(s@.take(n as int) =~= s@);
            }
            if v > i64::MAX / 10 || v * 10 > i64::MAX - d {
                return None;
            }
            v = v * 10 + d;
            k = k + 1;
        }
        assert(s@.take(n as int) =~= s@);
        return Some(v);
    }
    let before: i64 = last_numeral_of(&cs, 0, at);
    let units: i64 = last_numeral_of(&cs, at + 1, n);
    proof {
        assert(cs@.subrange(0, at as int) =~= s@.take(at as int));
        assert(cs@.subrange(at + 1, n as int) =~= s@.skip(at + 1));
    }
    let tens: i64 = if before == 0 {
        1
    } else {
        before
    };
    Some(tens * 10 + units)
}

/// A year within this century or the last, out of the text of a year.
pub open spec fn plausible_year(token: Option<Seq<char>>) -> Option<i32> {
    match token {
        Some(t) => match i32_of(t) {
            Some(y) => if 1900 <= y <= 2099 {
                Some(y)
            } else {
                None
            },
            None => None,
        },
        None => None,
    }
}

/// A year within this century or the last, out of the text of a year.
pub fn year_of_token(token: Option<&str>) -> (r: Option<i32>)
    ensures
        r == plausible_year(crate::text::opt_str(token)),
{
    match token {
        Some(t) => match parse_i32(t) {
            Some(y) => if 1900 <= y && y <= 2099 {
                Some(y)
            } else {
                None
            },
            None => None,
        },
        None => None,
    }
}

/// The year that a name tells.
pub open spec fn year_in_name(name: Seq<char>) -> Option<i32> {
    plausible_year(found(YEAR_TOKEN@, name))
}

/// The year that a name tells.
pub fn extract_year(name: &str) -> (r: Option<i32>)
    ensures
        r == year_in_name(name@),
{
    let token = find(YEAR_TOKEN, name);
    year_of_token(crate::text::borrowed(&token))
}

// ---------------------------------------------------------------------------
// Titles

/// What is cut from either end of a title.
pub open spec fn title_edge(c: char) -> bool {
    c == ' ' || c == '\t' || c == '\r' || c == '\n' || c == '.' || c == '_' || c == '-' || c == '+'
        || c == '~' || c == '[' || c == ']' || c == '(' || c == ')'
}

fn is_title_edge(c: char) -> (r: bool)
    ensures
        r == title_edge(c),
{
    c == ' ' || c == '\t' || c == '\r' || c == '\n' || c == '.' || c == '_' || c == '-' || c == '+'
        || c == '~' || c == '[' || c == ']' || c == '(' || c == ')'
}

/// A title in its final form: without separators and brackets at either end,
/// and with one blank between any two words.
pub open spec fn tidy(s: Seq<char>) -> Seq<char> {
    single_spaced(trim_by(s, |c: char| title_edge(c)))
}

/// A title in its final form.
pub fn tidy_title(s: &str) -> (r: String)
    ensures
        r@ == tidy(s@),
{
    let cs = to_chars(s);
    let n: usize = cs.len();
    let ghost p = |c: char| title_edge(c);
    let mut a: usize = 0;
    while a < n && is_title_edge(cs[a])
        invariant
            a <= n == cs@.len(),
            p == (|c: char| title_edge(c)),
            forall|i: int| 0 <= i < a ==> p(#[trigger] cs@[i]),
        decreases n - a,
    {
        a = a + 1;
    }
    let mut b: usize = n;
    while b > a && is_title_edge(cs[b - 1])
        invariant
            a <= b <= n == cs@.len(),
            p == (|c: char| title_edge(c)),
            a < n ==> !p(cs@[a as int]),
            a == n ==> b == n,
            forall|i: int| b <= i < n ==> p(#[trigger] cs@[i]),
        decreases b - a,
    {
        b = b - 1;
    }
    proof {
        if a < b {
            assert(!p(cs@[b - 1]));
        }
        if a == b && a < n {
            assert(p(cs@[a as int]));
        }
        lemma_trim_bounds(cs@, p, a as int, b as int);
    }
    let core = range_text(cs.as_slice(), a, b);
    let list = words(core.as_str());
    join(&list, " ")
}

/// Whether the only whitespace in a text is blanks, tabs and line ends.
pub open spec fn plain_spaces(s: Seq<char>) -> bool {
    forall|i: int|
        0 <= i < s.len() && is_space(#[trigger] s[i]) ==> s[i] == ' ' || s[i] == '\t' || s[i]
            == '\r' || s[i] == '\n'
}

/// Whether a text is a title in its final form: no separator, bracket or
/// whitespace at either end, and single blanks only.
pub open spec fn is_tidy(t: Seq<char>) -> bool {
    well_spaced(t) && (t.len() > 0 ==> !title_edge(t[0]) && !title_edge(t.last()))
}

/// A title in its final form stays as it is, also when it is cleaned again,
/// unless a year in brackets is found in it.
pub proof fn law_tidy_title_stays(t: Seq<char>)
    requires
        is_tidy(t),
    ensures
        tidy(t) == t,
        first_match(TITLE_YEAR@, t) is None ==> cleaned(t) == t,
{
    let p = |c: char| title_edge(c);
    let q = |c: char| is_space(c);
    lemma_trim_bounds(t, p, 0, t.len() as int);
    lemma_trim_bounds(t, q, 0, t.len() as int);
    assert(t.subrange(0, t.len() as int) =~= t);
    lemma_well_spaced_stays(t);
}

/// Tidying gives a title in its final form, and tidying twice changes nothing
/// more.
pub proof fn law_tidy_title_is_tidy(s: Seq<char>)
    requires
        plain_spaces(s),
    ensures
        is_tidy(tidy(s)),
        tidy(tidy(s)) == tidy(s),
{
    let p = |c: char| title_edge(c);
    let core = trim_by(s, p);
    lemma_trim_twice(s, p);
    lemma_trim_within(s, p);
    if core.len() > 0 {
        assert(s.contains(core[0]));
        assert(s.contains(core[core.len() - 1]));
    }
    lemma_words(core);
    lemma_joined_words(words_of(core));
    law_tidy_title_stays(tidy(s));
}

fn group_text(groups: &Vec<Option<String>>, i: usize) -> (r: Option<&str>)
    ensures
        crate::text::opt_str(r) == group(group_texts(groups@), i as int),
{
    if i < groups.len() {
        crate::text::borrowed(&groups[i])
    } else {
        None
    }
}

/// The title that a raw title comes to, given the match of a year in brackets.
pub fn title_with_match(trimmed: &str, groups: &Option<Vec<Option<String>>>) -> (r: String)
    ensures
        r@ == tidy(
            title_before_year(
                trimmed@,
                match *groups {
                    Some(g) => Some(group_texts(g@)),
                    None => None,
                },
            ),
        ),
{
    if let Some(g) = groups {
        if let Some(title) = group_text(g, 1) {
            return tidy_title(title);
        }
    }
    tidy_title(trimmed)
}

/// The title that a raw title comes to.
pub open spec fn cleaned(raw: Seq<char>) -> Seq<char> {
    tidy(title_before_year(trim(raw), first_match(TITLE_YEAR@, trim(raw))))
}

/// The title that a raw title comes to; it is in its final form, and cleaning it
/// again changes nothing.
pub fn clean_title(raw: &str) -> (r: String)
    ensures
        r@ == cleaned(raw@),
        plain_spaces(raw@) ==> is_tidy(r@) && cleaned(r@) == r@,
{
    let t = trimmed(raw);
    let groups = captures(TITLE_YEAR, t.as_str());
    proof {
        if plain_spaces(raw@) {
            let found = first_match(TITLE_YEAR@, t@);
            let title = title_before_year(t@, found);
            lemma_trim_within(raw@, |c: char| is_space(c));
            assert forall|i: int| 0 <= i < title.len() implies t@.contains(#[trigger] title[i]) by {
                if found is Some && group(found->0, 1) is Some {
                    assert(groups->0@[1] is Some);
                    let at = choose|at: int| #[trigger] occurs_at(t@, title, at);
                    assert(t@.subrange(at, at + title.len())[i] == t@[at + i]);
                } else {
                    assert(t@[i] == title[i]);
                }
            }
            assert forall|i: int| 0 <= i < title.len() && is_space(#[trigger] title[i]) implies title[i]
                == ' ' || title[i] == '\t' || title[i] == '\r' || title[i] == '\n' by {
                assert(t@.contains(title[i]));
                let k = choose|k: int| 0 <= k < t@.len() && t@[k] == title[i];
                assert(raw@.contains(t@[k]));
            }
            law_tidy_title_is_tidy(title);
            let (a, b) = lemma_trim_is_part(title, |c: char| title_edge(c));
            assert(first_match(TITLE_YEAR@, single_spaced(title.subrange(a, b))) is None);
            law_tidy_title_stays(tidy(title));
        }
    }
    title_with_match(t.as_str(), &groups)
}

// ---------------------------------------------------------------------------
// What a name shows

/// A match in a name: its groups, and the title that stands before it.
#[derive(Debug)]
pub struct Sign {
    pub groups: Vec<Option<String>>,
    pub title: String,
}

/// The content of a match.
pub struct SignView {
    pub groups: Seq<Option<Seq<char>>>,
    pub title: Seq<char>,
}

impl View for Sign {
    type V = SignView;

    open spec fn view(&self) -> SignView {
        SignView { groups: group_texts(self.groups@), title: self.title@ }
    }
}

/// The content of an optional match.
pub open spec fn opt_sign(s: Option<Sign>) -> Option<SignView> {
    match s {
        Some(x) => Some(x@),
        None => None,
    }
}

/// The match of a pattern in a name.
pub open spec fn sign_in(pattern: Seq<char>, name: Seq<char>) -> Option<SignView> {
    match first_match(pattern, name) {
        Some(groups) => Some(
            SignView { groups, title: cleaned(head_before(pattern, name)) },
        ),
        None => None,
    }
}

fn find_sign(pattern: &str, name: &str) -> (r: Option<Sign>)
    ensures
        opt_sign(r) == sign_in(pattern@, name@),
{
    match captures(pattern, name) {
        Some(groups) => {
            let head = split_head(pattern, name);
            Some(Sign { groups, title: clean_title(head.as_str()) })
        },
        None => None,
    }
}

/// Everything that a name shows.
#[derive(Debug)]
pub struct Signs {
    /// Provider tags: the provider's name and the identifier there.
    pub tags: Vec<(String, String)>,
    pub range: Option<Sign>,
    pub season_episode: Option<Sign>,
    pub crossed: Option<Sign>,
    pub marker: Option<Sign>,
    pub chinese: Option<Sign>,
    pub chinese_num: Option<Sign>,
    pub year: Option<i32>,
    /// The name without years.
    pub bare: String,
    /// The title that the name without years comes to.
    pub bare_title: String,
}

/// The content of what a name shows.
pub struct SignsView {
    pub tags: Seq<(Seq<char>, Seq<char>)>,
    pub range: Option<SignView>,
    pub season_episode: Option<SignView>,
    pub crossed: Option<SignView>,
    pub marker: Option<SignView>,
    pub chinese: Option<SignView>,
    pub chinese_num: Option<SignView>,
    pub year: Option<i32>,
    pub bare: Seq<char>,
    pub bare_title: Seq<char>,
}

/// Tags as text.
pub open spec fn tag_texts(v: Seq<(String, String)>) -> Seq<(Seq<char>, Seq<char>)> {
    v.map_values(|t: (String, String)| (t.0@, t.1@))
}

impl View for Signs {
    type V = SignsView;

    open spec fn view(&self) -> SignsView {
        SignsView {
            tags: tag_texts(self.tags@),
            range: opt_sign(self.range),
            season_episode: opt_sign(self.season_episode),
            crossed: opt_sign(self.crossed),
            marker: opt_sign(self.marker),
            chinese: opt_sign(self.chinese),
            chinese_num: opt_sign(self.chinese_num),
            year: self.year,
            bare: self.bare@,
            bare_title: self.bare_title@,
        }
    }
}

/// The identifier of the last tag of a provider, under either of its names.
pub open spec fn last_tag(tags: Seq<(Seq<char>, Seq<char>)>, a: Seq<char>, b: Seq<char>) -> Option<
    Seq<char>,
>
    decreases tags.len(),
{
    if tags.len() == 0 {
        None
    } else if lower(tags.last().0) == a || lower(tags.last().0) == b {
        Some(tags.last().1)
    } else {
        last_tag(tags.drop_last(), a, b)
    }
}

fn find_tag(tags: &Vec<(String, String)>, a: &str, b: &str) -> (r: Option<String>)
    ensures
        opt(r) == last_tag(tag_texts(tags@), a@, b@),
{
    let ghost all = tag_texts(tags@);
    let mut i: usize = tags.len();
    assert(all.take(i as int) =~= all);
    while i > 0
        invariant
            i <= tags.len(),
            all == tag_texts(tags@),
            last_tag(all, a@, b@) == last_tag(all.take(i as int), a@, b@),
        decreases i,
    {
        proof {
            assert(all.take(i as int).last() == all[i - 1]);
            assert(all.take(i as int).drop_last() =~= all.take(i - 1));
        }
        let kind = lowered(tags[i - 1].0.as_str());
        if same(kind.as_str(), a) || same(kind.as_str(), b) {
            return Some(tags[i - 1].1.clone());
        }
        i = i - 1;
    }
    None
}

/// The number in a group; zero where there is none.
pub open spec fn count_in(groups: Seq<Option<Seq<char>>>, i: int) -> i64 {
    match group(groups, i) {
        Some(t) => match i64_of(t) {
            Some(n) => n,
            None => 0,
        },
        None => 0,
    }
}

fn read_count(groups: &Vec<Option<String>>, i: usize) -> (r: i64)
    ensures
        r == count_in(group_texts(groups@), i as int),
{
    match group_text(groups, i) {
        Some(t) => match parse_i64(t) {
            Some(n) => n,
            None => 0,
        },
        None => 0,
    }
}

/// The number in Chinese numerals in a group, where it fits.
pub open spec fn numeral_in(sign: Option<SignView>) -> Option<i64> {
    match sign {
        Some(m) => match group(m.groups, 1) {
            Some(t) => match chinese_value(t) {
                Some(n) => if n <= i64::MAX {
                    Some(n as i64)
                } else {
                    None
                },
                None => None,
            },
            None => None,
        },
        None => None,
    }
}

fn read_numeral(sign: &Option<Sign>) -> (r: Option<i64>)
    ensures
        r == numeral_in(opt_sign(*sign)),
{
    match sign {
        Some(m) => match group_text(&m.groups, 1) {
            Some(t) => chinese_number(t),
            None => None,
        },
        None => None,
    }
}

/// The digits of a text.
pub open spec fn digits_of(s: Seq<char>) -> Seq<char> {
    s.filter(|c: char| is_digit(c))
}

/// The number that a text is, if it holds nothing but digits and blanks.
pub open spec fn bare_number(s: Seq<char>) -> Option<i64> {
    if digits_of(s).len() > 0 && (forall|i: int|
        0 <= i < s.len() ==> is_digit(#[trigger] s[i]) || is_space(s[i])) {
        i64_of(digits_of(s))
    } else {
        None
    }
}

/// The number that a text is, if it holds nothing but digits and blanks.
pub fn read_bare_number(s: &str) -> (r: Option<i64>)
    ensures
        r == bare_number(s@),
{
    let cs = to_chars(s);
    let ghost p = |c: char| is_digit(c);
    let mut digits = String::new();
    let mut i: usize = 0;
    reveal(Seq::filter);
    while i < cs.len()
        invariant
            i <= cs.len(),
            cs@ == s@,
            p == (|c: char| is_digit(c)),
            digits@ == s@.take(i as int).filter(p),
            forall|k: int| 0 <= k < i ==> is_digit(#[trigger] s@[k]) || is_space(s@[k]),
        decreases cs.len() - i,
    {
        let c: char = cs[i];
        if !digit(c) && !space(c) {
            assert(!(is_digit(s@[i as int]) || is_space(s@[i as int])));
            return None;
        }
        proof {
            reveal(Seq::filter);
            assert(s@.take(i + 1).drop_last() =~= s@.take(i as int));
        }
        if digit(c) {
            digits.push(c);
        }
        i = i + 1;
    }
    assert(s@.take(s@.len() as int) =~= s@);
    if digits.as_str().is_empty() {
        return None;
    }
    parse_i64(digits.as_str())
}

// ---------------------------------------------------------------------------
// What a name tells

/// Whether `p` has this title, season and episodes, strong signs only.
pub open spec fn tells(
    p: ParsedName,
    title: Seq<char>,
    season: i64,
    episode: i64,
    episode_end: i64,
) -> bool {
    &&& p.title@ == title
    &&& p.season == season
    &&& p.episode == episode
    &&& p.episode_end == episode_end
    &&& !p.weak_episode
}

/// Whether `p` is what a name that shows `v` tells: the first of the signs
/// that it shows decides.
pub open spec fn told_by(p: ParsedName, v: SignsView) -> bool {
    &&& opt(p.tmdb_id) == last_tag(v.tags, "tmdb"@, "tmdbid"@)
    &&& opt(p.imdb_id) == last_tag(v.tags, "imdb"@, "imdbid"@)
    &&& opt(p.tvdb_id) == last_tag(v.tags, "tvdb"@, "tvdbid"@)
    &&& p.year == v.year
    &&& if v.range is Some {
        let m = v.range->0;
        tells(p, m.title, count_in(m.groups, 1), count_in(m.groups, 2), count_in(m.groups, 3))
    } else if v.season_episode is Some {
        let m = v.season_episode->0;
        tells(p, m.title, count_in(m.groups, 1), count_in(m.groups, 2), 0)
    } else if v.crossed is Some {
        let m = v.crossed->0;
        tells(p, m.title, count_in(m.groups, 1), count_in(m.groups, 2), 0)
    } else if v.marker is Some {
        let m = v.marker->0;
        tells(p, m.title, 0, count_in(m.groups, 1), 0)
    } else if v.chinese is Some {
        let m = v.chinese->0;
        tells(p, m.title, 0, count_in(m.groups, 1), 0)
    } else if numeral_in(v.chinese_num) is Some {
        tells(p, v.chinese_num->0.title, 0, numeral_in(v.chinese_num)->0, 0)
    } else {
        &&& p.season == 0
        &&& p.episode_end == 0
        &&& match bare_number(v.bare) {
            Some(n) => p.episode == n && p.weak_episode && p.title@.len() == 0,
            None => p.episode == 0 && !p.weak_episode && p.title@ == v.bare_title,
        }
    }
}

/// An episode is weak only where the name shows no other sign of one, and then
/// the name tells neither a season nor a title.
pub proof fn law_weak_episode_stands_alone(p: ParsedName, v: SignsView)
    requires
        told_by(p, v),
        p.weak_episode,
    ensures
        v.range is None,
        v.season_episode is None,
        v.crossed is None,
        v.marker is None,
        v.chinese is None,
        numeral_in(v.chinese_num) is None,
        bare_number(v.bare) == Some(p.episode),
        p.season == 0,
        p.episode_end == 0,
        p.title@.len() == 0,
{
}

/// What a name tells, given what it shows.
pub fn decide(signs: &Signs) -> (r: ParsedName)
    ensures
        told_by(r, signs@),
{
    let mut p = ParsedName {
        title: String::new(),
        year: signs.year,
        season: 0,
        episode: 0,
        episode_end: 0,
        weak_episode: false,
        tmdb_id: find_tag(&signs.tags, "tmdb", "tmdbid"),
        imdb_id: find_tag(&signs.tags, "imdb", "imdbid"),
        tvdb_id: find_tag(&signs.tags, "tvdb", "tvdbid"),
    };
    if let Some(m) = &signs.range {
        p.season = read_count(&m.groups, 1);
        p.episode = read_count(&m.groups, 2);
        p.episode_end = read_count(&m.groups, 3);
        p.title = m.title.clone();
        return p;
    }
    if let Some(m) = &signs.season_episode {
        p.season = read_count(&m.groups, 1);
        p.episode = read_count(&m.groups, 2);
        p.title = m.title.clone();
        return p;
    }
    if let Some(m) = &signs.crossed {
        p.season = read_count(&m.groups, 1);
        p.episode = read_count(&m.groups, 2);
        p.title = m.title.clone();
        return p;
    }
    if let Some(m) = &signs.marker {
        p.episode = read_count(&m.groups, 1);
        p.title = m.title.clone();
        return p;
    }
    if let Some(m) = &signs.chinese {
        p.episode = read_count(&m.groups, 1);
        p.title = m.title.clone();
        return p;
    }
    if let Some(n) = read_numeral(&signs.chinese_num) {
        if let Some(m) = &signs.chinese_num {
            p.episode = n;
            p.title = m.title.clone();
            return p;
        }
    }
    match read_bare_number(signs.bare.as_str()) {
        Some(n) => {
            p.episode = n;
            p.weak_episode = true;
        },
        None => {
            p.title = signs.bare_title.clone();
        },
    }
    p
}

/// The provider and the identifier of a tag's match.
pub open spec fn tag_of_match() -> spec_fn(Seq<Option<Seq<char>>>) -> Option<
    (Seq<char>, Seq<char>),
> {
    |groups: Seq<Option<Seq<char>>>|
        match (group(groups, 1), group(groups, 2)) {
            (Some(kind), Some(id)) => Some((kind, id)),
            _ => None,
        }
}

/// The provider tags in a name.
pub open spec fn tags_in(name: Seq<char>) -> Seq<(Seq<char>, Seq<char>)> {
    all_matches(PROVIDER_TAG@, name).filter_map(tag_of_match())
}

fn read_tags(name: &str) -> (r: Vec<(String, String)>)
    ensures
        tag_texts(r@) == tags_in(name@),
        forall|s: Seq<char>, kind: Seq<char>, id: Seq<char>|
            provider_word(kind) && tag_id(id) && name@ == #[trigger] tagged(s, kind, id)
                ==> tags_in(name@) == tags_in(s).push((kind, id)),
{
    let list = captures_iter(PROVIDER_TAG, name);
    let ghost all = all_matches(PROVIDER_TAG@, name@);
    let ghost f = tag_of_match();
    proof {
        assert forall|s: Seq<char>, kind: Seq<char>, id: Seq<char>|
            provider_word(kind) && tag_id(id) && name@ == #[trigger] tagged(
                s,
                kind,
                id,
            ) implies tags_in(name@) == tags_in(s).push((kind, id)) by {
            let before = all_matches(PROVIDER_TAG@, s);
            let last = seq![Some(provider_tag(kind, id)), Some(kind), Some(id)];
            assert(all == before.push(last));
            all.lemma_filter_map_take_succ(f, before.len() as int);
            assert(all.take(before.len() as int) =~= before);
            assert(all.take(before.len() as int + 1) =~= all);
            assert(f(last) == Some((kind, id)));
        }
    }
    let mut out: Vec<(String, String)> = Vec::new();
    let mut i: usize = 0;
    assert(tag_texts(out@) =~= all.take(0).filter_map(f));
    while i < list.len()
        invariant
            i <= list.len(),
            all == match_texts(list@),
            f == tag_of_match(),
            tag_texts(out@) == all.take(i as int).filter_map(f),
        decreases list.len() - i,
    {
        proof {
            all.lemma_filter_map_take_succ(f, i as int);
            assert(all[i as int] == group_texts(list@[i as int]@));
        }
        let ghost before = tag_texts(out@);
        if let Some(kind) = group_text(&list[i], 1) {
            if let Some(id) = group_text(&list[i], 2) {
                let entry = (kind.to_owned(), id.to_owned());
                out.push(entry);
                assert(f(all[i as int]) == Some((entry.0@, entry.1@)));
                assert(tag_texts(out@) =~= before.push((entry.0@, entry.1@)));
            }
        }
        assert(tag_texts(out@) =~= all.take(i + 1).filter_map(f));
        i = i + 1;
    }
    assert(all.take(all.len() as int) =~= all);
    out
}

/// What a name shows.
pub open spec fn signs_in(name: Seq<char>) -> SignsView {
    let s = erased(PROVIDER_TAG@, name);
    SignsView {
        tags: tags_in(name),
        range: sign_in(EPISODE_RANGE@, s),
        season_episode: sign_in(SEASON_EPISODE@, s),
        crossed: sign_in(CROSSED@, s),
        marker: sign_in(EPISODE_MARKER@, s),
        chinese: sign_in(CHINESE_EPISODE@, s),
        chinese_num: sign_in(CHINESE_EPISODE_NUM@, s),
        year: year_in_name(s),
        bare: erased(YEAR_TOKEN@, s),
        bare_title: cleaned(erased(YEAR_TOKEN@, s)),
    }
}

/// Whether `q` tells what `p` does but for one more provider tag.
pub open spec fn with_tag(p: ParsedName, q: ParsedName, kind: Seq<char>, id: Seq<char>) -> bool {
    &&& q.title@ == p.title@
    &&& q.year == p.year
    &&& q.season == p.season
    &&& q.episode == p.episode
    &&& q.episode_end == p.episode_end
    &&& q.weak_episode == p.weak_episode
    &&& opt(q.tmdb_id) == if lower(kind) == "tmdb"@ || lower(kind) == "tmdbid"@ {
        Some(id)
    } else {
        opt(p.tmdb_id)
    }
    &&& opt(q.imdb_id) == if lower(kind) == "imdb"@ || lower(kind) == "imdbid"@ {
        Some(id)
    } else {
        opt(p.imdb_id)
    }
    &&& opt(q.tvdb_id) == if lower(kind) == "tvdb"@ || lower(kind) == "tvdbid"@ {
        Some(id)
    } else {
        opt(p.tvdb_id)
    }
}

/// One more provider tag among what a name shows sets the identifier at its own
/// provider, and changes nothing else that the name tells.
pub proof fn law_tag_sets_only_its_id(
    v: SignsView,
    kind: Seq<char>,
    id: Seq<char>,
    p: ParsedName,
    q: ParsedName,
)
    requires
        told_by(p, v),
        told_by(q, SignsView { tags: v.tags.push((kind, id)), ..v }),
    ensures
        with_tag(p, q, kind, id),
{
    assert(v.tags.push((kind, id)).drop_last() =~= v.tags);
    assert(p.title@.len() == 0 && q.title@.len() == 0 ==> p.title@ =~= q.title@);
}

/// Whether `p` is what a name without extension tells. A provider tag at the end
/// of the name only adds a tag to what the rest of the name shows.
pub open spec fn told_of_name(p: ParsedName, name: Seq<char>) -> bool {
    &&& told_by(p, signs_in(name))
    &&& forall|s: Seq<char>, kind: Seq<char>, id: Seq<char>|
        provider_word(kind) && tag_id(id) && name == #[trigger] tagged(s, kind, id) ==> told_by(
            p,
            SignsView { tags: tags_in(s).push((kind, id)), ..signs_in(s) },
        )
}

proof fn lemma_provider_words_are_lower(kind: Seq<char>)
    requires
        provider_word(kind),
    ensures
        lower(kind) == kind,
{
    reveal_strlit("tmdb");
    reveal_strlit("tmdbid");
    reveal_strlit("imdb");
    reveal_strlit("imdbid");
    reveal_strlit("tvdb");
    reveal_strlit("tvdbid");
    assert(lower(kind) =~= kind);
}

/// A provider tag behind a name, such as `[tmdb=502419]`, sets the identifier at
/// its own provider, and changes nothing else that the name tells.
pub proof fn law_tagged_name_tells_the_same(
    s: Seq<char>,
    kind: Seq<char>,
    id: Seq<char>,
    p: ParsedName,
    q: ParsedName,
)
    requires
        provider_word(kind),
        tag_id(id),
        told_of_name(p, s),
        told_of_name(q, tagged(s, kind, id)),
    ensures
        with_tag(p, q, kind, id),
        lower(kind) == kind,
{
    lemma_provider_words_are_lower(kind);
    law_tag_sets_only_its_id(signs_in(s), kind, id, p, q);
}

/// What a name without extension tells.
pub fn parse_base(name: &str) -> (r: ParsedName)
    ensures
        told_of_name(r, name@),
{
    let tags = read_tags(name);
    let rest = erase(PROVIDER_TAG, name);
    let s = rest.as_str();
    let bare = erase(YEAR_TOKEN, s);
    let bare_title = clean_title(bare.as_str());
    let signs = Signs {
        tags,
        range: find_sign(EPISODE_RANGE, s),
        season_episode: find_sign(SEASON_EPISODE, s),
        crossed: find_sign(CROSSED, s),
        marker: find_sign(EPISODE_MARKER, s),
        chinese: find_sign(CHINESE_EPISODE, s),
        chinese_num: find_sign(CHINESE_EPISODE_NUM, s),
        year: extract_year(s),
        bare,
        bare_title,
    };
    proof {
        assert forall|s: Seq<char>, kind: Seq<char>, id: Seq<char>|
            provider_word(kind) && tag_id(id) && name@ == #[trigger] tagged(
                s,
                kind,
                id,
            ) implies signs_in(name@) == (SignsView {
            tags: tags_in(s).push((kind, id)),
            ..signs_in(s)
        }) by {
            assert(erased(PROVIDER_TAG@, name@) == erased(PROVIDER_TAG@, s));
        }
    }
    decide(&signs)
}

/// Whether a group of a match holds digits that denote `n`.
pub open spec fn denotes(groups: Seq<Option<Seq<char>>>, i: int, n: i64) -> bool {
    0 <= i < groups.len() && groups[i] is Some && groups[i]->0.len() > 0 && all_digits(groups[i]->0)
        && digits_value(groups[i]->0) == n
}

proof fn lemma_denoted_count(groups: Seq<Option<Seq<char>>>, i: int, n: i64)
    requires
        denotes(groups, i, n),
    ensures
        count_in(groups, i) == n,
{
    assert(is_digit(groups[i]->0[0]));
}

/// A season is told only by a name that carries a season: before the episodes
/// of a range, before an episode, or before the cross. In every other name the
/// season is not known, whatever episode the name tells.
pub proof fn law_season_needs_a_season_sign(p: ParsedName, name: Seq<char>)
    requires
        told_of_name(p, name),
        p.season != 0,
    ensures
        ({
            let s = erased(PROVIDER_TAG@, name);
            let range = first_match(EPISODE_RANGE@, s);
            match range {
                Some(groups) => groups.len() > 1 && groups[1] is Some && i64_of(groups[1]->0)
                    == Some(p.season),
                None => first_match(SEASON_EPISODE@, s) is Some || first_match(CROSSED@, s) is Some,
            }
        }),
{
}

/// A name that carries no season but a marked episode, such as `Show EP03`,
/// tells that episode, no season, and the title before the marker.
pub proof fn law_marked_episode(
    p: ParsedName,
    name: Seq<char>,
    groups: Seq<Option<Seq<char>>>,
    n: i64,
)
    requires
        told_of_name(p, name),
        first_match(EPISODE_RANGE@, erased(PROVIDER_TAG@, name)) is None,
        first_match(SEASON_EPISODE@, erased(PROVIDER_TAG@, name)) is None,
        first_match(CROSSED@, erased(PROVIDER_TAG@, name)) is None,
        first_match(EPISODE_MARKER@, erased(PROVIDER_TAG@, name)) == Some(groups),
        denotes(groups, 1, n),
    ensures
        p.season == 0,
        p.episode == n,
        p.episode_end == 0,
        !p.weak_episode,
        p.title@ == cleaned(head_before(EPISODE_MARKER@, erased(PROVIDER_TAG@, name))),
{
    lemma_denoted_count(groups, 1, n);
}

/// Two names that carry no season, with the same marked episode, tell the same
/// season and the same episode, whatever their titles; and with another episode
/// they still tell the same season.
pub proof fn law_marked_episodes_share_no_season(
    p: ParsedName,
    q: ParsedName,
    v: SignsView,
    w: SignsView,
    a: i64,
    b: i64,
)
    requires
        told_by(p, v),
        told_by(q, w),
        v.range is None && v.season_episode is None && v.crossed is None && v.marker is Some,
        w.range is None && w.season_episode is None && w.crossed is None && w.marker is Some,
        denotes(v.marker->0.groups, 1, a),
        denotes(w.marker->0.groups, 1, b),
    ensures
        p.season == q.season == 0,
        p.episode - q.episode == a - b,
        p.title@ == v.marker->0.title,
        q.title@ == w.marker->0.title,
{
    lemma_denoted_count(v.marker->0.groups, 1, a);
    lemma_denoted_count(w.marker->0.groups, 1, b);
}

/// A name with a season and an episode, such as `Show.S02E06`, tells both, and
/// the title before them.
pub proof fn law_season_and_episode(
    p: ParsedName,
    name: Seq<char>,
    groups: Seq<Option<Seq<char>>>,
    season: i64,
    episode: i64,
)
    requires
        told_of_name(p, name),
        first_match(EPISODE_RANGE@, erased(PROVIDER_TAG@, name)) is None,
        denotes(groups, 1, season),
        denotes(groups, 2, episode),
    ensures
        first_match(SEASON_EPISODE@, erased(PROVIDER_TAG@, name)) == Some(groups) ==> p.season
            == season && p.episode == episode && p.episode_end == 0 && !p.weak_episode && p.title@
            == cleaned(head_before(SEASON_EPISODE@, erased(PROVIDER_TAG@, name))),
        first_match(SEASON_EPISODE@, erased(PROVIDER_TAG@, name)) is None && first_match(
            CROSSED@,
            erased(PROVIDER_TAG@, name),
        ) == Some(groups) ==> p.season == season && p.episode == episode && p.episode_end == 0
            && !p.weak_episode && p.title@ == cleaned(
            head_before(CROSSED@, erased(PROVIDER_TAG@, name)),
        ),
{
    lemma_denoted_count(groups, 1, season);
    lemma_denoted_count(groups, 2, episode);
}

/// A name with a range of episodes, such as `Show.S01E03-E04`, tells its first
/// and its last episode, the season if it carries one, and the title before.
pub proof fn law_range_of_episodes(
    p: ParsedName,
    name: Seq<char>,
    groups: Seq<Option<Seq<char>>>,
    season: i64,
    first: i64,
    last: i64,
)
    requires
        told_of_name(p, name),
        first_match(EPISODE_RANGE@, erased(PROVIDER_TAG@, name)) == Some(groups),
        denotes(groups, 2, first),
        denotes(groups, 3, last),
    ensures
        p.episode == first,
        p.episode_end == last,
        denotes(groups, 1, season) ==> p.season == season,
        groups[1] is None ==> p.season == 0,
        !p.weak_episode,
        p.title@ == cleaned(head_before(EPISODE_RANGE@, erased(PROVIDER_TAG@, name))),
{
    lemma_denoted_count(groups, 2, first);
    lemma_denoted_count(groups, 3, last);
    if denotes(groups, 1, season) {
        lemma_denoted_count(groups, 1, season);
    }
}

/// A name whose only sign is a Chinese one, in figures or in numerals, tells
/// that episode, no season, and the title before the sign.
pub proof fn law_chinese_episode(
    p: ParsedName,
    name: Seq<char>,
    groups: Seq<Option<Seq<char>>>,
    n: i64,
)
    requires
        told_of_name(p, name),
        first_match(EPISODE_RANGE@, erased(PROVIDER_TAG@, name)) is None,
        first_match(SEASON_EPISODE@, erased(PROVIDER_TAG@, name)) is None,
        first_match(CROSSED@, erased(PROVIDER_TAG@, name)) is None,
        first_match(EPISODE_MARKER@, erased(PROVIDER_TAG@, name)) is None,
    ensures
        first_match(CHINESE_EPISODE@, erased(PROVIDER_TAG@, name)) == Some(groups) && denotes(
            groups,
            1,
            n,
        ) ==> p.season == 0 && p.episode == n && p.episode_end == 0 && !p.weak_episode && p.title@
            == cleaned(head_before(CHINESE_EPISODE@, erased(PROVIDER_TAG@, name))),
        first_match(CHINESE_EPISODE@, erased(PROVIDER_TAG@, name)) is None && first_match(
            CHINESE_EPISODE_NUM@,
            erased(PROVIDER_TAG@, name),
        ) == Some(groups) && groups.len() > 1 && groups[1] is Some && chinese_value(groups[1]->0)
            == Some(n as int) ==> p.season == 0 && p.episode == n && p.episode_end == 0
            && !p.weak_episode && p.title@ == cleaned(
            head_before(CHINESE_EPISODE_NUM@, erased(PROVIDER_TAG@, name)),
        ),
{
    if denotes(groups, 1, n) {
        lemma_denoted_count(groups, 1, n);
    }
}

proof fn lemma_all_digits_kept(s: Seq<char>)
    requires
        all_digits(s),
    ensures
        digits_of(s) == s,
    decreases s.len(),
{
    reveal(Seq::filter);
    if s.len() > 0 {
        let t = s.drop_last();
        assert forall|i: int| 0 <= i < t.len() implies is_digit(#[trigger] t[i]) by {
            assert(t[i] == s[i]);
        }
        lemma_all_digits_kept(t);
        assert(is_digit(s[s.len() - 1]));
        assert(t.push(s.last()) =~= s);
    }
}

/// A name without any sign of an episode tells neither season nor episode but
/// its title, unless it is nothing but a number: then it tells that episode,
/// as a weak one, and no title.
pub proof fn law_name_without_signs(p: ParsedName, name: Seq<char>, n: i64)
    requires
        told_of_name(p, name),
        first_match(EPISODE_RANGE@, erased(PROVIDER_TAG@, name)) is None,
        first_match(SEASON_EPISODE@, erased(PROVIDER_TAG@, name)) is None,
        first_match(CROSSED@, erased(PROVIDER_TAG@, name)) is None,
        first_match(EPISODE_MARKER@, erased(PROVIDER_TAG@, name)) is None,
        first_match(CHINESE_EPISODE@, erased(PROVIDER_TAG@, name)) is None,
        first_match(CHINESE_EPISODE_NUM@, erased(PROVIDER_TAG@, name)) is None,
    ensures
        p.season == 0,
        p.episode_end == 0,
        ({
            let bare = erased(YEAR_TOKEN@, erased(PROVIDER_TAG@, name));
            &&& (exists|i: int|
                0 <= i < bare.len() && !is_digit(#[trigger] bare[i]) && !is_space(bare[i]))
                || bare.len() == 0 ==> p.episode == 0 && !p.weak_episode && p.title@ == cleaned(bare)
            &&& bare.len() > 0 && all_digits(bare) && digits_value(bare) == n ==> p.episode == n
                && p.weak_episode && p.title@.len() == 0
        }),
{
    let bare = erased(YEAR_TOKEN@, erased(PROVIDER_TAG@, name));
    reveal(Seq::filter);
    if bare.len() > 0 && all_digits(bare) && digits_value(bare) == n {
        lemma_all_digits_kept(bare);
        assert(is_digit(bare[0]));
    }
}

/// The year of a name is the year in it, of this century or the last; anything
/// else is no year.
pub proof fn law_year_is_read(p: ParsedName, name: Seq<char>, y: nat)
    requires
        told_of_name(p, name),
    ensures
        found(YEAR_TOKEN@, erased(PROVIDER_TAG@, name)) == Some(nat_text(y)) && 1900 <= y <= 2099
            ==> p.year == Some(y as i32),
        found(YEAR_TOKEN@, erased(PROVIDER_TAG@, name)) == Some(nat_text(y)) && !(1900 <= y <= 2099)
            ==> p.year is None,
        found(YEAR_TOKEN@, erased(PROVIDER_TAG@, name)) is None ==> p.year is None,
{
    lemma_nat_text(y);
    assert(is_digit(nat_text(y)[0]));
}

/// A name without tags tells no identifiers; the last tag of a provider gives
/// the identifier there, under the provider's short name and its long one.
pub proof fn law_last_tag_counts(p: ParsedName, v: SignsView, id: Seq<char>)
    requires
        told_by(p, v),
    ensures
        v.tags.len() == 0 ==> p.tmdb_id is None && p.imdb_id is None && p.tvdb_id is None,
        v.tags.len() > 0 && (v.tags.last() == ("tmdb"@, id) || v.tags.last() == ("tmdbid"@, id))
            ==> opt(p.tmdb_id) == Some(id),
        v.tags.len() > 0 && (v.tags.last() == ("imdb"@, id) || v.tags.last() == ("imdbid"@, id))
            ==> opt(p.imdb_id) == Some(id),
        v.tags.len() > 0 && (v.tags.last() == ("tvdb"@, id) || v.tags.last() == ("tvdbid"@, id))
            ==> opt(p.tvdb_id) == Some(id),
{
    lemma_provider_words_are_lower("tmdb"@);
    lemma_provider_words_are_lower("tmdbid"@);
    lemma_provider_words_are_lower("imdb"@);
    lemma_provider_words_are_lower("imdbid"@);
    lemma_provider_words_are_lower("tvdb"@);
    lemma_provider_words_are_lower("tvdbid"@);
}

/// Whether `s` is the extension of a file: one to five letters or digits.
pub open spec fn is_extension(s: Seq<char>) -> bool {
    1 <= s.len() <= 5 && forall|i: int| 0 <= i < s.len() ==> is_alnum(#[trigger] s[i])
}

/// A file name without its extension.
pub open spec fn stem(name: Seq<char>) -> Seq<char> {
    let dot = last_position(name, '.');
    if dot >= 0 && is_extension(name.skip(dot + 1)) {
        name.take(dot)
    } else {
        name
    }
}

fn extension_from(cs: &Vec<char>, from: usize) -> (r: bool)
    requires
        from <= cs@.len(),
    ensures
        r == is_extension(cs@.skip(from as int)),
{
    let ghost ext = cs@.skip(from as int);
    let n: usize = cs.len();
    if from == n || n - from > 5 {
        return false;
    }
    let mut i: usize = from;
    while i < n
        invariant
            from <= i <= n == cs@.len(),
            ext == cs@.skip(from as int),
            forall|k: int| 0 <= k < i - from ==> is_alnum(#[trigger] ext[k]),
        decreases n - i,
    {
        let c: char = cs[i];
        if !(('a' <= c && c <= 'z') || ('A' <= c && c <= 'Z') || ('0' <= c && c <= '9')) {
            assert(!is_alnum(ext[i - from]));
            return false;
        }
        i = i + 1;
    }
    true
}

/// A file name without its extension.
pub fn file_stem(name: &str) -> (r: String)
    ensures
        r@ == stem(name@),
{
    let cs = to_chars(name);
    let n: usize = cs.len();
    match rfind_char(cs.as_slice(), '.') {
        Some(at) => {
            assert(at + 1 <= n);
            if extension_from(&cs, at + 1) {
                assert(cs@.subrange(0, at as int) =~= name@.take(at as int));
                range_text(cs.as_slice(), 0, at)
            } else {
                name.to_owned()
            }
        },
        None => name.to_owned(),
    }
}

/// An extension behind a name is cut, and the name before it stays whole; a
/// name without a dot stays as it is, and so does one whose last dot is not
/// followed by an extension.
pub proof fn law_extension_is_cut(base: Seq<char>, ext: Seq<char>)
    requires
        !ext.contains('.'),
    ensures
        1 <= ext.len() <= 5 && (forall|i: int|
            0 <= i < ext.len() ==> is_alnum(#[trigger] ext[i])) ==> stem(base.push('.') + ext)
            == base,
        !(1 <= ext.len() <= 5 && (forall|i: int|
            0 <= i < ext.len() ==> is_alnum(#[trigger] ext[i]))) ==> stem(base.push('.') + ext)
            == base.push('.') + ext,
        stem(ext) == ext,
{
    let name = base.push('.') + ext;
    assert(name[base.len() as int] == '.');
    assert forall|i: int| base.len() < i < name.len() implies #[trigger] name[i] != '.' by {
        assert(name[i] == ext[i - base.len() - 1]);
    }
    lemma_last_position(name, '.', base.len() as int);
    assert(name.skip(1int + base.len()) =~= ext);
    assert(name.take(base.len() as int) =~= base);
    assert forall|i: int| -1 < i < ext.len() implies #[trigger] ext[i] != '.' by {
        assert(ext.contains(ext[i]));
    }
    lemma_last_position(ext, '.', -1);
}

/// What a file name tells.
pub fn parse_filename(name: &str) -> (r: ParsedName)
    ensures
        told_of_name(r, stem(name@)),
{
    let base = file_stem(name);
    parse_base(base.as_str())
}

// ---------------------------------------------------------------------------
// Season folders

/// The number in the first group of a match.
pub open spec fn number_of_match(groups: Option<Seq<Option<Seq<char>>>>) -> Option<i64> {
    match groups {
        Some(g) => match group(g, 1) {
            Some(t) => i64_of(t),
            None => None,
        },
        None => None,
    }
}

fn read_number(groups: &Option<Vec<Option<String>>>) -> (r: Option<i64>)
    ensures
        r == number_of_match(
            match *groups {
                Some(g) => Some(group_texts(g@)),
                None => None,
            },
        ),
{
    match groups {
        Some(g) => match group_text(g, 1) {
            Some(t) => parse_i64(t),
            None => None,
        },
        None => None,
    }
}

/// The number in Chinese numerals in the first group of a match, where it fits.
pub open spec fn numeral_of_match(groups: Option<Seq<Option<Seq<char>>>>) -> Option<i64> {
    match groups {
        Some(g) => numeral_in(Some(SignView { groups: g, title: Seq::empty() })),
        None => None,
    }
}

fn read_numeral_of(groups: &Option<Vec<Option<String>>>) -> (r: Option<i64>)
    ensures
        r == numeral_of_match(
            match *groups {
                Some(g) => Some(group_texts(g@)),
                None => None,
            },
        ),
{
    match groups {
        Some(g) => match group_text(g, 1) {
            Some(t) => chinese_number(t),
            None => None,
        },
        None => None,
    }
}

/// Whether a folder holds specials.
pub open spec fn specials(folder: Seq<char>) -> bool {
    lower(trim(folder)) == lower("specials"@) || occurs(trim(folder), "特别篇"@) || occurs(
        trim(folder),
        "花絮"@,
    )
}

/// The season of a folder, given what its name shows: zero for specials, and
/// -1 where it is no season.
pub open spec fn season_shown(
    folder: Seq<char>,
    word: Option<i64>,
    chinese_num: Option<i64>,
    chinese: Option<i64>,
    bare: Option<i64>,
) -> int {
    match first_of(first_of(word, chinese_num), first_of(chinese, bare)) {
        Some(n) => n as int,
        None => if specials(folder) {
            0
        } else {
            -1
        },
    }
}

/// The season of a folder, given what its name shows.
pub fn season_with(
    folder: &str,
    word: Option<i64>,
    chinese_num: Option<i64>,
    chinese: Option<i64>,
    bare: Option<i64>,
) -> (r: i64)
    ensures
        r == season_shown(folder@, word, chinese_num, chinese, bare),
{
    if let Some(n) = word {
        return n;
    }
    if let Some(n) = chinese_num {
        return n;
    }
    if let Some(n) = chinese {
        return n;
    }
    if let Some(n) = bare {
        return n;
    }
    let f = trimmed(folder);
    if same_ignoring_case(f.as_str(), "specials") || contains_text(f.as_str(), "特别篇")
        || contains_text(f.as_str(), "花絮") {
        return 0;
    }
    -1
}

/// The season of a folder.
pub fn parse_season_folder(folder: &str) -> (r: i64)
    ensures
        r == season_shown(
            folder@,
            number_of_match(first_match(SEASON_WORD@, folder@)),
            numeral_of_match(first_match(SEASON_CHINESE_NUM@, folder@)),
            number_of_match(first_match(SEASON_CHINESE@, folder@)),
            number_of_match(first_match(BARE_SEASON@, trim(folder@))),
        ),
        folder_season(r, folder@),
{
    let f = trimmed(folder);
    let word = read_number(&captures(SEASON_WORD, folder));
    let chinese_num = read_numeral_of(&captures(SEASON_CHINESE_NUM, folder));
    let chinese = read_number(&captures(SEASON_CHINESE, folder));
    let bare = read_number(&captures(BARE_SEASON, f.as_str()));
    season_with(folder, word, chinese_num, chinese, bare)
}

/// The first of the four forms of a season that a folder shows counts; without
/// any of them it is a folder of specials or no season at all.
pub proof fn law_first_season_form_counts(
    folder: Seq<char>,
    word: Option<i64>,
    chinese_num: Option<i64>,
    chinese: Option<i64>,
    bare: Option<i64>,
    n: i64,
)
    ensures
        season_shown(folder, Some(n), chinese_num, chinese, bare) == n,
        season_shown(folder, None, Some(n), chinese, bare) == n,
        season_shown(folder, None, None, Some(n), bare) == n,
        season_shown(folder, None, None, None, Some(n)) == n,
        season_shown(folder, None, None, None, None) == 0 || season_shown(
            folder,
            None,
            None,
            None,
            None,
        ) == -1,
        season_shown("specials"@, None, None, None, None) == 0,
        occurs(trim(folder), "特别篇"@) ==> season_shown(folder, None, None, None, None) == 0,
        occurs(trim(folder), "花絮"@) ==> season_shown(folder, None, None, None, None) == 0,
        lower(trim(folder)) != lower("specials"@) && !occurs(trim(folder), "特别篇"@) && !occurs(
            trim(folder),
            "花絮"@,
        ) ==> season_shown(folder, None, None, None, None) == -1,
{
    reveal_strlit("specials");
    let s = "specials"@;
    lemma_trim_bounds(s, |c: char| is_space(c), 0, s.len() as int);
    assert(s.subrange(0, s.len() as int) =~= s);
}

/// The number of a season in figures is the number that the figures denote.
pub proof fn law_season_figures(groups: Seq<Option<Seq<char>>>, n: i64)
    requires
        denotes(groups, 1, n),
    ensures
        number_of_match(Some(groups)) == Some(n),
{
    assert(is_digit(groups[1]->0[0]));
}

/// Chinese numerals: ten times as many with a numeral behind, as long as no ten
/// stands among them; with a ten, so many tens and so many units.
pub proof fn law_chinese_numerals(s: Seq<char>, a: char, b: char)
    requires
        numeral(a) is Some,
        numeral(b) is Some,
    ensures
        chinese_value(seq!['十']) == Some(10int),
        chinese_value(seq!['十', b]) == Some(10 + numeral(b)->0),
        numeral(a)->0 > 0 ==> chinese_value(seq![a, '十']) == Some(10 * numeral(a)->0),
        numeral(a)->0 > 0 ==> chinese_value(seq![a, '十', b]) == Some(
            10 * numeral(a)->0 + numeral(b)->0,
        ),
        chinese_value(seq![a]) == Some(numeral(a)->0),
        chinese_value(s) is Some && !s.contains('十') ==> chinese_value(s.push(a)) == Some(
            10 * chinese_value(s)->0 + numeral(a)->0,
        ),
{
    assert(numeral('十') is None);
    reveal_with_fuel(crate::text::position, 5);
    reveal_with_fuel(last_numeral, 5);
    reveal_with_fuel(numerals_value, 5);
    let e = Seq::<char>::empty();
    let ten = seq!['十'];
    assert(ten.take(0) =~= e);
    assert(ten.skip(1) =~= e);
    let tb = seq!['十', b];
    assert(tb.take(0) =~= e);
    assert(tb.skip(1) =~= seq![b]);
    assert(seq![b].drop_last() =~= e);
    let at = seq![a, '十'];
    assert(at.take(1) =~= seq![a]);
    assert(at.skip(1) =~= seq!['十']);
    assert(at.skip(2) =~= e);
    let atb = seq![a, '十', b];
    assert(atb.take(1) =~= seq![a]);
    assert(atb.skip(1) =~= seq!['十', b]);
    assert(atb.skip(2) =~= seq![b]);
    assert(seq![a].drop_last() =~= e);
    assert(seq![a].skip(1) =~= e);
    if chinese_value(s) is Some && !s.contains('十') {
        let t = s.push(a);
        assert forall|i: int| 0 <= i < t.len() implies #[trigger] t[i] != '十' && is_numeral(t[i]) by {
            if i < s.len() {
                assert(t[i] == s[i]);
                assert(s.contains(s[i]));
            }
        }
        assert forall|i: int| 0 <= i < s.len() implies #[trigger] s[i] != '十' by {
            assert(s.contains(s[i]));
        }
        crate::text::lemma_position(t, '十', t.len() as int);
        crate::text::lemma_position(s, '十', s.len() as int);
        assert(t.drop_last() =~= s);
    }
}

/// Whether `season` is the season of a folder.
pub open spec fn folder_season(season: i64, folder: Seq<char>) -> bool {
    season == season_shown(
        folder,
        number_of_match(first_match(SEASON_WORD@, folder)),
        numeral_of_match(first_match(SEASON_CHINESE_NUM@, folder)),
        number_of_match(first_match(SEASON_CHINESE@, folder)),
        number_of_match(first_match(BARE_SEASON@, trim(folder))),
    )
}

/// A folder such as `Season 2` is the season of that number, and so is one such
/// as `第2季` or `S02`; the word goes before the others, and a folder without
/// any of them that holds no specials is no season.
pub proof fn law_season_folders(
    season: i64,
    folder: Seq<char>,
    groups: Seq<Option<Seq<char>>>,
    n: i64,
)
    requires
        folder_season(season, folder),
        denotes(groups, 1, n),
    ensures
        first_match(SEASON_WORD@, folder) == Some(groups) ==> season == n,
        first_match(SEASON_WORD@, folder) is None && first_match(SEASON_CHINESE_NUM@, folder) is None
            && first_match(SEASON_CHINESE@, folder) == Some(groups) ==> season == n,
        first_match(SEASON_WORD@, folder) is None && first_match(SEASON_CHINESE_NUM@, folder) is None
            && first_match(SEASON_CHINESE@, folder) is None && first_match(
            BARE_SEASON@,
            trim(folder),
        ) == Some(groups) ==> season == n,
        first_match(SEASON_WORD@, folder) is None && first_match(SEASON_CHINESE_NUM@, folder) is None
            && first_match(SEASON_CHINESE@, folder) is None && first_match(
            BARE_SEASON@,
            trim(folder),
        ) is None ==> season == 0 || season == -1,
{
    law_season_figures(groups, n);
}

/// The Chinese numerals and what they stand for.
pub proof fn law_numerals(c: char)
    ensures
        numeral('零') == Some(0int),
        numeral('〇') == Some(0int),
        numeral('一') == Some(1int),
        numeral('二') == Some(2int),
        numeral('两') == Some(2int),
        numeral('三') == Some(3int),
        numeral('四') == Some(4int),
        numeral('五') == Some(5int),
        numeral('六') == Some(6int),
        numeral('七') == Some(7int),
        numeral('八') == Some(8int),
        numeral('九') == Some(9int),
        numeral('十') is None,
        '!' <= c <= '~' ==> numeral(c) is None,
{
}

/// Separators and brackets around a title are cut, every one of them, and
/// nothing else is.
pub proof fn law_title_edges(t: Seq<char>, c: char)
    requires
        well_spaced(t),
        t.len() > 0,
        !" \t\r\n._-+~[]()"@.contains(t[0]),
        !" \t\r\n._-+~[]()"@.contains(t.last()),
    ensures
        tidy(t) == t,
        " \t\r\n._-+~[]()"@.contains(c) ==> tidy(seq![c] + t) == t && tidy(t.push(c)) == t,
{
    reveal_strlit(" \t\r\n._-+~[]()");
    let edges = " \t\r\n._-+~[]()"@;
    assert(edges[0] == ' ' && edges[1] == '\t' && edges[2] == '\r' && edges[3] == '\n' && edges[4]
        == '.' && edges[5] == '_' && edges[6] == '-' && edges[7] == '+' && edges[8] == '~'
        && edges[9] == '[' && edges[10] == ']' && edges[11] == '(' && edges[12] == ')');
    assert(forall|x: char| title_edge(x) ==> #[trigger] edges.contains(x));
    let p = |x: char| title_edge(x);
    law_tidy_title_stays(t);
    if edges.contains(c) {
        assert(title_edge(c));
        let a = seq![c] + t;
        let b = t.push(c);
        assert(a[1] == t[0] && a.last() == t.last());
        lemma_trim_bounds(a, p, 1, a.len() as int);
        assert(a.subrange(1, a.len() as int) =~= t);
        assert(b[0] == t[0] && b[b.len() - 2] == t.last());
        lemma_trim_bounds(b, p, 0, b.len() - 1);
        assert(b.subrange(0, b.len() - 1) =~= t);
        lemma_well_spaced_stays(t);
    }
}

/// A year in brackets ends a title: what stands before it is the title, in its
/// final form.
pub proof fn law_year_in_brackets(
    raw: Seq<char>,
    groups: Seq<Option<Seq<char>>>,
    title: Seq<char>,
)
    requires
        first_match(TITLE_YEAR@, trim(raw)) == Some(groups),
        groups.len() > 1,
        groups[1] == Some(title),
    ensures
        cleaned(raw) == tidy(title),
        is_tidy(title) ==> cleaned(raw) == title,
{
    if is_tidy(title) {
        law_tidy_title_stays(title);
    }
}

} // verus!
