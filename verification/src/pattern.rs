//! Regular expressions: the searches of the `regex` crate, on plain text.
//!
//! A pattern that does not compile matches nothing.

use vstd::prelude::*;

use crate::text::{occurs, opt, single_spaced};

verus! {

// ---------------------------------------------------------------------------
// Patterns

/// A provider tag: `[tmdb=502419]`, `{imdb-tt1234567}`, `(tvdb:123)`.
pub const PROVIDER_TAG: &'static str = r#"(?i)[\[\(\{【（]\s*(tmdb|tmdbid|imdb|imdbid|tvdb|tvdbid)\s*[=\-:]\s*([a-z0-9]+)\s*[\]\)\}】）]"#;

/// A title before a year in brackets: `Movie (2023)`, `Movie [2023]`.
pub const TITLE_YEAR: &'static str = r"(?is)^(?P<title>.+?)[\s._]*[\(\[](?P<year>(19|20)\d{2})[\)\]]";

/// Season and episode: `Show.Name.S01E02`, `Show Season 1 Episode 2`.
pub const SEASON_EPISODE: &'static str = r"(?i)(?:^|[\s._\-])(?:s|season[\s._\-]*)(\d{1,3})[\s._\-]*(?:episode|ep|e)[\s._\-]*(\d{1,4})(?:[\s._\-]|$)";

/// Season and episode: `Show.Name.1x02`.
pub const CROSSED: &'static str = r"(?i)(?:^|[\s._\-])(\d{1,2})x(\d{1,4})(?:[\s._\-]|$)";

/// An episode in figures: `第01集`, `第 1 话`, `01集`.
pub const CHINESE_EPISODE: &'static str = r"(?i)(?:第|ep|episode|e)?[\s._\-]*(\d{1,4})[\s._\-]*(?:集|话|話)";

/// An episode in Chinese numerals: `第十二话`.
pub const CHINESE_EPISODE_NUM: &'static str = r"第\s*([零〇一二两三四五六七八九十百]+)\s*(?:集|话|話)";

/// A folder that is nothing but a season: `S01`, `S2`.
pub const BARE_SEASON: &'static str = r"(?i)^s0?(\d{1,3})(?:e0)?$";

/// A season by the word: `Season 1`, `season01`.
pub const SEASON_WORD: &'static str = r"(?i)season[\s._\-]*(\d{1,3})";

/// A season in figures: `第1季`.
pub const SEASON_CHINESE: &'static str = r"第\s*(\d{1,3})\s*[季部]";

/// A season in Chinese numerals: `第三季`.
pub const SEASON_CHINESE_NUM: &'static str = r"第\s*([零〇一二两三四五六七八九十百]+)\s*[季部]";

/// A marked episode: `EP02`, `Episode 12`, `E03`.
pub const EPISODE_MARKER: &'static str = r"(?i)(?:^|[\s._\-])(?:episode|ep|e)[\s._\-]*(\d{1,4})(?:[\s._\-]|$)";

/// A year: `1987`, `2023`.
pub const YEAR_TOKEN: &'static str = r"\b(?:19|20)\d{2}\b";

/// A range of episodes: `S01E03-E04`, `S01E03E04`, `EP03-EP04`.
pub const EPISODE_RANGE: &'static str = r"(?i)(?:^|[\s._\-])(?:s|season[\s._\-]*)?(\d{1,3})?[\s._\-]*(?:e|ep|episode)[\s._\-]*(\d{1,4})(?:[\s._\-]*[-~][\s._\-]*(?:e|ep|episode)?|(?:e|ep|episode))[\s._\-]*(\d{1,4})(?:[\s._\-]|$)";

// ---------------------------------------------------------------------------
// Searches

/// The texts of a match's groups.
pub open spec fn group_texts(v: Seq<Option<String>>) -> Seq<Option<Seq<char>>> {
    v.map_values(|g: Option<String>| opt(g))
}

/// The texts of the groups of each match.
pub open spec fn match_texts(v: Seq<Vec<Option<String>>>) -> Seq<Seq<Option<Seq<char>>>> {
    v.map_values(|m: Vec<Option<String>>| group_texts(m@))
}

/// The text of a group of a match.
pub open spec fn group(groups: Seq<Option<Seq<char>>>, i: int) -> Option<Seq<char>> {
    if 0 <= i < groups.len() {
        groups[i]
    } else {
        None
    }
}

/// A text, cut off before a year in brackets where `groups` is the match of such
/// a year.
pub open spec fn title_before_year(
    text: Seq<char>,
    groups: Option<Seq<Option<Seq<char>>>>,
) -> Seq<char> {
    match groups {
        Some(g) => match group(g, 1) {
            Some(title) => title,
            None => text,
        },
        None => text,
    }
}

/// The groups of a match, where there is one.
pub open spec fn opt_groups(r: Option<Vec<Option<String>>>) -> Option<Seq<Option<Seq<char>>>> {
    match r {
        Some(groups) => Some(group_texts(groups@)),
        None => None,
    }
}

/// An ASCII letter or digit.
pub open spec fn is_alnum(c: char) -> bool {
    'a' <= c <= 'z' || 'A' <= c <= 'Z' || '0' <= c <= '9'
}

/// Whether a word names a provider in a tag.
pub open spec fn provider_word(kind: Seq<char>) -> bool {
    kind == "tmdb"@ || kind == "tmdbid"@ || kind == "imdb"@ || kind == "imdbid"@ || kind == "tvdb"@
        || kind == "tvdbid"@
}

/// Whether a text can be an identifier in a tag: letters and digits, at least one.
pub open spec fn tag_id(id: Seq<char>) -> bool {
    id.len() > 0 && forall|i: int| 0 <= i < id.len() ==> is_alnum(#[trigger] id[i])
}

/// A provider tag.
pub open spec fn provider_tag(kind: Seq<char>, id: Seq<char>) -> Seq<char> {
    "["@ + kind + "="@ + id + "]"@
}

/// A text with a provider tag behind it.
pub open spec fn tagged(s: Seq<char>, kind: Seq<char>, id: Seq<char>) -> Seq<char> {
    s + provider_tag(kind, id)
}

/// The groups of the first match, as `Regex::captures` finds it.
pub uninterp spec fn first_match(pattern: Seq<char>, text: Seq<char>) -> Option<
    Seq<Option<Seq<char>>>,
>;

/// The groups of every match, as `Regex::captures_iter` finds them.
pub uninterp spec fn all_matches(pattern: Seq<char>, text: Seq<char>) -> Seq<
    Seq<Option<Seq<char>>>,
>;

/// What precedes the first match, as `Regex::split` cuts it off.
pub uninterp spec fn head_before(pattern: Seq<char>, text: Seq<char>) -> Seq<char>;

/// The text without its matches, as `Regex::replace_all` leaves it.
pub uninterp spec fn erased(pattern: Seq<char>, text: Seq<char>) -> Seq<char>;

/// The first match, as `Regex::find` finds it.
pub uninterp spec fn found(pattern: Seq<char>, text: Seq<char>) -> Option<Seq<char>>;

/// `Regex::captures`. The contract names the groups of the first match, the
/// whole match first; a group that took no part in the match is absent. It
/// claims that the text of each group is a part of the text. Of the pattern of a
/// title before a year it claims that the title is the shortest one, as `.+?`
/// asks for: the pattern is found neither in what is cut off for a title, nor in
/// a text in which it was not found, nor in any part of these with its words set
/// one blank apart.
#[verifier::external_body]
pub(crate) fn captures(pattern: &str, text: &str) -> (r: Option<Vec<Option<String>>>)
    ensures
        match r {
            Some(groups) => first_match(pattern@, text@) == Some(group_texts(groups@)),
            None => first_match(pattern@, text@) is None,
        },
        r is Some ==> forall|i: int|
            0 <= i < (r->0)@.len() && (#[trigger] (r->0)@[i]) is Some ==> occurs(
                text@,
                (r->0)@[i]->0@,
            ),
        pattern@ == TITLE_YEAR@ ==> forall|a: int, b: int|
            0 <= a <= b <= title_before_year(text@, opt_groups(r)).len() ==> first_match(
                pattern@,
                #[trigger] single_spaced(title_before_year(text@, opt_groups(r)).subrange(a, b)),
            ) is None,
{
    let re = regex::Regex::new(pattern).ok()?;
    let found = re.captures(text)?;
    Some(found.iter().map(|g| g.map(|m| m.as_str().to_owned())).collect())
}

/// `Regex::captures_iter`. The contract names the groups of every match, in order.
/// Of the pattern of a provider tag it claims that a tag behind a text is found
/// after all that is found in the text: its bracket is the first character of a
/// match or no part of one.
#[verifier::external_body]
pub(crate) fn captures_iter(pattern: &str, text: &str) -> (r: Vec<Vec<Option<String>>>)
    ensures
        match_texts(r@) == all_matches(pattern@, text@),
        pattern@ == PROVIDER_TAG@ ==> forall|s: Seq<char>, kind: Seq<char>, id: Seq<char>|
            provider_word(kind) && tag_id(id) && text@ == #[trigger] tagged(s, kind, id)
                ==> match_texts(r@) == all_matches(pattern@, s).push(
                seq![Some(provider_tag(kind, id)), Some(kind), Some(id)],
            ),
{
    let Ok(re) = regex::Regex::new(pattern) else { return Vec::new() };
    let groups = |c: regex::Captures| c.iter().map(|g| g.map(|m| m.as_str().to_owned())).collect();
    let all = re.captures_iter(text).map(groups).collect();
    all
}

/// The first piece that `Regex::split` yields. The contract names it.
#[verifier::external_body]
pub(crate) fn split_head(pattern: &str, text: &str) -> (r: String)
    ensures
        r@ == head_before(pattern@, text@),
{
    let Ok(re) = regex::Regex::new(pattern) else { return text.to_owned() };
    let head = re.split(text).next().unwrap_or("").to_owned();
    head
}

/// `Regex::replace_all` with nothing in place of each match. The contract
/// names the result. Of the pattern of a provider tag it claims that nothing is
/// left of a tag behind a text.
#[verifier::external_body]
pub(crate) fn erase(pattern: &str, text: &str) -> (r: String)
    ensures
        r@ == erased(pattern@, text@),
        pattern@ == PROVIDER_TAG@ ==> forall|s: Seq<char>, kind: Seq<char>, id: Seq<char>|
            provider_word(kind) && tag_id(id) && text@ == #[trigger] tagged(s, kind, id) ==> r@
                == erased(pattern@, s),
{
    let Ok(re) = regex::Regex::new(pattern) else { return text.to_owned() };
    re.replace_all(text, "").into_owned()
}

/// `Regex::find`. The contract names the text of the first match.
#[verifier::external_body]
pub(crate) fn find(pattern: &str, text: &str) -> (r: Option<String>)
    ensures
        opt(r) == found(pattern@, text@),
{
    let re = regex::Regex::new(pattern).ok()?;
    re.find(text).map(|m| m.as_str().to_owned())
}

} // verus!
