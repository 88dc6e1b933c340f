//! Request parameters: lenient reading of what clients send, and the
//! identifiers in it.

use vstd::prelude::*;
use vstd::string::*;

use crate::ids::{
    id_of, id_text, law_id_round_trip, parse_row, parse_rows, parse_typed_id, row_of, rows_of,
    IdKind,
};
use crate::number::{i64_of, parse_i64};
use crate::text::{
    is_space, lemma_trim_bounds, lemma_trim_twice, lower, lowered, opt, opt_str, same, trim, trimmed,
};

verus! {

// ---------------------------------------------------------------------------
// Lenient values

/// The truth value that a word stands for, in whatever case and with blanks
/// around it; none for an empty word and for one that is not known.
pub open spec fn bool_word(v: Seq<char>) -> Option<bool> {
    let w = lower(trim(v));
    if w == "true"@ || w == "1"@ || w == "yes"@ || w == "on"@ {
        Some(true)
    } else if w == "false"@ || w == "0"@ || w == "no"@ || w == "off"@ {
        Some(false)
    } else {
        None
    }
}

/// The truth value that a word stands for.
pub fn lenient_bool(v: &str) -> (r: Option<bool>)
    ensures
        r == bool_word(v@),
{
    let t = trimmed(v);
    let l = lowered(t.as_str());
    let w = l.as_str();
    if same(w, "true") || same(w, "1") || same(w, "yes") || same(w, "on") {
        Some(true)
    } else if same(w, "false") || same(w, "0") || same(w, "no") || same(w, "off") {
        Some(false)
    } else {
        None
    }
}

/// A text without the blanks around it; none where nothing is left.
pub open spec fn kept_text(v: Seq<char>) -> Option<Seq<char>> {
    if trim(v).len() == 0 {
        None
    } else {
        Some(trim(v))
    }
}

/// A text without the blanks around it; none where nothing is left.
pub fn lenient_string(v: &str) -> (r: Option<String>)
    ensures
        opt(r) == kept_text(v@),
{
    let t = trimmed(v);
    if t.as_str().is_empty() {
        None
    } else {
        Some(t)
    }
}

/// The number in a text with blanks around it; none where there is no number.
pub fn lenient_i64(v: &str) -> (r: Option<i64>)
    ensures
        r == i64_of(trim(v@)),
{
    let t = trimmed(v);
    parse_i64(t.as_str())
}

/// An unsigned number as a signed one; none where it does not fit.
pub fn lenient_u64(v: u64) -> (r: Option<i64>)
    ensures
        r == if v <= i64::MAX {
            Some(v as i64)
        } else {
            None
        },
{
    if v <= 0x7fff_ffff_ffff_ffff {
        Some(v as i64)
    } else {
        None
    }
}

// ---------------------------------------------------------------------------
// Queries

/// What a client may ask of a list of items.
#[derive(Debug, Default)]
pub struct ItemsQuery {
    pub limit: Option<i64>,
    pub user_id: Option<i64>,
    pub start_index: Option<i64>,
    pub parent_id: Option<String>,
    pub include_item_types: Option<String>,
    pub sort_by: Option<String>,
    pub sort_order: Option<String>,
    pub recursive: Option<bool>,
    pub search_term: Option<String>,
    pub is_played: Option<bool>,
    pub is_favorite: Option<bool>,
    pub media_types: Option<String>,
    pub filters: Option<String>,
    pub ids: Option<String>,
    pub series_id: Option<String>,
    pub person_ids: Option<String>,
    pub studio_ids: Option<String>,
    pub genre_ids: Option<String>,
    pub list_item_ids: Option<String>,
    pub tags: Option<String>,
}

/// Which season's episodes a client asks for.
#[derive(Debug, Default)]
pub struct SeasonQuery {
    pub season_id: Option<String>,
}

/// Which page of a taxonomy list a client asks for.
#[derive(Debug, Default)]
pub struct PaginationQuery {
    pub limit: Option<i64>,
    pub start: Option<i64>,
    pub parent_id: Option<String>,
}

/// The library that a taxonomy list is confined to: all libraries where no
/// parent is given or an empty one, one where the parent is a library, and no
/// answer at all where it is anything else.
pub open spec fn library_filter(raw: Option<Seq<char>>) -> Option<Option<i64>> {
    match raw {
        None => Some(None),
        Some(s) => if s.len() == 0 {
            Some(None)
        } else {
            match row_of(s, IdKind::Library) {
                Some(id) => Some(Some(id)),
                None => None,
            }
        },
    }
}

/// The library that a taxonomy list is confined to.
pub fn library_parent_filter(raw: Option<&str>) -> (r: Option<Option<i64>>)
    ensures
        r == library_filter(opt_str(raw)),
{
    match raw {
        None => Some(None),
        Some(s) => if s.is_empty() {
            Some(None)
        } else {
            match parse_row(s, IdKind::Library) {
                Some(id) => Some(Some(id)),
                None => None,
            }
        },
    }
}

// ---------------------------------------------------------------------------
// Identifiers

/// The word for a kind and a row.
#[derive(Debug, Clone, PartialEq)]
pub struct ParsedId {
    pub kind: &'static str,
    pub id: i64,
}

/// The word for a kind.
pub open spec fn kind_word(k: IdKind) -> Seq<char> {
    match k {
        IdKind::Item => "item"@,
        IdKind::Library => "library"@,
        IdKind::People => "people"@,
        IdKind::Genre => "genre"@,
        IdKind::Studio => "studio"@,
        IdKind::Image => "image"@,
    }
}

/// The word for a kind.
pub fn kind_str(k: IdKind) -> (r: &'static str)
    ensures
        r@ == kind_word(k),
{
    match k {
        IdKind::Item => "item",
        IdKind::Library => "library",
        IdKind::People => "people",
        IdKind::Genre => "genre",
        IdKind::Studio => "studio",
        IdKind::Image => "image",
    }
}

/// The kind and the row that an identifier names. A number without a prefix
/// names nothing.
pub fn parse_generic_id(raw: &str) -> (r: Option<ParsedId>)
    ensures
        match id_of(raw@) {
            Some((k, id)) => r is Some && r->0.kind@ == kind_word(k) && r->0.id == id,
            None => r is None,
        },
{
    match parse_typed_id(raw) {
        Some((kind, id)) => Some(ParsedId { kind: kind_str(kind), id }),
        None => None,
    }
}

/// The item that an identifier names.
pub fn parse_id(raw: &str) -> (r: Option<i64>)
    ensures
        r == row_of(raw@, IdKind::Item),
{
    parse_row(raw, IdKind::Item)
}

/// The person that an identifier names.
pub fn parse_person_id(raw: &str) -> (r: Option<i64>)
    ensures
        r == row_of(raw@, IdKind::People),
{
    parse_row(raw, IdKind::People)
}

/// The people that a comma-separated list names; blanks are not skipped.
pub fn parse_person_ids(raw: &str) -> (r: Vec<i64>)
    ensures
        r@ == rows_of(raw@, IdKind::People, false),
{
    parse_rows(raw, IdKind::People, false)
}

/// The studio that an identifier names.
pub fn parse_studio_id(raw: &str) -> (r: Option<i64>)
    ensures
        r == row_of(raw@, IdKind::Studio),
{
    parse_row(raw, IdKind::Studio)
}

/// The studios that a comma-separated list names.
pub fn parse_studio_ids(raw: &str) -> (r: Vec<i64>)
    ensures
        r@ == rows_of(raw@, IdKind::Studio, true),
{
    parse_rows(raw, IdKind::Studio, true)
}

/// The genre that an identifier names.
pub fn parse_genre_id(raw: &str) -> (r: Option<i64>)
    ensures
        r == row_of(raw@, IdKind::Genre),
{
    parse_row(raw, IdKind::Genre)
}

/// The genres that a comma-separated list names.
pub fn parse_genre_ids(raw: &str) -> (r: Vec<i64>)
    ensures
        r@ == rows_of(raw@, IdKind::Genre, true),
{
    parse_rows(raw, IdKind::Genre, true)
}

/// The items that a comma-separated list names.
pub fn parse_item_ids(raw: &str) -> (r: Vec<i64>)
    ensures
        r@ == rows_of(raw@, IdKind::Item, true),
{
    parse_rows(raw, IdKind::Item, true)
}

/// The item that an identifier names, where the store knows it: `exists` is
/// the store's answer for that item, absent where it could not answer.
pub fn resolved_item(raw: &str, exists: Option<bool>) -> (r: Option<i64>)
    ensures
        r == if exists == Some(true) {
            row_of(raw@, IdKind::Item)
        } else {
            None
        },
{
    match exists {
        Some(true) => parse_id(raw),
        _ => None,
    }
}

// ---------------------------------------------------------------------------
// What parameters say

/// The words that clients send for a truth value, in the case in which they
/// send them; any other word says nothing.
pub proof fn law_truth_words(v: Seq<char>)
    ensures
        bool_word("true"@) == Some(true),
        bool_word("True"@) == Some(true),
        bool_word("1"@) == Some(true),
        bool_word("yes"@) == Some(true),
        bool_word("on"@) == Some(true),
        bool_word("false"@) == Some(false),
        bool_word("False"@) == Some(false),
        bool_word("0"@) == Some(false),
        bool_word("no"@) == Some(false),
        bool_word("off"@) == Some(false),
        bool_word(Seq::empty()) is None,
        trim(v).len() > 5 ==> bool_word(v) is None,
        bool_word(v) == bool_word(trim(v)),
{
    reveal_strlit("true");
    reveal_strlit("True");
    reveal_strlit("1");
    reveal_strlit("yes");
    reveal_strlit("on");
    reveal_strlit("false");
    reveal_strlit("False");
    reveal_strlit("0");
    reveal_strlit("no");
    reveal_strlit("off");
    lemma_word_stays("true"@);
    lemma_word_stays("True"@);
    lemma_word_stays("1"@);
    lemma_word_stays("yes"@);
    lemma_word_stays("on"@);
    lemma_word_stays("false"@);
    lemma_word_stays("False"@);
    lemma_word_stays("0"@);
    lemma_word_stays("no"@);
    lemma_word_stays("off"@);
    assert(lower("true"@) =~= "true"@);
    assert(lower("True"@) =~= "true"@);
    assert(lower("1"@) =~= "1"@);
    assert(lower("yes"@) =~= "yes"@);
    assert(lower("on"@) =~= "on"@);
    assert(lower("false"@) =~= "false"@);
    assert(lower("False"@) =~= "false"@);
    assert(lower("0"@) =~= "0"@);
    assert(lower("no"@) =~= "no"@);
    assert(lower("off"@) =~= "off"@);
    assert("1"@[0] == '1' && "0"@[0] == '0' && "on"@[0] == 'o' && "no"@[0] == 'n' && "yes"@[0]
        == 'y' && "off"@[0] == 'o');
    let empty = Seq::<char>::empty();
    lemma_trim_bounds(empty, |c: char| is_space(c), 0, 0);
    assert(empty.subrange(0, 0) =~= empty);
    assert(lower(trim(v)).len() == trim(v).len());
    lemma_trim_twice(v, |c: char| is_space(c));
}

proof fn lemma_word_stays(w: Seq<char>)
    requires
        w.len() > 0,
        !is_space(w[0]) && !is_space(w.last()),
    ensures
        trim(w) == w,
{
    lemma_trim_bounds(w, |c: char| is_space(c), 0, w.len() as int);
    assert(w.subrange(0, w.len() as int) =~= w);
}

/// A text is kept without the blanks around it, and a blank one is dropped.
pub proof fn law_kept_text(w: Seq<char>)
    requires
        w.len() > 0,
        !is_space(w[0]) && !is_space(w.last()),
    ensures
        kept_text(w) == Some(w),
        kept_text(seq![' '] + w) == Some(w),
        kept_text(w.push(' ')) == Some(w),
        kept_text(Seq::empty()) is None,
        kept_text(seq![' ']) is None,
{
    let p = |c: char| is_space(c);
    let a = seq![' '] + w;
    let b = w.push(' ');
    lemma_word_stays(w);
    assert(a[1] == w[0] && a.last() == w.last());
    lemma_trim_bounds(a, p, 1, a.len() as int);
    assert(a.subrange(1, a.len() as int) =~= w);
    assert(b[0] == w[0] && b[b.len() - 2] == w.last());
    lemma_trim_bounds(b, p, 0, b.len() - 1);
    assert(b.subrange(0, b.len() - 1) =~= w);
    let empty = Seq::<char>::empty();
    let blank = seq![' '];
    lemma_trim_bounds(empty, p, 0, 0);
    lemma_trim_bounds(blank, p, 1, 1);
}

/// A request is confined to the library whose identifier it gives; without one
/// it is not confined, and any other identifier is refused.
pub proof fn law_library_filter(n: i64)
    requires
        n > 0,
    ensures
        library_filter(Some(id_text(IdKind::Library, n as int))) == Some(Some(n)),
        library_filter(Some(id_text(IdKind::Item, n as int))) is None,
        library_filter(None) == Some(None::<i64>),
        library_filter(Some(Seq::empty())) == Some(None::<i64>),
{
    law_id_round_trip(IdKind::Library, n);
    law_id_round_trip(IdKind::Item, n);
    assert(id_text(IdKind::Library, n as int).len() > 0);
    assert(id_text(IdKind::Item, n as int).len() > 0);
}

/// Every kind of identifier has its word.
pub proof fn law_kind_words()
    ensures
        kind_word(IdKind::Item) == "item"@,
        kind_word(IdKind::Library) == "library"@,
        kind_word(IdKind::People) == "people"@,
        kind_word(IdKind::Genre) == "genre"@,
        kind_word(IdKind::Studio) == "studio"@,
        kind_word(IdKind::Image) == "image"@,
{
}

} // verus!
