//! Lists of items: what a request for one comes to.

use vstd::prelude::*;
use vstd::string::*;

use crate::ids::{
    id_of, id_text, id_texts, law_id_list_round_trip, law_id_round_trip, parse_row, parse_typed_id,
    row_of, rows_of, IdKind,
};
use crate::params::{
    parse_genre_ids, parse_item_ids, parse_person_ids, parse_studio_ids, ItemsQuery,
};
use crate::text::{
    borrowed, contains_text, copy_opt, first_of, joined, lemma_position, lower, lowered, occurs,
    occurs_at, opt, opt_is, opt_str, same, same_ignoring_case, split, split_at_char, texts, trim, trimmed,
};

verus! {

// ---------------------------------------------------------------------------
// Pages

/// The length of a page: as asked for, or `default`, and no more than `most`.
pub open spec fn page_limit(asked: Option<i64>, default: i64, most: i64) -> i64 {
    let n = match asked {
        Some(n) => n,
        None => default,
    };
    if n < most {
        n
    } else {
        most
    }
}

/// The length of a page.
pub fn limit_of(asked: Option<i64>, default: i64, most: i64) -> (r: i64)
    ensures
        r == page_limit(asked, default, most),
{
    let n: i64 = match asked {
        Some(n) => n,
        None => default,
    };
    if n < most {
        n
    } else {
        most
    }
}

/// A number as asked for, or another one.
pub open spec fn asked_or(asked: Option<i64>, other: i64) -> i64 {
    match asked {
        Some(n) => n,
        None => other,
    }
}

/// A number as asked for, or another one.
pub fn or_else(asked: Option<i64>, other: i64) -> (r: i64)
    ensures
        r == asked_or(asked, other),
{
    match asked {
        Some(n) => n,
        None => other,
    }
}

/// A start as asked for, and never before the first.
pub open spec fn page_start(asked: Option<i64>) -> i64 {
    let n = asked_or(asked, 0);
    if n < 0 {
        0
    } else {
        n
    }
}

/// A start as asked for, and never before the first.
pub fn start_of(asked: Option<i64>) -> (r: i64)
    ensures
        r == page_start(asked),
{
    let n: i64 = or_else(asked, 0);
    if n < 0 {
        0
    } else {
        n
    }
}

// ---------------------------------------------------------------------------
// Words

/// Whether a comma-separated list holds a word, in whatever case.
pub open spec fn lists_word(list: Option<Seq<char>>, word: Seq<char>) -> bool {
    match list {
        Some(s) => exists|i: int|
            0 <= i < split(s, ',').len() && lower(#[trigger] split(s, ',')[i]) == lower(word),
        None => false,
    }
}

fn any_word(pieces: &Vec<String>, word: &str) -> (r: bool)
    ensures
        r == exists|i: int|
            0 <= i < texts(pieces@).len() && lower(#[trigger] texts(pieces@)[i]) == lower(word@),
{
    let ghost all = texts(pieces@);
    let mut i: usize = 0;
    while i < pieces.len()
        invariant
            i <= pieces.len(),
            all == texts(pieces@),
            forall|k: int| 0 <= k < i ==> lower(#[trigger] all[k]) != lower(word@),
        decreases pieces.len() - i,
    {
        assert(all[i as int] == pieces@[i as int]@);
        if same_ignoring_case(pieces[i].as_str(), word) {
            assert(lower(texts(pieces@)[i as int]) == lower(word@));
            return true;
        }
        i = i + 1;
    }
    false
}

fn has_word(list: Option<&str>, word: &str) -> (r: bool)
    ensures
        r == lists_word(opt_str(list), word@),
{
    match list {
        Some(s) => {
            let pieces = split_at_char(s, ',');
            any_word(&pieces, word)
        },
        None => false,
    }
}

/// The stored type that a word stands for.
pub open spec fn stored_type(word: Seq<char>) -> Option<Seq<char>> {
    let w = lower(word);
    if w == "movie"@ || w == "video"@ {
        Some("movie"@)
    } else if w == "series"@ {
        Some("series"@)
    } else if w == "season"@ {
        Some("season"@)
    } else if w == "episode"@ {
        Some("episode"@)
    } else {
        None
    }
}

fn read_type(word: &str) -> (r: Option<&'static str>)
    ensures
        opt_str(r) == stored_type(word@),
{
    let l = lowered(word);
    let w = l.as_str();
    if same(w, "movie") || same(w, "video") {
        Some("movie")
    } else if same(w, "series") {
        Some("series")
    } else if same(w, "season") {
        Some("season")
    } else if same(w, "episode") {
        Some("episode")
    } else {
        None
    }
}

/// The stored types that a list of words stands for, each at its first place;
/// words that are not known are left out.
pub open spec fn stored_types(words: Seq<Seq<char>>) -> Seq<Seq<char>>
    decreases words.len(),
{
    if words.len() == 0 {
        Seq::empty()
    } else {
        let rest = stored_types(words.drop_last());
        match stored_type(trim(words.last())) {
            Some(t) => if rest.contains(t) {
                rest
            } else {
                rest.push(t)
            },
            None => rest,
        }
    }
}

/// The stored types that a comma-separated list of words stands for.
pub open spec fn included_types(raw: Option<Seq<char>>) -> Seq<Seq<char>> {
    match raw {
        Some(s) => stored_types(split(s, ',')),
        None => Seq::empty(),
    }
}

/// No stored type is asked for twice.
pub proof fn law_no_type_twice(words: Seq<Seq<char>>)
    ensures
        stored_types(words).no_duplicates(),
    decreases words.len(),
{
    if words.len() > 0 {
        law_no_type_twice(words.drop_last());
    }
}

/// Fixed words as text.
pub open spec fn word_texts(v: Seq<&'static str>) -> Seq<Seq<char>> {
    v.map_values(|s: &'static str| s@)
}

fn has_type(list: &Vec<&'static str>, t: &str) -> (r: bool)
    ensures
        r == word_texts(list@).contains(t@),
{
    let ghost all = word_texts(list@);
    let mut i: usize = 0;
    while i < list.len()
        invariant
            i <= list.len(),
            all == word_texts(list@),
            forall|k: int| 0 <= k < i ==> #[trigger] all[k] != t@,
        decreases list.len() - i,
    {
        assert(all[i as int] == list@[i as int]@);
        if same(list[i], t) {
            return true;
        }
        i = i + 1;
    }
    false
}

/// The stored types that a request asks for.
pub fn parse_include_item_types(raw: Option<&str>) -> (r: Vec<&'static str>)
    ensures
        word_texts(r@) == included_types(opt_str(raw)),
{
    let mut out: Vec<&'static str> = Vec::new();
    assert(word_texts(out@) =~= Seq::empty());
    if let Some(s) = raw {
        let pieces = split_at_char(s, ',');
        let ghost all = split(s@, ',');
        let mut i: usize = 0;
        while i < pieces.len()
            invariant
                i <= pieces.len(),
                all == texts(pieces@),
                word_texts(out@) == stored_types(all.take(i as int)),
            decreases pieces.len() - i,
        {
            let ghost before = word_texts(out@);
            proof {
                assert(all.take(i + 1).drop_last() =~= all.take(i as int));
                assert(all.take(i + 1).last() == pieces@[i as int]@);
            }
            let t = trimmed(pieces[i].as_str());
            if let Some(ty) = read_type(t.as_str()) {
                if !has_type(&out, ty) {
                    out.push(ty);
                    assert(word_texts(out@) =~= before.push(ty@));
                }
            }
            i = i + 1;
        }
        assert(all.take(all.len() as int) =~= all);
    }
    out
}

// ---------------------------------------------------------------------------
// A user's items

/// What a list is taken from.
#[derive(Debug)]
pub enum Listing {
    /// The user's favourites of these types.
    Favorites { item_types: Option<String>, limit: i64, start: i64 },
    /// These items.
    ByIds(Vec<i64>),
    /// Nothing.
    Nothing,
    /// Items with any of these people.
    ByPerson { ids: Vec<i64>, types: Vec<&'static str>, limit: i64, start: i64 },
    /// Items of any of these studios.
    ByStudio { ids: Vec<i64>, types: Vec<&'static str>, limit: i64, start: i64 },
    /// Items of any of these genres.
    ByGenre { ids: Vec<i64>, types: Vec<&'static str>, limit: i64, start: i64 },
    /// The series of a library, or of all.
    Series { library_id: Option<i64>, limit: i64, start: i64 },
    /// The films and series of a library, or of all.
    MoviesSeries {
        library_id: Option<i64>,
        search_term: Option<String>,
        types: Vec<&'static str>,
        is_played: Option<bool>,
        tags: Option<String>,
        sort_by: Option<String>,
        sort_order: Option<String>,
        limit: i64,
        start: i64,
    },
}

/// Whether only favourites are asked for.
pub open spec fn favorites_only(q: ItemsQuery) -> bool {
    q.is_favorite == Some(true) || lists_word(opt(q.filters), "IsFavorite"@)
}

/// Whether only played or only unplayed items are asked for.
pub open spec fn played_filter(q: ItemsQuery) -> Option<bool> {
    first_of(
        q.is_played,
        if lists_word(opt(q.filters), "IsPlayed"@) {
            Some(true)
        } else if lists_word(opt(q.filters), "IsUnplayed"@) {
            Some(false)
        } else {
            None
        },
    )
}

/// The rows that a parameter names.
pub open spec fn named_ids(raw: Option<Seq<char>>, kind: IdKind, trimming: bool) -> Seq<i64> {
    match raw {
        Some(s) => rows_of(s, kind, trimming),
        None => Seq::empty(),
    }
}

/// Whether `l` is what a request's list is taken from: favourites before listed
/// items, those before sets (of which there are none), then people, studios,
/// genres and series, and otherwise films and series with all filters. A filter
/// that names nothing known is passed over.
pub open spec fn listing_of(l: Listing, q: ItemsQuery, library: Option<i64>) -> bool {
    let limit = page_limit(q.limit, 100, 200);
    let start = asked_or(q.start_index, 0);
    let types = included_types(opt(q.include_item_types));
    let listed = named_ids(opt(q.list_item_ids), IdKind::Item, true);
    let people = named_ids(opt(q.person_ids), IdKind::People, false);
    let studios = named_ids(opt(q.studio_ids), IdKind::Studio, true);
    let genres = named_ids(opt(q.genre_ids), IdKind::Genre, true);
    if favorites_only(q) {
        l matches Listing::Favorites { item_types, limit: n, start: s } && opt(item_types) == opt(
            q.include_item_types,
        ) && n == limit && s == start
    } else if listed.len() > 0 {
        l matches Listing::ByIds(ids) && ids@ == listed
    } else if lists_word(opt(q.include_item_types), "BoxSet"@) {
        l is Nothing
    } else if people.len() > 0 {
        l matches Listing::ByPerson { ids, types: t, limit: n, start: s } && ids@ == people
            && word_texts(t@) == types && n == limit && s == start
    } else if studios.len() > 0 {
        l matches Listing::ByStudio { ids, types: t, limit: n, start: s } && ids@ == studios
            && word_texts(t@) == types && n == limit && s == start
    } else if genres.len() > 0 {
        l matches Listing::ByGenre { ids, types: t, limit: n, start: s } && ids@ == genres
            && word_texts(t@) == types && n == limit && s == start
    } else if q.include_item_types is Some && occurs(q.include_item_types->0@, "Series"@) {
        l matches Listing::Series { library_id, limit: n, start: s } && library_id == library && n
            == limit && s == start
    } else {
        l matches Listing::MoviesSeries {
            library_id,
            search_term,
            types: t,
            is_played,
            tags,
            sort_by,
            sort_order,
            limit: n,
            start: s,
        } && library_id == library && opt(search_term) == opt(q.search_term) && word_texts(t@)
            == types && is_played == played_filter(q) && opt(tags) == opt(q.tags) && opt(sort_by)
            == opt(q.sort_by) && opt(sort_order) == opt(q.sort_order) && n == limit && s == start
    }
}

/// The length of the page that a list is cut to, where it is cut.
pub open spec fn page_length(l: Listing) -> Option<i64> {
    match l {
        Listing::Favorites { limit, .. } => Some(limit),
        Listing::ByIds(_) => None,
        Listing::Nothing => None,
        Listing::ByPerson { limit, .. } => Some(limit),
        Listing::ByStudio { limit, .. } => Some(limit),
        Listing::ByGenre { limit, .. } => Some(limit),
        Listing::Series { limit, .. } => Some(limit),
        Listing::MoviesSeries { limit, .. } => Some(limit),
    }
}

/// Whatever a client asks for, a page of a list holds no more than 200 items.
pub proof fn law_page_is_bounded(l: Listing, q: ItemsQuery, library: Option<i64>)
    requires
        listing_of(l, q, library),
    ensures
        page_length(l) is Some ==> page_length(l)->0 <= 200,
{
}

fn empty_ids() -> (r: Vec<i64>)
    ensures
        r@ == Seq::<i64>::empty(),
{
    Vec::new()
}

/// What a request's list is taken from, within a library or in all of them.
pub fn choose_listing(q: &ItemsQuery, library_id: Option<i64>) -> (r: Listing)
    ensures
        listing_of(r, *q, library_id),
{
    let limit: i64 = limit_of(q.limit, 100, 200);
    let start: i64 = or_else(q.start_index, 0);
    let raw_types = borrowed(&q.include_item_types);
    let filters = borrowed(&q.filters);
    let favorites = q.is_favorite == Some(true) || has_word(filters, "IsFavorite");
    if favorites {
        return Listing::Favorites { item_types: copy_opt(&q.include_item_types), limit, start };
    }
    let listed = match &q.list_item_ids {
        Some(s) => parse_item_ids(s.as_str()),
        None => empty_ids(),
    };
    if listed.len() > 0 {
        return Listing::ByIds(listed);
    }
    if has_word(raw_types, "BoxSet") {
        return Listing::Nothing;
    }
    let types = parse_include_item_types(raw_types);
    let people = match &q.person_ids {
        Some(s) => parse_person_ids(s.as_str()),
        None => empty_ids(),
    };
    if people.len() > 0 {
        return Listing::ByPerson { ids: people, types, limit, start };
    }
    let studios = match &q.studio_ids {
        Some(s) => parse_studio_ids(s.as_str()),
        None => empty_ids(),
    };
    if studios.len() > 0 {
        return Listing::ByStudio { ids: studios, types, limit, start };
    }
    let genres = match &q.genre_ids {
        Some(s) => parse_genre_ids(s.as_str()),
        None => empty_ids(),
    };
    if genres.len() > 0 {
        return Listing::ByGenre { ids: genres, types, limit, start };
    }
    let wants_series = match raw_types {
        Some(t) => contains_text(t, "Series"),
        None => false,
    };
    if wants_series {
        return Listing::Series { library_id, limit, start };
    }
    let is_played = if q.is_played.is_some() {
        q.is_played
    } else if has_word(filters, "IsPlayed") {
        Some(true)
    } else if has_word(filters, "IsUnplayed") {
        Some(false)
    } else {
        None
    };
    Listing::MoviesSeries {
        library_id,
        search_term: copy_opt(&q.search_term),
        types,
        is_played,
        tags: copy_opt(&q.tags),
        sort_by: copy_opt(&q.sort_by),
        sort_order: copy_opt(&q.sort_order),
        limit,
        start,
    }
}

/// What a request for a user's items comes to.
#[derive(Debug)]
pub enum ItemsPlan {
    /// No items.
    Empty,
    /// Ask of which type this item is.
    AskType(i64),
    /// The seasons of this series.
    Seasons(i64),
    /// The episodes of this season.
    Episodes(i64),
    /// A list.
    List(Listing),
}

/// Whether `p` is the first step of a request: a library confines the list, an
/// item is to be opened, and any other parent holds nothing.
pub open spec fn items_plan_of(p: ItemsPlan, q: ItemsQuery) -> bool {
    match opt(q.parent_id) {
        None => p is List && listing_of(p->List_0, q, None),
        Some(raw) => match id_of(raw) {
            Some((IdKind::Library, id)) => p is List && listing_of(p->List_0, q, Some(id)),
            Some((IdKind::Item, id)) => p matches ItemsPlan::AskType(n) && n == id,
            _ => p is Empty,
        },
    }
}

/// The first step of a request for a user's items.
pub fn users_items(q: &ItemsQuery) -> (r: ItemsPlan)
    ensures
        items_plan_of(r, *q),
{
    match &q.parent_id {
        None => ItemsPlan::List(choose_listing(q, None)),
        Some(raw) => match parse_typed_id(raw.as_str()) {
            Some((kind, id)) => match kind {
                IdKind::Library => ItemsPlan::List(choose_listing(q, Some(id))),
                IdKind::Item => ItemsPlan::AskType(id),
                _ => ItemsPlan::Empty,
            },
            None => ItemsPlan::Empty,
        },
    }
}

/// What opening an item of a type comes to: a series shows its seasons, a season
/// its episodes, and anything else holds nothing.
pub fn open_parent(id: i64, item_type: Option<&str>) -> (r: ItemsPlan)
    ensures
        if opt_str(item_type) == Some("series"@) {
            r matches ItemsPlan::Seasons(n) && n == id
        } else if opt_str(item_type) == Some("season"@) {
            r matches ItemsPlan::Episodes(n) && n == id
        } else {
            r is Empty
        },
        opened(r, id, opt_str(item_type)),
{
    if opt_is(item_type, "series") {
        ItemsPlan::Seasons(id)
    } else if opt_is(item_type, "season") {
        ItemsPlan::Episodes(id)
    } else {
        ItemsPlan::Empty
    }
}

// ---------------------------------------------------------------------------
// Other lists

/// What the "continue watching" list is taken from.
#[derive(Debug, Clone, Copy, PartialEq, Eq, Structural)]
pub struct ResumePlan {
    pub library_id: Option<i64>,
    /// The series or season that the list is confined to.
    pub parent_item: Option<i64>,
    pub limit: i64,
    pub start: i64,
}

/// What the "continue watching" list is taken from; none where the parent is
/// neither a library nor an item.
pub open spec fn resume_plan(q: ItemsQuery) -> Option<ResumePlan> {
    let limit = page_limit(q.limit, 20, 50);
    let start = page_start(q.start_index);
    match opt(q.parent_id) {
        None => Some(ResumePlan { library_id: None, parent_item: None, limit, start }),
        Some(raw) => match id_of(raw) {
            Some((IdKind::Library, id)) => Some(
                ResumePlan { library_id: Some(id), parent_item: None, limit, start },
            ),
            Some((IdKind::Item, id)) => Some(
                ResumePlan { library_id: None, parent_item: Some(id), limit, start },
            ),
            _ => None,
        },
    }
}

/// What the "continue watching" list is taken from.
pub fn users_resume(q: &ItemsQuery) -> (r: Option<ResumePlan>)
    ensures
        r == resume_plan(*q),
{
    let limit: i64 = limit_of(q.limit, 20, 50);
    let start: i64 = start_of(q.start_index);
    match &q.parent_id {
        None => Some(ResumePlan { library_id: None, parent_item: None, limit, start }),
        Some(raw) => match parse_typed_id(raw.as_str()) {
            Some((kind, id)) => match kind {
                IdKind::Library => Some(
                    ResumePlan { library_id: Some(id), parent_item: None, limit, start },
                ),
                IdKind::Item => Some(
                    ResumePlan { library_id: None, parent_item: Some(id), limit, start },
                ),
                _ => None,
            },
            None => None,
        },
    }
}

/// What the list of the latest items is taken from.
#[derive(Debug, Clone, Copy, PartialEq, Eq, Structural)]
pub struct LatestPlan {
    pub library_id: Option<i64>,
    pub limit: i64,
}

/// What the list of the latest items is taken from; none where the parent is
/// no library.
pub fn users_latest(q: &ItemsQuery) -> (r: Option<LatestPlan>)
    ensures
        r == (match opt(q.parent_id) {
            None => Some(LatestPlan { library_id: None, limit: page_limit(q.limit, 20, 50) }),
            Some(raw) => match row_of(raw, IdKind::Library) {
                Some(id) => Some(
                    LatestPlan { library_id: Some(id), limit: page_limit(q.limit, 20, 50) },
                ),
                None => None,
            },
        }),
        latest_is_of(r, *q),
{
    let limit: i64 = limit_of(q.limit, 20, 50);
    match &q.parent_id {
        None => Some(LatestPlan { library_id: None, limit }),
        Some(raw) => match parse_row(raw.as_str(), IdKind::Library) {
            Some(id) => Some(LatestPlan { library_id: Some(id), limit }),
            None => None,
        },
    }
}

/// Whose details are asked for.
#[derive(Debug, Clone, Copy, PartialEq, Eq, Structural)]
pub enum DetailPlan {
    Person(i64),
    Item(i64),
    NotFound,
}

/// Whose details are asked for: those of a person or of an item.
pub fn users_item_by_id(raw: &str) -> (r: DetailPlan)
    ensures
        r == (match id_of(raw@) {
            Some((IdKind::People, id)) => DetailPlan::Person(id),
            Some((IdKind::Item, id)) => DetailPlan::Item(id),
            _ => DetailPlan::NotFound,
        }),
        r == detail_of(raw@),
{
    match parse_typed_id(raw) {
        Some((kind, id)) => match kind {
            IdKind::People => DetailPlan::Person(id),
            IdKind::Item => DetailPlan::Item(id),
            _ => DetailPlan::NotFound,
        },
        None => DetailPlan::NotFound,
    }
}

/// How a row is loaded.
#[derive(Debug, Clone, Copy, PartialEq, Eq, Structural)]
pub enum RowQuery {
    Episode,
    Season,
    Item,
}

/// How a row of a type is loaded.
pub fn row_query(item_type: &str) -> (r: RowQuery)
    ensures
        r == if item_type@ == "episode"@ {
            RowQuery::Episode
        } else if item_type@ == "season"@ {
            RowQuery::Season
        } else {
            RowQuery::Item
        },
{
    if same(item_type, "episode") {
        RowQuery::Episode
    } else if same(item_type, "season") {
        RowQuery::Season
    } else {
        RowQuery::Item
    }
}

/// The portrait of a person: an image that has an address.
pub fn portrait(image: Option<(i64, &str)>) -> (r: Option<i64>)
    ensures
        r == (match image {
            Some((id, url)) => if url@.len() > 0 {
                Some(id)
            } else {
                None
            },
            None => None,
        }),
{
    match image {
        Some((id, url)) => if url.is_empty() {
            None
        } else {
            Some(id)
        },
        None => None,
    }
}

/// What the list of what comes next is taken from.
#[derive(Debug, Clone, Copy, PartialEq, Eq, Structural)]
pub struct NextUpPlan {
    pub user_id: i64,
    pub series_id: Option<i64>,
    pub limit: i64,
    pub start: i64,
}

/// What the list of what comes next is taken from. A series that is not an item
/// is passed over.
pub fn shows_next_up(q: &ItemsQuery, session_user: i64) -> (r: NextUpPlan)
    ensures
        r.user_id == asked_or(q.user_id, session_user),
        r.series_id == (match opt(q.series_id) {
            Some(raw) => row_of(raw, IdKind::Item),
            None => None,
        }),
        r.limit == page_limit(q.limit, 20, 50),
        r.start == page_start(q.start_index),
        next_up_of(r, *q, session_user),
{
    NextUpPlan {
        user_id: or_else(q.user_id, session_user),
        series_id: match &q.series_id {
            Some(raw) => parse_row(raw.as_str(), IdKind::Item),
            None => None,
        },
        limit: limit_of(q.limit, 20, 50),
        start: start_of(q.start_index),
    }
}

/// The show or season that a request names, where it is an item of that type.
pub fn of_stored_type(raw: Option<&str>, item_type: Option<&str>, expected: &str) -> (r: Option<i64>)
    ensures
        r == if opt_str(item_type) == Some(expected@) && raw is Some {
            row_of(raw->0@, IdKind::Item)
        } else {
            None
        },
{
    match raw {
        Some(s) => if opt_is(item_type, expected) {
            parse_row(s, IdKind::Item)
        } else {
            None
        },
        None => None,
    }
}

/// What the list of similar items is taken from.
#[derive(Debug, Clone, Copy, PartialEq, Eq, Structural)]
pub struct SimilarPlan {
    pub user_id: i64,
    pub item_id: i64,
    pub limit: i64,
}

/// What the list of similar items is taken from; none where no item is named.
pub fn item_similar(raw: &str, q: &ItemsQuery, session_user: i64) -> (r: Option<SimilarPlan>)
    ensures
        r == (match row_of(raw@, IdKind::Item) {
            Some(item_id) => Some(
                SimilarPlan {
                    user_id: asked_or(q.user_id, session_user),
                    item_id,
                    limit: page_limit(q.limit, 20, 50),
                },
            ),
            None => None,
        }),
        r == similar_of(raw@, *q, session_user),
{
    match parse_row(raw, IdKind::Item) {
        Some(item_id) => Some(
            SimilarPlan {
                user_id: or_else(q.user_id, session_user),
                item_id,
                limit: limit_of(q.limit, 20, 50),
            },
        ),
        None => None,
    }
}

// ---------------------------------------------------------------------------
// What a request comes to

/// Whether `r` is what the list of the latest items is taken from.
pub open spec fn latest_is_of(r: Option<LatestPlan>, q: ItemsQuery) -> bool {
    match r {
        Some(plan) => plan.limit == page_limit(q.limit, 20, 50) && match opt(q.parent_id) {
            None => plan.library_id is None,
            Some(raw) => plan.library_id is Some && row_of(raw, IdKind::Library) == plan.library_id,
        },
        None => q.parent_id is Some && row_of(q.parent_id->0@, IdKind::Library) is None,
    }
}

/// Whose details an identifier asks for.
pub open spec fn detail_of(raw: Seq<char>) -> DetailPlan {
    if row_of(raw, IdKind::People) is Some {
        DetailPlan::Person(row_of(raw, IdKind::People)->0)
    } else if row_of(raw, IdKind::Item) is Some {
        DetailPlan::Item(row_of(raw, IdKind::Item)->0)
    } else {
        DetailPlan::NotFound
    }
}

/// Whether `p` lists what an item of a type holds.
pub open spec fn opened(p: ItemsPlan, id: i64, item_type: Option<Seq<char>>) -> bool {
    match p {
        ItemsPlan::Seasons(n) => n == id && item_type == Some("series"@),
        ItemsPlan::Episodes(n) => n == id && item_type == Some("season"@),
        ItemsPlan::Empty => item_type != Some("series"@) && item_type != Some("season"@),
        _ => false,
    }
}

/// Whether `r` is what the list of what comes next is taken from.
pub open spec fn next_up_of(r: NextUpPlan, q: ItemsQuery, session_user: i64) -> bool {
    &&& r.user_id == asked_or(q.user_id, session_user)
    &&& r.series_id == (if q.series_id is Some {
        row_of(q.series_id->0@, IdKind::Item)
    } else {
        None
    })
    &&& r.limit == page_limit(q.limit, 20, 50)
    &&& r.start == page_start(q.start_index)
}

/// What the list of similar items is taken from.
pub open spec fn similar_of(raw: Seq<char>, q: ItemsQuery, session_user: i64) -> Option<SimilarPlan> {
    if row_of(raw, IdKind::Item) is Some {
        Some(
            SimilarPlan {
                user_id: asked_or(q.user_id, session_user),
                item_id: row_of(raw, IdKind::Item)->0,
                limit: page_limit(q.limit, 20, 50),
            },
        )
    } else {
        None
    }
}

/// A page is as long as asked for, up to its limit, and of the usual length
/// where nothing was asked; it starts where asked, and never before the first
/// item.
pub proof fn law_pages(n: i64, default: i64, most: i64)
    ensures
        n <= most ==> page_limit(Some(n), default, most) == n,
        n >= most ==> page_limit(Some(n), default, most) == most,
        default <= most ==> page_limit(None, default, most) == default,
        n >= 0 ==> page_start(Some(n)) == n,
        n < 0 ==> page_start(Some(n)) == 0,
        page_start(None) == 0,
        asked_or(Some(n), default) == n,
        asked_or(None, default) == default,
{
}

/// The types that clients name, and what the store calls them.
pub proof fn law_stored_types()
    ensures
        stored_type("Movie"@) == Some("movie"@),
        stored_type("Video"@) == Some("movie"@),
        stored_type("Series"@) == Some("series"@),
        stored_type("Season"@) == Some("season"@),
        stored_type("Episode"@) == Some("episode"@),
        stored_type("BoxSet"@) is None,
        stored_type("Person"@) is None,
{
    reveal_strlit("Movie");
    reveal_strlit("Video");
    reveal_strlit("Series");
    reveal_strlit("Season");
    reveal_strlit("Episode");
    reveal_strlit("BoxSet");
    reveal_strlit("Person");
    reveal_strlit("movie");
    reveal_strlit("video");
    reveal_strlit("series");
    reveal_strlit("season");
    reveal_strlit("episode");
    assert(lower("Movie"@) =~= "movie"@);
    assert(lower("Video"@) =~= "video"@);
    assert(lower("Series"@) =~= "series"@);
    assert(lower("Season"@) =~= "season"@);
    assert(lower("Episode"@) =~= "episode"@);
    assert("movie"@[0] == 'm' && "video"@[0] == 'v' && "series"@[2] == 'r' && "season"@[2] == 'a');
    assert("movie"@.len() == 5 && "video"@.len() == 5 && "series"@.len() == 6 && "season"@.len()
        == 6 && "episode"@.len() == 7);
    assert(lower("BoxSet"@)[0] == 'b' && lower("Person"@)[0] == 'p');
    assert("series"@[0] == 's' && "season"@[0] == 's');
    assert(lower("BoxSet"@).len() == 6 && lower("Person"@).len() == 6);
}

/// A request includes a stored type exactly where one of its words names it.
pub proof fn law_included_types(words: Seq<Seq<char>>, t: Seq<char>)
    ensures
        stored_types(words).contains(t) <==> exists|i: int|
            0 <= i < words.len() && stored_type(trim(#[trigger] words[i])) == Some(t),
    decreases words.len(),
{
    if words.len() > 0 {
        let rest = words.drop_last();
        law_included_types(rest, t);
        let before = stored_types(rest);
        let all = stored_types(words);
        let last = stored_type(trim(words.last()));
        if last is Some && !before.contains(last->0) {
            assert(all == before.push(last->0));
            assert(all[before.len() as int] == last->0);
            assert(forall|k: int| 0 <= k < before.len() ==> all[k] == #[trigger] before[k]);
        }
        if all.contains(t) {
            if before.contains(t) {
                let i = choose|i: int|
                    0 <= i < rest.len() && stored_type(trim(#[trigger] rest[i])) == Some(t);
                assert(words[i] == rest[i]);
            } else {
                let k = choose|k: int| 0 <= k < all.len() && all[k] == t;
                if k < before.len() {
                    assert(before[k] == t);
                }
                assert(words[words.len() - 1] == words.last());
            }
        }
        if exists|i: int| 0 <= i < words.len() && stored_type(trim(#[trigger] words[i])) == Some(t) {
            let i = choose|i: int|
                0 <= i < words.len() && stored_type(trim(#[trigger] words[i])) == Some(t);
            if i < rest.len() {
                assert(rest[i] == words[i]);
                assert(before.contains(t));
                let k = choose|k: int| 0 <= k < before.len() && before[k] == t;
                assert(all[k] == t);
            } else if !before.contains(t) {
                assert(all[before.len() as int] == t);
            }
        }
    }
}

proof fn lemma_single_word(word: Seq<char>)
    requires
        !word.contains(','),
    ensures
        split(word, ',') == seq![word],
        lists_word(Some(word), word),
{
    assert forall|i: int| 0 <= i < word.len() implies #[trigger] word[i] != ',' by {
        assert(word.contains(word[i]));
    }
    lemma_position(word, ',', word.len() as int);
    assert(0 < split(word, ',').len() && lower(split(word, ',')[0]) == lower(word));
    assert(exists|i: int|
        0 <= i < split(word, ',').len() && lower(#[trigger] split(word, ',')[i]) == lower(word));
    let list = Some(word);
    assert(list->0 == word);
    assert(split(list->0, ',')[0] == word);
    assert(lists_word(list, word));
}

/// A request for favourites lists favourites, whatever else it names.
pub proof fn law_favorites_come_first(l: Listing, q: ItemsQuery, library: Option<i64>)
    requires
        listing_of(l, q, library),
        q.is_favorite == Some(true) || opt(q.filters) == Some("IsFavorite"@),
    ensures
        l matches Listing::Favorites { item_types, limit, start } && opt(item_types) == opt(
            q.include_item_types,
        ) && (q.limit is None ==> limit == 100) && (q.limit is Some && q.limit->0 <= 200 ==> limit
            == q.limit->0) && (q.start_index is Some ==> start == q.start_index->0) && (
        q.start_index is None ==> start == 0),
{
    reveal_strlit("IsFavorite");
    assert(!"IsFavorite"@.contains(','));
    lemma_single_word("IsFavorite"@);
}

/// A request that names items lists these, and one that names people, studios
/// or genres lists what has them: each list is read as its own kind, people
/// before studios and studios before genres.
pub proof fn law_named_lists(
    l: Listing,
    q: ItemsQuery,
    library: Option<i64>,
    ids: Seq<i64>,
    n: i64,
    first: i64,
)
    requires
        listing_of(l, q, library),
        q.is_favorite != Some(true),
        q.filters is None,
        q.include_item_types is None,
        ids.len() > 0,
        forall|i: int| 0 <= i < ids.len() ==> #[trigger] ids[i] > 0,
        q.limit == Some(n),
        n <= 200,
        q.start_index == Some(first),
    ensures
        opt(q.list_item_ids) == Some(joined(id_texts(IdKind::Item, ids), seq![','])) ==> (l matches
            Listing::ByIds(list) && list@ == ids),
        q.list_item_ids is None && opt(q.person_ids) == Some(
            joined(id_texts(IdKind::People, ids), seq![',']),
        ) ==> (l matches Listing::ByPerson { ids: list, types, limit, start } && list@ == ids
            && types@.len() == 0 && limit == n && start == first),
        q.list_item_ids is None && q.person_ids is None && opt(q.studio_ids) == Some(
            joined(id_texts(IdKind::Studio, ids), seq![',']),
        ) ==> (l matches Listing::ByStudio { ids: list, types, limit, start } && list@ == ids
            && types@.len() == 0 && limit == n && start == first),
        q.list_item_ids is None && q.person_ids is None && q.studio_ids is None && opt(q.genre_ids)
            == Some(joined(id_texts(IdKind::Genre, ids), seq![','])) ==> (l matches
            Listing::ByGenre { ids: list, types, limit, start } && list@ == ids && types@.len() == 0
            && limit == n && start == first),
{
    law_id_list_round_trip(IdKind::Item, ids, true);
    law_id_list_round_trip(IdKind::People, ids, false);
    law_id_list_round_trip(IdKind::Studio, ids, true);
    law_id_list_round_trip(IdKind::Genre, ids, true);
    match l {
        Listing::ByPerson { ids: list, types, limit, start } => {
            assert(word_texts(types@).len() == types@.len());
        },
        Listing::ByStudio { ids: list, types, limit, start } => {
            assert(word_texts(types@).len() == types@.len());
        },
        Listing::ByGenre { ids: list, types, limit, start } => {
            assert(word_texts(types@).len() == types@.len());
        },
        _ => {},
    }
}

/// A request that names nothing lists the films and series of the library, with
/// its search, its order and its filters as the client gave them. One for series
/// alone lists series, and one for collections lists nothing.
pub proof fn law_plain_lists(l: Listing, q: ItemsQuery, library: Option<i64>)
    requires
        listing_of(l, q, library),
        q.is_favorite != Some(true),
        q.filters is None,
        q.list_item_ids is None,
        q.person_ids is None,
        q.studio_ids is None,
        q.genre_ids is None,
    ensures
        q.include_item_types is None ==> (l matches Listing::MoviesSeries {
            library_id,
            search_term,
            types,
            is_played,
            tags,
            sort_by,
            sort_order,
            limit,
            start,
        } && library_id == library && opt(search_term) == opt(q.search_term) && types@.len() == 0
            && is_played == q.is_played && opt(tags) == opt(q.tags) && opt(sort_by) == opt(
            q.sort_by,
        ) && opt(sort_order) == opt(q.sort_order) && (q.limit is None ==> limit == 100) && (q.limit
            is Some && q.limit->0 <= 200 ==> limit == q.limit->0) && (q.start_index is Some
            ==> start == q.start_index->0)),
        opt(q.include_item_types) == Some("Series"@) ==> (l matches Listing::Series {
            library_id,
            limit,
            start,
        } && library_id == library && (q.limit is None ==> limit == 100) && (q.limit is Some
            && q.limit->0 <= 200 ==> limit == q.limit->0) && (q.start_index is Some ==> start
            == q.start_index->0)),
        opt(q.include_item_types) == Some("BoxSet"@) ==> l is Nothing,
{
    reveal_strlit("Series");
    reveal_strlit("BoxSet");
    assert(!"Series"@.contains(',') && !"BoxSet"@.contains(','));
    lemma_single_word("Series"@);
    lemma_single_word("BoxSet"@);
    assert(lower("Series"@)[0] == 's' && lower("BoxSet"@)[0] == 'b');
    assert("Series"@.subrange(0, 6) =~= "Series"@);
    assert(occurs_at("Series"@, "Series"@, 0));
    match l {
        Listing::MoviesSeries { types, .. } => {
            assert(word_texts(types@).len() == types@.len());
        },
        _ => {},
    }
}

/// The filters of a request tell what was played from what was not.
pub proof fn law_played_filter(q: ItemsQuery, b: bool)
    ensures
        q.is_played == Some(b) ==> played_filter(q) == Some(b),
        q.is_played is None && opt(q.filters) == Some("IsPlayed"@) ==> played_filter(q) == Some(
            true,
        ),
        q.is_played is None && opt(q.filters) == Some("IsUnplayed"@) ==> played_filter(q) == Some(
            false,
        ),
        q.is_played is None && q.filters is None ==> played_filter(q) is None,
{
    reveal_strlit("IsPlayed");
    reveal_strlit("IsUnplayed");
    assert(!"IsPlayed"@.contains(',') && !"IsUnplayed"@.contains(','));
    lemma_single_word("IsPlayed"@);
    lemma_single_word("IsUnplayed"@);
    assert(lower("IsPlayed"@).len() == 8 && lower("IsUnplayed"@).len() == 10);
}

/// A request below a library lists that library, and one below an item asks of
/// which type the item is. No other identifier has items below it.
pub proof fn law_parents(p: ItemsPlan, q: ItemsQuery, n: i64)
    requires
        items_plan_of(p, q),
        n > 0,
    ensures
        q.parent_id is None ==> (p matches ItemsPlan::List(l) && listing_of(l, q, None)),
        opt(q.parent_id) == Some(id_text(IdKind::Library, n as int)) ==> (p matches ItemsPlan::List(
            l,
        ) && listing_of(l, q, Some(n))),
        opt(q.parent_id) == Some(id_text(IdKind::Item, n as int)) ==> (p matches
            ItemsPlan::AskType(k) && k == n),
        opt(q.parent_id) == Some(id_text(IdKind::People, n as int)) ==> p is Empty,
        opt(q.parent_id) == Some(id_text(IdKind::Genre, n as int)) ==> p is Empty,
        opt(q.parent_id) == Some(Seq::<char>::empty()) ==> p is Empty,
{
    law_id_round_trip(IdKind::Library, n);
    law_id_round_trip(IdKind::Item, n);
    law_id_round_trip(IdKind::People, n);
    law_id_round_trip(IdKind::Genre, n);
    assert(id_of(Seq::<char>::empty()) is None);
}

/// A series holds its seasons, a season its episodes, and nothing else holds
/// anything.
pub proof fn law_opened_parent(p: ItemsPlan, id: i64, item_type: Option<Seq<char>>)
    requires
        opened(p, id, item_type),
    ensures
        item_type == Some("series"@) ==> (p matches ItemsPlan::Seasons(n) && n == id),
        item_type == Some("season"@) ==> (p matches ItemsPlan::Episodes(n) && n == id),
        item_type != Some("series"@) && item_type != Some("season"@) ==> p is Empty,
{
    reveal_strlit("series");
    reveal_strlit("season");
    assert("series"@[2] == 'r' && "season"@[2] == 'a');
}

/// The other lists of a user go by what the request names: a library or an item
/// for what is being watched, a library for what is new, a series for what comes
/// next, and an item for what is like it.
pub proof fn law_user_lists(
    q: ItemsQuery,
    n: i64,
    user: i64,
    latest: Option<LatestPlan>,
    next: NextUpPlan,
)
    requires
        n > 0,
        latest_is_of(latest, q),
        next_up_of(next, q, user),
    ensures
        opt(q.parent_id) == Some(id_text(IdKind::Library, n as int)) ==> resume_plan(q) is Some
            && resume_plan(q)->0.library_id == Some(n) && resume_plan(q)->0.parent_item is None
            && latest is Some && latest->0.library_id == Some(n),
        opt(q.parent_id) == Some(id_text(IdKind::Item, n as int)) ==> resume_plan(q) is Some
            && resume_plan(q)->0.library_id is None && resume_plan(q)->0.parent_item == Some(n)
            && latest is None,
        opt(q.parent_id) == Some(id_text(IdKind::Genre, n as int)) ==> resume_plan(q) is None
            && latest is None,
        q.parent_id is None ==> resume_plan(q) is Some && resume_plan(q)->0.library_id is None
            && resume_plan(q)->0.parent_item is None && latest is Some
            && latest->0.library_id is None,
        resume_plan(q) is Some && q.limit is None ==> resume_plan(q)->0.limit == 20,
        resume_plan(q) is Some && q.limit is Some && q.limit->0 <= 50 ==> resume_plan(q)->0.limit
            == q.limit->0,
        resume_plan(q) is Some ==> resume_plan(q)->0.start >= 0 && (q.start_index is Some
            && q.start_index->0 >= 0 ==> resume_plan(q)->0.start == q.start_index->0),
        latest is Some && q.limit is None ==> latest->0.limit == 20,
        latest is Some && q.limit is Some && q.limit->0 <= 50 ==> latest->0.limit == q.limit->0,
        opt(q.series_id) == Some(id_text(IdKind::Item, n as int)) ==> next.series_id == Some(n),
        q.series_id is None ==> next.series_id is None,
        q.user_id is None ==> next.user_id == user,
        q.user_id is Some ==> next.user_id == q.user_id->0,
        q.limit is None ==> next.limit == 20,
        q.limit is Some && q.limit->0 <= 50 ==> next.limit == q.limit->0,
        similar_of(id_text(IdKind::Item, n as int), q, user) is Some && similar_of(
            id_text(IdKind::Item, n as int),
            q,
            user,
        )->0.item_id == n,
        q.user_id is None ==> similar_of(id_text(IdKind::Item, n as int), q, user)->0.user_id
            == user,
        similar_of(id_text(IdKind::Library, n as int), q, user) is None,
        detail_of(id_text(IdKind::Item, n as int)) == DetailPlan::Item(n),
        detail_of(id_text(IdKind::People, n as int)) == DetailPlan::Person(n),
        detail_of(id_text(IdKind::Library, n as int)) == DetailPlan::NotFound,
        detail_of(id_text(IdKind::Genre, n as int)) == DetailPlan::NotFound,
{
    law_id_round_trip(IdKind::Library, n);
    law_id_round_trip(IdKind::Item, n);
    law_id_round_trip(IdKind::People, n);
    law_id_round_trip(IdKind::Genre, n);
}

} // verus!
