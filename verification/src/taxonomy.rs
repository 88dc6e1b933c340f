//! Lists of genres, people, studios, years, ratings and tags, and the number of
//! items.

use vstd::prelude::*;
use vstd::string::*;

use crate::emby::lists::ItemsResponse;
use crate::emby::shared::{NameIdDto, NameIdTypeDto};
use crate::ids::{format_id, id_text, IdKind};
use crate::items::{asked_or, or_else};
use crate::number::{i64_text, int_text};
use crate::params::{law_library_filter, library_filter, library_parent_filter, PaginationQuery};
use crate::text::{borrowed, opt};

verus! {

/// What a list is of.
#[derive(Debug, Clone, Copy, PartialEq, Eq, Structural)]
pub enum TaxonomyKind {
    Genre,
    Person,
    Studio,
    Year,
    Rating,
}

/// The type that the entries of a list bear.
pub open spec fn entry_type(kind: TaxonomyKind) -> Seq<char> {
    match kind {
        TaxonomyKind::Genre => "Genre"@,
        TaxonomyKind::Person => "Person"@,
        TaxonomyKind::Studio => "Studio"@,
        TaxonomyKind::Year => "Year"@,
        TaxonomyKind::Rating => "Rating"@,
    }
}

/// The identifier of an entry: years and ratings are no rows and bear a bare number.
pub open spec fn entry_id(kind: TaxonomyKind, id: int) -> Seq<char> {
    match kind {
        TaxonomyKind::Genre => id_text(IdKind::Genre, id),
        TaxonomyKind::Person => id_text(IdKind::People, id),
        TaxonomyKind::Studio => id_text(IdKind::Studio, id),
        TaxonomyKind::Year | TaxonomyKind::Rating => int_text(id),
    }
}

fn entry_word(kind: TaxonomyKind) -> (r: &'static str)
    ensures
        r@ == entry_type(kind),
{
    match kind {
        TaxonomyKind::Genre => "Genre",
        TaxonomyKind::Person => "Person",
        TaxonomyKind::Studio => "Studio",
        TaxonomyKind::Year => "Year",
        TaxonomyKind::Rating => "Rating",
    }
}

fn format_entry_id(kind: TaxonomyKind, id: i64) -> (r: String)
    ensures
        r@ == entry_id(kind, id as int),
{
    match kind {
        TaxonomyKind::Genre => format_id(IdKind::Genre, id),
        TaxonomyKind::Person => format_id(IdKind::People, id),
        TaxonomyKind::Studio => format_id(IdKind::Studio, id),
        TaxonomyKind::Year | TaxonomyKind::Rating => i64_text(id),
    }
}

/// Which part of a list is asked for.
#[derive(Debug, Clone, Copy, PartialEq, Eq, Structural)]
pub struct TaxonomyPage {
    pub library_id: Option<i64>,
    pub limit: i64,
    pub start: i64,
}

/// Which part of a list is asked for; none where the parent is no library.
pub fn taxonomy_page(q: &PaginationQuery) -> (r: Option<TaxonomyPage>)
    ensures
        r == (match library_filter(opt(q.parent_id)) {
            Some(library_id) => Some(
                TaxonomyPage {
                    library_id,
                    limit: asked_or(q.limit, 100),
                    start: asked_or(q.start, 0),
                },
            ),
            None => None,
        }),
        page_of(r, *q),
{
    match library_parent_filter(borrowed(&q.parent_id)) {
        Some(library_id) => Some(
            TaxonomyPage {
                library_id,
                limit: or_else(q.limit, 100),
                start: or_else(q.start, 0),
            },
        ),
        None => None,
    }
}

/// The page of a list: `rows` are its entries, `total` counts all entries.
pub fn taxonomy_response(kind: TaxonomyKind, rows: &Vec<(i64, String)>, total: usize) -> (r:
    ItemsResponse<NameIdTypeDto>)
    ensures
        r.total_record_count == total,
        r.items@.len() == rows@.len(),
        forall|i: int|
            0 <= i < rows@.len() ==> {
                &&& (#[trigger] r.items@[i]).name_id.name@ == rows@[i].1@
                &&& r.items@[i].name_id.id@ == entry_id(kind, rows@[i].0 as int)
                &&& r.items@[i].item_type@ == entry_type(kind)
            },
        lists_entries(r, kind, rows@, total),
{
    let mut items: Vec<NameIdTypeDto> = Vec::new();
    let mut i: usize = 0;
    while i < rows.len()
        invariant
            i <= rows.len(),
            items.len() == i,
            forall|k: int|
                0 <= k < i ==> {
                    &&& (#[trigger] items@[k]).name_id.name@ == rows@[k].1@
                    &&& items@[k].name_id.id@ == entry_id(kind, rows@[k].0 as int)
                    &&& items@[k].item_type@ == entry_type(kind)
                },
        decreases rows.len() - i,
    {
        items.push(
            NameIdTypeDto {
                name_id: NameIdDto { name: rows[i].1.clone(), id: format_entry_id(kind, rows[i].0) },
                item_type: entry_word(kind).to_owned(),
            },
        );
        i = i + 1;
    }
    ItemsResponse { items, total_record_count: total }
}

/// The page that answers a parent which is no library.
pub fn empty_taxonomy_response() -> (r: ItemsResponse<NameIdTypeDto>)
    ensures
        r.items@.len() == 0,
        r.total_record_count == 0,
{
    ItemsResponse { items: Vec::new(), total_record_count: 0 }
}

/// A tag.
#[derive(Debug)]
pub struct TagDto {
    pub name: String,
    pub item_type: String,
}

/// The list of all tags.
pub fn tags_response(tags: &Vec<String>) -> (r: ItemsResponse<TagDto>)
    ensures
        r.total_record_count == tags@.len(),
        r.items@.len() == tags@.len(),
        forall|i: int|
            0 <= i < tags@.len() ==> (#[trigger] r.items@[i]).name@ == tags@[i]@
                && r.items@[i].item_type@ == "Tag"@,
{
    let mut items: Vec<TagDto> = Vec::new();
    let mut i: usize = 0;
    while i < tags.len()
        invariant
            i <= tags.len(),
            items.len() == i,
            forall|k: int|
                0 <= k < i ==> (#[trigger] items@[k]).name@ == tags@[k]@ && items@[k].item_type@
                    == "Tag"@,
        decreases tags.len() - i,
    {
        items.push(TagDto { name: tags[i].clone(), item_type: "Tag".to_owned() });
        i = i + 1;
    }
    ItemsResponse { total_record_count: items.len(), items }
}

/// How many items there are.
#[derive(Debug, Clone, Copy, PartialEq, Eq, Structural)]
pub struct ItemsCounts {
    pub movie_count: i64,
    pub series_count: i64,
    pub episode_count: i64,
    pub item_count: i64,
}

/// How many items there are, by type and in all.
pub fn items_counts(movies: i64, series: i64, episodes: i64) -> (r: ItemsCounts)
    requires
        i64::MIN <= movies + series <= i64::MAX,
        i64::MIN <= movies + series + episodes <= i64::MAX,
    ensures
        r.movie_count == movies,
        r.series_count == series,
        r.episode_count == episodes,
        r.item_count == movies + series + episodes,
        counts_all(r, movies as int, series as int, episodes as int),
{
    ItemsCounts {
        movie_count: movies,
        series_count: series,
        episode_count: episodes,
        item_count: movies + series + episodes,
    }
}

// ---------------------------------------------------------------------------
// What lists come to

/// Whether `r` is the page that a request asks for.
pub open spec fn page_of(r: Option<TaxonomyPage>, q: PaginationQuery) -> bool {
    match r {
        Some(page) => library_filter(opt(q.parent_id)) == Some(page.library_id) && page.limit
            == asked_or(q.limit, 100) && page.start == asked_or(q.start, 0),
        None => library_filter(opt(q.parent_id)) is None,
    }
}

/// Whether `r` lists rows as entries of a kind.
pub open spec fn lists_entries(
    r: ItemsResponse<NameIdTypeDto>,
    kind: TaxonomyKind,
    rows: Seq<(i64, String)>,
    total: usize,
) -> bool {
    &&& r.total_record_count == total
    &&& r.items@.len() == rows.len()
    &&& forall|i: int|
        0 <= i < rows.len() ==> (#[trigger] r.items@[i]).name_id.name@ == rows[i].1@
            && r.items@[i].name_id.id@ == entry_id(kind, rows[i].0 as int) && r.items@[i].item_type@
            == entry_type(kind)
}

/// Whether `r` counts so many films, series and episodes.
pub open spec fn counts_all(r: ItemsCounts, movies: int, series: int, episodes: int) -> bool {
    &&& r.movie_count == movies
    &&& r.series_count == series
    &&& r.episode_count == episodes
    &&& r.item_count == movies + series + episodes
}

/// A page of a list is that of the library that is named, or of all libraries;
/// it has a hundred entries from the first on unless the request says otherwise,
/// and another parent has no page.
pub proof fn law_taxonomy_pages(r: Option<TaxonomyPage>, q: PaginationQuery, n: i64)
    requires
        page_of(r, q),
        n > 0,
    ensures
        q.parent_id is None ==> r is Some && r->0.library_id is None,
        opt(q.parent_id) == Some(Seq::<char>::empty()) ==> r is Some && r->0.library_id is None,
        opt(q.parent_id) == Some(id_text(IdKind::Library, n as int)) ==> r is Some
            && r->0.library_id == Some(n),
        opt(q.parent_id) == Some(id_text(IdKind::Item, n as int)) ==> r is None,
        r is Some && q.limit is None ==> r->0.limit == 100,
        r is Some && q.limit is Some ==> r->0.limit == q.limit->0,
        r is Some && q.start is None ==> r->0.start == 0,
        r is Some && q.start is Some ==> r->0.start == q.start->0,
{
    law_library_filter(n);
}

/// An entry has the name of its row, and the identifier and the type of its
/// kind; a year and a rating are their own identifiers.
pub proof fn law_taxonomy_entries(
    r: ItemsResponse<NameIdTypeDto>,
    kind: TaxonomyKind,
    rows: Seq<(i64, String)>,
    total: usize,
    i: int,
)
    requires
        lists_entries(r, kind, rows, total),
        0 <= i < rows.len(),
    ensures
        r.total_record_count == total,
        r.items@.len() == rows.len(),
        r.items@[i].name_id.name@ == rows[i].1@,
        kind is Genre ==> r.items@[i].name_id.id@ == id_text(IdKind::Genre, rows[i].0 as int)
            && r.items@[i].item_type@ == "Genre"@,
        kind is Person ==> r.items@[i].name_id.id@ == id_text(IdKind::People, rows[i].0 as int)
            && r.items@[i].item_type@ == "Person"@,
        kind is Studio ==> r.items@[i].name_id.id@ == id_text(IdKind::Studio, rows[i].0 as int)
            && r.items@[i].item_type@ == "Studio"@,
        kind is Year ==> r.items@[i].name_id.id@ == int_text(rows[i].0 as int)
            && r.items@[i].item_type@ == "Year"@,
        kind is Rating ==> r.items@[i].name_id.id@ == int_text(rows[i].0 as int)
            && r.items@[i].item_type@ == "Rating"@,
{
}

/// All items are films, series and episodes.
pub proof fn law_counts_add_up(r: ItemsCounts, movies: int, series: int, episodes: int)
    requires
        counts_all(r, movies, series, episodes),
    ensures
        r.item_count == r.movie_count + r.series_count + r.episode_count,
        r.movie_count == movies && r.series_count == series && r.episode_count == episodes,
{
}

} // verus!
