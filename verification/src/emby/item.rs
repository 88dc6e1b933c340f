//! The full item object.

use vstd::prelude::*;
use vstd::string::*;

use crate::emby::media_source::MediaSourceDto;
use crate::emby::rows::{ItemRow, ItemTaxonomy};
use crate::emby::shared::{
    credited, date_year_or_zero, emby_date_of, links, name_ids, named_ids, named_rows, names_of,
    law_providers_are_listed, opt_emby_date, pairs, people_dtos, person_items, played_share, provider_ids, provider_pairs,
    row_names, row_user_data, run_ticks, run_time_ticks, ticks_fit, user_data, year_or_zero_of,
    BaseItemDto, ExternalUrlDto, GenreItemDto, ImageTagsDto, ItemImageFlags, PersonItemDto,
    StudioDto, POSTER_ASPECT, WIDE_ASPECT,
};
use crate::ids::{format_opt_id, id_text, id_texts, image_tags, item_id, opt_id_text, IdKind};
use crate::text::{
    blank, borrowed, copy_opt, copy_texts, first_of, is_blank, join2, opt, opt_str, same, texts,
};

verus! {

/// An item with everything that its detail page shows.
#[derive(Debug)]
pub struct ItemDto {
    pub base: BaseItemDto,
    pub location_type: Option<String>,
    pub date_modified: Option<String>,
    pub sort_name: String,
    pub media_type: Option<String>,
    pub run_time_ticks: Option<i64>,
    pub primary_image_tag: Option<String>,
    pub primary_image_item_id: Option<String>,
    pub series_primary_image_tag: Option<String>,
    pub overview: Option<String>,
    pub premiere_date: Option<String>,
    pub production_year: Option<i64>,
    pub end_date: Option<String>,
    pub status: Option<String>,
    /// The bits of the rating.
    pub community_rating: Option<u64>,
    pub official_rating: Option<String>,
    pub taglines: Vec<String>,
    pub tags: Option<Vec<String>>,
    pub series_id: Option<String>,
    pub series_name: Option<String>,
    pub season_id: Option<String>,
    pub season_name: Option<String>,
    pub index_number: Option<i64>,
    pub parent_index_number: Option<i64>,
    pub series_presentation_unique_key: Option<String>,
    pub container: Option<String>,
    pub parent_backdrop_item_id: Option<String>,
    pub parent_backdrop_image_tags: Option<Vec<String>>,
    pub parent_logo_item_id: Option<String>,
    pub parent_logo_image_tag: Option<String>,
    pub parent_thumb_item_id: Option<String>,
    pub parent_thumb_image_tag: Option<String>,
    pub genres: Option<Vec<String>>,
    pub genre_items: Option<Vec<GenreItemDto>>,
    pub people: Option<Vec<PersonItemDto>>,
    pub studios: Option<Vec<StudioDto>>,
    pub recursive_item_count: Option<i64>,
    pub child_count: Option<i64>,
    pub width: Option<i64>,
    pub height: Option<i64>,
    pub parent_id: Option<String>,
    pub external_urls: Option<Vec<ExternalUrlDto>>,
    pub air_days: Option<Vec<String>>,
    pub media_sources: Option<Vec<MediaSourceDto>>,
}

/// How many episodes a folder holds, how many of them are unplayed, and how
/// many seasons it has.
pub type ChildCounts = (i64, i64, Option<i64>);

// ---------------------------------------------------------------------------
// Item types

/// Whether a row is of a type.
pub open spec fn of_type(item: ItemRow, name: Seq<char>) -> bool {
    item.item_type@ == name
}

/// Whether a row is an episode.
pub open spec fn episode(item: ItemRow) -> bool {
    of_type(item, "Episode"@)
}

/// Whether a row is a season.
pub open spec fn season(item: ItemRow) -> bool {
    of_type(item, "Season"@)
}

/// Whether a row is a series.
pub open spec fn series(item: ItemRow) -> bool {
    of_type(item, "Series"@)
}

/// Whether a row is a film.
pub open spec fn movie(item: ItemRow) -> bool {
    of_type(item, "Movie"@)
}

/// Whether a row has a file of its own.
pub open spec fn has_file(item: ItemRow) -> bool {
    movie(item) || episode(item)
}

/// Whether a row holds other rows.
pub open spec fn folder(item: ItemRow) -> bool {
    season(item) || series(item)
}

/// The aspect ratio of a row's primary image, in millionths.
pub open spec fn aspect_of(item: ItemRow) -> int {
    if episode(item) {
        WIDE_ASPECT as int
    } else {
        POSTER_ASPECT as int
    }
}

/// The types of items are four different words.
pub proof fn lemma_types_differ()
    ensures
        "Episode"@ != "Season"@,
        "Episode"@ != "Series"@,
        "Episode"@ != "Movie"@,
        "Season"@ != "Series"@,
        "Season"@ != "Movie"@,
        "Series"@ != "Movie"@,
{
    reveal_strlit("Episode");
    reveal_strlit("Season");
    reveal_strlit("Series");
    reveal_strlit("Movie");
    assert("Episode"@.len() == 7 && "Season"@.len() == 6 && "Series"@.len() == 6 && "Movie"@.len() == 5);
    assert("Season"@[2] == 'a' && "Series"@[2] == 'r');
}

// ---------------------------------------------------------------------------
// Links

/// A link, where the identifier is present and not empty.
pub open spec fn link_entry(name: Seq<char>, head: Seq<char>, id: Option<Seq<char>>) -> Seq<
    (Seq<char>, Seq<char>),
> {
    match id {
        Some(v) => if v.len() > 0 {
            seq![(name, head + v)]
        } else {
            Seq::empty()
        },
        None => Seq::empty(),
    }
}

/// The pages about an item: IMDb, TheMovieDb and TheTVDB, in this order.
pub open spec fn external_links(item: ItemRow) -> Seq<(Seq<char>, Seq<char>)> {
    link_entry("IMDb"@, "https://www.imdb.com/title/"@, opt(item.imdb_id)) + link_entry(
        "TheMovieDb"@,
        if movie(item) {
            "https://www.themoviedb.org/movie/"@
        } else {
            "https://www.themoviedb.org/tv/"@
        },
        opt(item.tmdb_id),
    ) + link_entry(
        "TheTVDB"@,
        "https://thetvdb.com/?tab=series&id="@,
        opt(item.tvdb_id),
    )
}

fn push_link(out: &mut Vec<ExternalUrlDto>, name: &str, head: &str, id: Option<&str>)
    ensures
        links(final(out)@) == links(old(out)@) + link_entry(name@, head@, opt_str(id)),
{
    if let Some(v) = id {
        if !v.is_empty() {
            out.push(ExternalUrlDto { name: name.to_owned(), url: join2(head, v) });
        }
    }
    assert(links(out@) =~= links(old(out)@) + link_entry(name@, head@, opt_str(id)));
}

/// The pages about an item.
pub fn external_urls_for(item: &ItemRow) -> (r: Vec<ExternalUrlDto>)
    ensures
        links(r@) == external_links(*item),
{
    let mut urls: Vec<ExternalUrlDto> = Vec::new();
    assert(links(urls@) =~= Seq::empty());
    push_link(&mut urls, "IMDb", "https://www.imdb.com/title/", borrowed(&item.imdb_id));
    let head = if same(item.item_type.as_str(), "Movie") {
        "https://www.themoviedb.org/movie/"
    } else {
        "https://www.themoviedb.org/tv/"
    };
    push_link(&mut urls, "TheMovieDb", head, borrowed(&item.tmdb_id));
    push_link(
        &mut urls,
        "TheTVDB",
        "https://thetvdb.com/?tab=series&id=",
        borrowed(&item.tvdb_id),
    );
    assert(links(urls@) =~= external_links(*item));
    urls
}

// ---------------------------------------------------------------------------
// Images

/// The identifier of the series that a row belongs to.
pub open spec fn series_text(item: ItemRow) -> Option<Seq<char>> {
    opt_id_text(IdKind::Item, item.series_id)
}

/// Whether a season or an episode without a primary image shows that of its series.
pub open spec fn borrows_primary(item: ItemRow, flags: ItemImageFlags) -> bool {
    flags.own_primary is None && (season(item) || episode(item)) && item.series_id is Some
        && flags.series_primary is Some
}

/// Whether a season or an episode without backdrops points to those of its series.
pub open spec fn borrows_backdrops(item: ItemRow, flags: ItemImageFlags) -> bool {
    flags.own_backdrops@.len() == 0 && (season(item) || episode(item)) && item.series_id is Some
        && flags.series_backdrops@.len() > 0
}

/// The tag of the primary image that a row shows.
pub open spec fn shown_primary(item: ItemRow, flags: ItemImageFlags) -> Option<Seq<char>> {
    if flags.own_primary is Some {
        opt_id_text(IdKind::Image, flags.own_primary)
    } else if borrows_primary(item, flags) {
        opt_id_text(IdKind::Image, flags.series_primary)
    } else {
        None
    }
}

/// The tag of the series' primary image, where a row shows it for want of its own.
pub open spec fn borrowed_primary(item: ItemRow, flags: ItemImageFlags) -> Option<Seq<char>> {
    if borrows_primary(item, flags) {
        opt_id_text(IdKind::Image, flags.series_primary)
    } else {
        None
    }
}

/// Whether `t` are the image tags of a row whose primary image is `primary`.
pub open spec fn tags_of(t: ImageTagsDto, flags: ItemImageFlags, primary: Option<Seq<char>>) -> bool {
    &&& opt(t.primary) == primary
    &&& opt(t.logo) == opt_id_text(IdKind::Image, flags.own_logo)
    &&& opt(t.thumb) == opt_id_text(IdKind::Image, flags.own_thumb)
    &&& opt(t.banner) == opt_id_text(IdKind::Image, flags.own_banner)
}

/// The texts of an optional list.
pub open spec fn opt_texts(o: Option<Vec<String>>) -> Option<Seq<Seq<char>>> {
    match o {
        Some(v) => Some(texts(v@)),
        None => None,
    }
}

/// The tags of the series' backdrops, where a row points to them.
pub open spec fn borrowed_backdrops(item: ItemRow, flags: ItemImageFlags) -> Option<Seq<Seq<char>>> {
    if borrows_backdrops(item, flags) {
        Some(id_texts(IdKind::Image, flags.series_backdrops@))
    } else {
        None
    }
}

/// The series, where an episode shows an image of it.
pub open spec fn series_of_image(item: ItemRow, image: Option<i64>) -> Option<Seq<char>> {
    if episode(item) && image is Some {
        series_text(item)
    } else {
        None
    }
}

/// The tag of an image of the series that an episode shows.
pub open spec fn tag_of_image(item: ItemRow, image: Option<i64>) -> Option<Seq<char>> {
    if episode(item) {
        opt_id_text(IdKind::Image, image)
    } else {
        None
    }
}

// ---------------------------------------------------------------------------
// The object

/// Whether `b` is the base of a row's object. `primary` is the tag of its
/// primary image and `unplayed` what its user state counts as left to play.
pub open spec fn base_of(
    b: BaseItemDto,
    server_id: Seq<char>,
    item: ItemRow,
    flags: ItemImageFlags,
    is_folder: bool,
    primary: Option<Seq<char>>,
    unplayed: Option<i64>,
) -> bool {
    &&& b.name@ == item.title@
    &&& b.server_id@ == server_id
    &&& b.id@ == id_text(IdKind::Item, item.id as int)
    &&& b.item_type@ == item.item_type@
    &&& b.is_folder == is_folder
    &&& b.date_created@ == item.created_at@
    &&& row_user_data(b.user_data, item)
    &&& b.user_data.played_percentage == played_share(item.play_ms, item.file_second)
    &&& b.user_data.unplayed_item_count == unplayed
    &&& b.primary_image_aspect_ratio == aspect_of(item)
    &&& tags_of(b.image_tags, flags, primary)
    &&& texts(b.backdrop_image_tags@) == id_texts(IdKind::Image, flags.own_backdrops@)
    &&& pairs(b.provider_ids@) == provider_pairs(
        opt(item.tmdb_id),
        opt(item.imdb_id),
        opt(item.tvdb_id),
    )
}

/// How many episodes a folder holds.
pub open spec fn total_of(item: ItemRow, counts: Option<ChildCounts>) -> Option<i64> {
    if folder(item) && counts is Some {
        Some((counts->0).0)
    } else {
        None
    }
}

/// How many episodes of a folder are unplayed.
pub open spec fn unplayed_of(item: ItemRow, counts: Option<ChildCounts>) -> Option<i64> {
    if folder(item) && counts is Some {
        Some((counts->0).1)
    } else {
        None
    }
}

/// How many children a folder has: the episodes of a season, the seasons of a series.
pub open spec fn children_of(item: ItemRow, counts: Option<ChildCounts>) -> Option<i64> {
    if folder(item) && counts is Some {
        if season(item) {
            Some((counts->0).0)
        } else {
            (counts->0).2
        }
    } else {
        None
    }
}

/// What a row lies in: an episode in its season, a film or a series in its library.
pub open spec fn parent_of(item: ItemRow) -> Option<Seq<char>> {
    if episode(item) {
        opt_id_text(IdKind::Item, item.season_id)
    } else if movie(item) || series(item) {
        opt_id_text(IdKind::Library, item.library_id)
    } else {
        None
    }
}

/// Whether the object lists the pages about an item: a film or a series its
/// own, a season none, and an episode has no list.
pub open spec fn links_of(r: Option<Vec<ExternalUrlDto>>, item: ItemRow) -> bool {
    if movie(item) || series(item) {
        r is Some && links(r->0@) == external_links(item)
    } else if season(item) {
        r is Some && r->0@.len() == 0
    } else {
        r is None
    }
}

/// The taglines of a row: the one it has, if it is not blank.
pub open spec fn taglines_of(tagline: Option<Seq<char>>) -> Seq<Seq<char>> {
    match tagline {
        Some(t) => if blank(t) {
            Seq::empty()
        } else {
            seq![t]
        },
        None => Seq::empty(),
    }
}

/// Whether the object names genres, people, studios and tags as `tax` does;
/// an empty list of studios or of tags is left out.
pub open spec fn taxonomy_of(r: ItemDto, tax: Option<&ItemTaxonomy>) -> bool {
    match tax {
        Some(t) => {
            &&& opt_texts(r.genres) == Some(row_names(t.genres@))
            &&& r.genre_items is Some
            &&& name_ids(r.genre_items->0@) == named_rows(t.genres@, IdKind::Genre)
            &&& r.people is Some
            &&& person_items(r.people->0@) == credited(t.people@)
            &&& (r.studios is Some <==> t.studios@.len() > 0)
            &&& r.studios is Some ==> name_ids(r.studios->0@) == named_rows(
                t.studios@,
                IdKind::Studio,
            )
            &&& opt_texts(r.tags) == if t.tags@.len() > 0 {
                Some(texts(t.tags@))
            } else {
                None
            }
        },
        None => {
            &&& r.genres is None
            &&& r.genre_items is None
            &&& r.people is None
            &&& r.studios is None
            &&& r.tags is None
        },
    }
}

/// Whether the object shows the images of a row and of its series.
pub open spec fn images_of(r: ItemDto, item: ItemRow, flags: ItemImageFlags) -> bool {
    &&& opt(r.primary_image_tag) == opt_id_text(IdKind::Image, flags.own_primary)
    &&& opt(r.primary_image_item_id) == if borrows_primary(item, flags) {
        series_text(item)
    } else {
        None
    }
    &&& opt(r.series_primary_image_tag) == borrowed_primary(item, flags)
    &&& opt(r.parent_backdrop_item_id) == if borrows_backdrops(item, flags) {
        series_text(item)
    } else {
        None
    }
    &&& opt_texts(r.parent_backdrop_image_tags) == borrowed_backdrops(item, flags)
    &&& opt(r.parent_logo_item_id) == series_of_image(item, flags.series_logo)
    &&& opt(r.parent_logo_image_tag) == tag_of_image(item, flags.series_logo)
    &&& opt(r.parent_thumb_item_id) == series_of_image(item, flags.series_thumb)
    &&& opt(r.parent_thumb_image_tag) == tag_of_image(item, flags.series_thumb)
}

/// Whether the object shows a row's place in its series.
pub open spec fn place_of(r: ItemDto, item: ItemRow) -> bool {
    &&& opt(r.series_id) == series_text(item)
    &&& opt(r.series_name) == opt(item.series_name)
    &&& opt(r.season_id) == opt_id_text(IdKind::Item, item.season_id)
    &&& opt(r.season_name) == opt(item.season_name)
    &&& r.index_number == if season(item) {
        item.season_number
    } else if episode(item) {
        item.episode_number
    } else {
        None
    }
    &&& r.parent_index_number == if episode(item) && !season(item) {
        item.season_number
    } else {
        None
    }
    &&& opt(r.series_presentation_unique_key) == if episode(item) {
        series_text(item)
    } else {
        None
    }
    &&& opt(r.parent_id) == parent_of(item)
}

/// Whether the object shows what a row says of itself.
pub open spec fn details_of(r: ItemDto, item: ItemRow) -> bool {
    &&& opt(r.location_type) == Some(
        if item.is_virtual != 0 {
            "Virtual"@
        } else {
            "FileSystem"@
        },
    )
    &&& opt(r.date_modified) == Some(item.updated_at@)
    &&& r.sort_name@ == match opt(item.sort_title) {
        Some(t) => t,
        None => item.title@,
    }
    &&& opt(r.media_type) == if has_file(item) {
        Some("Video"@)
    } else {
        None
    }
    &&& r.run_time_ticks == run_ticks(item.file_second)
    &&& opt(r.overview) == opt(item.description)
    &&& opt(r.premiere_date) == opt_emby_date(opt(item.date_air))
    &&& r.production_year == first_of(item.production_year, year_or_zero_of(opt(item.date_air)))
    &&& opt(r.end_date) == opt_emby_date(opt(item.end_date))
    &&& opt(r.status) == opt(item.status)
    &&& r.community_rating == item.community_rating
    &&& opt(r.official_rating) == opt(item.official_rating)
    &&& texts(r.taglines@) == taglines_of(opt(item.tagline))
    &&& opt(r.container) == if episode(item) {
        opt(item.container)
    } else {
        None
    }
    &&& links_of(r.external_urls, item)
    &&& if series(item) {
        r.air_days is Some && r.air_days->0@.len() == 0
    } else {
        r.air_days is None
    }
}

/// Whether `r` is the object of a row.
pub open spec fn item_of(
    r: ItemDto,
    server_id: Seq<char>,
    item: ItemRow,
    flags: ItemImageFlags,
    tax: Option<&ItemTaxonomy>,
    counts: Option<ChildCounts>,
    dims: Option<(Option<i64>, Option<i64>)>,
) -> bool {
    &&& base_of(
        r.base,
        server_id,
        item,
        flags,
        folder(item),
        shown_primary(item, flags),
        unplayed_of(item, counts),
    )
    &&& details_of(r, item)
    &&& images_of(r, item, flags)
    &&& place_of(r, item)
    &&& taxonomy_of(r, tax)
    &&& r.recursive_item_count == total_of(item, counts)
    &&& r.child_count == children_of(item, counts)
    &&& (r.width, r.height) == if episode(item) && dims is Some {
        dims->0
    } else {
        (None, None)
    }
    &&& r.media_sources is None
}

/// The taglines of a row.
fn taglines(tagline: &Option<String>) -> (r: Vec<String>)
    ensures
        texts(r@) == taglines_of(opt(*tagline)),
{
    let mut out: Vec<String> = Vec::new();
    if let Some(t) = tagline {
        if !is_blank(t.as_str()) {
            out.push(t.clone());
        }
    }
    assert(texts(out@) =~= taglines_of(opt(*tagline)));
    out
}

/// The image tags of a row whose primary image is `primary`.
pub fn image_tags_of(flags: &ItemImageFlags, primary: Option<String>) -> (r: ImageTagsDto)
    ensures
        tags_of(r, *flags, opt(primary)),
{
    ImageTagsDto {
        primary,
        logo: format_opt_id(IdKind::Image, flags.own_logo),
        thumb: format_opt_id(IdKind::Image, flags.own_thumb),
        banner: format_opt_id(IdKind::Image, flags.own_banner),
    }
}

/// The object of an item: `tax` are its genres, people, studios and tags,
/// `counts` what it holds if it is a folder, `dims` the size of its picture if
/// it is an episode.
pub fn item_to_json(
    server_id: &str,
    item: &ItemRow,
    flags: &ItemImageFlags,
    tax: Option<&ItemTaxonomy>,
    counts: Option<ChildCounts>,
    dims: Option<(Option<i64>, Option<i64>)>,
) -> (r: ItemDto)
    requires
        ticks_fit(item.play_ms, item.file_second),
    ensures
        item_of(r, server_id@, *item, *flags, tax, counts, dims),
        item.item_type@ == "Episode"@ ==> r.index_number == item.episode_number
            && r.parent_index_number == item.season_number,
        item.item_type@ == "Season"@ ==> r.index_number == item.season_number
            && r.parent_index_number is None,
        r.base.name@ == item.title@,
        r.base.id@ == id_text(IdKind::Item, item.id as int),
        opt(r.overview) == opt(item.description),
{
    let ty = item.item_type.as_str();
    let is_episode = same(ty, "Episode");
    let is_season = same(ty, "Season");
    let is_series = same(ty, "Series");
    let is_movie = same(ty, "Movie");
    let is_folder = is_season || is_series;
    proof {
        lemma_types_differ();
    }
    let (recursive_item_count, child_count, unplayed_item_count) = match counts {
        Some((total, unplayed, seasons)) => if is_folder {
            (
                Some(total),
                if is_season {
                    Some(total)
                } else {
                    seasons
                },
                Some(unplayed),
            )
        } else {
            (None, None, None)
        },
        None => (None, None, None),
    };
    let (width, height) = match dims {
        Some((w, h)) => if is_episode {
            (w, h)
        } else {
            (None, None)
        },
        None => (None, None),
    };
    let parent_id = if is_episode {
        format_opt_id(IdKind::Item, item.season_id)
    } else if is_movie || is_series {
        format_opt_id(IdKind::Library, item.library_id)
    } else {
        None
    };
    let external_urls: Option<Vec<ExternalUrlDto>> = if is_movie || is_series {
        Some(external_urls_for(item))
    } else if is_season {
        Some(Vec::new())
    } else {
        None
    };
    let air_days: Option<Vec<String>> = if is_series {
        Some(Vec::new())
    } else {
        None
    };

    // Images: its own, or for a season or an episode those of the series.
    let in_series = (is_season || is_episode) && item.series_id.is_some();
    let borrows = flags.own_primary.is_none() && in_series && flags.series_primary.is_some();
    let primary = if borrows {
        format_opt_id(IdKind::Image, flags.series_primary)
    } else {
        format_opt_id(IdKind::Image, flags.own_primary)
    };
    let primary_image_item_id = if borrows {
        format_opt_id(IdKind::Item, item.series_id)
    } else {
        None
    };
    let series_primary_image_tag = if borrows {
        copy_opt(&primary)
    } else {
        None
    };
    let points_up = flags.own_backdrops.len() == 0 && in_series && flags.series_backdrops.len() > 0;
    let parent_backdrop_item_id = if points_up {
        format_opt_id(IdKind::Item, item.series_id)
    } else {
        None
    };
    let parent_backdrop_image_tags = if points_up {
        Some(image_tags(&flags.series_backdrops))
    } else {
        None
    };
    let parent_logo_item_id = if is_episode && flags.series_logo.is_some() {
        format_opt_id(IdKind::Item, item.series_id)
    } else {
        None
    };
    let parent_thumb_item_id = if is_episode && flags.series_thumb.is_some() {
        format_opt_id(IdKind::Item, item.series_id)
    } else {
        None
    };
    let parent_logo_image_tag = if is_episode {
        format_opt_id(IdKind::Image, flags.series_logo)
    } else {
        None
    };
    let parent_thumb_image_tag = if is_episode {
        format_opt_id(IdKind::Image, flags.series_thumb)
    } else {
        None
    };

    let production_year = if item.production_year.is_some() {
        item.production_year
    } else {
        date_year_or_zero(&item.date_air)
    };
    let (index_number, parent_index_number) = if is_season {
        (item.season_number, None)
    } else if is_episode {
        (item.episode_number, item.season_number)
    } else {
        (None, None)
    };

    let genres = match tax {
        Some(t) => Some(names_of(&t.genres)),
        None => None,
    };
    let genre_items = match tax {
        Some(t) => Some(named_ids(&t.genres, IdKind::Genre)),
        None => None,
    };
    let people = match tax {
        Some(t) => Some(people_dtos(&t.people)),
        None => None,
    };
    let studios = match tax {
        Some(t) => if t.studios.len() == 0 {
            None
        } else {
            Some(named_ids(&t.studios, IdKind::Studio))
        },
        None => None,
    };
    let tags = match tax {
        Some(t) => if t.tags.len() == 0 {
            None
        } else {
            Some(copy_texts(&t.tags))
        },
        None => None,
    };

    ItemDto {
        base: BaseItemDto {
            name: item.title.clone(),
            server_id: server_id.to_owned(),
            id: item_id(item.id),
            item_type: item.item_type.clone(),
            is_folder,
            date_created: item.created_at.clone(),
            user_data: user_data(item, unplayed_item_count),
            primary_image_aspect_ratio: if is_episode {
                WIDE_ASPECT
            } else {
                POSTER_ASPECT
            },
            image_tags: image_tags_of(flags, primary),
            backdrop_image_tags: image_tags(&flags.own_backdrops),
            provider_ids: provider_ids(item),
        },
        location_type: if item.is_virtual != 0 {
            Some("Virtual".to_owned())
        } else {
            Some("FileSystem".to_owned())
        },
        date_modified: Some(item.updated_at.clone()),
        sort_name: match &item.sort_title {
            Some(t) => t.clone(),
            None => item.title.clone(),
        },
        media_type: if is_movie || is_episode {
            Some("Video".to_owned())
        } else {
            None
        },
        run_time_ticks: run_time_ticks(item.file_second),
        primary_image_tag: format_opt_id(IdKind::Image, flags.own_primary),
        primary_image_item_id,
        series_primary_image_tag,
        overview: copy_opt(&item.description),
        premiere_date: emby_date_of(&item.date_air),
        production_year,
        end_date: emby_date_of(&item.end_date),
        status: copy_opt(&item.status),
        community_rating: item.community_rating,
        official_rating: copy_opt(&item.official_rating),
        taglines: taglines(&item.tagline),
        tags,
        series_id: format_opt_id(IdKind::Item, item.series_id),
        series_name: copy_opt(&item.series_name),
        season_id: format_opt_id(IdKind::Item, item.season_id),
        season_name: copy_opt(&item.season_name),
        index_number,
        parent_index_number,
        series_presentation_unique_key: if is_episode {
            format_opt_id(IdKind::Item, item.series_id)
        } else {
            None
        },
        container: if is_episode {
            copy_opt(&item.container)
        } else {
            None
        },
        parent_backdrop_item_id,
        parent_backdrop_image_tags,
        parent_logo_item_id,
        parent_logo_image_tag,
        parent_thumb_item_id,
        parent_thumb_image_tag,
        genres,
        genre_items,
        people,
        studios,
        recursive_item_count,
        child_count,
        width,
        height,
        parent_id,
        external_urls,
        air_days,
        media_sources: None,
    }
}

/// Puts media sources into the object of an item that has a file of its own;
/// a folder keeps none, and neither does an item whose sources are not known.
pub fn attach_media_sources(item: &ItemRow, sources: Option<Vec<MediaSourceDto>>, dto: &mut ItemDto)
    ensures
        *final(dto) == (ItemDto {
            media_sources: if has_file(*item) && sources is Some {
                sources
            } else {
                old(dto).media_sources
            },
            ..*old(dto)
        }),
{
    if !wants_media_sources(item) {
        return;
    }
    if sources.is_some() {
        dto.media_sources = sources;
    }
}

/// Whether an item has a file of its own.
pub fn wants_media_sources(item: &ItemRow) -> (r: bool)
    ensures
        r == has_file(*item),
{
    same(item.item_type.as_str(), "Movie") || same(item.item_type.as_str(), "Episode")
}

// ---------------------------------------------------------------------------
// What the object shows

/// The object of an episode gives the number of the episode and the number of
/// its season, lies in that season, and shows the container and the picture
/// size of its file. It holds no other items.
pub proof fn law_episode_object(
    r: ItemDto,
    server_id: Seq<char>,
    item: ItemRow,
    flags: ItemImageFlags,
    tax: Option<&ItemTaxonomy>,
    counts: Option<ChildCounts>,
    dims: Option<(Option<i64>, Option<i64>)>,
)
    requires
        item_of(r, server_id, item, flags, tax, counts, dims),
        item.item_type@ == "Episode"@,
    ensures
        r.index_number == item.episode_number,
        r.parent_index_number == item.season_number,
        opt(r.parent_id) == opt_id_text(IdKind::Item, item.season_id),
        opt(r.series_presentation_unique_key) == opt_id_text(IdKind::Item, item.series_id),
        opt(r.media_type) == Some("Video"@),
        opt(r.container) == opt(item.container),
        dims == Some((r.width, r.height)) || (dims is None && r.width is None && r.height is None),
        !r.base.is_folder,
        r.base.user_data.unplayed_item_count is None,
        r.base.primary_image_aspect_ratio == 1_777_778,
        r.recursive_item_count is None,
        r.child_count is None,
        r.external_urls is None,
        r.air_days is None,
{
    lemma_types_differ();
}

/// Two episodes of one season have one parent number, and their own numbers
/// differ as the numbers of the episodes do.
pub proof fn law_episodes_of_one_season(
    r: ItemDto,
    q: ItemDto,
    server_id: Seq<char>,
    item: ItemRow,
    other: ItemRow,
    flags: ItemImageFlags,
    more: ItemImageFlags,
    a: i64,
    b: i64,
)
    requires
        item_of(r, server_id, item, flags, None, None, None),
        item_of(q, server_id, other, more, None, None, None),
        item.item_type@ == "Episode"@,
        other.item_type@ == "Episode"@,
        item.season_number == other.season_number,
        item.season_id == other.season_id,
        item.episode_number == Some(a),
        other.episode_number == Some(b),
    ensures
        r.parent_index_number == q.parent_index_number,
        opt(r.parent_id) == opt(q.parent_id),
        opt(r.season_id) == opt(q.season_id),
        r.index_number is Some && q.index_number is Some && r.index_number->0 - q.index_number->0
            == a - b,
{
    law_episode_object(r, server_id, item, flags, None, None, None);
    law_episode_object(q, server_id, other, more, None, None, None);
}

/// The object of a season gives the number of the season, and counts its
/// episodes both as its children and as all that it holds.
pub proof fn law_season_object(
    r: ItemDto,
    server_id: Seq<char>,
    item: ItemRow,
    flags: ItemImageFlags,
    tax: Option<&ItemTaxonomy>,
    counts: Option<ChildCounts>,
    dims: Option<(Option<i64>, Option<i64>)>,
)
    requires
        item_of(r, server_id, item, flags, tax, counts, dims),
        item.item_type@ == "Season"@,
    ensures
        r.index_number == item.season_number,
        r.parent_index_number is None,
        r.parent_id is None,
        r.series_presentation_unique_key is None,
        r.media_type is None,
        r.container is None,
        r.width is None && r.height is None,
        r.base.is_folder,
        r.base.primary_image_aspect_ratio == 666_667,
        counts is Some ==> r.recursive_item_count == Some((counts->0).0) && r.child_count == Some(
            (counts->0).0,
        ) && r.base.user_data.unplayed_item_count == Some((counts->0).1),
        counts is None ==> r.recursive_item_count is None && r.child_count is None
            && r.base.user_data.unplayed_item_count is None,
        r.external_urls is Some && r.external_urls->0@.len() == 0,
        r.air_days is None,
{
    lemma_types_differ();
}

/// The object of a series has no number, lies in its library, and counts its
/// seasons as its children and its episodes as all that it holds.
pub proof fn law_series_object(
    r: ItemDto,
    server_id: Seq<char>,
    item: ItemRow,
    flags: ItemImageFlags,
    tax: Option<&ItemTaxonomy>,
    counts: Option<ChildCounts>,
    dims: Option<(Option<i64>, Option<i64>)>,
)
    requires
        item_of(r, server_id, item, flags, tax, counts, dims),
        item.item_type@ == "Series"@,
    ensures
        r.index_number is None,
        r.parent_index_number is None,
        opt(r.parent_id) == opt_id_text(IdKind::Library, item.library_id),
        r.series_presentation_unique_key is None,
        r.media_type is None,
        r.container is None,
        r.width is None && r.height is None,
        r.base.is_folder,
        r.base.primary_image_aspect_ratio == 666_667,
        counts is Some ==> r.recursive_item_count == Some((counts->0).0) && r.child_count == (
        counts->0).2 && r.base.user_data.unplayed_item_count == Some((counts->0).1),
        counts is None ==> r.recursive_item_count is None && r.child_count is None
            && r.base.user_data.unplayed_item_count is None,
        r.external_urls is Some,
        r.air_days is Some && r.air_days->0@.len() == 0,
{
    lemma_types_differ();
}

/// The object of a film has no number, lies in its library and holds no other
/// items.
pub proof fn law_movie_object(
    r: ItemDto,
    server_id: Seq<char>,
    item: ItemRow,
    flags: ItemImageFlags,
    tax: Option<&ItemTaxonomy>,
    counts: Option<ChildCounts>,
    dims: Option<(Option<i64>, Option<i64>)>,
)
    requires
        item_of(r, server_id, item, flags, tax, counts, dims),
        item.item_type@ == "Movie"@,
    ensures
        r.index_number is None,
        r.parent_index_number is None,
        opt(r.parent_id) == opt_id_text(IdKind::Library, item.library_id),
        r.series_presentation_unique_key is None,
        opt(r.media_type) == Some("Video"@),
        r.container is None,
        r.width is None && r.height is None,
        !r.base.is_folder,
        r.base.user_data.unplayed_item_count is None,
        r.base.primary_image_aspect_ratio == 666_667,
        r.recursive_item_count is None,
        r.child_count is None,
        r.external_urls is Some,
        r.air_days is None,
{
    lemma_types_differ();
}

/// The object carries what the row says, value for value, whatever the type of
/// the row.
pub proof fn law_object_carries_the_row(
    r: ItemDto,
    server_id: Seq<char>,
    item: ItemRow,
    flags: ItemImageFlags,
    tax: Option<&ItemTaxonomy>,
    counts: Option<ChildCounts>,
    dims: Option<(Option<i64>, Option<i64>)>,
)
    requires
        item_of(r, server_id, item, flags, tax, counts, dims),
    ensures
        r.base.name@ == item.title@,
        r.base.server_id@ == server_id,
        r.base.id@ == id_text(IdKind::Item, item.id as int),
        r.base.item_type@ == item.item_type@,
        r.base.date_created@ == item.created_at@,
        opt(r.date_modified) == Some(item.updated_at@),
        item.sort_title is None ==> r.sort_name@ == item.title@,
        item.sort_title is Some ==> r.sort_name@ == item.sort_title->0@,
        opt(r.overview) == opt(item.description),
        opt(r.status) == opt(item.status),
        r.community_rating == item.community_rating,
        opt(r.official_rating) == opt(item.official_rating),
        opt(r.series_id) == opt_id_text(IdKind::Item, item.series_id),
        opt(r.series_name) == opt(item.series_name),
        opt(r.season_id) == opt_id_text(IdKind::Item, item.season_id),
        opt(r.season_name) == opt(item.season_name),
        item.production_year is Some ==> r.production_year == item.production_year,
        item.production_year is None && item.date_air is None ==> r.production_year is None,
        item.date_air is None <==> r.premiere_date is None,
        item.end_date is None <==> r.end_date is None,
        item.is_virtual == 0 ==> opt(r.location_type) == Some("FileSystem"@),
        item.is_virtual != 0 ==> opt(r.location_type) == Some("Virtual"@),
        item.production_year is None ==> r.production_year == year_or_zero_of(opt(item.date_air)),
        opt(r.premiere_date) == opt_emby_date(opt(item.date_air)),
        opt(r.end_date) == opt_emby_date(opt(item.end_date)),
        item.tagline is None ==> r.taglines@.len() == 0,
        item.tagline is Some && blank(item.tagline->0@) ==> r.taglines@.len() == 0,
        r.media_sources is None,
        item.tagline is Some && !blank(item.tagline->0@) ==> r.taglines@.len() == 1
            && r.taglines@[0]@ == item.tagline->0@,
{
    if item.tagline is Some && !blank(item.tagline->0@) {
        assert(texts(r.taglines@)[0] == item.tagline->0@);
    }
    assert(texts(r.taglines@).len() == r.taglines@.len());
}

/// The object shows the state of the user: whether the item was watched and how
/// often, where playback stopped, in ticks, and whether it is a favourite. A
/// share is shown only of a file with a duration, of which something was played.
pub proof fn law_object_shows_user_state(
    r: ItemDto,
    server_id: Seq<char>,
    item: ItemRow,
    flags: ItemImageFlags,
    tax: Option<&ItemTaxonomy>,
    counts: Option<ChildCounts>,
    dims: Option<(Option<i64>, Option<i64>)>,
    seconds: i64,
)
    requires
        item_of(r, server_id, item, flags, tax, counts, dims),
        ticks_fit(item.play_ms, item.file_second),
    ensures
        r.base.user_data.played <==> item.is_complete != 0,
        r.base.user_data.is_favorite <==> item.is_favorite != 0,
        r.base.user_data.play_count == item.play_count,
        r.base.user_data.playback_position_ticks == 10_000 * item.play_ms,
        r.base.user_data.last_played_date is None,
        item.file_second == Some(seconds) ==> r.run_time_ticks is Some && r.run_time_ticks->0
            == 10_000_000 * seconds,
        item.file_second is None ==> r.run_time_ticks is None
            && r.base.user_data.played_percentage is None,
        item.play_ms <= 0 ==> r.base.user_data.played_percentage is None,
        item.file_second == Some(seconds) && seconds > 0 && item.play_ms > 0
            ==> r.base.user_data.played_percentage is Some
            && r.base.user_data.played_percentage->0.play_ms == item.play_ms
            && r.base.user_data.played_percentage->0.file_second == seconds,
{
}

/// An item with a primary image of its own shows that one. A season or an
/// episode without one shows that of its series and says whose it is; no other
/// item borrows an image.
pub proof fn law_object_primary_image(
    r: ItemDto,
    server_id: Seq<char>,
    item: ItemRow,
    flags: ItemImageFlags,
    tax: Option<&ItemTaxonomy>,
    counts: Option<ChildCounts>,
    dims: Option<(Option<i64>, Option<i64>)>,
    image: i64,
)
    requires
        item_of(r, server_id, item, flags, tax, counts, dims),
    ensures
        flags.own_primary == Some(image) ==> opt(r.primary_image_tag) == Some(
            id_text(IdKind::Image, image as int),
        ) && opt(r.base.image_tags.primary) == Some(id_text(IdKind::Image, image as int))
            && r.primary_image_item_id is None && r.series_primary_image_tag is None,
        flags.own_primary is None ==> r.primary_image_tag is None,
        flags.own_primary is None && (item.item_type@ == "Season"@ || item.item_type@
            == "Episode"@) && item.series_id is Some && flags.series_primary == Some(image) ==> opt(
            r.base.image_tags.primary,
        ) == Some(id_text(IdKind::Image, image as int)) && opt(r.series_primary_image_tag) == Some(
            id_text(IdKind::Image, image as int),
        ) && opt(r.primary_image_item_id) == Some(
            id_text(IdKind::Item, item.series_id->0 as int),
        ),
        flags.own_primary is None && (item.item_type@ == "Movie"@ || item.item_type@ == "Series"@
            || item.series_id is None || flags.series_primary is None)
            ==> r.base.image_tags.primary is None && r.series_primary_image_tag is None
            && r.primary_image_item_id is None,
{
    lemma_types_differ();
}

/// The other images of an item are its own, each under its type and the
/// backdrops in order. A season or an episode without backdrops points to those
/// of its series, and an episode to the logo and the still of its series.
pub proof fn law_object_other_images(
    r: ItemDto,
    server_id: Seq<char>,
    item: ItemRow,
    flags: ItemImageFlags,
    tax: Option<&ItemTaxonomy>,
    counts: Option<ChildCounts>,
    dims: Option<(Option<i64>, Option<i64>)>,
    i: int,
)
    requires
        item_of(r, server_id, item, flags, tax, counts, dims),
    ensures
        opt(r.base.image_tags.logo) == opt_id_text(IdKind::Image, flags.own_logo),
        opt(r.base.image_tags.thumb) == opt_id_text(IdKind::Image, flags.own_thumb),
        opt(r.base.image_tags.banner) == opt_id_text(IdKind::Image, flags.own_banner),
        r.base.backdrop_image_tags@.len() == flags.own_backdrops@.len(),
        0 <= i < flags.own_backdrops@.len() ==> r.base.backdrop_image_tags@[i]@ == id_text(
            IdKind::Image,
            flags.own_backdrops@[i] as int,
        ),
        flags.own_backdrops@.len() > 0 || item.series_id is None || item.item_type@ == "Movie"@
            || item.item_type@ == "Series"@ ==> r.parent_backdrop_item_id is None
            && r.parent_backdrop_image_tags is None,
        flags.own_backdrops@.len() == 0 && item.series_id is Some && (item.item_type@ == "Season"@
            || item.item_type@ == "Episode"@) && 0 <= i < flags.series_backdrops@.len() ==> opt(
            r.parent_backdrop_item_id,
        ) == Some(id_text(IdKind::Item, item.series_id->0 as int))
            && r.parent_backdrop_image_tags is Some && r.parent_backdrop_image_tags->0@.len()
            == flags.series_backdrops@.len() && r.parent_backdrop_image_tags->0@[i]@ == id_text(
            IdKind::Image,
            flags.series_backdrops@[i] as int,
        ),
        item.item_type@ == "Episode"@ ==> opt(r.parent_logo_image_tag) == opt_id_text(
            IdKind::Image,
            flags.series_logo,
        ) && opt(r.parent_thumb_image_tag) == opt_id_text(IdKind::Image, flags.series_thumb),
        item.item_type@ == "Episode"@ && flags.series_logo is Some ==> opt(r.parent_logo_item_id)
            == opt_id_text(IdKind::Item, item.series_id),
        item.item_type@ == "Episode"@ && flags.series_thumb is Some ==> opt(r.parent_thumb_item_id)
            == opt_id_text(IdKind::Item, item.series_id),
        item.item_type@ != "Episode"@ ==> r.parent_logo_item_id is None
            && r.parent_logo_image_tag is None && r.parent_thumb_item_id is None
            && r.parent_thumb_image_tag is None,
{
    lemma_types_differ();
    let own = texts(r.base.backdrop_image_tags@);
    assert(own.len() == flags.own_backdrops@.len());
    if 0 <= i < flags.own_backdrops@.len() {
        assert(own[i] == r.base.backdrop_image_tags@[i]@);
    }
    if r.parent_backdrop_image_tags is Some {
        let up = texts(r.parent_backdrop_image_tags->0@);
        assert(up.len() == flags.series_backdrops@.len());
        if 0 <= i < up.len() {
            assert(up[i] == r.parent_backdrop_image_tags->0@[i]@);
        }
    }
}

/// The object names the genres, people, studios and tags of an item one for
/// one, in their order, each under its own identifier.
pub proof fn law_object_names_taxonomy(
    r: ItemDto,
    server_id: Seq<char>,
    item: ItemRow,
    flags: ItemImageFlags,
    t: &ItemTaxonomy,
    counts: Option<ChildCounts>,
    dims: Option<(Option<i64>, Option<i64>)>,
    i: int,
)
    requires
        item_of(r, server_id, item, flags, Some(t), counts, dims),
    ensures
        r.genres is Some && r.genre_items is Some && r.people is Some,
        r.genres->0@.len() == r.genre_items->0@.len() == t.genres@.len(),
        0 <= i < t.genres@.len() ==> r.genres->0@[i]@ == t.genres@[i].1@
            && r.genre_items->0@[i].name@ == t.genres@[i].1@ && r.genre_items->0@[i].id@ == id_text(
            IdKind::Genre,
            t.genres@[i].0 as int,
        ),
        r.people->0@.len() == t.people@.len(),
        0 <= i < t.people@.len() ==> r.people->0@[i].name_id.name@ == t.people@[i].name@
            && r.people->0@[i].name_id.id@ == id_text(IdKind::People, t.people@[i].id as int)
            && r.people->0@[i].role@ == t.people@[i].role@ && opt(r.people->0@[i].character) == opt(
            t.people@[i].character_name,
        ) && opt(r.people->0@[i].primary_image_tag) == opt_id_text(
            IdKind::Image,
            t.people@[i].primary_image_id,
        ) && r.people->0@[i].item_type@ == "Person"@,
        t.studios@.len() == 0 <==> r.studios is None,
        0 <= i < t.studios@.len() ==> r.studios->0@.len() == t.studios@.len()
            && r.studios->0@[i].name@ == t.studios@[i].1@ && r.studios->0@[i].id@ == id_text(
            IdKind::Studio,
            t.studios@[i].0 as int,
        ),
        t.tags@.len() == 0 <==> r.tags is None,
        0 <= i < t.tags@.len() ==> r.tags->0@.len() == t.tags@.len() && r.tags->0@[i]@
            == t.tags@[i]@,
{
    let genres = texts(r.genres->0@);
    let genre_items = name_ids(r.genre_items->0@);
    let people = person_items(r.people->0@);
    assert(genres.len() == t.genres@.len());
    assert(genre_items.len() == t.genres@.len());
    assert(people.len() == t.people@.len());
    if 0 <= i < t.genres@.len() {
        assert(genres[i] == r.genres->0@[i]@);
        assert(genre_items[i].0 == r.genre_items->0@[i].name@);
        assert(genre_items[i].1 == r.genre_items->0@[i].id@);
    }
    if 0 <= i < t.people@.len() {
        assert(people[i] == r.people->0@[i]@);
        assert(people[i] == credited(t.people@)[i]);
    }
    if 0 <= i < t.studios@.len() {
        let studios = name_ids(r.studios->0@);
        assert(studios.len() == t.studios@.len());
        assert(studios[i].0 == r.studios->0@[i].name@);
        assert(studios[i].1 == r.studios->0@[i].id@);
    }
    if 0 <= i < t.tags@.len() {
        let tags = texts(r.tags->0@);
        assert(tags.len() == t.tags@.len());
        assert(tags[i] == r.tags->0@[i]@);
    }
}

/// A page about an item is listed exactly where the item has an identifier
/// there that is not empty, and its address ends with that identifier. A film
/// with all three has IMDb, TheMovieDb and TheTVDB, in this order.
pub proof fn law_external_links(item: ItemRow, a: Seq<char>, b: Seq<char>, c: Seq<char>)
    requires
        a.len() > 0 && b.len() > 0 && c.len() > 0,
    ensures
        opt(item.imdb_id) == Some(a) && opt(item.tmdb_id) == Some(b) && opt(item.tvdb_id) == Some(c)
            ==> external_links(item) == seq![
            ("IMDb"@, "https://www.imdb.com/title/"@ + a),
            (
                "TheMovieDb"@,
                (if item.item_type@ == "Movie"@ {
                    "https://www.themoviedb.org/movie/"@
                } else {
                    "https://www.themoviedb.org/tv/"@
                }) + b,
            ),
            ("TheTVDB"@, "https://thetvdb.com/?tab=series&id="@ + c),
        ],
        item.imdb_id is None && opt(item.tmdb_id) == Some(b) && item.tvdb_id is None
            ==> external_links(item) == seq![
            (
                "TheMovieDb"@,
                (if item.item_type@ == "Movie"@ {
                    "https://www.themoviedb.org/movie/"@
                } else {
                    "https://www.themoviedb.org/tv/"@
                }) + b,
            ),
        ],
        opt(item.imdb_id) == Some(a) && item.tmdb_id is None && item.tvdb_id is None
            ==> external_links(item) == seq![("IMDb"@, "https://www.imdb.com/title/"@ + a)],
        item.imdb_id is None && item.tmdb_id is None && opt(item.tvdb_id) == Some(c)
            ==> external_links(item) == seq![
            ("TheTVDB"@, "https://thetvdb.com/?tab=series&id="@ + c),
        ],
        item.imdb_id is None && item.tmdb_id is None && item.tvdb_id is None ==> external_links(
            item,
        ) == Seq::<(Seq<char>, Seq<char>)>::empty(),
{
    let none = Seq::<(Seq<char>, Seq<char>)>::empty();
    if opt(item.imdb_id) == Some(a) && opt(item.tmdb_id) == Some(b) && opt(item.tvdb_id) == Some(c) {
        assert(external_links(item) =~= seq![
            ("IMDb"@, "https://www.imdb.com/title/"@ + a),
            (
                "TheMovieDb"@,
                (if item.item_type@ == "Movie"@ {
                    "https://www.themoviedb.org/movie/"@
                } else {
                    "https://www.themoviedb.org/tv/"@
                }) + b,
            ),
            ("TheTVDB"@, "https://thetvdb.com/?tab=series&id="@ + c),
        ]);
    }
    if item.imdb_id is None && opt(item.tmdb_id) == Some(b) && item.tvdb_id is None {
        assert(external_links(item) =~= seq![
            (
                "TheMovieDb"@,
                (if item.item_type@ == "Movie"@ {
                    "https://www.themoviedb.org/movie/"@
                } else {
                    "https://www.themoviedb.org/tv/"@
                }) + b,
            ),
        ]);
    }
    if opt(item.imdb_id) == Some(a) && item.tmdb_id is None && item.tvdb_id is None {
        assert(external_links(item) =~= seq![("IMDb"@, "https://www.imdb.com/title/"@ + a)]);
    }
    if item.imdb_id is None && item.tmdb_id is None && opt(item.tvdb_id) == Some(c) {
        assert(external_links(item) =~= seq![("TheTVDB"@, "https://thetvdb.com/?tab=series&id="@ + c)]);
    }
    if item.imdb_id is None && item.tmdb_id is None && item.tvdb_id is None {
        assert(external_links(item) =~= none);
    }
}

/// A film or a series lists its pages; its object names the providers that have
/// an identifier of it, and no others.
pub proof fn law_object_links_and_providers(
    r: ItemDto,
    server_id: Seq<char>,
    item: ItemRow,
    flags: ItemImageFlags,
    tax: Option<&ItemTaxonomy>,
    counts: Option<ChildCounts>,
    dims: Option<(Option<i64>, Option<i64>)>,
    id: Seq<char>,
)
    requires
        item_of(r, server_id, item, flags, tax, counts, dims),
        id.len() > 0,
    ensures
        item.item_type@ == "Movie"@ || item.item_type@ == "Series"@ ==> links(r.external_urls->0@)
            == external_links(item),
        opt(item.tmdb_id) == Some(id) ==> pairs(r.base.provider_ids@).contains(("Tmdb"@, id)),
        opt(item.imdb_id) == Some(id) ==> pairs(r.base.provider_ids@).contains(("Imdb"@, id)),
        opt(item.tvdb_id) == Some(id) ==> pairs(r.base.provider_ids@).contains(("Tvdb"@, id)),
        item.tmdb_id is None && item.imdb_id is None && item.tvdb_id is None
            ==> r.base.provider_ids@.len() == 0,
{
    law_providers_are_listed(opt(item.tmdb_id), opt(item.imdb_id), opt(item.tvdb_id), id);
    assert(pairs(r.base.provider_ids@).len() == r.base.provider_ids@.len());
}

/// What every object carries of a row: its names and identifiers, one user's
/// state of it, and its own images.
pub proof fn law_base_carries_the_row(
    b: BaseItemDto,
    server_id: Seq<char>,
    item: ItemRow,
    flags: ItemImageFlags,
    is_folder: bool,
    primary: Option<Seq<char>>,
    unplayed: Option<i64>,
    i: int,
)
    requires
        base_of(b, server_id, item, flags, is_folder, primary, unplayed),
    ensures
        b.name@ == item.title@,
        b.server_id@ == server_id,
        b.id@ == id_text(IdKind::Item, item.id as int),
        b.item_type@ == item.item_type@,
        b.is_folder == is_folder,
        b.date_created@ == item.created_at@,
        b.user_data.played <==> item.is_complete != 0,
        b.user_data.is_favorite <==> item.is_favorite != 0,
        b.user_data.play_count == item.play_count,
        b.user_data.playback_position_ticks == 10_000 * item.play_ms,
        b.user_data.last_played_date is None,
        b.user_data.unplayed_item_count == unplayed,
        item.file_second is None || item.play_ms <= 0 ==> b.user_data.played_percentage is None,
        item.file_second is Some && item.file_second->0 > 0 && item.play_ms > 0
            ==> b.user_data.played_percentage is Some && b.user_data.played_percentage->0.play_ms
            == item.play_ms && b.user_data.played_percentage->0.file_second
            == item.file_second->0,
        item.item_type@ == "Episode"@ ==> b.primary_image_aspect_ratio == 1_777_778,
        item.item_type@ != "Episode"@ ==> b.primary_image_aspect_ratio == 666_667,
        opt(b.image_tags.primary) == primary,
        opt(b.image_tags.logo) == opt_id_text(IdKind::Image, flags.own_logo),
        opt(b.image_tags.thumb) == opt_id_text(IdKind::Image, flags.own_thumb),
        opt(b.image_tags.banner) == opt_id_text(IdKind::Image, flags.own_banner),
        b.backdrop_image_tags@.len() == flags.own_backdrops@.len(),
        0 <= i < flags.own_backdrops@.len() ==> b.backdrop_image_tags@[i]@ == id_text(
            IdKind::Image,
            flags.own_backdrops@[i] as int,
        ),
{
    let own = texts(b.backdrop_image_tags@);
    assert(own.len() == flags.own_backdrops@.len());
    if 0 <= i < flags.own_backdrops@.len() {
        assert(own[i] == b.backdrop_image_tags@[i]@);
    }
}

} // verus!
