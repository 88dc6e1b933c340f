//! The slim objects of list pages: one per kind of card, with only what the
//! card shows.

use vstd::prelude::*;
use vstd::string::*;

use crate::emby::item::{
    aspect_of, base_of, borrowed_backdrops, borrows_backdrops, episode, folder, image_tags_of,
    item_of, lemma_types_differ, opt_texts, season, series_of_image, series_text, tag_of_image, tags_of,
};
use crate::emby::item::{ChildCounts, ItemDto};
use crate::emby::rows::{ItemRow, ItemTaxonomy, PersonBrief, ResumeEntry};
use crate::emby::shared::{
    credited, date_year, emby_date_of, opt_emby_date, pairs, people_dtos, person_items,
    played_share, played_share_of, provider_ids, provider_ids_map, provider_pairs, run_ticks,
    run_time_ticks, ticks_fit, user_data, year_of, BaseItemDto, ExternalUrlDto, ImageTagsDto,
    ItemImageFlags, PersonItemDto, ViewsUserData, POSTER_ASPECT, WIDE_ASPECT,
};
use crate::ids::{format_opt_id, id_text, id_texts, image_tags, item_id, opt_id_text, IdKind};
use crate::json::Json;
use crate::text::{borrowed, copy_opt, first_of, opt, same, texts};

verus! {

// ---------------------------------------------------------------------------
// What cards share

/// The aspect ratio of a row's primary image, in millionths.
pub fn aspect(item: &ItemRow) -> (r: i64)
    ensures
        r == aspect_of(*item),
{
    if same(item.item_type.as_str(), "Episode") {
        WIDE_ASPECT
    } else {
        POSTER_ASPECT
    }
}

/// The year of a row: the one it was given, or the one its air date starts with.
pub open spec fn card_year(item: ItemRow) -> Option<i64> {
    first_of(item.production_year, year_of(opt(item.date_air)))
}

/// The year of a row.
pub fn production_year(item: &ItemRow) -> (r: Option<i64>)
    ensures
        r == card_year(*item),
{
    if item.production_year.is_some() {
        item.production_year
    } else {
        date_year(&item.date_air)
    }
}

/// The images that a card shows.
#[derive(Debug)]
pub struct CardImages {
    pub image_tags: ImageTagsDto,
    pub backdrop_image_tags: Vec<String>,
    pub series_primary_image_tag: Option<String>,
    pub parent_backdrop_item_id: Option<String>,
    pub parent_backdrop_image_tags: Option<Vec<String>>,
    pub parent_logo_item_id: Option<String>,
    pub parent_logo_image_tag: Option<String>,
    pub parent_thumb_item_id: Option<String>,
    pub parent_thumb_image_tag: Option<String>,
}

/// Whether a card of a season or an episode shows its series' primary image.
pub open spec fn card_borrows_primary(item: ItemRow, flags: ItemImageFlags) -> bool {
    flags.own_primary is None && (season(item) || episode(item)) && flags.series_primary is Some
}

/// The tag of the primary image on a card.
pub open spec fn card_primary(item: ItemRow, flags: ItemImageFlags) -> Option<Seq<char>> {
    if card_borrows_primary(item, flags) {
        opt_id_text(IdKind::Image, flags.series_primary)
    } else {
        opt_id_text(IdKind::Image, flags.own_primary)
    }
}

/// The tag of the series' primary image, where a card shows it.
pub open spec fn card_series_primary(item: ItemRow, flags: ItemImageFlags) -> Option<Seq<char>> {
    if card_borrows_primary(item, flags) {
        opt_id_text(IdKind::Image, flags.series_primary)
    } else {
        None
    }
}

/// The series, where a card points to its backdrops.
pub open spec fn backdrop_series(item: ItemRow, flags: ItemImageFlags) -> Option<Seq<char>> {
    if borrows_backdrops(item, flags) {
        series_text(item)
    } else {
        None
    }
}

/// Whether `c` are the images on the card of a row.
pub open spec fn card_images_of(c: CardImages, item: ItemRow, flags: ItemImageFlags) -> bool {
    &&& tags_of(c.image_tags, flags, card_primary(item, flags))
    &&& texts(c.backdrop_image_tags@) == id_texts(IdKind::Image, flags.own_backdrops@)
    &&& opt(c.series_primary_image_tag) == card_series_primary(item, flags)
    &&& opt(c.parent_backdrop_item_id) == backdrop_series(item, flags)
    &&& opt_texts(c.parent_backdrop_image_tags) == borrowed_backdrops(item, flags)
    &&& opt(c.parent_logo_item_id) == series_of_image(item, flags.series_logo)
    &&& opt(c.parent_logo_image_tag) == tag_of_image(item, flags.series_logo)
    &&& opt(c.parent_thumb_item_id) == series_of_image(item, flags.series_thumb)
    &&& opt(c.parent_thumb_image_tag) == tag_of_image(item, flags.series_thumb)
}

/// The images on the card of a row.
pub fn build_card_images(item: &ItemRow, flags: &ItemImageFlags) -> (r: CardImages)
    ensures
        card_images_of(r, *item, *flags),
{
    let ty = item.item_type.as_str();
    let is_episode = same(ty, "Episode");
    let is_season = same(ty, "Season");
    let borrows = flags.own_primary.is_none() && (is_season || is_episode)
        && flags.series_primary.is_some();
    let primary = if borrows {
        format_opt_id(IdKind::Image, flags.series_primary)
    } else {
        format_opt_id(IdKind::Image, flags.own_primary)
    };
    let series_primary_image_tag = if borrows {
        copy_opt(&primary)
    } else {
        None
    };
    let points_up = flags.own_backdrops.len() == 0 && (is_season || is_episode)
        && item.series_id.is_some() && flags.series_backdrops.len() > 0;
    CardImages {
        image_tags: image_tags_of(flags, primary),
        backdrop_image_tags: image_tags(&flags.own_backdrops),
        series_primary_image_tag,
        parent_backdrop_item_id: if points_up {
            format_opt_id(IdKind::Item, item.series_id)
        } else {
            None
        },
        parent_backdrop_image_tags: if points_up {
            Some(image_tags(&flags.series_backdrops))
        } else {
            None
        },
        parent_logo_item_id: if is_episode && flags.series_logo.is_some() {
            format_opt_id(IdKind::Item, item.series_id)
        } else {
            None
        },
        parent_logo_image_tag: if is_episode {
            format_opt_id(IdKind::Image, flags.series_logo)
        } else {
            None
        },
        parent_thumb_item_id: if is_episode && flags.series_thumb.is_some() {
            format_opt_id(IdKind::Item, item.series_id)
        } else {
            None
        },
        parent_thumb_image_tag: if is_episode {
            format_opt_id(IdKind::Image, flags.series_thumb)
        } else {
            None
        },
    }
}

/// A card shows the same images as the item's own page, and points to the same
/// images of the series. An item that has no series has no image of one.
pub proof fn law_card_images_as_detail(
    card: CardImages,
    detail: ItemDto,
    server_id: Seq<char>,
    item: ItemRow,
    flags: ItemImageFlags,
    tax: Option<&ItemTaxonomy>,
    counts: Option<ChildCounts>,
    dims: Option<(Option<i64>, Option<i64>)>,
)
    requires
        item.series_id is Some || flags.series_primary is None,
        card_images_of(card, item, flags),
        item_of(detail, server_id, item, flags, tax, counts, dims),
    ensures
        opt(card.image_tags.primary) == opt(detail.base.image_tags.primary),
        opt(card.image_tags.logo) == opt(detail.base.image_tags.logo),
        opt(card.image_tags.thumb) == opt(detail.base.image_tags.thumb),
        opt(card.image_tags.banner) == opt(detail.base.image_tags.banner),
        texts(card.backdrop_image_tags@) == texts(detail.base.backdrop_image_tags@),
        opt(card.series_primary_image_tag) == opt(detail.series_primary_image_tag),
        opt(card.parent_backdrop_item_id) == opt(detail.parent_backdrop_item_id),
        opt_texts(card.parent_backdrop_image_tags) == opt_texts(detail.parent_backdrop_image_tags),
        opt(card.parent_logo_item_id) == opt(detail.parent_logo_item_id),
        opt(card.parent_logo_image_tag) == opt(detail.parent_logo_image_tag),
        opt(card.parent_thumb_item_id) == opt(detail.parent_thumb_item_id),
        opt(card.parent_thumb_image_tag) == opt(detail.parent_thumb_image_tag),
{
}

/// The base of a row's card.
fn card_base(
    server_id: &str,
    item: &ItemRow,
    flags: &ItemImageFlags,
    is_folder: bool,
    unplayed: Option<i64>,
    tags: ImageTagsDto,
    backdrops: Vec<String>,
) -> (r: BaseItemDto)
    requires
        ticks_fit(item.play_ms, item.file_second),
        tags_of(tags, *flags, card_primary(*item, *flags)),
        texts(backdrops@) == id_texts(IdKind::Image, flags.own_backdrops@),
    ensures
        base_of(r, server_id@, *item, *flags, is_folder, card_primary(*item, *flags), unplayed),
{
    BaseItemDto {
        name: item.title.clone(),
        server_id: server_id.to_owned(),
        id: item_id(item.id),
        item_type: item.item_type.clone(),
        is_folder,
        date_created: item.created_at.clone(),
        user_data: user_data(item, unplayed),
        primary_image_aspect_ratio: aspect(item),
        image_tags: tags,
        backdrop_image_tags: backdrops,
        provider_ids: provider_ids(item),
    }
}

/// Whether a row holds other rows.
pub fn is_folder(item: &ItemRow) -> (r: bool)
    ensures
        r == folder(*item),
{
    same(item.item_type.as_str(), "Series") || same(item.item_type.as_str(), "Season")
}

// ---------------------------------------------------------------------------
// Episodes

/// The card of an episode.
#[derive(Debug)]
pub struct EpisodeCardJson {
    pub base: BaseItemDto,
    pub run_time_ticks: Option<i64>,
    pub production_year: Option<i64>,
    pub index_number: Option<i64>,
    pub parent_index_number: Option<i64>,
    pub series_name: Option<String>,
    pub series_id: Option<String>,
    pub season_id: Option<String>,
    pub season_name: Option<String>,
    pub series_primary_image_tag: Option<String>,
    pub parent_backdrop_item_id: Option<String>,
    pub parent_backdrop_image_tags: Option<Vec<String>>,
    pub parent_logo_item_id: Option<String>,
    pub parent_logo_image_tag: Option<String>,
    pub parent_thumb_item_id: Option<String>,
    pub parent_thumb_image_tag: Option<String>,
    pub media_type: Option<String>,
}

/// Whether `r` is the card of an episode.
pub open spec fn episode_card(
    r: EpisodeCardJson,
    server_id: Seq<char>,
    item: ItemRow,
    flags: ItemImageFlags,
) -> bool {
    &&& base_of(
        r.base,
        server_id,
        item,
        flags,
        folder(item),
        card_primary(item, flags),
        None,
    )
    &&& r.run_time_ticks == run_ticks(item.file_second)
    &&& r.production_year == card_year(item)
    &&& r.index_number == item.episode_number
    &&& r.parent_index_number == item.season_number
    &&& opt(r.series_name) == opt(item.series_name)
    &&& opt(r.series_id) == series_text(item)
    &&& opt(r.season_id) == opt_id_text(IdKind::Item, item.season_id)
    &&& opt(r.season_name) == opt(item.season_name)
    &&& opt(r.series_primary_image_tag) == card_series_primary(item, flags)
    &&& opt(r.parent_backdrop_item_id) == backdrop_series(item, flags)
    &&& opt_texts(r.parent_backdrop_image_tags) == borrowed_backdrops(item, flags)
    &&& opt(r.parent_logo_item_id) == series_of_image(item, flags.series_logo)
    &&& opt(r.parent_logo_image_tag) == tag_of_image(item, flags.series_logo)
    &&& opt(r.parent_thumb_item_id) == series_of_image(item, flags.series_thumb)
    &&& opt(r.parent_thumb_image_tag) == tag_of_image(item, flags.series_thumb)
    &&& opt(r.media_type) == Some("Video"@)
}

impl EpisodeCardJson {
    /// The card of an episode.
    pub fn from_row(server_id: &str, item: &ItemRow, flags: &ItemImageFlags) -> (r: Self)
        requires
            ticks_fit(item.play_ms, item.file_second),
        ensures
            episode_card(r, server_id@, *item, *flags),
    {
        let img = build_card_images(item, flags);
        EpisodeCardJson {
            base: card_base(
                server_id,
                item,
                flags,
                is_folder(item),
                None,
                img.image_tags,
                img.backdrop_image_tags,
            ),
            run_time_ticks: run_time_ticks(item.file_second),
            production_year: production_year(item),
            index_number: item.episode_number,
            parent_index_number: item.season_number,
            series_name: copy_opt(&item.series_name),
            series_id: format_opt_id(IdKind::Item, item.series_id),
            season_id: format_opt_id(IdKind::Item, item.season_id),
            season_name: copy_opt(&item.season_name),
            series_primary_image_tag: img.series_primary_image_tag,
            parent_backdrop_item_id: img.parent_backdrop_item_id,
            parent_backdrop_image_tags: img.parent_backdrop_image_tags,
            parent_logo_item_id: img.parent_logo_item_id,
            parent_logo_image_tag: img.parent_logo_image_tag,
            parent_thumb_item_id: img.parent_thumb_item_id,
            parent_thumb_image_tag: img.parent_thumb_image_tag,
            media_type: Some("Video".to_owned()),
        }
    }
}

// ---------------------------------------------------------------------------
// Seasons

/// The card of a season.
#[derive(Debug)]
pub struct SeasonCardJson {
    pub base: BaseItemDto,
    pub sort_name: String,
    pub parent_id: Option<String>,
    pub external_urls: Vec<ExternalUrlDto>,
    pub index_number: Option<i64>,
    pub series_name: Option<String>,
    pub series_id: Option<String>,
    pub series_primary_image_tag: Option<String>,
    pub parent_backdrop_item_id: Option<String>,
    pub parent_backdrop_image_tags: Option<Vec<String>>,
    pub recursive_item_count: Option<i64>,
    pub child_count: Option<i64>,
}

/// Whether `r` is the card of a season.
pub open spec fn season_card(
    r: SeasonCardJson,
    server_id: Seq<char>,
    item: ItemRow,
    flags: ItemImageFlags,
    counts: Option<ChildCounts>,
) -> bool {
    &&& base_of(
        r.base,
        server_id,
        item,
        flags,
        true,
        card_primary(item, flags),
        match counts {
            Some(c) => Some(c.1),
            None => None,
        },
    )
    &&& r.sort_name@ == (match opt(item.sort_title) {
        Some(t) => t,
        None => item.title@,
    })
    &&& opt(r.parent_id) == series_text(item)
    &&& r.external_urls@.len() == 0
    &&& r.index_number == item.season_number
    &&& opt(r.series_name) == opt(item.series_name)
    &&& opt(r.series_id) == series_text(item)
    &&& opt(r.series_primary_image_tag) == card_series_primary(item, flags)
    &&& opt(r.parent_backdrop_item_id) == backdrop_series(item, flags)
    &&& opt_texts(r.parent_backdrop_image_tags) == borrowed_backdrops(item, flags)
    &&& r.recursive_item_count == (match counts {
        Some(c) => Some(c.0),
        None => None,
    })
    &&& r.child_count == r.recursive_item_count
}

impl SeasonCardJson {
    /// The card of a season, with the number of its episodes and of those unplayed.
    pub fn from_row(
        server_id: &str,
        item: &ItemRow,
        flags: &ItemImageFlags,
        counts: Option<ChildCounts>,
    ) -> (r: Self)
        requires
            ticks_fit(item.play_ms, item.file_second),
        ensures
            season_card(r, server_id@, *item, *flags, counts),
    {
        let img = build_card_images(item, flags);
        let (total, unplayed) = match counts {
            Some((total, unplayed, _)) => (Some(total), Some(unplayed)),
            None => (None, None),
        };
        SeasonCardJson {
            base: card_base(
                server_id,
                item,
                flags,
                true,
                unplayed,
                img.image_tags,
                img.backdrop_image_tags,
            ),
            sort_name: match &item.sort_title {
                Some(t) => t.clone(),
                None => item.title.clone(),
            },
            parent_id: format_opt_id(IdKind::Item, item.series_id),
            external_urls: Vec::new(),
            index_number: item.season_number,
            series_name: copy_opt(&item.series_name),
            series_id: format_opt_id(IdKind::Item, item.series_id),
            series_primary_image_tag: img.series_primary_image_tag,
            parent_backdrop_item_id: img.parent_backdrop_item_id,
            parent_backdrop_image_tags: img.parent_backdrop_image_tags,
            recursive_item_count: total,
            child_count: total,
        }
    }
}

// ---------------------------------------------------------------------------
// Films and series

/// The card of a film or a series.
#[derive(Debug)]
pub struct MovieSeriesCardJson {
    pub base: BaseItemDto,
    pub production_year: Option<i64>,
    pub run_time_ticks: Option<i64>,
    /// The bits of the rating.
    pub community_rating: Option<u64>,
    pub official_rating: Option<String>,
    pub status: Option<String>,
    pub end_date: Option<String>,
    pub parent_id: Option<String>,
    pub media_type: Option<String>,
}

/// Whether `r` is the card of a film or a series.
pub open spec fn media_card(
    r: MovieSeriesCardJson,
    server_id: Seq<char>,
    item: ItemRow,
    flags: ItemImageFlags,
) -> bool {
    &&& base_of(
        r.base,
        server_id,
        item,
        flags,
        folder(item),
        card_primary(item, flags),
        None,
    )
    &&& r.production_year == card_year(item)
    &&& r.run_time_ticks == run_ticks(item.file_second)
    &&& r.community_rating == item.community_rating
    &&& opt(r.official_rating) == opt(item.official_rating)
    &&& opt(r.status) == opt(item.status)
    &&& opt(r.end_date) == opt(item.end_date)
    &&& opt(r.parent_id) == opt_id_text(IdKind::Library, item.library_id)
    &&& opt(r.media_type) == Some("Video"@)
}

impl MovieSeriesCardJson {
    /// The card of a film or a series.
    pub fn from_row(server_id: &str, item: &ItemRow, flags: &ItemImageFlags) -> (r: Self)
        requires
            ticks_fit(item.play_ms, item.file_second),
        ensures
            media_card(r, server_id@, *item, *flags),
    {
        let img = build_card_images(item, flags);
        MovieSeriesCardJson {
            base: card_base(
                server_id,
                item,
                flags,
                is_folder(item),
                None,
                img.image_tags,
                img.backdrop_image_tags,
            ),
            production_year: production_year(item),
            run_time_ticks: run_time_ticks(item.file_second),
            community_rating: item.community_rating,
            official_rating: copy_opt(&item.official_rating),
            status: copy_opt(&item.status),
            end_date: copy_opt(&item.end_date),
            parent_id: format_opt_id(IdKind::Library, item.library_id),
            media_type: Some("Video".to_owned()),
        }
    }
}

// ---------------------------------------------------------------------------
// What comes next

/// The card of the next episode to watch, with the people in it.
#[derive(Debug)]
pub struct NextUpJson {
    pub base: BaseItemDto,
    pub premiere_date: Option<String>,
    pub overview: Option<String>,
    pub run_time_ticks: Option<i64>,
    pub index_number: Option<i64>,
    pub parent_index_number: Option<i64>,
    pub parent_id: Option<String>,
    pub people: Vec<PersonItemDto>,
    pub series_name: Option<String>,
    pub series_id: Option<String>,
    pub season_id: Option<String>,
    pub season_name: Option<String>,
    pub series_primary_image_tag: Option<String>,
    pub parent_backdrop_item_id: Option<String>,
    pub parent_backdrop_image_tags: Option<Vec<String>>,
    pub parent_logo_item_id: Option<String>,
    pub parent_logo_image_tag: Option<String>,
    pub parent_thumb_item_id: Option<String>,
    pub parent_thumb_image_tag: Option<String>,
    pub chapters: Vec<Json>,
    pub media_type: Option<String>,
}

/// Whether `r` is the card of the next episode to watch.
pub open spec fn next_up_card(
    r: NextUpJson,
    server_id: Seq<char>,
    item: ItemRow,
    flags: ItemImageFlags,
    people: Seq<PersonBrief>,
) -> bool {
    &&& base_of(
        r.base,
        server_id,
        item,
        flags,
        folder(item),
        card_primary(item, flags),
        None,
    )
    &&& opt(r.premiere_date) == opt_emby_date(opt(item.date_air))
    &&& opt(r.overview) == opt(item.description)
    &&& r.run_time_ticks == run_ticks(item.file_second)
    &&& r.index_number == item.episode_number
    &&& r.parent_index_number == item.season_number
    &&& opt(r.parent_id) == opt_id_text(IdKind::Item, item.season_id)
    &&& person_items(r.people@) == credited(people)
    &&& opt(r.series_name) == opt(item.series_name)
    &&& opt(r.series_id) == series_text(item)
    &&& opt(r.season_id) == opt_id_text(IdKind::Item, item.season_id)
    &&& opt(r.season_name) == opt(item.season_name)
    &&& opt(r.series_primary_image_tag) == card_series_primary(item, flags)
    &&& opt(r.parent_backdrop_item_id) == backdrop_series(item, flags)
    &&& opt_texts(r.parent_backdrop_image_tags) == borrowed_backdrops(item, flags)
    &&& opt(r.parent_logo_item_id) == series_of_image(item, flags.series_logo)
    &&& opt(r.parent_logo_image_tag) == tag_of_image(item, flags.series_logo)
    &&& opt(r.parent_thumb_item_id) == series_of_image(item, flags.series_thumb)
    &&& opt(r.parent_thumb_image_tag) == tag_of_image(item, flags.series_thumb)
    &&& r.chapters@.len() == 0
    &&& opt(r.media_type) == Some("Video"@)
}

impl NextUpJson {
    /// The card of the next episode to watch.
    pub fn from_row(
        server_id: &str,
        item: &ItemRow,
        flags: &ItemImageFlags,
        tax: &ItemTaxonomy,
    ) -> (r: Self)
        requires
            ticks_fit(item.play_ms, item.file_second),
        ensures
            next_up_card(r, server_id@, *item, *flags, tax.people@),
    {
        let img = build_card_images(item, flags);
        NextUpJson {
            base: card_base(
                server_id,
                item,
                flags,
                is_folder(item),
                None,
                img.image_tags,
                img.backdrop_image_tags,
            ),
            premiere_date: emby_date_of(&item.date_air),
            overview: copy_opt(&item.description),
            run_time_ticks: run_time_ticks(item.file_second),
            index_number: item.episode_number,
            parent_index_number: item.season_number,
            parent_id: format_opt_id(IdKind::Item, item.season_id),
            people: people_dtos(&tax.people),
            series_name: copy_opt(&item.series_name),
            series_id: format_opt_id(IdKind::Item, item.series_id),
            season_id: format_opt_id(IdKind::Item, item.season_id),
            season_name: copy_opt(&item.season_name),
            series_primary_image_tag: img.series_primary_image_tag,
            parent_backdrop_item_id: img.parent_backdrop_item_id,
            parent_backdrop_image_tags: img.parent_backdrop_image_tags,
            parent_logo_item_id: img.parent_logo_item_id,
            parent_logo_image_tag: img.parent_logo_image_tag,
            parent_thumb_item_id: img.parent_thumb_item_id,
            parent_thumb_image_tag: img.parent_thumb_image_tag,
            chapters: Vec::new(),
            media_type: Some("Video".to_owned()),
        }
    }
}

// ---------------------------------------------------------------------------
// What to continue with

/// The card of something half watched. It shows its own primary image only.
#[derive(Debug)]
pub struct ResumeCardJson {
    pub base: BaseItemDto,
    pub run_time_ticks: Option<i64>,
    pub production_year: Option<i64>,
    pub index_number: Option<i64>,
    pub parent_index_number: Option<i64>,
    pub series_name: Option<String>,
    pub series_id: Option<String>,
    pub season_id: Option<String>,
    pub season_name: Option<String>,
    pub media_type: Option<String>,
}

/// Whether `r` is the card of something half watched.
pub open spec fn resume_card(
    r: ResumeCardJson,
    server_id: Seq<char>,
    item: ResumeEntry,
    primary_image_id: Option<i64>,
) -> bool {
    &&& r.base.name@ == item.title@
    &&& r.base.server_id@ == server_id
    &&& r.base.id@ == id_text(IdKind::Item, item.id as int)
    &&& r.base.item_type@ == item.item_type@
    &&& !r.base.is_folder
    &&& r.base.date_created@ == item.created_at@
    &&& r.base.user_data.played == (item.is_complete != 0)
    &&& r.base.user_data.playback_position_ticks == item.play_ms * 10_000
    &&& r.base.user_data.play_count == item.play_count
    &&& r.base.user_data.is_favorite == (item.is_favorite != 0)
    &&& r.base.user_data.last_played_date is None
    &&& r.base.user_data.played_percentage == played_share(item.play_ms, item.file_second)
    &&& r.base.user_data.unplayed_item_count is None
    &&& r.base.primary_image_aspect_ratio == if item.item_type@ == "Episode"@ {
        WIDE_ASPECT
    } else {
        POSTER_ASPECT
    }
    &&& opt(r.base.image_tags.primary) == opt_id_text(IdKind::Image, primary_image_id)
    &&& r.base.image_tags.logo is None
    &&& r.base.image_tags.thumb is None
    &&& r.base.image_tags.banner is None
    &&& r.base.backdrop_image_tags@.len() == 0
    &&& pairs(r.base.provider_ids@) == provider_pairs(
        opt(item.tmdb_id),
        opt(item.imdb_id),
        opt(item.tvdb_id),
    )
    &&& r.run_time_ticks == run_ticks(item.file_second)
    &&& r.production_year == first_of(item.production_year, year_of(opt(item.date_air)))
    &&& r.index_number == item.episode_number
    &&& r.parent_index_number == item.season_number
    &&& opt(r.series_name) == opt(item.series_name)
    &&& opt(r.series_id) == opt_id_text(IdKind::Item, item.series_id)
    &&& opt(r.season_id) == opt_id_text(IdKind::Item, item.season_id)
    &&& opt(r.season_name) == opt(item.season_name)
    &&& opt(r.media_type) == Some("Video"@)
}

impl ResumeCardJson {
    /// The card of something half watched.
    pub fn from_row(server_id: &str, item: &ResumeEntry, primary_image_id: Option<i64>) -> (r: Self)
        requires
            ticks_fit(item.play_ms, item.file_second),
        ensures
            resume_card(r, server_id@, *item, primary_image_id),
    {
        let user_data = ViewsUserData {
            played: item.is_complete != 0,
            playback_position_ticks: item.play_ms * 10_000,
            play_count: item.play_count,
            is_favorite: item.is_favorite != 0,
            last_played_date: None,
            played_percentage: played_share_of(item.play_ms, item.file_second),
            unplayed_item_count: None,
        };
        ResumeCardJson {
            base: BaseItemDto {
                name: item.title.clone(),
                server_id: server_id.to_owned(),
                id: item_id(item.id),
                item_type: item.item_type.clone(),
                is_folder: false,
                date_created: item.created_at.clone(),
                user_data,
                primary_image_aspect_ratio: if same(item.item_type.as_str(), "Episode") {
                    WIDE_ASPECT
                } else {
                    POSTER_ASPECT
                },
                image_tags: ImageTagsDto {
                    primary: format_opt_id(IdKind::Image, primary_image_id),
                    logo: None,
                    thumb: None,
                    banner: None,
                },
                backdrop_image_tags: Vec::new(),
                provider_ids: provider_ids_map(
                    borrowed(&item.tmdb_id),
                    borrowed(&item.imdb_id),
                    borrowed(&item.tvdb_id),
                ),
            },
            run_time_ticks: run_time_ticks(item.file_second),
            production_year: if item.production_year.is_some() {
                item.production_year
            } else {
                date_year(&item.date_air)
            },
            index_number: item.episode_number,
            parent_index_number: item.season_number,
            series_name: copy_opt(&item.series_name),
            series_id: format_opt_id(IdKind::Item, item.series_id),
            season_id: format_opt_id(IdKind::Item, item.season_id),
            season_name: copy_opt(&item.season_name),
            media_type: Some("Video".to_owned()),
        }
    }
}

// ---------------------------------------------------------------------------
// What cards show

/// The card of an episode gives its number and that of its season, its series
/// and its season, and its duration.
pub proof fn law_episode_card(
    r: EpisodeCardJson,
    server_id: Seq<char>,
    item: ItemRow,
    flags: ItemImageFlags,
)
    requires
        episode_card(r, server_id, item, flags),
        ticks_fit(item.play_ms, item.file_second),
    ensures
        r.index_number == item.episode_number,
        r.parent_index_number == item.season_number,
        opt(r.series_name) == opt(item.series_name),
        opt(r.series_id) == opt_id_text(IdKind::Item, item.series_id),
        opt(r.season_name) == opt(item.season_name),
        opt(r.season_id) == opt_id_text(IdKind::Item, item.season_id),
        r.base.id@ == id_text(IdKind::Item, item.id as int),
        r.base.name@ == item.title@,
        r.base.user_data.playback_position_ticks == 10_000 * item.play_ms,
        r.base.user_data.unplayed_item_count is None,
        item.file_second is Some ==> r.run_time_ticks is Some && r.run_time_ticks->0 == 10_000_000
            * item.file_second->0,
        item.file_second is None ==> r.run_time_ticks is None,
        item.production_year is Some ==> r.production_year == item.production_year,
        opt(r.media_type) == Some("Video"@),
        item.item_type@ == "Episode"@ ==> !r.base.is_folder,
{
    lemma_types_differ();
}

/// The card of an episode and the full object of it agree on its place in the
/// series and on its duration.
pub proof fn law_episode_card_as_detail(
    r: EpisodeCardJson,
    q: ItemDto,
    server_id: Seq<char>,
    item: ItemRow,
    flags: ItemImageFlags,
)
    requires
        episode_card(r, server_id, item, flags),
        item_of(q, server_id, item, flags, None, None, None),
        item.item_type@ == "Episode"@,
    ensures
        r.index_number == q.index_number,
        r.parent_index_number == q.parent_index_number,
        opt(r.series_name) == opt(q.series_name),
        opt(r.series_id) == opt(q.series_id),
        opt(r.season_id) == opt(q.season_id),
        opt(r.season_name) == opt(q.season_name),
        opt(r.season_id) == opt(q.parent_id),
        r.run_time_ticks == q.run_time_ticks,
        r.base.id@ == q.base.id@,
        r.base.is_folder == q.base.is_folder,
        opt(r.media_type) == opt(q.media_type),
{
    lemma_types_differ();
}

/// The card of a season gives the number of the season, lies in the series, and
/// counts its episodes.
pub proof fn law_season_card(
    r: SeasonCardJson,
    server_id: Seq<char>,
    item: ItemRow,
    flags: ItemImageFlags,
    total: i64,
    unplayed: i64,
    seasons: Option<i64>,
)
    ensures
        season_card(r, server_id, item, flags, Some((total, unplayed, seasons)))
            ==> r.recursive_item_count == Some(total) && r.child_count == Some(total)
            && r.base.user_data.unplayed_item_count == Some(unplayed),
        season_card(r, server_id, item, flags, None) ==> r.recursive_item_count is None
            && r.child_count is None && r.base.user_data.unplayed_item_count is None,
        season_card(r, server_id, item, flags, None) || season_card(
            r,
            server_id,
            item,
            flags,
            Some((total, unplayed, seasons)),
        ) ==> {
            &&& r.index_number == item.season_number
            &&& opt(r.parent_id) == opt_id_text(IdKind::Item, item.series_id)
            &&& opt(r.series_id) == opt_id_text(IdKind::Item, item.series_id)
            &&& opt(r.series_name) == opt(item.series_name)
            &&& item.sort_title is None ==> r.sort_name@ == item.title@
            &&& item.sort_title is Some ==> r.sort_name@ == item.sort_title->0@
            &&& r.base.is_folder
            &&& r.base.id@ == id_text(IdKind::Item, item.id as int)
            &&& r.external_urls@.len() == 0
        },
{
}

/// The card of a film or a series carries what the row says, and lies in the
/// library.
pub proof fn law_media_card(
    r: MovieSeriesCardJson,
    server_id: Seq<char>,
    item: ItemRow,
    flags: ItemImageFlags,
)
    requires
        media_card(r, server_id, item, flags),
        ticks_fit(item.play_ms, item.file_second),
    ensures
        r.community_rating == item.community_rating,
        opt(r.official_rating) == opt(item.official_rating),
        opt(r.status) == opt(item.status),
        opt(r.end_date) == opt(item.end_date),
        opt(r.parent_id) == opt_id_text(IdKind::Library, item.library_id),
        item.production_year is Some ==> r.production_year == item.production_year,
        item.file_second is Some ==> r.run_time_ticks is Some && r.run_time_ticks->0 == 10_000_000
            * item.file_second->0,
        item.file_second is None ==> r.run_time_ticks is None,
        opt(r.media_type) == Some("Video"@),
        r.base.name@ == item.title@,
        r.base.id@ == id_text(IdKind::Item, item.id as int),
        item.item_type@ == "Movie"@ ==> !r.base.is_folder,
        item.item_type@ == "Series"@ ==> r.base.is_folder,
{
    lemma_types_differ();
}

/// The card of what comes next gives the number of the episode and of its
/// season, lies in the season, and names the people of the episode in order.
pub proof fn law_next_up_card(
    r: NextUpJson,
    server_id: Seq<char>,
    item: ItemRow,
    flags: ItemImageFlags,
    people: Seq<PersonBrief>,
    i: int,
)
    requires
        next_up_card(r, server_id, item, flags, people),
        ticks_fit(item.play_ms, item.file_second),
    ensures
        r.index_number == item.episode_number,
        r.parent_index_number == item.season_number,
        opt(r.parent_id) == opt_id_text(IdKind::Item, item.season_id),
        opt(r.season_id) == opt_id_text(IdKind::Item, item.season_id),
        opt(r.season_name) == opt(item.season_name),
        opt(r.series_id) == opt_id_text(IdKind::Item, item.series_id),
        opt(r.series_name) == opt(item.series_name),
        opt(r.overview) == opt(item.description),
        opt(r.premiere_date) == opt_emby_date(opt(item.date_air)),
        item.file_second is Some ==> r.run_time_ticks is Some && r.run_time_ticks->0 == 10_000_000
            * item.file_second->0,
        r.people@.len() == people.len(),
        0 <= i < people.len() ==> r.people@[i].name_id.name@ == people[i].name@
            && r.people@[i].name_id.id@ == id_text(IdKind::People, people[i].id as int)
            && r.people@[i].role@ == people[i].role@,
        r.chapters@.len() == 0,
        opt(r.media_type) == Some("Video"@),
{
    let list = person_items(r.people@);
    assert(list.len() == r.people@.len());
    if 0 <= i < people.len() {
        assert(list[i] == r.people@[i]@);
        assert(credited(people)[i].name == people[i].name@);
    }
}

/// The card of what is being watched gives the number of the episode and of its
/// season and where playback stopped, and shows the primary image.
pub proof fn law_resume_card(
    r: ResumeCardJson,
    server_id: Seq<char>,
    item: ResumeEntry,
    primary_image_id: Option<i64>,
)
    requires
        resume_card(r, server_id, item, primary_image_id),
        ticks_fit(item.play_ms, item.file_second),
    ensures
        r.index_number == item.episode_number,
        r.parent_index_number == item.season_number,
        opt(r.series_name) == opt(item.series_name),
        opt(r.series_id) == opt_id_text(IdKind::Item, item.series_id),
        opt(r.season_name) == opt(item.season_name),
        opt(r.season_id) == opt_id_text(IdKind::Item, item.season_id),
        r.base.name@ == item.title@,
        r.base.id@ == id_text(IdKind::Item, item.id as int),
        r.base.item_type@ == item.item_type@,
        r.base.server_id@ == server_id,
        r.base.date_created@ == item.created_at@,
        !r.base.is_folder,
        r.base.user_data.playback_position_ticks == 10_000 * item.play_ms,
        r.base.user_data.played <==> item.is_complete != 0,
        r.base.user_data.is_favorite <==> item.is_favorite != 0,
        r.base.user_data.play_count == item.play_count,
        opt(r.base.image_tags.primary) == opt_id_text(IdKind::Image, primary_image_id),
        item.item_type@ == "Episode"@ ==> r.base.primary_image_aspect_ratio == 1_777_778,
        item.item_type@ != "Episode"@ ==> r.base.primary_image_aspect_ratio == 666_667,
        item.file_second is Some ==> r.run_time_ticks is Some && r.run_time_ticks->0 == 10_000_000
            * item.file_second->0,
        item.production_year is Some ==> r.production_year == item.production_year,
        item.production_year is None ==> r.production_year == year_of(opt(item.date_air)),
        opt(r.media_type) == Some("Video"@),
        r.base.image_tags.logo is None && r.base.image_tags.thumb is None
            && r.base.image_tags.banner is None && r.base.backdrop_image_tags@.len() == 0,
        r.base.user_data.unplayed_item_count is None && r.base.user_data.last_played_date is None,
        item.file_second is Some && item.file_second->0 > 0 && item.play_ms > 0
            ==> r.base.user_data.played_percentage is Some
            && r.base.user_data.played_percentage->0.play_ms == item.play_ms
            && r.base.user_data.played_percentage->0.file_second == item.file_second->0,
        pairs(r.base.provider_ids@) == provider_pairs(
            opt(item.tmdb_id),
            opt(item.imdb_id),
            opt(item.tvdb_id),
        ),
{
}

/// A card shows the primary image of its row; a season or an episode without
/// one shows that of the series. Logo, thumb and banner are the row's own.
pub proof fn law_card_primary(c: CardImages, item: ItemRow, flags: ItemImageFlags, image: i64)
    requires
        card_images_of(c, item, flags),
    ensures
        flags.own_primary == Some(image) ==> opt(c.image_tags.primary) == Some(
            id_text(IdKind::Image, image as int),
        ) && c.series_primary_image_tag is None,
        flags.own_primary is None && (item.item_type@ == "Season"@ || item.item_type@
            == "Episode"@) && flags.series_primary == Some(image) ==> opt(c.image_tags.primary)
            == Some(id_text(IdKind::Image, image as int)) && opt(c.series_primary_image_tag)
            == Some(id_text(IdKind::Image, image as int)),
        flags.own_primary is None && (item.item_type@ == "Movie"@ || item.item_type@ == "Series"@
            || flags.series_primary is None) ==> c.image_tags.primary is None
            && c.series_primary_image_tag is None,
        opt(c.image_tags.logo) == opt_id_text(IdKind::Image, flags.own_logo),
        opt(c.image_tags.thumb) == opt_id_text(IdKind::Image, flags.own_thumb),
        opt(c.image_tags.banner) == opt_id_text(IdKind::Image, flags.own_banner),
        item.item_type@ == "Episode"@ && flags.series_logo == Some(image) ==> opt(
            c.parent_logo_image_tag,
        ) == Some(id_text(IdKind::Image, image as int)) && opt(c.parent_logo_item_id)
            == opt_id_text(IdKind::Item, item.series_id),
        item.item_type@ == "Episode"@ && flags.series_thumb == Some(image) ==> opt(
            c.parent_thumb_image_tag,
        ) == Some(id_text(IdKind::Image, image as int)) && opt(c.parent_thumb_item_id)
            == opt_id_text(IdKind::Item, item.series_id),
        item.item_type@ != "Episode"@ ==> c.parent_logo_image_tag is None
            && c.parent_thumb_image_tag is None && c.parent_logo_item_id is None
            && c.parent_thumb_item_id is None,
{
    lemma_types_differ();
}

/// A card shows the backdrops of its row, in order; a season or an episode
/// without any points to those of its series.
pub proof fn law_card_backdrops(c: CardImages, item: ItemRow, flags: ItemImageFlags, i: int)
    requires
        card_images_of(c, item, flags),
    ensures
        c.backdrop_image_tags@.len() == flags.own_backdrops@.len(),
        0 <= i < flags.own_backdrops@.len() ==> c.backdrop_image_tags@[i]@ == id_text(
            IdKind::Image,
            flags.own_backdrops@[i] as int,
        ),
        flags.own_backdrops@.len() > 0 || item.series_id is None || item.item_type@ == "Movie"@
            || item.item_type@ == "Series"@ || flags.series_backdrops@.len() == 0
            ==> c.parent_backdrop_item_id is None && c.parent_backdrop_image_tags is None,
        flags.own_backdrops@.len() == 0 && item.series_id is Some && (item.item_type@ == "Season"@
            || item.item_type@ == "Episode"@) && 0 <= i < flags.series_backdrops@.len() ==> opt(
            c.parent_backdrop_item_id,
        ) == Some(id_text(IdKind::Item, item.series_id->0 as int))
            && c.parent_backdrop_image_tags is Some && c.parent_backdrop_image_tags->0@.len()
            == flags.series_backdrops@.len() && c.parent_backdrop_image_tags->0@[i]@ == id_text(
            IdKind::Image,
            flags.series_backdrops@[i] as int,
        ),
{
    lemma_types_differ();
    let own = texts(c.backdrop_image_tags@);
    assert(own.len() == c.backdrop_image_tags@.len());
    if 0 <= i < own.len() {
        assert(own[i] == c.backdrop_image_tags@[i]@);
    }
    if c.parent_backdrop_image_tags is Some {
        let up = texts(c.parent_backdrop_image_tags->0@);
        assert(up.len() == c.parent_backdrop_image_tags->0@.len());
        if 0 <= i < up.len() {
            assert(up[i] == c.parent_backdrop_image_tags->0@[i]@);
        }
    }
}

/// Every card shows the same images of a row: those of an episode, of a season
/// and of what comes next agree with one another and with the row's images.
pub proof fn law_cards_share_images(
    c: CardImages,
    e: EpisodeCardJson,
    s: SeasonCardJson,
    n: NextUpJson,
    m: MovieSeriesCardJson,
    server_id: Seq<char>,
    item: ItemRow,
    flags: ItemImageFlags,
    counts: Option<ChildCounts>,
    people: Seq<PersonBrief>,
)
    requires
        card_images_of(c, item, flags),
    ensures
        episode_card(e, server_id, item, flags) ==> {
            &&& opt(e.base.image_tags.primary) == opt(c.image_tags.primary)
            &&& opt(e.series_primary_image_tag) == opt(c.series_primary_image_tag)
            &&& opt(e.parent_backdrop_item_id) == opt(c.parent_backdrop_item_id)
            &&& opt_texts(e.parent_backdrop_image_tags) == opt_texts(c.parent_backdrop_image_tags)
            &&& opt(e.parent_logo_item_id) == opt(c.parent_logo_item_id)
            &&& opt(e.parent_logo_image_tag) == opt(c.parent_logo_image_tag)
            &&& opt(e.parent_thumb_item_id) == opt(c.parent_thumb_item_id)
            &&& opt(e.parent_thumb_image_tag) == opt(c.parent_thumb_image_tag)
        },
        season_card(s, server_id, item, flags, counts) ==> {
            &&& opt(s.base.image_tags.primary) == opt(c.image_tags.primary)
            &&& opt(s.series_primary_image_tag) == opt(c.series_primary_image_tag)
            &&& opt(s.parent_backdrop_item_id) == opt(c.parent_backdrop_item_id)
            &&& opt_texts(s.parent_backdrop_image_tags) == opt_texts(c.parent_backdrop_image_tags)
        },
        next_up_card(n, server_id, item, flags, people) ==> {
            &&& opt(n.base.image_tags.primary) == opt(c.image_tags.primary)
            &&& opt(n.series_primary_image_tag) == opt(c.series_primary_image_tag)
            &&& opt(n.parent_backdrop_item_id) == opt(c.parent_backdrop_item_id)
            &&& opt_texts(n.parent_backdrop_image_tags) == opt_texts(c.parent_backdrop_image_tags)
            &&& opt(n.parent_logo_item_id) == opt(c.parent_logo_item_id)
            &&& opt(n.parent_logo_image_tag) == opt(c.parent_logo_image_tag)
            &&& opt(n.parent_thumb_item_id) == opt(c.parent_thumb_item_id)
            &&& opt(n.parent_thumb_image_tag) == opt(c.parent_thumb_image_tag)
        },
        media_card(m, server_id, item, flags) ==> opt(m.base.image_tags.primary) == opt(
            c.image_tags.primary,
        ) && texts(m.base.backdrop_image_tags@) == texts(c.backdrop_image_tags@),
{
}

/// The year on a card is that of the row; without one it is that of the date.
pub proof fn law_card_year(item: ItemRow)
    ensures
        item.production_year is Some ==> card_year(item) == item.production_year,
        item.production_year is None ==> card_year(item) == year_of(opt(item.date_air)),
{
}

} // verus!
