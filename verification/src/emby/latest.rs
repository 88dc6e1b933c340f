//! The cards of what was added last.

use vstd::prelude::*;
use vstd::string::*;

use crate::emby::item::{aspect_of, movie, season, series};
use crate::emby::rows::{ItemRow, ItemTaxonomy, PersonBrief};
use crate::emby::shared::{
    credited, date_year, item_user_data, name_ids, named_ids, named_rows, names_of, pairs,
    people_dtos, person_items, provider_ids, provider_pairs, row_names, row_user_data, ticks_fit,
    year_of, BaseItemDto, GenreItemDto, ImageTagsDto, ItemImageFlags, PersonItemDto,
};
use crate::ids::{format_opt_id, id_text, id_texts, image_tags, item_id, opt_id_text, IdKind};
use crate::text::{opt, same, texts};

verus! {

/// The card of an item that was added last.
#[derive(Debug)]
pub struct LatestItemJson {
    pub base: BaseItemDto,
    pub production_year: Option<i64>,
    pub genres: Vec<String>,
    pub people: Vec<PersonItemDto>,
    pub genre_items: Vec<GenreItemDto>,
    pub media_type: String,
    pub can_delete: bool,
    pub can_download: bool,
}

/// Whether `r` is the card of an item that was added last: it shows the item's
/// own images only, and everything but an episode counts as a folder.
pub open spec fn latest_card(
    r: LatestItemJson,
    server_id: Seq<char>,
    item: ItemRow,
    flags: ItemImageFlags,
    genres: Seq<(i64, String)>,
    people: Seq<PersonBrief>,
) -> bool {
    &&& r.base.name@ == item.title@
    &&& r.base.server_id@ == server_id
    &&& r.base.id@ == id_text(IdKind::Item, item.id as int)
    &&& r.base.item_type@ == item.item_type@
    &&& r.base.is_folder == (movie(item) || series(item) || season(item))
    &&& r.base.date_created@ == item.created_at@
    &&& row_user_data(r.base.user_data, item)
    &&& r.base.user_data.played_percentage is None
    &&& r.base.user_data.unplayed_item_count is None
    &&& r.base.primary_image_aspect_ratio == aspect_of(item)
    &&& opt(r.base.image_tags.primary) == opt_id_text(IdKind::Image, flags.own_primary)
    &&& r.base.image_tags.logo is None
    &&& r.base.image_tags.thumb is None
    &&& r.base.image_tags.banner is None
    &&& texts(r.base.backdrop_image_tags@) == id_texts(IdKind::Image, flags.own_backdrops@)
    &&& pairs(r.base.provider_ids@) == provider_pairs(
        opt(item.tmdb_id),
        opt(item.imdb_id),
        opt(item.tvdb_id),
    )
    &&& r.production_year == year_of(opt(item.date_air))
    &&& texts(r.genres@) == row_names(genres)
    &&& name_ids(r.genre_items@) == named_rows(genres, IdKind::Genre)
    &&& person_items(r.people@) == credited(people)
    &&& r.media_type@ == "Video"@
    &&& !r.can_delete
    &&& !r.can_download
}

impl LatestItemJson {
    /// The card of an item that was added last.
    pub fn from_row(
        server_id: &str,
        item: &ItemRow,
        flags: &ItemImageFlags,
        tax: &ItemTaxonomy,
    ) -> (r: Self)
        requires
            ticks_fit(item.play_ms, None),
        ensures
            latest_card(r, server_id@, *item, *flags, tax.genres@, tax.people@),
    {
        let ty = item.item_type.as_str();
        LatestItemJson {
            base: BaseItemDto {
                name: item.title.clone(),
                server_id: server_id.to_owned(),
                id: item_id(item.id),
                item_type: item.item_type.clone(),
                is_folder: same(ty, "Movie") || same(ty, "Series") || same(ty, "Season"),
                date_created: item.created_at.clone(),
                user_data: item_user_data(item),
                primary_image_aspect_ratio: crate::emby::cards::aspect(item),
                image_tags: ImageTagsDto {
                    primary: format_opt_id(IdKind::Image, flags.own_primary),
                    logo: None,
                    thumb: None,
                    banner: None,
                },
                backdrop_image_tags: image_tags(&flags.own_backdrops),
                provider_ids: provider_ids(item),
            },
            production_year: date_year(&item.date_air),
            genres: names_of(&tax.genres),
            people: people_dtos(&tax.people),
            genre_items: named_ids(&tax.genres, IdKind::Genre),
            media_type: "Video".to_owned(),
            can_delete: false,
            can_download: false,
        }
    }
}

/// The entry of a new item carries what its row says and names its genres and
/// its people in order. Films, series and seasons open as folders.
pub proof fn law_latest_card(
    r: LatestItemJson,
    server_id: Seq<char>,
    item: ItemRow,
    flags: ItemImageFlags,
    genres: Seq<(i64, String)>,
    people: Seq<PersonBrief>,
    i: int,
)
    requires
        latest_card(r, server_id, item, flags, genres, people),
    ensures
        r.base.name@ == item.title@,
        r.base.server_id@ == server_id,
        r.base.id@ == id_text(IdKind::Item, item.id as int),
        r.base.item_type@ == item.item_type@,
        r.base.date_created@ == item.created_at@,
        item.item_type@ == "Movie"@ || item.item_type@ == "Series"@ || item.item_type@ == "Season"@
            <==> r.base.is_folder,
        r.base.user_data.played <==> item.is_complete != 0,
        r.base.user_data.is_favorite <==> item.is_favorite != 0,
        r.base.user_data.play_count == item.play_count,
        r.base.user_data.playback_position_ticks == 10_000 * item.play_ms,
        opt(r.base.image_tags.primary) == opt_id_text(IdKind::Image, flags.own_primary),
        r.production_year == year_of(opt(item.date_air)),
        item.item_type@ == "Episode"@ ==> r.base.primary_image_aspect_ratio == 1_777_778,
        item.item_type@ != "Episode"@ ==> r.base.primary_image_aspect_ratio == 666_667,
        r.base.image_tags.logo is None && r.base.image_tags.thumb is None
            && r.base.image_tags.banner is None,
        texts(r.base.backdrop_image_tags@) == id_texts(IdKind::Image, flags.own_backdrops@),
        pairs(r.base.provider_ids@) == provider_pairs(
            opt(item.tmdb_id),
            opt(item.imdb_id),
            opt(item.tvdb_id),
        ),
        r.genres@.len() == genres.len() && r.genre_items@.len() == genres.len(),
        0 <= i < genres.len() ==> r.genres@[i]@ == genres[i].1@ && r.genre_items@[i].name@
            == genres[i].1@ && r.genre_items@[i].id@ == id_text(IdKind::Genre, genres[i].0 as int),
        r.people@.len() == people.len(),
        0 <= i < people.len() ==> r.people@[i].name_id.name@ == people[i].name@
            && r.people@[i].name_id.id@ == id_text(IdKind::People, people[i].id as int)
            && r.people@[i].role@ == people[i].role@,
        r.media_type@ == "Video"@,
        !r.can_delete && !r.can_download,
{
    let names = texts(r.genres@);
    let items = name_ids(r.genre_items@);
    let list = person_items(r.people@);
    assert(names.len() == r.genres@.len() && items.len() == r.genre_items@.len() && list.len()
        == r.people@.len());
    if 0 <= i < genres.len() {
        assert(names[i] == r.genres@[i]@);
        assert(items[i].0 == r.genre_items@[i].name@);
        assert(items[i].1 == r.genre_items@[i].id@);
    }
    if 0 <= i < people.len() {
        assert(list[i] == r.people@[i]@);
        assert(credited(people)[i].name == people[i].name@);
    }
}

} // verus!
