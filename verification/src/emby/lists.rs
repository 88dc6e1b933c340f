//! Whole lists of objects, out of rows and of what was fetched for all of them
//! at once.

use std::collections::HashMap;

use vstd::prelude::*;
use vstd::string::*;

use crate::auth::DeviceInfo;
use crate::emby::cards::{
    episode_card, media_card, next_up_card, resume_card, season_card, EpisodeCardJson,
    MovieSeriesCardJson, NextUpJson, ResumeCardJson, SeasonCardJson,
};
use crate::emby::item::{item_of, item_to_json, ChildCounts, ItemDto};
use crate::emby::latest::{latest_card, LatestItemJson};
use crate::emby::rows::{ImageTypeIds, ItemRow, ItemTaxonomy, PersonBrief, ResumeEntry};
use crate::emby::shared::{flags_of_batch, ticks_fit, ItemImageFlags};
use crate::ids::{id_text, IdKind};
use crate::number::{i64_text, int_text};
use crate::progress::session_id;

verus! {

/// A list and the number of its items.
#[derive(Debug)]
pub struct ItemsResponse<T> {
    pub items: Vec<T>,
    pub total_record_count: usize,
}

/// The images that a batch of images holds for each item.
pub type ImageBatch = HashMap<i64, ImageTypeIds>;

/// Whether positions and durations of all rows can be counted in ticks.
pub open spec fn all_fit(items: Seq<ItemRow>) -> bool {
    forall|i: int|
        0 <= i < items.len() ==> ticks_fit(
            (#[trigger] items[i]).play_ms,
            items[i].file_second,
        )
}

/// Whether `r` is the card of an episode with the images of a batch.
pub open spec fn episode_in_list(
    r: EpisodeCardJson,
    server_id: Seq<char>,
    item: ItemRow,
    batch: Map<i64, ImageTypeIds>,
) -> bool {
    exists|f: ItemImageFlags| #[trigger]
        flags_of_batch(f, batch, item) && episode_card(r, server_id, item, f)
}

/// The cards of a list of episodes.
pub fn episode_cards(server_id: &str, items: &Vec<ItemRow>, batch: &ImageBatch) -> (r: ItemsResponse<
    EpisodeCardJson,
>)
    requires
        all_fit(items@),
    ensures
        r.total_record_count == items@.len(),
        r.items@.len() == items@.len(),
        forall|i: int|
            0 <= i < items@.len() ==> episode_in_list(
                #[trigger] r.items@[i],
                server_id@,
                items@[i],
                batch@,
            ),
{
    let mut out: Vec<EpisodeCardJson> = Vec::new();
    let mut i: usize = 0;
    while i < items.len()
        invariant
            i <= items.len(),
            out.len() == i,
            all_fit(items@),
            forall|k: int|
                0 <= k < i ==> episode_in_list(
                    #[trigger] out@[k],
                    server_id@,
                    items@[k],
                    batch@,
                ),
        decreases items.len() - i,
    {
        let item = &items[i];
        let flags = ItemImageFlags::from_batch(batch, item);
        let card = EpisodeCardJson::from_row(server_id, item, &flags);
        assert(episode_in_list(card, server_id@, *item, batch@));
        out.push(card);
        i = i + 1;
    }
    ItemsResponse { total_record_count: out.len(), items: out }
}

/// The value that a batch holds under a key.
pub open spec fn looked_up<V>(batch: Map<i64, V>, key: i64) -> Option<V> {
    if batch.contains_key(key) {
        Some(batch[key])
    } else {
        None
    }
}

/// Whether `r` is the card of a season with the images and the counts of batches.
pub open spec fn season_in_list(
    r: SeasonCardJson,
    server_id: Seq<char>,
    item: ItemRow,
    batch: Map<i64, ImageTypeIds>,
    counts: Map<i64, ChildCounts>,
) -> bool {
    exists|f: ItemImageFlags| #[trigger]
        flags_of_batch(f, batch, item) && season_card(
            r,
            server_id,
            item,
            f,
            looked_up(counts, item.id),
        )
}

fn look_up_counts(counts: &HashMap<i64, ChildCounts>, id: i64) -> (r: Option<ChildCounts>)
    ensures
        r == looked_up(counts@, id),
{
    broadcast use vstd::std_specs::hash::group_hash_axioms;

    match counts.get(&id) {
        Some(c) => Some(*c),
        None => None,
    }
}

/// The cards of a list of seasons.
pub fn season_cards(
    server_id: &str,
    items: &Vec<ItemRow>,
    batch: &ImageBatch,
    counts: &HashMap<i64, ChildCounts>,
) -> (r: ItemsResponse<SeasonCardJson>)
    requires
        all_fit(items@),
    ensures
        r.total_record_count == items@.len(),
        r.items@.len() == items@.len(),
        forall|i: int|
            0 <= i < items@.len() ==> season_in_list(
                #[trigger] r.items@[i],
                server_id@,
                items@[i],
                batch@,
                counts@,
            ),
{
    let mut out: Vec<SeasonCardJson> = Vec::new();
    let mut i: usize = 0;
    while i < items.len()
        invariant
            i <= items.len(),
            out.len() == i,
            all_fit(items@),
            forall|k: int|
                0 <= k < i ==> season_in_list(
                    #[trigger] out@[k],
                    server_id@,
                    items@[k],
                    batch@,
                    counts@,
                ),
        decreases items.len() - i,
    {
        let item = &items[i];
        let flags = ItemImageFlags::from_batch(batch, item);
        let card = SeasonCardJson::from_row(
            server_id,
            item,
            &flags,
            look_up_counts(counts, item.id),
        );
        assert(season_in_list(card, server_id@, *item, batch@, counts@));
        out.push(card);
        i = i + 1;
    }
    ItemsResponse { total_record_count: out.len(), items: out }
}

/// Whether `r` is the card of a film or a series with the images of a batch.
pub open spec fn media_in_list(
    r: MovieSeriesCardJson,
    server_id: Seq<char>,
    item: ItemRow,
    batch: Map<i64, ImageTypeIds>,
) -> bool {
    exists|f: ItemImageFlags| #[trigger]
        flags_of_batch(f, batch, item) && media_card(r, server_id, item, f)
}

/// The cards of a list of films and series.
pub fn media_cards(server_id: &str, items: &Vec<ItemRow>, batch: &ImageBatch) -> (r: ItemsResponse<
    MovieSeriesCardJson,
>)
    requires
        all_fit(items@),
    ensures
        r.total_record_count == items@.len(),
        r.items@.len() == items@.len(),
        forall|i: int|
            0 <= i < items@.len() ==> media_in_list(
                #[trigger] r.items@[i],
                server_id@,
                items@[i],
                batch@,
            ),
{
    let mut out: Vec<MovieSeriesCardJson> = Vec::new();
    let mut i: usize = 0;
    while i < items.len()
        invariant
            i <= items.len(),
            out.len() == i,
            all_fit(items@),
            forall|k: int|
                0 <= k < i ==> media_in_list(#[trigger] out@[k], server_id@, items@[k], batch@),
        decreases items.len() - i,
    {
        let item = &items[i];
        let flags = ItemImageFlags::from_batch(batch, item);
        let card = MovieSeriesCardJson::from_row(server_id, item, &flags);
        assert(media_in_list(card, server_id@, *item, batch@));
        out.push(card);
        i = i + 1;
    }
    ItemsResponse { total_record_count: out.len(), items: out }
}

/// The people that a batch holds for an item.
pub open spec fn people_in(taxonomy: Map<i64, ItemTaxonomy>, id: i64) -> Seq<PersonBrief> {
    if taxonomy.contains_key(id) {
        taxonomy[id].people@
    } else {
        Seq::empty()
    }
}

/// The genres that a batch holds for an item.
pub open spec fn genres_in(taxonomy: Map<i64, ItemTaxonomy>, id: i64) -> Seq<(i64, String)> {
    if taxonomy.contains_key(id) {
        taxonomy[id].genres@
    } else {
        Seq::empty()
    }
}

fn no_taxonomy() -> (r: ItemTaxonomy)
    ensures
        r.genres@ == Seq::<(i64, String)>::empty(),
        r.people@ == Seq::<PersonBrief>::empty(),
        r.studios@ == Seq::<(i64, String)>::empty(),
        r.tags@ == Seq::<String>::empty(),
{
    ItemTaxonomy {
        genres: Vec::new(),
        people: Vec::new(),
        studios: Vec::new(),
        tags: Vec::new(),
    }
}

/// Whether `r` is the card of the next episode with what batches hold for it.
pub open spec fn next_up_in_list(
    r: NextUpJson,
    server_id: Seq<char>,
    item: ItemRow,
    batch: Map<i64, ImageTypeIds>,
    taxonomy: Map<i64, ItemTaxonomy>,
) -> bool {
    exists|f: ItemImageFlags| #[trigger]
        flags_of_batch(f, batch, item) && next_up_card(
            r,
            server_id,
            item,
            f,
            people_in(taxonomy, item.id),
        )
}

/// The cards of a list of next episodes.
pub fn next_up_cards(
    server_id: &str,
    items: &Vec<ItemRow>,
    batch: &ImageBatch,
    taxonomy: &HashMap<i64, ItemTaxonomy>,
) -> (r: ItemsResponse<NextUpJson>)
    requires
        all_fit(items@),
    ensures
        r.total_record_count == items@.len(),
        r.items@.len() == items@.len(),
        forall|i: int|
            0 <= i < items@.len() ==> next_up_in_list(
                #[trigger] r.items@[i],
                server_id@,
                items@[i],
                batch@,
                taxonomy@,
            ),
{
    broadcast use vstd::std_specs::hash::group_hash_axioms;

    let none = no_taxonomy();
    let mut out: Vec<NextUpJson> = Vec::new();
    let mut i: usize = 0;
    while i < items.len()
        invariant
            i <= items.len(),
            out.len() == i,
            all_fit(items@),
            none.people@ == Seq::<PersonBrief>::empty(),
            forall|k: int|
                0 <= k < i ==> next_up_in_list(
                    #[trigger] out@[k],
                    server_id@,
                    items@[k],
                    batch@,
                    taxonomy@,
                ),
        decreases items.len() - i,
    {
        let item = &items[i];
        let flags = ItemImageFlags::from_batch(batch, item);
        let tax = match taxonomy.get(&item.id) {
            Some(t) => t,
            None => &none,
        };
        assert(tax.people@ == people_in(taxonomy@, item.id));
        let card = NextUpJson::from_row(server_id, item, &flags, tax);
        assert(next_up_in_list(card, server_id@, *item, batch@, taxonomy@));
        out.push(card);
        i = i + 1;
    }
    ItemsResponse { total_record_count: out.len(), items: out }
}

/// The cards of a list of things half watched, each with its own primary image.
pub fn resume_cards(server_id: &str, items: &Vec<ResumeEntry>, primary: &HashMap<i64, i64>) -> (r:
    ItemsResponse<ResumeCardJson>)
    requires
        forall|i: int|
            0 <= i < items@.len() ==> ticks_fit(
                (#[trigger] items@[i]).play_ms,
                items@[i].file_second,
            ),
    ensures
        r.total_record_count == items@.len(),
        r.items@.len() == items@.len(),
        forall|i: int|
            0 <= i < items@.len() ==> resume_card(
                #[trigger] r.items@[i],
                server_id@,
                items@[i],
                looked_up(primary@, items@[i].id),
            ),
{
    broadcast use vstd::std_specs::hash::group_hash_axioms;

    let mut out: Vec<ResumeCardJson> = Vec::new();
    let mut i: usize = 0;
    while i < items.len()
        invariant
            i <= items.len(),
            out.len() == i,
            forall|i: int|
                0 <= i < items@.len() ==> ticks_fit(
                    (#[trigger] items@[i]).play_ms,
                    items@[i].file_second,
                ),
            forall|k: int|
                0 <= k < i ==> resume_card(
                    #[trigger] out@[k],
                    server_id@,
                    items@[k],
                    looked_up(primary@, items@[k].id),
                ),
        decreases items.len() - i,
    {
        let item = &items[i];
        let image = match primary.get(&item.id) {
            Some(n) => Some(*n),
            None => None,
        };
        out.push(ResumeCardJson::from_row(server_id, item, image));
        i = i + 1;
    }
    ItemsResponse { total_record_count: out.len(), items: out }
}

/// Whether `r` is the card of a latest item with what batches hold for it.
pub open spec fn latest_in_list(
    r: LatestItemJson,
    server_id: Seq<char>,
    item: ItemRow,
    batch: Map<i64, ImageTypeIds>,
    taxonomy: Map<i64, ItemTaxonomy>,
) -> bool {
    exists|f: ItemImageFlags| #[trigger]
        flags_of_batch(f, batch, item) && latest_card(
            r,
            server_id,
            item,
            f,
            genres_in(taxonomy, item.id),
            people_in(taxonomy, item.id),
        )
}

/// The cards of a list of latest items.
pub fn latest_cards(
    server_id: &str,
    items: &Vec<ItemRow>,
    batch: &ImageBatch,
    taxonomy: &HashMap<i64, ItemTaxonomy>,
) -> (r: Vec<LatestItemJson>)
    requires
        all_fit(items@),
    ensures
        r@.len() == items@.len(),
        forall|i: int|
            0 <= i < items@.len() ==> latest_in_list(
                #[trigger] r@[i],
                server_id@,
                items@[i],
                batch@,
                taxonomy@,
            ),
{
    broadcast use vstd::std_specs::hash::group_hash_axioms;

    let none = no_taxonomy();
    let mut out: Vec<LatestItemJson> = Vec::new();
    let mut i: usize = 0;
    while i < items.len()
        invariant
            i <= items.len(),
            out.len() == i,
            all_fit(items@),
            none.people@ == Seq::<PersonBrief>::empty(),
            none.genres@ == Seq::<(i64, String)>::empty(),
            forall|k: int|
                0 <= k < i ==> latest_in_list(
                    #[trigger] out@[k],
                    server_id@,
                    items@[k],
                    batch@,
                    taxonomy@,
                ),
        decreases items.len() - i,
    {
        let item = &items[i];
        let flags = ItemImageFlags::from_batch(batch, item);
        let tax = match taxonomy.get(&item.id) {
            Some(t) => t,
            None => &none,
        };
        assert(tax.people@ == people_in(taxonomy@, item.id));
        assert(tax.genres@ == genres_in(taxonomy@, item.id));
        let card = LatestItemJson::from_row(server_id, item, &flags, tax);
        assert(latest_in_list(card, server_id@, *item, batch@, taxonomy@));
        out.push(card);
        i = i + 1;
    }
    out
}

/// The object of an item with what batches hold for it.
pub fn item_json(
    server_id: &str,
    batch: &ImageBatch,
    taxonomy: &HashMap<i64, ItemTaxonomy>,
    counts: &HashMap<i64, ChildCounts>,
    dims: &HashMap<i64, (Option<i64>, Option<i64>)>,
    item: &ItemRow,
) -> (r: ItemDto)
    requires
        ticks_fit(item.play_ms, item.file_second),
    ensures
        exists|f: ItemImageFlags, tax: Option<&ItemTaxonomy>|
            {
                &&& #[trigger] flags_of_batch(f, batch@, *item)
                &&& (tax is Some <==> taxonomy@.contains_key(item.id))
                &&& (tax is Some ==> *tax->0 == taxonomy@[item.id])
                &&& #[trigger] item_of(
                    r,
                    server_id@,
                    *item,
                    f,
                    tax,
                    looked_up(counts@, item.id),
                    looked_up(dims@, item.id),
                )
            },
{
    broadcast use vstd::std_specs::hash::group_hash_axioms;

    let flags = ItemImageFlags::from_batch(batch, item);
    let tax = taxonomy.get(&item.id);
    let size = match dims.get(&item.id) {
        Some(d) => Some(*d),
        None => None,
    };
    let r = item_to_json(
        server_id,
        item,
        &flags,
        tax,
        look_up_counts(counts, item.id),
        size,
    );
    assert(flags_of_batch(flags, batch@, *item));
    r
}

/// An item that is being played.
#[derive(Debug)]
pub struct SessionListEntryDto {
    pub now_playing_item: ItemDto,
    pub id: String,
    pub user_id: String,
    pub user_name: String,
    pub device: DeviceInfo,
    pub position_ticks: i64,
}

/// Whether `r` is the entry of an item that a user plays.
pub open spec fn session_entry(
    r: SessionListEntryDto,
    server_id: Seq<char>,
    item: ItemRow,
    batch: Map<i64, ImageTypeIds>,
    user_id: int,
    user_name: Seq<char>,
    device: DeviceInfo,
) -> bool {
    &&& exists|f: ItemImageFlags| #[trigger]
        flags_of_batch(f, batch, item) && item_of(
            r.now_playing_item,
            server_id,
            item,
            f,
            None,
            None,
            None,
        )
    &&& r.id@ == "session-"@ + int_text(item.id as int)
    &&& r.user_id@ == int_text(user_id)
    &&& r.user_name@ == user_name
    &&& r.device.client@ == device.client@
    &&& r.device.device@ == device.device@
    &&& r.device.device_id@ == device.device_id@
    &&& r.device.version@ == device.version@
    &&& r.position_ticks == item.play_ms * 10_000
}

/// The entries of the items that a user plays.
pub fn session_entries(
    server_id: &str,
    items: &Vec<ItemRow>,
    batch: &ImageBatch,
    user_id: i64,
    user_name: &str,
    device: &DeviceInfo,
) -> (r: Vec<SessionListEntryDto>)
    requires
        all_fit(items@),
    ensures
        r@.len() == items@.len(),
        forall|i: int|
            0 <= i < items@.len() ==> session_entry(
                #[trigger] r@[i],
                server_id@,
                items@[i],
                batch@,
                user_id as int,
                user_name@,
                *device,
            ),
{
    let mut out: Vec<SessionListEntryDto> = Vec::new();
    let mut i: usize = 0;
    while i < items.len()
        invariant
            i <= items.len(),
            out.len() == i,
            all_fit(items@),
            forall|k: int|
                0 <= k < i ==> session_entry(
                    #[trigger] out@[k],
                    server_id@,
                    items@[k],
                    batch@,
                    user_id as int,
                    user_name@,
                    *device,
                ),
        decreases items.len() - i,
    {
        let item = &items[i];
        assert(ticks_fit(items@[i as int].play_ms, items@[i as int].file_second));
        let flags = ItemImageFlags::from_batch(batch, item);
        let entry = SessionListEntryDto {
            now_playing_item: item_to_json(server_id, item, &flags, None, None, None),
            id: session_id(item.id),
            user_id: i64_text(user_id),
            user_name: user_name.to_owned(),
            device: DeviceInfo {
                client: device.client.clone(),
                device: device.device.clone(),
                device_id: device.device_id.clone(),
                version: device.version.clone(),
            },
            position_ticks: item.play_ms * 10_000,
        };
        assert(flags_of_batch(flags, batch@, *item));
        assert(session_entry(entry, server_id@, *item, batch@, user_id as int, user_name@, *device));
        out.push(entry);
        i = i + 1;
    }
    out
}

// ---------------------------------------------------------------------------
// What lists hold

/// What a list shows of an item is looked up under the row of that item, and
/// nothing is shown that is not listed there.
pub proof fn law_lists_look_up_by_row(
    batch: Map<i64, ChildCounts>,
    taxonomy: Map<i64, ItemTaxonomy>,
    id: i64,
)
    ensures
        batch.contains_key(id) ==> looked_up(batch, id) == Some(batch[id]),
        !batch.contains_key(id) ==> looked_up(batch, id) is None,
        taxonomy.contains_key(id) ==> people_in(taxonomy, id) == taxonomy[id].people@ && genres_in(
            taxonomy,
            id,
        ) == taxonomy[id].genres@,
        !taxonomy.contains_key(id) ==> people_in(taxonomy, id).len() == 0 && genres_in(
            taxonomy,
            id,
        ).len() == 0,
{
}

/// A card in a list is that of its row: of an episode with its number and that
/// of its season, of a season with its number, each under its own identifier.
pub proof fn law_listed_cards(
    e: EpisodeCardJson,
    s: SeasonCardJson,
    m: MovieSeriesCardJson,
    n: NextUpJson,
    l: LatestItemJson,
    server_id: Seq<char>,
    item: ItemRow,
    batch: Map<i64, ImageTypeIds>,
    counts: Map<i64, ChildCounts>,
    taxonomy: Map<i64, ItemTaxonomy>,
)
    ensures
        episode_in_list(e, server_id, item, batch) ==> e.base.id@ == id_text(
            IdKind::Item,
            item.id as int,
        ) && e.index_number == item.episode_number && e.parent_index_number == item.season_number,
        season_in_list(s, server_id, item, batch, counts) ==> s.base.id@ == id_text(
            IdKind::Item,
            item.id as int,
        ) && s.index_number == item.season_number && (counts.contains_key(item.id)
            ==> s.child_count == Some(counts[item.id].0)
            && s.base.user_data.unplayed_item_count == Some(counts[item.id].1)) && (
        !counts.contains_key(item.id) ==> s.child_count is None),
        media_in_list(m, server_id, item, batch) ==> m.base.id@ == id_text(
            IdKind::Item,
            item.id as int,
        ) && m.base.name@ == item.title@,
        next_up_in_list(n, server_id, item, batch, taxonomy) ==> n.base.id@ == id_text(
            IdKind::Item,
            item.id as int,
        ) && n.index_number == item.episode_number && n.parent_index_number == item.season_number,
        latest_in_list(l, server_id, item, batch, taxonomy) ==> l.base.id@ == id_text(
            IdKind::Item,
            item.id as int,
        ) && l.base.name@ == item.title@,
{
}

/// A session shows what is played, who plays it on which device, and where
/// playback stands, in ticks.
pub proof fn law_session_entries(
    r: SessionListEntryDto,
    server_id: Seq<char>,
    item: ItemRow,
    batch: Map<i64, ImageTypeIds>,
    user_id: int,
    user_name: Seq<char>,
    device: DeviceInfo,
)
    requires
        session_entry(r, server_id, item, batch, user_id, user_name, device),
    ensures
        r.now_playing_item.base.id@ == id_text(IdKind::Item, item.id as int),
        r.now_playing_item.base.name@ == item.title@,
        r.id@ == "session-"@ + int_text(item.id as int),
        r.user_id@ == int_text(user_id),
        r.user_name@ == user_name,
        r.device.client@ == device.client@ && r.device.device@ == device.device@
            && r.device.device_id@ == device.device_id@ && r.device.version@ == device.version@,
        r.position_ticks == 10_000 * item.play_ms,
{
}

} // verus!
