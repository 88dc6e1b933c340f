//! The parts that the item objects share: user state, image tags, provider
//! identifiers, dates and the images prefetched for a list.

use std::collections::HashMap;

use vstd::prelude::*;
use vstd::string::*;
use vstd::utf8::{decode_utf8, encode_utf8, encode_utf8_decode_utf8, is_char_boundary};

use crate::emby::rows::{ImageTypeIds, ItemRow, PersonBrief, UserItemData};
use crate::ids::{id_text, opt_id_text, person_id, IdKind};
use crate::number::{all_digits, digits_value, i64_of, is_digit, parse_i64};
use crate::text::{contains_char, copy_opt, is_space, opt, opt_str, texts, trim, trimmed};

verus! {

// ---------------------------------------------------------------------------
// Objects

/// A name and an identifier.
#[derive(Debug)]
pub struct NameIdDto {
    pub name: String,
    pub id: String,
}

/// A name, an identifier and a type.
#[derive(Debug)]
pub struct NameIdTypeDto {
    pub name_id: NameIdDto,
    pub item_type: String,
}

/// An element of `GenreItems`.
pub type GenreItemDto = NameIdDto;

/// An element of `Studios`.
pub type StudioDto = NameIdDto;

/// A person as credited on an item.
#[derive(Debug)]
pub struct PersonItemDto {
    pub name_id: NameIdDto,
    pub role: String,
    pub item_type: String,
    pub character: Option<String>,
    pub primary_image_tag: Option<String>,
}

/// A link to a page about an item.
#[derive(Debug)]
pub struct ExternalUrlDto {
    pub name: String,
    pub url: String,
}

/// The tags of the images that an item shows, by type.
#[derive(Debug)]
pub struct ImageTagsDto {
    pub primary: Option<String>,
    pub logo: Option<String>,
    pub thumb: Option<String>,
    pub banner: Option<String>,
}

impl Default for ImageTagsDto {
    fn default() -> (r: Self)
        ensures
            r.primary is None,
            r.logo is None,
            r.thumb is None,
            r.banner is None,
    {
        ImageTagsDto { primary: None, logo: None, thumb: None, banner: None }
    }
}

/// How much of a file was played. In percent it is
/// `play_ms / 1000 / file_second * 100`, and no more than a hundred.
#[derive(Debug, Clone, Copy, PartialEq, Eq, Structural)]
pub struct PlayedShare {
    pub play_ms: i64,
    pub file_second: i64,
}

/// One user's state of an item.
#[derive(Debug)]
pub struct ViewsUserData {
    pub played: bool,
    pub play_count: i64,
    pub playback_position_ticks: i64,
    pub last_played_date: Option<String>,
    pub is_favorite: bool,
    pub played_percentage: Option<PlayedShare>,
    pub unplayed_item_count: Option<i64>,
}

impl Default for ViewsUserData {
    fn default() -> (r: Self)
        ensures
            !r.played,
            r.play_count == 0,
            r.playback_position_ticks == 0,
            r.last_played_date is None,
            !r.is_favorite,
            r.played_percentage is None,
            r.unplayed_item_count is None,
    {
        ViewsUserData {
            played: false,
            play_count: 0,
            playback_position_ticks: 0,
            last_played_date: None,
            is_favorite: false,
            played_percentage: None,
            unplayed_item_count: None,
        }
    }
}

/// What every item object carries.
#[derive(Debug)]
pub struct BaseItemDto {
    pub name: String,
    pub server_id: String,
    pub id: String,
    pub item_type: String,
    pub is_folder: bool,
    pub date_created: String,
    pub user_data: ViewsUserData,
    /// The aspect ratio in millionths.
    pub primary_image_aspect_ratio: i64,
    pub image_tags: ImageTagsDto,
    pub backdrop_image_tags: Vec<String>,
    /// Provider names and the item's identifiers there.
    pub provider_ids: Vec<(String, String)>,
}

/// The aspect ratio of a wide still, in millionths.
pub const WIDE_ASPECT: i64 = 1_777_778;

/// The aspect ratio of a poster, in millionths.
pub const POSTER_ASPECT: i64 = 666_667;

// ---------------------------------------------------------------------------
// Views

/// Names and identifiers as text.
pub open spec fn name_ids(v: Seq<NameIdDto>) -> Seq<(Seq<char>, Seq<char>)> {
    v.map_values(|d: NameIdDto| (d.name@, d.id@))
}

/// Numbered names as the names and identifiers of a kind.
pub open spec fn named_rows(v: Seq<(i64, String)>, kind: IdKind) -> Seq<(Seq<char>, Seq<char>)> {
    v.map_values(|g: (i64, String)| (g.1@, id_text(kind, g.0 as int)))
}

/// The names of numbered names.
pub open spec fn row_names(v: Seq<(i64, String)>) -> Seq<Seq<char>> {
    v.map_values(|g: (i64, String)| g.1@)
}

/// Pairs of strings as text.
pub open spec fn pairs(v: Seq<(String, String)>) -> Seq<(Seq<char>, Seq<char>)> {
    v.map_values(|p: (String, String)| (p.0@, p.1@))
}

/// Links as names and addresses.
pub open spec fn links(v: Seq<ExternalUrlDto>) -> Seq<(Seq<char>, Seq<char>)> {
    v.map_values(|d: ExternalUrlDto| (d.name@, d.url@))
}

/// The text of a credited person.
pub struct PersonItemView {
    pub name: Seq<char>,
    pub id: Seq<char>,
    pub role: Seq<char>,
    pub item_type: Seq<char>,
    pub character: Option<Seq<char>>,
    pub primary_image_tag: Option<Seq<char>>,
}

impl View for PersonItemDto {
    type V = PersonItemView;

    open spec fn view(&self) -> PersonItemView {
        PersonItemView {
            name: self.name_id.name@,
            id: self.name_id.id@,
            role: self.role@,
            item_type: self.item_type@,
            character: opt(self.character),
            primary_image_tag: opt(self.primary_image_tag),
        }
    }
}

/// The object for a credited person.
pub open spec fn person_item(p: PersonBrief) -> PersonItemView {
    PersonItemView {
        name: p.name@,
        id: id_text(IdKind::People, p.id as int),
        role: p.role@,
        item_type: "Person"@,
        character: opt(p.character_name),
        primary_image_tag: opt_id_text(IdKind::Image, p.primary_image_id),
    }
}

/// The text of a list of credited persons.
pub open spec fn person_items(v: Seq<PersonItemDto>) -> Seq<PersonItemView> {
    v.map_values(|d: PersonItemDto| d@)
}

/// The objects for the people of an item.
pub open spec fn credited(v: Seq<PersonBrief>) -> Seq<PersonItemView> {
    v.map_values(|p: PersonBrief| person_item(p))
}

// ---------------------------------------------------------------------------
// Provider identifiers

/// A provider entry, where the identifier is present and not empty.
pub open spec fn provider_entry(name: Seq<char>, id: Option<Seq<char>>) -> Seq<
    (Seq<char>, Seq<char>),
> {
    match id {
        Some(v) => if v.len() > 0 {
            seq![(name, v)]
        } else {
            Seq::empty()
        },
        None => Seq::empty(),
    }
}

/// The provider entries of an item.
pub open spec fn provider_pairs(
    tmdb: Option<Seq<char>>,
    imdb: Option<Seq<char>>,
    tvdb: Option<Seq<char>>,
) -> Seq<(Seq<char>, Seq<char>)> {
    provider_entry("Tmdb"@, tmdb) + provider_entry("Imdb"@, imdb) + provider_entry("Tvdb"@, tvdb)
}

/// A provider is listed with an identifier exactly where the item has it there
/// and it is not empty: TheMovieDb first, then IMDb, then TheTVDB.
pub proof fn law_providers_are_listed(
    tmdb: Option<Seq<char>>,
    imdb: Option<Seq<char>>,
    tvdb: Option<Seq<char>>,
    id: Seq<char>,
)
    requires
        id.len() > 0,
    ensures
        provider_pairs(tmdb, imdb, tvdb).contains(("Tmdb"@, id)) <==> tmdb == Some(id),
        provider_pairs(tmdb, imdb, tvdb).contains(("Imdb"@, id)) <==> imdb == Some(id),
        provider_pairs(tmdb, imdb, tvdb).contains(("Tvdb"@, id)) <==> tvdb == Some(id),
        tmdb is None && imdb is None && tvdb is None ==> provider_pairs(tmdb, imdb, tvdb).len() == 0,
        provider_pairs(Some(id), Some(id), Some(id)) == seq![
            ("Tmdb"@, id),
            ("Imdb"@, id),
            ("Tvdb"@, id),
        ],
        provider_pairs(Some(Seq::empty()), None, None).len() == 0,
{
    reveal_strlit("Tmdb");
    reveal_strlit("Imdb");
    reveal_strlit("Tvdb");
    assert("Tmdb"@[0] == 'T' && "Imdb"@[0] == 'I' && "Tmdb"@[1] == 'm' && "Tvdb"@[1] == 'v'
        && "Tvdb"@[0] == 'T');
    let a = provider_entry("Tmdb"@, tmdb);
    let b = provider_entry("Imdb"@, imdb);
    let c = provider_entry("Tvdb"@, tvdb);
    let all = provider_pairs(tmdb, imdb, tvdb);
    if tmdb == Some(id) {
        assert(all[0] == ("Tmdb"@, id));
    }
    if imdb == Some(id) {
        assert(all[a.len() as int] == ("Imdb"@, id));
    }
    if tvdb == Some(id) {
        assert(all[(a.len() + b.len()) as int] == ("Tvdb"@, id));
    }
    assert(provider_pairs(Some(id), Some(id), Some(id)) =~= seq![
        ("Tmdb"@, id),
        ("Imdb"@, id),
        ("Tvdb"@, id),
    ]);
}

fn push_provider(out: &mut Vec<(String, String)>, name: &str, id: Option<&str>)
    ensures
        pairs(final(out)@) == pairs(old(out)@) + provider_entry(name@, opt_str(id)),
{
    if let Some(v) = id {
        if !v.is_empty() {
            out.push((name.to_owned(), v.to_owned()));
        }
    }
    assert(pairs(out@) =~= pairs(old(out)@) + provider_entry(name@, opt_str(id)));
}

/// The provider entries for up to three identifiers; an empty one counts as absent.
pub fn provider_ids_map(tmdb: Option<&str>, imdb: Option<&str>, tvdb: Option<&str>) -> (r: Vec<
    (String, String),
>)
    ensures
        pairs(r@) == provider_pairs(opt_str(tmdb), opt_str(imdb), opt_str(tvdb)),
{
    let mut out: Vec<(String, String)> = Vec::new();
    assert(pairs(out@) =~= Seq::empty());
    push_provider(&mut out, "Tmdb", tmdb);
    push_provider(&mut out, "Imdb", imdb);
    push_provider(&mut out, "Tvdb", tvdb);
    assert(pairs(out@) =~= provider_pairs(opt_str(tmdb), opt_str(imdb), opt_str(tvdb)));
    out
}

/// The provider entries of an item row.
pub fn provider_ids(item: &ItemRow) -> (r: Vec<(String, String)>)
    ensures
        pairs(r@) == provider_pairs(opt(item.tmdb_id), opt(item.imdb_id), opt(item.tvdb_id)),
{
    provider_ids_map(
        crate::text::borrowed(&item.tmdb_id),
        crate::text::borrowed(&item.imdb_id),
        crate::text::borrowed(&item.tvdb_id),
    )
}

// ---------------------------------------------------------------------------
// Dates

/// A date as Emby writes it: a bare date gains a time of day, a full
/// timestamp is only trimmed, and a blank value stays as it is.
pub open spec fn emby_date_text(d: Seq<char>) -> Seq<char> {
    if trim(d).len() == 0 {
        d
    } else if trim(d).contains('T') {
        trim(d)
    } else {
        trim(d) + "T00:00:00.0000000Z"@
    }
}

/// A date as Emby writes it.
pub fn emby_date(d: &str) -> (r: String)
    ensures
        r@ == emby_date_text(d@),
{
    let t = trimmed(d);
    if t.as_str().is_empty() {
        d.to_owned()
    } else if contains_char(t.as_str(), 'T') {
        t
    } else {
        t.concat("T00:00:00.0000000Z")
    }
}

/// A date as Emby writes it stays as it is.
pub proof fn law_emby_date_is_stable(d: Seq<char>)
    ensures
        emby_date_text(emby_date_text(d)) == emby_date_text(d),
{
    let p = |c: char| crate::text::is_space(c);
    crate::text::lemma_trim_twice(d, p);
    let t = trim(d);
    if t.len() > 0 && !t.contains('T') {
        reveal_strlit("T00:00:00.0000000Z");
        let tail = "T00:00:00.0000000Z"@;
        let r = t + tail;
        assert(tail.len() == 18 && tail[0] == 'T' && tail[17] == 'Z');
        assert(r[0] == t[0]);
        assert(r.last() == 'Z');
        crate::text::lemma_trim_bounds(r, p, 0, r.len() as int);
        assert(r.subrange(0, r.len() as int) =~= r);
        assert(r[t.len() as int] == 'T');
        assert(r.contains('T'));
    }
}

/// An optional date as Emby writes it.
pub open spec fn opt_emby_date(d: Option<Seq<char>>) -> Option<Seq<char>> {
    match d {
        Some(d) => Some(emby_date_text(d)),
        None => None,
    }
}

/// An optional date as Emby writes it.
pub fn emby_date_of(d: &Option<String>) -> (r: Option<String>)
    ensures
        opt(r) == opt_emby_date(opt(*d)),
{
    match d {
        Some(d) => Some(emby_date(d.as_str())),
        None => None,
    }
}

/// The first four bytes of `s`, where they end between two characters.
pub open spec fn year_head(s: Seq<char>) -> Option<Seq<char>> {
    if is_char_boundary(encode_utf8(s), 4) {
        Some(decode_utf8(encode_utf8(s).subrange(0, 4)))
    } else {
        None
    }
}

/// The first four bytes of `s`, where they end between two characters.
pub fn year_part(s: &str) -> (r: Option<String>)
    ensures
        opt(r) == year_head(s@),
{
    if s.is_char_boundary(4) {
        let (head, _rest) = s.split_at(4);
        proof {
            encode_utf8_decode_utf8(head@);
            assert(head.spec_bytes() =~= s.spec_bytes().subrange(0, 4));
        }
        Some(head.to_owned())
    } else {
        None
    }
}

/// The year that a date starts with: no year where the date is too short,
/// and no year where its head is not a number.
pub open spec fn year_of(date: Option<Seq<char>>) -> Option<i64> {
    match date {
        Some(d) => match year_head(d) {
            Some(y) => i64_of(y),
            None => None,
        },
        None => None,
    }
}

/// The year that a date starts with, as `year_of` has it.
pub fn date_year(date: &Option<String>) -> (r: Option<i64>)
    ensures
        r == year_of(opt(*date)),
{
    match date {
        Some(d) => match year_part(d.as_str()) {
            Some(y) => parse_i64(y.as_str()),
            None => None,
        },
        None => None,
    }
}

/// The year that a date starts with, where a head that is no number counts as zero.
pub open spec fn year_or_zero_of(date: Option<Seq<char>>) -> Option<i64> {
    match date {
        Some(d) => match year_head(d) {
            Some(y) => match i64_of(y) {
                Some(n) => Some(n),
                None => Some(0),
            },
            None => None,
        },
        None => None,
    }
}

/// The year that a date starts with, as `year_or_zero_of` has it.
pub fn date_year_or_zero(date: &Option<String>) -> (r: Option<i64>)
    ensures
        r == year_or_zero_of(opt(*date)),
{
    match date {
        Some(d) => match year_part(d.as_str()) {
            Some(y) => match parse_i64(y.as_str()) {
                Some(n) => Some(n),
                None => Some(0),
            },
            None => None,
        },
        None => None,
    }
}

// ---------------------------------------------------------------------------
// User state

/// Whether positions and durations still fit when they are counted in
/// hundreds of nanoseconds.
pub open spec fn ticks_fit(play_ms: i64, file_second: Option<i64>) -> bool {
    &&& i64::MIN <= play_ms * 10_000 <= i64::MAX
    &&& match file_second {
        Some(s) => i64::MIN <= s * 10_000_000 <= i64::MAX,
        None => true,
    }
}

/// A duration in seconds as ticks of a hundred nanoseconds.
pub open spec fn run_ticks(file_second: Option<i64>) -> Option<i64> {
    match file_second {
        Some(s) => Some((s * 10_000_000) as i64),
        None => None,
    }
}

/// A duration in seconds as ticks of a hundred nanoseconds.
pub fn run_time_ticks(file_second: Option<i64>) -> (r: Option<i64>)
    requires
        ticks_fit(0, file_second),
    ensures
        r == run_ticks(file_second),
{
    match file_second {
        Some(s) => Some(s * 10_000_000),
        None => None,
    }
}

/// How much of a file was played; nothing where the file has no duration or
/// nothing of it was played.
pub open spec fn played_share(play_ms: i64, file_second: Option<i64>) -> Option<PlayedShare> {
    match file_second {
        Some(s) => if s > 0 && play_ms > 0 {
            Some(PlayedShare { play_ms, file_second: s })
        } else {
            None
        },
        None => None,
    }
}

/// How much of a file was played, as `played_share` has it.
pub fn played_share_of(play_ms: i64, file_second: Option<i64>) -> (r: Option<PlayedShare>)
    ensures
        r == played_share(play_ms, file_second),
{
    match file_second {
        Some(s) => if s > 0 && play_ms > 0 {
            Some(PlayedShare { play_ms, file_second: s })
        } else {
            None
        },
        None => None,
    }
}

/// The user state that an item row holds.
pub open spec fn row_user_data(u: ViewsUserData, item: ItemRow) -> bool {
    &&& u.played == (item.is_complete != 0)
    &&& u.playback_position_ticks == item.play_ms * 10_000
    &&& u.play_count == item.play_count
    &&& u.is_favorite == (item.is_favorite != 0)
    &&& u.last_played_date is None
}

/// The user state of an item row, without percentage and counts.
pub fn item_user_data(item: &ItemRow) -> (r: ViewsUserData)
    requires
        ticks_fit(item.play_ms, None),
    ensures
        row_user_data(r, *item),
        r.played_percentage is None,
        r.unplayed_item_count is None,
{
    ViewsUserData {
        played: item.is_complete != 0,
        playback_position_ticks: item.play_ms * 10_000,
        play_count: item.play_count,
        is_favorite: item.is_favorite != 0,
        last_played_date: None,
        played_percentage: None,
        unplayed_item_count: None,
    }
}

/// The user state of an item row with the share played and a count of what
/// is left to play.
pub fn user_data(item: &ItemRow, unplayed: Option<i64>) -> (r: ViewsUserData)
    requires
        ticks_fit(item.play_ms, None),
    ensures
        row_user_data(r, *item),
        r.played_percentage == played_share(item.play_ms, item.file_second),
        r.unplayed_item_count == unplayed,
{
    let mut ud = item_user_data(item);
    ud.played_percentage = played_share_of(item.play_ms, item.file_second);
    ud.unplayed_item_count = unplayed;
    ud
}

/// A stored user state as the protocol shows it.
pub fn to_views_user_data(d: &UserItemData) -> (r: ViewsUserData)
    ensures
        r.played == (d.played != 0),
        r.play_count == d.play_count,
        r.playback_position_ticks == (match d.playback_position_ticks {
            Some(t) => t,
            None => 0,
        }),
        opt(r.last_played_date) == opt(d.last_played_date),
        r.is_favorite == (d.is_favorite != 0),
        r.played_percentage is None,
        r.unplayed_item_count is None,
{
    ViewsUserData {
        played: d.played != 0,
        play_count: d.play_count,
        playback_position_ticks: match d.playback_position_ticks {
            Some(t) => t,
            None => 0,
        },
        last_played_date: copy_opt(&d.last_played_date),
        is_favorite: d.is_favorite != 0,
        played_percentage: None,
        unplayed_item_count: None,
    }
}

/// Whether `r` is what the protocol shows of a stored user state; that of an item
/// without one is the default.
pub open spec fn shown_user_data(r: ViewsUserData, d: Option<UserItemData>) -> bool {
    &&& r.played == (d is Some && d->0.played != 0)
    &&& r.play_count == if d is Some {
        d->0.play_count
    } else {
        0
    }
    &&& r.playback_position_ticks == if d is Some && d->0.playback_position_ticks is Some {
        d->0.playback_position_ticks->0
    } else {
        0
    }
    &&& opt(r.last_played_date) == if d is Some {
        opt(d->0.last_played_date)
    } else {
        None
    }
    &&& r.is_favorite == (d is Some && d->0.is_favorite != 0)
    &&& r.played_percentage is None
    &&& r.unplayed_item_count is None
}

/// What the protocol shows of a stored user state.
pub fn user_data_response(d: &Option<UserItemData>) -> (r: ViewsUserData)
    ensures
        shown_user_data(r, *d),
{
    match d {
        Some(d) => to_views_user_data(d),
        None => ViewsUserData::default(),
    }
}

// ---------------------------------------------------------------------------
// Images

/// The image rows of an item and of the series it belongs to.
#[derive(Debug, Clone, Default)]
pub struct ItemImageFlags {
    pub own_primary: Option<i64>,
    pub own_backdrops: Vec<i64>,
    pub own_logo: Option<i64>,
    pub own_thumb: Option<i64>,
    pub own_banner: Option<i64>,
    pub series_primary: Option<i64>,
    pub series_backdrops: Vec<i64>,
    pub series_logo: Option<i64>,
    pub series_thumb: Option<i64>,
}

/// The image rows of an entry of a batch, each type apart.
pub struct ImageIdsView {
    pub primary: Option<i64>,
    pub backdrops: Seq<i64>,
    pub logo: Option<i64>,
    pub thumb: Option<i64>,
    pub banner: Option<i64>,
}

impl View for ImageTypeIds {
    type V = ImageIdsView;

    open spec fn view(&self) -> ImageIdsView {
        ImageIdsView {
            primary: self.primary,
            backdrops: self.backdrops@,
            logo: self.logo,
            thumb: self.thumb,
            banner: self.banner,
        }
    }
}

/// The images of one item of a batch; none where the batch does not list it.
pub open spec fn batch_images(batch: Map<i64, ImageTypeIds>, id: Option<i64>) -> ImageIdsView {
    if id is Some && batch.contains_key(id->0) {
        batch[id->0]@
    } else {
        ImageIdsView {
            primary: None,
            backdrops: Seq::empty(),
            logo: None,
            thumb: None,
            banner: None,
        }
    }
}

/// Whether `flags` are the image rows that a batch holds for an item and its series.
pub open spec fn flags_of_batch(
    flags: ItemImageFlags,
    batch: Map<i64, ImageTypeIds>,
    item: ItemRow,
) -> bool {
    let own = batch_images(batch, Some(item.id));
    let series = batch_images(batch, item.series_id);
    &&& flags.own_primary == own.primary
    &&& flags.own_backdrops@ == own.backdrops
    &&& flags.own_logo == own.logo
    &&& flags.own_thumb == own.thumb
    &&& flags.own_banner == own.banner
    &&& flags.series_primary == series.primary
    &&& flags.series_backdrops@ == series.backdrops
    &&& flags.series_logo == series.logo
    &&& flags.series_thumb == series.thumb
}

fn copy_ids(v: &Vec<i64>) -> (r: Vec<i64>)
    ensures
        r@ == v@,
{
    let mut out: Vec<i64> = Vec::new();
    let mut i: usize = 0;
    while i < v.len()
        invariant
            i <= v.len(),
            out@ =~= v@.take(i as int),
        decreases v.len() - i,
    {
        out.push(v[i]);
        i = i + 1;
    }
    assert(v@.take(v@.len() as int) =~= v@);
    out
}

fn lookup_images(batch: &HashMap<i64, ImageTypeIds>, id: Option<i64>) -> (r: ImageTypeIds)
    ensures
        r@ == batch_images(batch@, id),
{
    broadcast use vstd::std_specs::hash::group_hash_axioms;

    let found = match id {
        Some(k) => batch.get(&k),
        None => None,
    };
    let out = match found {
        Some(x) => ImageTypeIds {
            primary: x.primary,
            backdrops: copy_ids(&x.backdrops),
            logo: x.logo,
            thumb: x.thumb,
            banner: x.banner,
        },
        None => ImageTypeIds {
            primary: None,
            backdrops: Vec::new(),
            logo: None,
            thumb: None,
            banner: None,
        },
    };
    assert(out@.backdrops =~= batch_images(batch@, id).backdrops);
    out
}

impl ItemImageFlags {
    /// The image rows of an item out of a batch that was fetched for a list.
    pub fn from_batch(flags: &HashMap<i64, ImageTypeIds>, item: &ItemRow) -> (r: Self)
        ensures
            flags_of_batch(r, flags@, *item),
    {
        let own = lookup_images(flags, Some(item.id));
        let series = lookup_images(flags, item.series_id);
        ItemImageFlags {
            own_primary: own.primary,
            own_backdrops: own.backdrops,
            own_logo: own.logo,
            own_thumb: own.thumb,
            own_banner: own.banner,
            series_primary: series.primary,
            series_backdrops: series.backdrops,
            series_logo: series.logo,
            series_thumb: series.thumb,
        }
    }
}

// ---------------------------------------------------------------------------
// Taxonomy

/// The object for a credited person.
pub fn person_item_dto(p: &PersonBrief) -> (r: PersonItemDto)
    ensures
        r@ == person_item(*p),
{
    PersonItemDto {
        name_id: NameIdDto { name: p.name.clone(), id: person_id(p.id) },
        role: p.role.clone(),
        item_type: "Person".to_owned(),
        character: copy_opt(&p.character_name),
        primary_image_tag: crate::ids::format_opt_id(IdKind::Image, p.primary_image_id),
    }
}

/// The objects for a list of credited persons.
pub fn people_dtos(v: &Vec<PersonBrief>) -> (r: Vec<PersonItemDto>)
    ensures
        person_items(r@) == credited(v@),
{
    let mut out: Vec<PersonItemDto> = Vec::new();
    let mut i: usize = 0;
    while i < v.len()
        invariant
            i <= v.len(),
            out.len() == i,
            forall|k: int| 0 <= k < i ==> (#[trigger] out@[k])@ == person_item(v@[k]),
        decreases v.len() - i,
    {
        out.push(person_item_dto(&v[i]));
        i = i + 1;
    }
    assert(person_items(out@) =~= credited(v@));
    out
}

/// The names of numbered names.
pub fn names_of(v: &Vec<(i64, String)>) -> (r: Vec<String>)
    ensures
        texts(r@) == row_names(v@),
{
    let mut out: Vec<String> = Vec::new();
    let mut i: usize = 0;
    while i < v.len()
        invariant
            i <= v.len(),
            out.len() == i,
            forall|k: int| 0 <= k < i ==> (#[trigger] out@[k])@ == v@[k].1@,
        decreases v.len() - i,
    {
        out.push(v[i].1.clone());
        i = i + 1;
    }
    assert(texts(out@) =~= row_names(v@));
    out
}

/// Numbered names as names with identifiers of a kind.
pub fn named_ids(v: &Vec<(i64, String)>, kind: IdKind) -> (r: Vec<NameIdDto>)
    ensures
        name_ids(r@) == named_rows(v@, kind),
{
    let mut out: Vec<NameIdDto> = Vec::new();
    let mut i: usize = 0;
    while i < v.len()
        invariant
            i <= v.len(),
            out.len() == i,
            forall|k: int|
                0 <= k < i ==> (#[trigger] out@[k]).name@ == v@[k].1@ && out@[k].id@ == id_text(
                    kind,
                    v@[k].0 as int,
                ),
        decreases v.len() - i,
    {
        out.push(NameIdDto { name: v[i].1.clone(), id: crate::ids::format_id(kind, v[i].0) });
        i = i + 1;
    }
    assert(name_ids(out@) =~= named_rows(v@, kind));
    out
}

// ---------------------------------------------------------------------------
// What is shown of a row

/// The images of an item come from the batch under its own row, and those of
/// its series under the row of the series; what the batch does not list has
/// none.
pub proof fn law_images_come_from_the_batch(
    flags: ItemImageFlags,
    batch: Map<i64, ImageTypeIds>,
    item: ItemRow,
    series: i64,
)
    requires
        flags_of_batch(flags, batch, item),
    ensures
        batch.contains_key(item.id) ==> flags.own_primary == batch[item.id].primary
            && flags.own_logo == batch[item.id].logo && flags.own_thumb == batch[item.id].thumb
            && flags.own_banner == batch[item.id].banner && flags.own_backdrops@
            == batch[item.id].backdrops@,
        !batch.contains_key(item.id) ==> flags.own_primary is None && flags.own_logo is None
            && flags.own_thumb is None && flags.own_banner is None && flags.own_backdrops@.len()
            == 0,
        item.series_id == Some(series) && batch.contains_key(series) ==> flags.series_primary
            == batch[series].primary && flags.series_logo == batch[series].logo
            && flags.series_thumb == batch[series].thumb && flags.series_backdrops@
            == batch[series].backdrops@,
        item.series_id is None || (item.series_id == Some(series) && !batch.contains_key(series))
            ==> flags.series_primary is None && flags.series_logo is None
            && flags.series_thumb is None && flags.series_backdrops@.len() == 0,
{
}

/// A bare date gains a time of day, and a timestamp stays; both without the
/// blanks around them.
pub proof fn law_emby_dates(date: Seq<char>)
    requires
        date.len() > 0,
        !is_space(date[0]) && !is_space(date.last()),
    ensures
        !date.contains('T') ==> emby_date_text(date) == date + "T00:00:00.0000000Z"@,
        date.contains('T') ==> emby_date_text(date) == date,
        opt_emby_date(None) is None,
        opt_emby_date(Some(date)) == Some(emby_date_text(date)),
{
    crate::text::lemma_trim_bounds(date, |c: char| is_space(c), 0, date.len() as int);
    assert(date.subrange(0, date.len() as int) =~= date);
}

/// Positions are shown in ticks, ten thousand to a millisecond, and durations,
/// ten million to a second.
pub proof fn law_ticks(play_ms: i64, seconds: i64)
    requires
        ticks_fit(play_ms, Some(seconds)),
    ensures
        run_ticks(Some(seconds)) is Some && run_ticks(Some(seconds))->0 == 10_000_000 * seconds,
        run_ticks(None) is None,
        seconds > 0 && play_ms > 0 ==> played_share(play_ms, Some(seconds)) is Some,
        seconds <= 0 || play_ms <= 0 ==> played_share(play_ms, Some(seconds)) is None,
        played_share(play_ms, None) is None,
{
}

/// A stored state of a user is shown value for value; an item without one was
/// never played.
pub proof fn law_stored_state_is_shown(r: ViewsUserData, d: UserItemData)
    ensures
        shown_user_data(r, Some(d)) ==> (r.played <==> d.played != 0) && r.play_count
            == d.play_count && (r.is_favorite <==> d.is_favorite != 0) && opt(r.last_played_date)
            == opt(d.last_played_date) && (d.playback_position_ticks is Some
            ==> r.playback_position_ticks == d.playback_position_ticks->0) && (
        d.playback_position_ticks is None ==> r.playback_position_ticks == 0),
        shown_user_data(r, None) ==> !r.played && r.play_count == 0 && !r.is_favorite
            && r.last_played_date is None && r.playback_position_ticks == 0,
{
}

/// The year of a date is the number that its first four digits make up.
pub proof fn law_year_of_date(digits: Seq<char>, rest: Seq<char>)
    requires
        digits.len() == 4,
        all_digits(digits),
        vstd::utf8::is_ascii_chars(rest),
    ensures
        year_of(Some(digits + rest)) is Some && year_of(Some(digits + rest))->0 == digits_value(
            digits,
        ),
        year_or_zero_of(Some(digits + rest)) == year_of(Some(digits + rest)),
        year_of(None) is None && year_or_zero_of(None) is None,
{
    let s = digits + rest;
    assert(is_digit(digits[0]) && is_digit(digits[1]) && is_digit(digits[2]) && is_digit(digits[3]));
    assert(vstd::utf8::is_ascii_chars(digits)) by {
        assert forall|i: int| 0 <= i < digits.len() implies '\0' <= #[trigger] digits[i]
            <= '\u{7f}' by {
            assert(is_digit(digits[i]));
        }
    }
    vstd::utf8::is_ascii_chars_concat(s, digits, rest);
    vstd::utf8::is_ascii_chars_encode_utf8(s);
    vstd::utf8::is_ascii_chars_encode_utf8(digits);
    vstd::utf8::encode_utf8_valid_utf8(s);
    let bytes = encode_utf8(s);
    assert(bytes.subrange(0, 4) =~= encode_utf8(digits)) by {
        assert forall|i: int| 0 <= i < 4 implies bytes[i] == encode_utf8(digits)[i] by {
            assert(s[i] == digits[i]);
        }
    }
    vstd::utf8::encode_utf8_decode_utf8(digits);
    if s.len() == 4 {
        vstd::utf8::is_char_boundary_start_end_of_seq(bytes);
    } else {
        assert(s[4] as u8 == bytes[4]);
        assert('\0' <= s[4] <= '\u{7f}');
        assert(bytes[4] < 128);
        vstd::utf8::is_char_boundary_iff_is_leading_byte(bytes, 4);
        assert(vstd::utf8::is_leading_byte_width_1(bytes[4]));
    }
    reveal_with_fuel(digits_value, 5);
    let a = digits.drop_last();
    let b = a.drop_last();
    let c = b.drop_last();
    assert(c.drop_last().len() == 0);
    assert(a.last() == digits[2] && b.last() == digits[1] && c.last() == digits[0]);
}

} // verus!
