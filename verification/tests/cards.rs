//! The cards of list pages.

use std::collections::HashMap;
use std::fmt::Debug;

use emrs::auth::DeviceInfo;
use emrs::emby::cards::{
    build_card_images, production_year, EpisodeCardJson, MovieSeriesCardJson, NextUpJson,
    ResumeCardJson, SeasonCardJson,
};
use emrs::emby::item::item_to_json;
use emrs::emby::latest::LatestItemJson;
use emrs::emby::lists::{
    episode_cards, latest_cards, media_cards, next_up_cards, resume_cards, season_cards,
    session_entries,
};
use emrs::emby::rows::{ImageTypeIds, ItemRow, ItemTaxonomy, PersonBrief, ResumeEntry};
use emrs::emby::shared::ItemImageFlags;
use emrs::emby::views::{views_response, CollectionFolderView, LibraryView, ViewsResponse};

/// The keys that an object shows: its fields that are not absent, with those of
/// its base in place of the base.
fn keys<T: Debug>(v: &T) -> Vec<String> {
    let text = format!("{v:#?}");
    let mut out = Vec::new();
    let mut in_base = false;
    for line in text.lines() {
        if let Some(field) = line.strip_prefix("    ") {
            let (depth, rest) = match field.strip_prefix("    ") {
                Some(inner) => (2, inner),
                None => (1, field),
            };
            if depth == 1 {
                in_base = rest == "base: BaseItemDto {";
            }
            if rest.starts_with(' ') || (depth == 2 && !in_base) || in_base && depth == 1 {
                continue;
            }
            if let Some((name, value)) = rest.split_once(": ") {
                if value != "None," {
                    out.push(pascal(name));
                }
            }
        }
    }
    out
}

fn pascal(name: &str) -> String {
    if name == "item_type" {
        return "Type".to_string();
    }
    name.split('_')
        .map(|w| w[..1].to_uppercase() + &w[1..])
        .collect()
}

const HEAVY_FORBIDDEN: &[&str] = &[
    "People",
    "Genres",
    "GenreItems",
    "Studios",
    "TagItems",
    "Tags",
    "Taglines",
    "Path",
    "FileName",
    "MediaSources",
    "Width",
    "Height",
    "LocationType",
    "DateModified",
    "PresentationUniqueKey",
    "DisplayPreferencesId",
    "LockedFields",
    "LockData",
    "CanDelete",
    "CanDownload",
    "OriginalTitle",
];

fn test_row(ty: &str) -> ItemRow {
    ItemRow {
        id: 42,
        library_id: Some(7),
        item_type: ty.into(),
        title: "标题".into(),
        description: Some("这是一段很长的简介".into()),
        date_air: Some("2019-01-01".into()),
        created_at: "2026-01-20T00:17:47.0000000Z".into(),
        updated_at: "2026-01-21T00:00:00.0000000Z".into(),
        container: Some("mkv".into()),
        file_second: Some(1200),
        uuid: Some("u-1".into()),
        name: None,
        path_type: None,
        path_url: None,
        play_ms: 60_000,
        is_complete: 0,
        play_count: 1,
        is_favorite: 0,
        season_number: Some(2),
        episode_number: Some(6),
        series_id: Some(100),
        series_name: Some("剧名".into()),
        season_id: Some(200),
        season_name: Some("第 2 季".into()),
        is_virtual: 0,
        tmdb_id: Some("86031".into()),
        imdb_id: Some("tt123".into()),
        tvdb_id: None,
        community_rating: Some(7.8f64.to_bits()),
        official_rating: Some("PG-13".into()),
        tagline: Some("标语".into()),
        sort_title: Some("排序".into()),
        end_date: Some("2024-09-21".into()),
        status: Some("Continuing".into()),
        production_year: Some(2019),
    }
}

fn test_resume_entry(ty: &str) -> ResumeEntry {
    ResumeEntry {
        id: 42,
        item_type: ty.into(),
        title: "标题".into(),
        created_at: "2026-01-20T00:17:47.0000000Z".into(),
        play_ms: 60_000,
        is_complete: 0,
        play_count: 1,
        is_favorite: 0,
        file_second: Some(1200),
        production_year: Some(2019),
        date_air: Some("2019-01-01".into()),
        season_number: Some(2),
        episode_number: Some(6),
        series_id: Some(100),
        series_name: Some("剧名".into()),
        season_id: Some(200),
        season_name: Some("第 2 季".into()),
        tmdb_id: Some("86031".into()),
        imdb_id: Some("tt123".into()),
        tvdb_id: None,
    }
}

fn test_series_fallback_flags() -> ItemImageFlags {
    ItemImageFlags {
        own_primary: None,
        own_backdrops: vec![],
        own_logo: None,
        own_thumb: None,
        own_banner: None,
        series_primary: Some(900),
        series_backdrops: vec![901],
        series_logo: Some(902),
        series_thumb: Some(903),
    }
}

fn provider<'a>(list: &'a [(String, String)], name: &str) -> Option<&'a str> {
    list.iter().find(|(k, _)| k == name).map(|(_, v)| v.as_str())
}

fn check_episode_card() {
    let out =
        EpisodeCardJson::from_row("srv", &test_row("Episode"), &test_series_fallback_flags());
    let ks = keys(&out);
    for f in HEAVY_FORBIDDEN {
        assert!(!ks.iter().any(|k| k == f), "an episode's card shows no {f}");
    }
    for f in [
        "Overview",
        "ExternalUrls",
        "Chapters",
        "SortName",
        "Status",
        "EndDate",
        "CommunityRating",
    ] {
        assert!(!ks.iter().any(|k| k == f), "an episode's card shows no {f}");
    }
    for f in [
        "Name",
        "Id",
        "Type",
        "ImageTags",
        "SeriesId",
        "SeriesName",
        "SeasonId",
        "SeasonName",
        "IndexNumber",
        "ParentIndexNumber",
        "SeriesPrimaryImageTag",
        "ParentBackdropItemId",
        "ParentLogoItemId",
        "ParentThumbItemId",
        "RunTimeTicks",
        "MediaType",
        "ProviderIds",
    ] {
        assert!(ks.iter().any(|k| k == f), "an episode's card shows {f}");
    }
    assert_eq!(out.base.item_type, "Episode");
    assert_eq!(out.base.image_tags.primary.as_deref(), Some("img-900"));
    assert_eq!(provider(&out.base.provider_ids, "Tmdb"), Some("86031"));
    assert_eq!(out.run_time_ticks, Some(12_000_000_000i64));
    assert!(!ks.iter().any(|k| k == "PrimaryImageTag"));
}

#[test]
fn list_dto_episode_card_omits_heavy_and_carries_core() {
    check_episode_card();
}

#[test]
fn cards_episode_card_omits_heavy_and_carries_core() {
    check_episode_card();
}

fn check_season_card() {
    let flags = ItemImageFlags {
        own_primary: Some(500),
        own_backdrops: vec![],
        series_backdrops: vec![901],
        ..Default::default()
    };
    let out = SeasonCardJson::from_row("srv", &test_row("Season"), &flags, Some((30, 25, None)));
    let ks = keys(&out);
    for f in HEAVY_FORBIDDEN {
        assert!(!ks.iter().any(|k| k == f), "a season's card shows no {f}");
    }
    for f in ["Overview", "Chapters", "RunTimeTicks", "CommunityRating", "EndDate", "Status"] {
        assert!(!ks.iter().any(|k| k == f), "a season's card shows no {f}");
    }
    for f in [
        "IndexNumber",
        "ChildCount",
        "RecursiveItemCount",
        "SeriesId",
        "SeriesName",
        "ParentId",
        "SortName",
        "ExternalUrls",
        "ImageTags",
    ] {
        assert!(ks.iter().any(|k| k == f), "a season's card shows {f}");
    }
    assert_eq!(out.base.item_type, "Season");
    assert!(out.base.is_folder);
    assert_eq!(out.child_count, Some(30));
    assert_eq!(out.recursive_item_count, Some(30));
    assert_eq!(out.parent_id.as_deref(), Some("i-100"));
    assert_eq!(out.base.user_data.unplayed_item_count, Some(25));
    assert!(out.external_urls.is_empty());
}

#[test]
fn list_dto_season_card_omits_heavy_and_carries_counts() {
    check_season_card();
}

#[test]
fn cards_season_card_omits_heavy_and_carries_counts() {
    check_season_card();
}

fn check_movie_series_card() {
    let flags = ItemImageFlags { own_primary: Some(500), ..Default::default() };
    let out = MovieSeriesCardJson::from_row("srv", &test_row("Movie"), &flags);
    let ks = keys(&out);
    for f in HEAVY_FORBIDDEN {
        assert!(!ks.iter().any(|k| k == f), "a film's card shows no {f}");
    }
    for f in ["Overview", "ExternalUrls", "Taglines", "IndexNumber", "People"] {
        assert!(!ks.iter().any(|k| k == f), "a film's card shows no {f}");
    }
    for f in [
        "Name",
        "Id",
        "Type",
        "ImageTags",
        "ProductionYear",
        "CommunityRating",
        "Status",
        "MediaType",
        "ParentId",
    ] {
        assert!(ks.iter().any(|k| k == f), "a film's card shows {f}");
    }
    assert_eq!(out.base.item_type, "Movie");
    assert!(!out.base.is_folder);
    assert_eq!(out.parent_id.as_deref(), Some("l-7"));
}

#[test]
fn list_dto_movie_series_card_omits_heavy() {
    check_movie_series_card();
}

#[test]
fn cards_movie_series_card_omits_heavy() {
    check_movie_series_card();
}

fn check_next_up() {
    let tax = ItemTaxonomy {
        genres: vec![(28, "动作".into())],
        people: vec![PersonBrief {
            id: 100,
            name: "演员".into(),
            role: "Actor".into(),
            character_name: Some("角色".into()),
            primary_image_id: Some(101),
        }],
        studios: vec![(5, "工作室".into())],
        tags: vec!["标签".into()],
    };
    let out =
        NextUpJson::from_row("srv", &test_row("Episode"), &test_series_fallback_flags(), &tax);
    let ks = keys(&out);
    assert!(ks.iter().any(|k| k == "People"));
    for f in [
        "Genres",
        "GenreItems",
        "Studios",
        "TagItems",
        "Tags",
        "MediaSources",
        "Width",
        "Height",
    ] {
        assert!(!ks.iter().any(|k| k == f), "what comes next shows no {f}");
    }
    for f in [
        "Overview",
        "PremiereDate",
        "ParentId",
        "Chapters",
        "SeriesPrimaryImageTag",
        "MediaType",
    ] {
        assert!(ks.iter().any(|k| k == f), "what comes next shows {f}");
    }
    assert_eq!(out.people[0].name_id.name, "演员");
    assert_eq!(out.people[0].primary_image_tag.as_deref(), Some("img-101"));
    assert!(out.chapters.is_empty());
    assert_eq!(out.parent_id.as_deref(), Some("i-200"));
}

#[test]
fn list_dto_next_up_keeps_people_but_no_other_taxonomy() {
    check_next_up();
}

#[test]
fn next_up_next_up_keeps_people_but_no_other_taxonomy() {
    check_next_up();
}

fn check_resume_own_primary() {
    let out = ResumeCardJson::from_row("srv", &test_resume_entry("Episode"), Some(500));
    assert_eq!(out.base.image_tags.primary.as_deref(), Some("img-500"));
    assert_eq!(provider(&out.base.provider_ids, "Tmdb"), Some("86031"));
    assert_eq!(out.run_time_ticks, Some(12_000_000_000i64));
    assert!(out.base.backdrop_image_tags.is_empty());
    assert!(out.base.image_tags.logo.is_none());
    assert!(out.base.image_tags.thumb.is_none());
    let ks = keys(&out);
    for f in [
        "SeriesPrimaryImageTag",
        "ParentBackdropItemId",
        "ParentBackdropImageTags",
        "ParentLogoItemId",
        "ParentLogoImageTag",
        "ParentThumbItemId",
        "ParentThumbImageTag",
    ] {
        assert!(!ks.iter().any(|k| k == f), "a half-watched card shows no {f}");
    }
}

#[test]
fn list_dto_resume_card_images_are_own_primary_only() {
    check_resume_own_primary();
}

#[test]
fn resume_resume_card_images_are_own_primary_only() {
    check_resume_own_primary();
}

fn check_resume_no_primary() {
    let out = ResumeCardJson::from_row("srv", &test_resume_entry("Episode"), None);
    assert!(out.base.image_tags.primary.is_none());
    assert!(out.base.backdrop_image_tags.is_empty());
}

#[test]
fn list_dto_resume_card_no_own_primary_image_tags_empty() {
    check_resume_no_primary();
}

#[test]
fn resume_resume_card_no_own_primary_image_tags_empty() {
    check_resume_no_primary();
}

fn latest_row() -> ItemRow {
    ItemRow {
        id: 1,
        library_id: None,
        item_type: "Series".into(),
        title: "石纪元".into(),
        description: None,
        date_air: Some("2019-01-01".into()),
        created_at: "2026-01-20T00:17:47.0000000Z".into(),
        updated_at: String::new(),
        container: None,
        file_second: None,
        uuid: None,
        name: None,
        path_type: None,
        path_url: None,
        play_ms: 0,
        is_complete: 0,
        play_count: 0,
        is_favorite: 0,
        season_number: None,
        episode_number: None,
        series_id: None,
        series_name: None,
        season_id: None,
        season_name: None,
        is_virtual: 0,
        tmdb_id: Some("86031".into()),
        imdb_id: None,
        tvdb_id: None,
        community_rating: Some(7.8f64.to_bits()),
        official_rating: None,
        tagline: None,
        sort_title: None,
        end_date: None,
        status: None,
        production_year: None,
    }
}

fn latest_tax() -> ItemTaxonomy {
    ItemTaxonomy {
        genres: vec![(28, "动作".into()), (18, "剧情".into())],
        people: vec![PersonBrief {
            id: 100,
            name: "石纪元 主演".into(),
            role: "Actor".into(),
            character_name: Some("石神千空".into()),
            primary_image_id: Some(101),
        }],
        studios: vec![],
        tags: vec![],
    }
}

#[test]
fn latest_json_matches_emos_reference_keys() {
    let flags =
        ItemImageFlags { own_primary: Some(1), own_backdrops: vec![], ..Default::default() };
    let v = LatestItemJson::from_row("emya", &latest_row(), &flags, &latest_tax());
    let mut expected: Vec<&str> = vec![
        "Name",
        "ServerId",
        "Id",
        "DateCreated",
        "ProductionYear",
        "ProviderIds",
        "Genres",
        "People",
        "GenreItems",
        "IsFolder",
        "Type",
        "MediaType",
        "UserData",
        "PrimaryImageAspectRatio",
        "ImageTags",
        "BackdropImageTags",
        "CanDelete",
        "CanDownload",
    ];
    expected.sort_unstable();
    let mut actual = keys(&v);
    actual.sort_unstable();
    assert_eq!(actual, expected);
    assert_eq!(v.base.item_type, "Series");
    assert_eq!(v.media_type, "Video");
    assert!(v.base.is_folder);
    assert_eq!(v.production_year, Some(2019));
    assert!(!v.can_delete);
    assert!(!v.can_download);
    assert_eq!(provider(&v.base.provider_ids, "Tmdb"), Some("86031"));
    assert_eq!(v.base.image_tags.primary.as_deref(), Some("img-1"));
    assert!(v.base.backdrop_image_tags.is_empty());
    assert_eq!(v.genres, vec!["动作".to_string(), "剧情".to_string()]);
    assert_eq!(v.genre_items[0].name, "动作");
    assert_eq!(v.people[0].name_id.name, "石纪元 主演");
    assert_eq!(v.people[0].name_id.id, "p-100");
    assert_eq!(v.people[0].role, "Actor");
    assert_eq!(v.people[0].character.as_deref(), Some("石神千空"));
    assert_eq!(v.people[0].primary_image_tag.as_deref(), Some("img-101"));
}

#[test]
fn latest_no_image_omits_image_tags() {
    let v =
        LatestItemJson::from_row("emya", &latest_row(), &ItemImageFlags::default(), &latest_tax());
    assert!(v.base.image_tags.primary.is_none());
    assert!(v.base.backdrop_image_tags.is_empty());
}

#[test]
fn collection_folder_json_matches_reference_shape() {
    let mut v = CollectionFolderView::default();
    v.base.name = "电影".into();
    v.base.server_id = "emya".into();
    v.base.id = "42".into();
    v.base.date_created = "2026-08-21T00:00:00.0000000Z".into();
    v.guid = "42".into();
    v.etag = "42".into();
    v.date_modified = "2026-08-21T00:00:00.0000000Z".into();
    v.presentation_unique_key = "42".into();
    v.sort_name = "电影".into();
    v.forced_sort_name = "电影".into();
    v.display_preferences_id = "42".into();
    v.collection_type = "movies".into();
    let mut expected: Vec<&str> = vec![
        "Name",
        "ServerId",
        "Id",
        "Guid",
        "Etag",
        "DateCreated",
        "DateModified",
        "CanDelete",
        "CanDownload",
        "PresentationUniqueKey",
        "SortName",
        "ForcedSortName",
        "ExternalUrls",
        "Taglines",
        "RemoteTrailers",
        "ProviderIds",
        "IsFolder",
        "ParentId",
        "Type",
        "UserData",
        "ChildCount",
        "DisplayPreferencesId",
        "PrimaryImageAspectRatio",
        "CollectionType",
        "ImageTags",
        "BackdropImageTags",
        "LockedFields",
        "LockData",
    ];
    expected.sort_unstable();
    let mut actual = keys(&v);
    actual.sort_unstable();
    assert_eq!(actual, expected);
    assert_eq!(v.base.item_type, "CollectionFolder");
    assert_eq!(v.child_count, 1);
    assert!(v.base.is_folder);
    assert_eq!(v.parent_id, "0");
    assert_eq!(v.base.primary_image_aspect_ratio as f64 / 1e6, 1.777778);
    assert_eq!(v.base.user_data.playback_position_ticks, 0);
    assert!(!v.base.user_data.is_favorite);
    assert!(!v.base.user_data.played);
    assert_eq!(v.collection_type, "movies");
    assert!(v.base.provider_ids.is_empty());
    assert!(v.base.image_tags.primary.is_none());
    assert_eq!(v.base.user_data.play_count, 0);
    assert!(v.base.user_data.last_played_date.is_none());
    assert!(v.base.user_data.played_percentage.is_none());
    assert!(v.base.user_data.unplayed_item_count.is_none());
}

#[test]
fn views_response_wraps_items_and_count() {
    let resp =
        ViewsResponse { items: vec![CollectionFolderView::default()], total_record_count: 1 };
    assert_eq!(resp.total_record_count, 1);
    assert_eq!(resp.items.len(), 1);
}

#[test]
fn folders_of_libraries() {
    let lib = LibraryView {
        id: 3,
        name: "电影".into(),
        collection_type: "movies".into(),
        created_at: "c".into(),
        updated_at: "u".into(),
    };
    let r = views_response("srv", &vec![lib]);
    assert_eq!(r.total_record_count, 1);
    let v = &r.items[0];
    assert_eq!(v.base.id, "l-3");
    assert_eq!(v.guid, "l-3");
    assert_eq!(v.etag, "l-3");
    assert_eq!(v.display_preferences_id, "l-3");
    assert_eq!(v.base.name, "电影");
    assert_eq!(v.sort_name, "电影");
    assert_eq!(v.base.date_created, "c");
    assert_eq!(v.date_modified, "u");
    assert_eq!(v.collection_type, "movies");
}

#[test]
fn years_of_cards() {
    let mut r = test_row("Movie");
    assert_eq!(production_year(&r), Some(2019));
    r.production_year = None;
    r.date_air = Some("abcd".into());
    assert_eq!(production_year(&r), None, "no year where there is no number");
}

#[test]
fn cards_show_the_images_of_the_detail_page() {
    let mut batch: HashMap<i64, ImageTypeIds> = HashMap::new();
    batch.insert(
        100,
        ImageTypeIds {
            primary: Some(1),
            backdrops: vec![2, 3],
            logo: Some(4),
            thumb: Some(5),
            banner: Some(6),
        },
    );
    batch.insert(42, ImageTypeIds { logo: Some(7), ..Default::default() });
    for ty in ["Episode", "Season", "Series", "Movie"] {
        for series in [Some(100), None] {
            let mut row = test_row(ty);
            row.series_id = series;
            let flags = ItemImageFlags::from_batch(&batch, &row);
            let c = build_card_images(&row, &flags);
            let d = item_to_json("s", &row, &flags, None, None, None);
            assert_eq!(c.image_tags.primary, d.base.image_tags.primary);
            assert_eq!(c.image_tags.logo, d.base.image_tags.logo);
            assert_eq!(c.series_primary_image_tag, d.series_primary_image_tag);
            assert_eq!(c.parent_backdrop_item_id, d.parent_backdrop_item_id);
            assert_eq!(c.parent_backdrop_image_tags, d.parent_backdrop_image_tags);
            assert_eq!(c.parent_logo_item_id, d.parent_logo_item_id);
            assert_eq!(c.parent_thumb_image_tag, d.parent_thumb_image_tag);
        }
    }
}

#[test]
fn whole_lists() {
    let rows = vec![test_row("Episode"), test_row("Movie")];
    let mut batch: HashMap<i64, ImageTypeIds> = HashMap::new();
    batch.insert(100, ImageTypeIds { primary: Some(1), ..Default::default() });
    let mut tax: HashMap<i64, ItemTaxonomy> = HashMap::new();
    let e = episode_cards("s", &rows, &batch);
    assert_eq!(e.total_record_count, 2);
    assert_eq!(e.items[0].base.image_tags.primary.as_deref(), Some("img-1"));
    assert_eq!(e.items[1].base.image_tags.primary, None);
    let mut counts = HashMap::new();
    counts.insert(42, (3, 2, Some(1)));
    let s = season_cards("s", &rows, &batch, &counts);
    assert_eq!(s.items[0].child_count, Some(3));
    assert_eq!(media_cards("s", &rows, &batch).items.len(), 2);
    assert!(next_up_cards("s", &rows, &batch, &tax).items[0].people.is_empty());
    tax.insert(42, latest_tax());
    assert_eq!(next_up_cards("s", &rows, &batch, &tax).items[1].people.len(), 1);
    assert_eq!(latest_cards("s", &rows, &batch, &tax)[0].genres.len(), 2);
    let mut primary = HashMap::new();
    primary.insert(42, 8);
    let r = resume_cards("s", &vec![test_resume_entry("Movie")], &primary);
    assert_eq!(r.items[0].base.image_tags.primary.as_deref(), Some("img-8"));
    let d = DeviceInfo { device: "tv".into(), ..Default::default() };
    let p = session_entries("s", &rows, &batch, 5, "u", &d);
    assert_eq!(p[0].id, "session-42");
    assert_eq!(p[0].user_id, "5");
    assert_eq!(p[0].user_name, "u");
    assert_eq!(p[0].device.device, "tv");
    assert_eq!(p[0].position_ticks, 600_000_000);
}
