//! The full item object and its parts.

use std::collections::HashMap;

use emrs::emby::item::{attach_media_sources, external_urls_for, item_to_json, wants_media_sources};
use emrs::emby::lists::item_json;
use emrs::emby::person::person_to_json;
use emrs::emby::rows::{
    ImageTypeIds, ItemRow, ItemTaxonomy, PersonBrief, PersonRow, UserItemData,
};
use emrs::emby::shared::{
    date_year, date_year_or_zero, emby_date, played_share_of, provider_ids, to_views_user_data,
    user_data, user_data_response, year_part, ItemImageFlags, NameIdDto, PlayedShare, POSTER_ASPECT,
    WIDE_ASPECT,
};

fn test_row() -> ItemRow {
    ItemRow {
        id: 1,
        library_id: Some(3),
        item_type: "Episode".into(),
        title: "第 5 集".into(),
        description: None,
        date_air: Some("2026-01-01".into()),
        created_at: "2026-01-01T00:00:00.0000000Z".into(),
        updated_at: "2026-03-01T00:00:00.0000000Z".into(),
        container: Some("mp4".into()),
        file_second: Some(1187),
        uuid: None,
        name: None,
        path_type: None,
        path_url: None,
        play_ms: 0,
        is_complete: 0,
        play_count: 3,
        is_favorite: 0,
        season_number: Some(1),
        episode_number: Some(5),
        series_id: Some(9),
        series_name: Some("成也萧河".into()),
        season_id: Some(8),
        season_name: Some("第 1 季".into()),
        is_virtual: 0,
        tmdb_id: Some("12345".into()),
        imdb_id: None,
        tvdb_id: Some("11864467".into()),
        community_rating: Some(8.1f64.to_bits()),
        official_rating: None,
        tagline: None,
        sort_title: None,
        end_date: None,
        status: None,
        production_year: None,
    }
}

fn provider<'a>(list: &'a [(String, String)], name: &str) -> Option<&'a str> {
    list.iter().find(|(k, _)| k == name).map(|(_, v)| v.as_str())
}

fn name_ids(list: &[NameIdDto]) -> Vec<(&str, &str)> {
    list.iter().map(|d| (d.name.as_str(), d.id.as_str())).collect()
}

fn check_provider_ids_from_columns() {
    let m = provider_ids(&test_row());
    assert_eq!(provider(&m, "Tmdb"), Some("12345"));
    assert_eq!(provider(&m, "Tvdb"), Some("11864467"));
    assert_eq!(provider(&m, "Imdb"), None, "an empty column is left out");
}

#[test]
fn dto_provider_ids_from_columns() {
    check_provider_ids_from_columns();
}

#[test]
fn shared_provider_ids_from_columns() {
    check_provider_ids_from_columns();
}

fn check_provider_ids_omits_empty_columns() {
    let mut r = test_row();
    r.tmdb_id = None;
    r.tvdb_id = None;
    let m = provider_ids(&r);
    assert!(m.is_empty(), "no columns, no entries");
    r.tmdb_id = Some(String::new());
    assert!(provider_ids(&r).is_empty(), "an empty text counts as none");
}

#[test]
fn dto_provider_ids_omits_empty_columns() {
    check_provider_ids_omits_empty_columns();
}

#[test]
fn shared_provider_ids_omits_empty_columns() {
    check_provider_ids_omits_empty_columns();
}

fn check_typed_taxonomy_subobjects_shape() {
    let tax = ItemTaxonomy {
        genres: vec![(1, "动作".into()), (2, "科幻".into())],
        people: vec![PersonBrief {
            id: 10,
            name: "演员甲".into(),
            role: "Actor".into(),
            character_name: Some("角色".into()),
            primary_image_id: Some(11),
        }],
        studios: vec![(5, "工作室X".into())],
        tags: vec!["关键词X".into()],
    };
    let flags = ItemImageFlags { own_primary: Some(1), ..Default::default() };
    let v = item_to_json("srv", &test_row(), &flags, Some(&tax), None, None);
    assert_eq!(v.genres.as_ref().unwrap(), &vec!["动作".to_string(), "科幻".to_string()]);
    assert_eq!(name_ids(v.genre_items.as_ref().unwrap()), vec![("动作", "g-1"), ("科幻", "g-2")]);
    let p = &v.people.as_ref().unwrap()[0];
    assert_eq!(p.name_id.name, "演员甲");
    assert_eq!(p.name_id.id, "p-10");
    assert_eq!(p.role, "Actor");
    assert_eq!(p.item_type, "Person");
    assert_eq!(p.character.as_deref(), Some("角色"));
    assert_eq!(p.primary_image_tag.as_deref(), Some("img-11"));
    assert_eq!(name_ids(v.studios.as_ref().unwrap()), vec![("工作室X", "s-5")]);
    assert_eq!(v.tags.as_ref().unwrap(), &vec!["关键词X".to_string()]);
    assert_eq!(v.base.image_tags.primary.as_deref(), Some("img-1"));
    assert_eq!(v.base.image_tags.logo, None);
    assert_eq!(v.base.image_tags.thumb, None);
    assert_eq!(v.base.image_tags.banner, None);

    let v2 = item_to_json("srv", &test_row(), &ItemImageFlags::default(), Some(&tax), None, None);
    assert_eq!(v2.base.image_tags.primary, None);

    let mut tax_no_char = tax.clone();
    tax_no_char.people[0].character_name = None;
    tax_no_char.people[0].primary_image_id = None;
    let v3 = item_to_json("srv", &test_row(), &flags, Some(&tax_no_char), None, None);
    assert!(v3.people.as_ref().unwrap()[0].character.is_none());
    assert!(v3.people.as_ref().unwrap()[0].primary_image_tag.is_none());
}

#[test]
fn dto_typed_taxonomy_subobjects_shape() {
    check_typed_taxonomy_subobjects_shape();
}

#[test]
fn item_typed_taxonomy_subobjects_shape() {
    check_typed_taxonomy_subobjects_shape();
}

fn check_item_dto_protocol_fields_shape() {
    let none = ItemImageFlags::default();
    let v = item_to_json("srv", &test_row(), &none, None, None, Some((Some(1920), Some(1080))));
    assert_eq!(v.parent_id.as_deref(), Some("i-8"), "an episode lies in its season");
    assert_eq!(v.season_id.as_deref(), Some("i-8"));
    assert_eq!(v.width, Some(1920));
    assert_eq!(v.height, Some(1080));
    assert!(v.recursive_item_count.is_none());
    assert!(v.child_count.is_none());
    assert!(v.air_days.is_none());
    assert!(v.external_urls.is_none());
    assert_eq!(v.date_modified.as_deref(), Some("2026-03-01T00:00:00.0000000Z"));
    assert_eq!(v.premiere_date.as_deref(), Some("2026-01-01T00:00:00.0000000Z"));
    assert!(v.taglines.is_empty());
    assert_eq!(v.location_type.as_deref(), Some("FileSystem"));

    let mut season = test_row();
    season.item_type = "Season".into();
    season.season_id = None;
    season.episode_number = None;
    let vs = item_to_json("srv", &season, &none, None, Some((30, 25, None)), None);
    assert_eq!(vs.recursive_item_count, Some(30));
    assert_eq!(vs.child_count, Some(30));
    assert_eq!(vs.base.user_data.unplayed_item_count, Some(25));
    assert!(vs.external_urls.as_ref().unwrap().is_empty());
    assert!(vs.parent_id.is_none());
    assert!(vs.width.is_none());
    assert!(vs.air_days.is_none());

    let mut series = test_row();
    series.item_type = "Series".into();
    series.season_id = None;
    series.series_id = None;
    series.season_number = None;
    series.episode_number = None;
    let vser = item_to_json("srv", &series, &none, None, Some((43, 43, Some(2))), None);
    assert_eq!(vser.recursive_item_count, Some(43));
    assert_eq!(vser.child_count, Some(2), "the seasons of a series");
    assert_eq!(vser.base.user_data.unplayed_item_count, Some(43));
    assert!(vser.air_days.as_ref().unwrap().is_empty());
    assert_eq!(vser.parent_id.as_deref(), Some("l-3"), "a series lies in its library");
    let links: Vec<(&str, &str)> = vser
        .external_urls
        .as_ref()
        .unwrap()
        .iter()
        .map(|u| (u.name.as_str(), u.url.as_str()))
        .collect();
    assert_eq!(
        links,
        vec![
            ("TheMovieDb", "https://www.themoviedb.org/tv/12345"),
            ("TheTVDB", "https://thetvdb.com/?tab=series&id=11864467"),
        ]
    );
    assert!(vser.width.is_none());
}

#[test]
fn dto_item_dto_protocol_fields_shape() {
    check_item_dto_protocol_fields_shape();
}

#[test]
fn item_item_dto_protocol_fields_shape() {
    check_item_dto_protocol_fields_shape();
}

fn check_backdrop_image_tags_only_with_image() {
    let v = item_to_json("srv", &test_row(), &ItemImageFlags::default(), None, None, None);
    assert!(v.base.backdrop_image_tags.is_empty());
    assert!(v.parent_backdrop_item_id.is_none());
    assert!(v.parent_backdrop_image_tags.is_none());

    let up = ItemImageFlags { series_backdrops: vec![7], ..Default::default() };
    let v2 = item_to_json("srv", &test_row(), &up, None, None, None);
    assert!(v2.base.backdrop_image_tags.is_empty());
    assert_eq!(v2.parent_backdrop_item_id.as_deref(), Some("i-9"));
    assert_eq!(v2.parent_backdrop_image_tags, Some(vec!["img-7".to_string()]));

    let own = ItemImageFlags { own_backdrops: vec![3, 5], ..Default::default() };
    let v3 = item_to_json("srv", &test_row(), &own, None, None, None);
    assert_eq!(v3.base.backdrop_image_tags, vec!["img-3".to_string(), "img-5".to_string()]);
    assert!(v3.parent_backdrop_item_id.is_none());
}

#[test]
fn dto_backdrop_image_tags_only_with_image() {
    check_backdrop_image_tags_only_with_image();
}

#[test]
fn item_backdrop_image_tags_only_with_image() {
    check_backdrop_image_tags_only_with_image();
}

fn check_parent_logo_thumb_tag_is_image_id() {
    let flags =
        ItemImageFlags { series_logo: Some(11), series_thumb: Some(12), ..Default::default() };
    let v = item_to_json("srv", &test_row(), &flags, None, None, None);
    assert_eq!(v.parent_logo_item_id.as_deref(), Some("i-9"));
    assert_eq!(v.parent_logo_image_tag.as_deref(), Some("img-11"));
    assert_eq!(v.parent_thumb_item_id.as_deref(), Some("i-9"));
    assert_eq!(v.parent_thumb_image_tag.as_deref(), Some("img-12"));

    let v2 = item_to_json("srv", &test_row(), &ItemImageFlags::default(), None, None, None);
    assert!(v2.parent_logo_item_id.is_none());
    assert!(v2.parent_logo_image_tag.is_none());
    assert!(v2.parent_thumb_item_id.is_none());
    assert!(v2.parent_thumb_image_tag.is_none());
}

#[test]
fn dto_parent_logo_thumb_tag_is_image_id() {
    check_parent_logo_thumb_tag_is_image_id();
}

#[test]
fn item_parent_logo_thumb_tag_is_image_id() {
    check_parent_logo_thumb_tag_is_image_id();
}

fn check_person_detail_dto_shape() {
    let person = PersonRow {
        id: 7,
        tmdb_id: Some("12345".into()),
        name: "演员甲".into(),
        original_name: None,
        gender: 0,
        description: Some("简介".into()),
        birthday: Some("1990-05-01".into()),
        deathday: None,
        created_at: "2026-01-01T00:00:00.0000000Z".into(),
        updated_at: "2026-01-02T00:00:00.0000000Z".into(),
    };
    let v = person_to_json("srv", &person, Some(77));
    assert_eq!(v.name_id_type.item_type, "Person");
    assert_eq!(v.name_id_type.name_id.name, "演员甲");
    assert_eq!(v.name_id_type.name_id.id, "p-7");
    assert_eq!(v.server_id, "srv");
    assert_eq!(provider(&v.provider_ids, "Tmdb"), Some("12345"));
    assert_eq!(v.image_tags.primary.as_deref(), Some("img-77"));
    assert!(v.backdrop_image_tags.is_empty());
    assert!(v.production_locations.is_empty());
    assert!(v.external_urls.is_empty());
    assert_eq!(v.primary_image_aspect_ratio as f64 / 1e6, 0.666667);
    assert_eq!(v.date_created, "2026-01-01T00:00:00.0000000Z");
    assert_eq!(v.date_modified, "2026-01-02T00:00:00.0000000Z");
    assert_eq!(v.premiere_date.as_deref(), Some("1990-05-01"));
    assert_eq!(v.production_year, Some(1990));
    assert_eq!(v.overview.as_deref(), Some("简介"));

    let v2 = person_to_json("srv", &person, None);
    assert!(v2.image_tags.primary.is_none());

    let mut p2 = person.clone();
    p2.birthday = None;
    p2.description = None;
    let v3 = person_to_json("srv", &p2, None);
    assert!(v3.premiere_date.is_none());
    assert!(v3.production_year.is_none());
    assert!(v3.overview.is_none());

    let mut p3 = person.clone();
    p3.tmdb_id = None;
    let v4 = person_to_json("srv", &p3, None);
    assert!(v4.provider_ids.is_empty());
}

#[test]
fn dto_person_detail_dto_shape() {
    check_person_detail_dto_shape();
}

#[test]
fn person_person_detail_dto_shape() {
    check_person_detail_dto_shape();
}

#[test]
fn dates_gain_a_time_of_day() {
    assert_eq!(emby_date("2026-01-04"), "2026-01-04T00:00:00.0000000Z");
    assert_eq!(emby_date(" 2026-01-04 "), "2026-01-04T00:00:00.0000000Z");
    assert_eq!(emby_date("2026-01-04T01:02:03Z"), "2026-01-04T01:02:03Z");
    assert_eq!(emby_date("  "), "  ");
    let once = emby_date("2026-01-04");
    assert_eq!(emby_date(&once), once);
}

#[test]
fn years_come_from_the_date() {
    let mut r = test_row();
    let none = ItemImageFlags::default();
    assert_eq!(item_to_json("s", &r, &none, None, None, None).production_year, Some(2026));
    r.production_year = Some(1999);
    assert_eq!(item_to_json("s", &r, &none, None, None, None).production_year, Some(1999));
    r.production_year = None;
    r.date_air = Some("abcd-01".into());
    assert_eq!(item_to_json("s", &r, &none, None, None, None).production_year, Some(0));
    r.date_air = Some("199".into());
    assert_eq!(item_to_json("s", &r, &none, None, None, None).production_year, None);
    r.date_air = Some("20二六".into());
    assert_eq!(item_to_json("s", &r, &none, None, None, None).production_year, None);
    r.date_air = None;
    assert_eq!(item_to_json("s", &r, &none, None, None, None).production_year, None);
}

#[test]
fn aspect_and_ticks_and_share() {
    let mut r = test_row();
    r.play_ms = 60_000;
    let none = ItemImageFlags::default();
    let v = item_to_json("s", &r, &none, None, None, None);
    assert_eq!(v.base.primary_image_aspect_ratio, WIDE_ASPECT);
    assert_eq!(v.base.primary_image_aspect_ratio as f64 / 1e6, 1.777778);
    assert_eq!(v.run_time_ticks, Some(11_870_000_000));
    assert_eq!(v.base.user_data.playback_position_ticks, 600_000_000);
    assert_eq!(
        v.base.user_data.played_percentage,
        Some(PlayedShare { play_ms: 60_000, file_second: 1187 })
    );
    assert_eq!(v.community_rating.map(f64::from_bits), Some(8.1));
    assert_eq!(v.container.as_deref(), Some("mp4"));
    r.item_type = "Movie".into();
    r.file_second = Some(0);
    let m = item_to_json("s", &r, &none, None, None, None);
    assert_eq!(m.base.primary_image_aspect_ratio, POSTER_ASPECT);
    assert_eq!(m.base.user_data.played_percentage, None);
    assert_eq!(m.container, None);
    assert_eq!(m.media_type.as_deref(), Some("Video"));
    assert_eq!(m.index_number, None);
    assert_eq!(user_data(&r, Some(4)).unplayed_item_count, Some(4));
}

#[test]
fn links_of_a_film() {
    let mut r = test_row();
    r.item_type = "Movie".into();
    r.imdb_id = Some("tt1".into());
    let urls: Vec<String> = external_urls_for(&r).into_iter().map(|u| u.url).collect();
    assert_eq!(
        urls,
        vec![
            "https://www.imdb.com/title/tt1".to_string(),
            "https://www.themoviedb.org/movie/12345".to_string(),
            "https://thetvdb.com/?tab=series&id=11864467".to_string(),
        ]
    );
}

#[test]
fn images_out_of_a_batch() {
    let mut batch: HashMap<i64, ImageTypeIds> = HashMap::new();
    batch.insert(
        9,
        ImageTypeIds {
            primary: Some(90),
            backdrops: vec![91, 92],
            logo: Some(93),
            thumb: None,
            banner: Some(94),
        },
    );
    let f = ItemImageFlags::from_batch(&batch, &test_row());
    assert_eq!(f.own_primary, None);
    assert_eq!(f.series_primary, Some(90));
    assert_eq!(f.series_backdrops, vec![91, 92]);
    assert_eq!(f.series_logo, Some(93));
    let v = item_json("s", &batch, &HashMap::new(), &HashMap::new(), &HashMap::new(), &test_row());
    assert_eq!(v.series_primary_image_tag.as_deref(), Some("img-90"));
    assert_eq!(v.base.image_tags.primary.as_deref(), Some("img-90"));
    assert_eq!(v.primary_image_item_id.as_deref(), Some("i-9"));
    assert_eq!(v.primary_image_tag, None);
    assert!(v.genres.is_none());
}

#[test]
fn taglines_and_virtual_items() {
    let mut r = test_row();
    r.tagline = Some(" ".into());
    r.is_virtual = 1;
    let none = ItemImageFlags::default();
    let v = item_to_json("s", &r, &none, None, None, None);
    assert!(v.taglines.is_empty());
    assert_eq!(v.location_type.as_deref(), Some("Virtual"));
    r.tagline = Some("x".into());
    r.sort_title = Some("y".into());
    let w = item_to_json("s", &r, &none, None, None, None);
    assert_eq!(w.taglines, vec!["x".to_string()]);
    assert_eq!(w.sort_name, "y");
    assert_eq!(v.sort_name, "第 5 集");
}

#[test]
fn media_sources_are_attached_to_files_only() {
    let none = ItemImageFlags::default();
    let mut r = test_row();
    let mut v = item_to_json("s", &r, &none, None, None, None);
    attach_media_sources(&r, None, &mut v);
    assert!(v.media_sources.is_none());
    attach_media_sources(&r, Some(Vec::new()), &mut v);
    assert!(v.media_sources.is_some());
    r.item_type = "Series".into();
    assert!(!wants_media_sources(&r));
    let mut w = item_to_json("s", &r, &none, None, None, None);
    attach_media_sources(&r, Some(Vec::new()), &mut w);
    assert!(w.media_sources.is_none());
}

#[test]
fn stored_user_state() {
    let d = UserItemData {
        played: 1,
        play_count: 2,
        playback_position_ticks: None,
        last_played_date: Some("x".into()),
        is_favorite: 0,
    };
    let v = to_views_user_data(&d);
    assert!(v.played);
    assert_eq!(v.play_count, 2);
    assert_eq!(v.playback_position_ticks, 0);
    assert_eq!(v.last_played_date.as_deref(), Some("x"));
    assert!(!v.is_favorite);
    let none = user_data_response(&None);
    assert!(!none.played);
    assert_eq!(none.play_count, 0);
    assert!(user_data_response(&Some(d)).played);
}

#[test]
fn years_of_dates() {
    for d in ["2019-01-02", "2019", "201", "", "20é9", "201é", "年2019", "abcd", "+201", "-201x"] {
        let head = d.get(0..4);
        assert_eq!(year_part(d).as_deref(), head, "{d}");
        let date = Some(d.to_string());
        assert_eq!(date_year(&date), head.and_then(|y| y.parse::<i64>().ok()), "{d}");
        assert_eq!(
            date_year_or_zero(&date),
            head.map(|y| y.parse::<i64>().unwrap_or(0)),
            "{d}"
        );
    }
    assert_eq!(date_year(&None), None);
    assert_eq!(date_year_or_zero(&None), None);
}

#[test]
fn shares_of_files() {
    assert_eq!(played_share_of(0, Some(10)), None);
    assert_eq!(played_share_of(5, None), None);
    assert_eq!(played_share_of(5, Some(0)), None);
    let share = played_share_of(5, Some(10)).unwrap();
    assert_eq!((share.play_ms, share.file_second), (5, 10));
}
