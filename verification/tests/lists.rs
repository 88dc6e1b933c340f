//! Requests for lists, taxonomy, JSON values and numbers.

use emrs::items::{
    item_similar, of_stored_type, open_parent, parse_include_item_types, portrait, row_query,
    shows_next_up, users_item_by_id, users_items, users_latest, users_resume, DetailPlan,
    ItemsPlan, LatestPlan, Listing, ResumePlan, RowQuery,
};
use emrs::json::{as_text, elements, merge_json, parse_json, Json};
use emrs::number::{i64_text, parse_i32, parse_i64, parse_u32, parse_u64, u64_text};
use emrs::outbound::{content_type_or_default, error_text, is_success, passed_type};
use emrs::params::{ItemsQuery, PaginationQuery};
use emrs::taxonomy::{
    empty_taxonomy_response, items_counts, tags_response, taxonomy_page, taxonomy_response,
    TaxonomyKind, TaxonomyPage,
};
use emrs::text::{join, same, split_at_char, trimmed, words};

fn some(s: &str) -> Option<String> {
    Some(s.to_string())
}

fn listing(q: &ItemsQuery) -> Listing {
    match users_items(q) {
        ItemsPlan::List(l) => l,
        other => panic!("{other:?}"),
    }
}

#[test]
fn parents_of_lists() {
    let q = |p: Option<&str>| ItemsQuery { parent_id: p.map(String::from), ..Default::default() };
    assert!(matches!(users_items(&q(Some("42"))), ItemsPlan::Empty));
    assert!(matches!(users_items(&q(Some("g-4"))), ItemsPlan::Empty));
    assert!(matches!(users_items(&q(Some("i-4"))), ItemsPlan::AskType(4)));
    assert!(matches!(
        listing(&q(Some("l-4"))),
        Listing::MoviesSeries { library_id: Some(4), limit: 100, start: 0, .. }
    ));
    assert!(matches!(listing(&q(None)), Listing::MoviesSeries { library_id: None, .. }));
    assert!(matches!(open_parent(4, Some("series")), ItemsPlan::Seasons(4)));
    assert!(matches!(open_parent(4, Some("season")), ItemsPlan::Episodes(4)));
    assert!(matches!(open_parent(4, Some("movie")), ItemsPlan::Empty));
    assert!(matches!(open_parent(4, None), ItemsPlan::Empty));
}

#[test]
fn filters_in_order() {
    let mut q = ItemsQuery {
        limit: Some(500),
        start_index: Some(7),
        include_item_types: some("Movie,BoxSet,Series"),
        filters: some("x,isfavorite"),
        list_item_ids: some("i-1, i-2"),
        person_ids: some("p-3"),
        studio_ids: some("s-4"),
        genre_ids: some("g-5"),
        ..Default::default()
    };
    match listing(&q) {
        Listing::Favorites { item_types, limit, start } => {
            assert_eq!(item_types, some("Movie,BoxSet,Series"));
            assert_eq!((limit, start), (200, 7));
        }
        other => panic!("{other:?}"),
    }
    q.filters = None;
    assert!(matches!(listing(&q), Listing::ByIds(ids) if ids == vec![1, 2]));
    q.list_item_ids = some("7");
    assert!(matches!(listing(&q), Listing::Nothing));
    q.include_item_types = some("Movie,Series");
    match listing(&q) {
        Listing::ByPerson { ids, types, limit, start } => {
            assert_eq!(ids, vec![3]);
            assert_eq!(types, vec!["movie", "series"]);
            assert_eq!((limit, start), (200, 7));
        }
        other => panic!("{other:?}"),
    }
    q.person_ids = None;
    assert!(matches!(listing(&q), Listing::ByStudio { ids, .. } if ids == vec![4]));
    q.studio_ids = some("x");
    assert!(matches!(listing(&q), Listing::ByGenre { ids, .. } if ids == vec![5]));
    q.genre_ids = None;
    assert!(matches!(listing(&q), Listing::Series { library_id: None, limit: 200, start: 7 }));
    q.include_item_types = some("series");
    q.filters = some("IsUnplayed");
    q.search_term = some("t");
    q.tags = some("g");
    q.sort_by = some("b");
    q.sort_order = some("o");
    match listing(&q) {
        Listing::MoviesSeries { search_term, types, is_played, tags, sort_by, sort_order, .. } => {
            assert_eq!(search_term, some("t"));
            assert_eq!(types, vec!["series"]);
            assert_eq!(is_played, Some(false));
            assert_eq!((tags, sort_by, sort_order), (some("g"), some("b"), some("o")));
        }
        other => panic!("{other:?}"),
    }
    q.is_played = Some(true);
    assert!(matches!(listing(&q), Listing::MoviesSeries { is_played: Some(true), .. }));
}

#[test]
fn stored_types_of_words() {
    assert_eq!(parse_include_item_types(Some("Movie, video,EPISODE,x,,Season")), vec![
        "movie", "episode", "season"
    ]);
    assert!(parse_include_item_types(None).is_empty());
}

#[test]
fn other_lists() {
    let mut q = ItemsQuery { start_index: Some(-4), limit: Some(7), ..Default::default() };
    assert_eq!(
        users_resume(&q),
        Some(ResumePlan { library_id: None, parent_item: None, limit: 7, start: 0 })
    );
    q.parent_id = some("l-2");
    assert_eq!(users_resume(&q).unwrap().library_id, Some(2));
    assert_eq!(users_latest(&q), Some(LatestPlan { library_id: Some(2), limit: 7 }));
    q.parent_id = some("i-2");
    assert_eq!(users_resume(&q).unwrap().parent_item, Some(2));
    assert_eq!(users_latest(&q), None);
    q.parent_id = some("2");
    assert_eq!(users_resume(&q), None);
    q.parent_id = some("");
    assert_eq!(users_resume(&q), None);
    assert_eq!(users_latest(&q), None);
    q.limit = None;
    q.parent_id = None;
    assert_eq!(users_latest(&q), Some(LatestPlan { library_id: None, limit: 20 }));
    assert_eq!(users_item_by_id("p-3"), DetailPlan::Person(3));
    assert_eq!(users_item_by_id("i-3"), DetailPlan::Item(3));
    assert_eq!(users_item_by_id("3"), DetailPlan::NotFound);
    assert_eq!(users_item_by_id("l-3"), DetailPlan::NotFound);
    assert_eq!(row_query("episode"), RowQuery::Episode);
    assert_eq!(row_query("season"), RowQuery::Season);
    assert_eq!(row_query("movie"), RowQuery::Item);
    assert_eq!(portrait(Some((4, "u"))), Some(4));
    assert_eq!(portrait(Some((4, ""))), None);
    q.series_id = some("i-9");
    q.limit = Some(99);
    let n = shows_next_up(&q, 1);
    assert_eq!((n.user_id, n.series_id, n.limit, n.start), (1, Some(9), 50, 0));
    q.series_id = some("9");
    q.user_id = Some(6);
    assert_eq!(shows_next_up(&q, 1).series_id, None);
    assert_eq!(shows_next_up(&q, 1).user_id, 6);
    assert_eq!(of_stored_type(Some("i-3"), Some("series"), "series"), Some(3));
    assert_eq!(of_stored_type(Some("i-3"), Some("movie"), "series"), None);
    assert_eq!(of_stored_type(None, Some("series"), "series"), None);
    assert_eq!(item_similar("i-3", &q, 1).unwrap().item_id, 3);
    assert_eq!(item_similar("3", &q, 1), None);
}

#[test]
fn taxonomy_lists() {
    let mut q = PaginationQuery::default();
    assert_eq!(
        taxonomy_page(&q),
        Some(TaxonomyPage { library_id: None, limit: 100, start: 0 })
    );
    q.parent_id = some("l-3");
    q.limit = Some(4);
    assert_eq!(
        taxonomy_page(&q),
        Some(TaxonomyPage { library_id: Some(3), limit: 4, start: 0 })
    );
    q.parent_id = some("3");
    assert_eq!(taxonomy_page(&q), None);
    let rows = vec![(5, "x".to_string())];
    for (kind, id, ty) in [
        (TaxonomyKind::Genre, "g-5", "Genre"),
        (TaxonomyKind::Person, "p-5", "Person"),
        (TaxonomyKind::Studio, "s-5", "Studio"),
        (TaxonomyKind::Year, "5", "Year"),
        (TaxonomyKind::Rating, "5", "Rating"),
    ] {
        let r = taxonomy_response(kind, &rows, 9);
        assert_eq!(r.total_record_count, 9);
        assert_eq!(r.items[0].name_id.id, id);
        assert_eq!(r.items[0].name_id.name, "x");
        assert_eq!(r.items[0].item_type, ty);
    }
    assert_eq!(empty_taxonomy_response().total_record_count, 0);
    let t = tags_response(&vec!["a".to_string()]);
    assert_eq!((t.items[0].name.as_str(), t.items[0].item_type.as_str()), ("a", "Tag"));
    assert_eq!(items_counts(1, 2, 3).item_count, 6);
}

#[test]
fn json_values() {
    let v = parse_json(r#"{"a":[1,-2.5,null,true,"x"],"b":{"c":"d"}}"#.as_bytes()).unwrap();
    assert_eq!(as_text(v.member("b").and_then(|b| b.member("c"))).as_deref(), Some("d"));
    assert!(v.member("z").is_none());
    match v.member("a") {
        Some(Json::List(list)) => {
            assert!(matches!(&list[0], Json::Number(n) if n.whole == Some(1) && n.text == "1"));
            assert!(matches!(&list[1], Json::Number(n) if n.whole.is_none() && n.text == "-2.5"));
            assert!(matches!(&list[2], Json::Null));
            assert!(matches!(&list[3], Json::Bool(true)));
            assert!(matches!(&list[4], Json::Text(t) if t == "x"));
        }
        _ => panic!("a list"),
    }
    assert!(parse_json(b"{").is_none());
    assert_eq!(elements(parse_json(b"[1,2]")).len(), 2);
    assert_eq!(elements(parse_json(b"{}")).len(), 0);
    let a = parse_json(br#"{"x":1,"y":2}"#).unwrap();
    let b = parse_json(br#"{"y":3,"z":4}"#).unwrap();
    let m = merge_json(a, b);
    let int = |k: &str| emrs::json::as_int(m.member(k));
    assert_eq!((int("x"), int("y"), int("z")), (Some(1), Some(3), Some(4)));
    assert!(matches!(merge_json(Json::Null, parse_json(b"{}").unwrap()), Json::Null));
}

#[test]
fn numbers_in_text() {
    assert_eq!(parse_i64("-9223372036854775808"), Some(i64::MIN));
    assert_eq!(parse_i64("9223372036854775807"), Some(i64::MAX));
    assert_eq!(parse_i64("-9223372036854775809"), None);
    assert_eq!(parse_i64("+"), None);
    assert_eq!(parse_i64("-"), None);
    assert_eq!(parse_i64(" 1"), None);
    assert_eq!(parse_i64("١"), None);
    assert_eq!(parse_u64("18446744073709551615"), Some(u64::MAX));
    assert_eq!(parse_u64("18446744073709551616"), None);
    assert_eq!(parse_u64("-0"), None);
    assert_eq!(parse_u64("+7"), Some(7));
    assert_eq!(parse_u32("4294967296"), None);
    assert_eq!(parse_i32("2147483648"), None);
    assert_eq!(parse_i32("-2147483648"), Some(i32::MIN));
    for n in [0, 7, -7, 10, i64::MAX, i64::MIN] {
        assert_eq!(i64_text(n), n.to_string());
        assert_eq!(parse_i64(&i64_text(n)), Some(n));
    }
    assert_eq!(u64_text(u64::MAX), u64::MAX.to_string());
}

#[test]
fn text_operations() {
    let samples = ["", " ", "a", "\u{2003}a b\u{85}", "你 好", "\u{1F600}\t", "\u{FEFF}x"];
    for s in samples {
        assert_eq!(trimmed(s), s.trim());
        assert_eq!(words(s), s.split_whitespace().map(String::from).collect::<Vec<_>>());
        assert_eq!(split_at_char(s, 'a'), s.split('a').map(String::from).collect::<Vec<_>>());
        for t in samples {
            assert_eq!(same(s, t), s == t);
        }
    }
    for c in (0..0x3100u32).filter_map(char::from_u32) {
        assert_eq!(emrs::text::space(c), c.is_whitespace(), "{c:?}");
        assert_eq!(emrs::text::to_lower_char(c), c.to_ascii_lowercase());
    }
    assert_eq!(join(&vec!["a".to_string(), "b".to_string()], "/"), "a/b");
    assert_eq!(join(&vec![], "/"), "");
}

#[test]
fn answers_of_other_servers() {
    assert!(is_success(200) && is_success(299));
    assert!(!is_success(199) && !is_success(300));
    let body = "é".repeat(300);
    let text = error_text("404 Not Found", &body);
    assert_eq!(text, format!("HTTP 404 Not Found: {}", "é".repeat(256)));
    assert_eq!(content_type_or_default(None), "application/octet-stream");
    assert_eq!(content_type_or_default(Some("image/png")), "image/png");
    assert_eq!(passed_type("image/png; a=é\t"), "image/png; a=é\t");
    for c in (0..0x100u32).filter_map(char::from_u32) {
        let text = format!("a{c}");
        let taken = c == '\t' || (c >= ' ' && c != '\u{7f}');
        let sent = if taken { text.as_str() } else { "application/octet-stream" };
        assert_eq!(passed_type(&text), sent, "{c:?}");
    }
}
