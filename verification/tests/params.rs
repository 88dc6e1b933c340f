//! Identifiers and request parameters.

use emrs::ids::{
    format_id, genre_id, image_tag, item_id, library_id, parse_typed_id, person_id, studio_id,
    IdKind,
};
use emrs::params::{
    lenient_bool, lenient_i64, lenient_string, lenient_u64, library_parent_filter, parse_generic_id,
    parse_genre_ids, parse_id, parse_item_ids, parse_person_id, parse_person_ids, parse_studio_ids,
    resolved_item, ParsedId,
};

#[test]
fn generic_id_bare_rejected() {
    assert_eq!(parse_generic_id("42"), None);
    assert_eq!(parse_generic_id("  7 "), None);
}

#[test]
fn generic_id_prefix_kind() {
    assert_eq!(parse_generic_id("i-42"), Some(ParsedId { kind: "item", id: 42 }));
    assert_eq!(parse_generic_id("l-2"), Some(ParsedId { kind: "library", id: 2 }));
    assert_eq!(parse_generic_id("p-24"), Some(ParsedId { kind: "people", id: 24 }));
    assert_eq!(parse_generic_id("g-5"), Some(ParsedId { kind: "genre", id: 5 }));
    assert_eq!(parse_generic_id("s-7"), Some(ParsedId { kind: "studio", id: 7 }));
}

#[test]
fn generic_id_invalid() {
    assert_eq!(parse_generic_id(""), None);
    assert_eq!(parse_generic_id("42"), None, "no prefix");
    assert_eq!(parse_generic_id("-24"), None, "an empty prefix");
    assert_eq!(parse_generic_id("p-"), None, "no number");
    assert_eq!(parse_generic_id("p-0"), None, "rows count from one");
    assert_eq!(parse_generic_id("24-3"), None, "a number for a prefix");
    assert_eq!(parse_generic_id("x-1"), None, "an unknown prefix");
    assert_eq!(parse_generic_id("y-2023"), None, "years are no rows");
}

#[test]
fn parse_id_keeps_item_semantics() {
    assert_eq!(parse_id("42"), None, "no prefix");
    assert_eq!(parse_id("i-42"), Some(42), "an item");
    assert_eq!(parse_id("l-2"), None, "a library");
    assert_eq!(parse_id("p-24"), None, "a person");
    assert_eq!(parse_id("g-5"), None, "a genre");
    assert_eq!(parse_id("s-7"), None, "a studio");
    assert_eq!(parse_id("x-1"), None);
}

#[test]
fn parse_person_id_strict() {
    assert_eq!(parse_person_id("p-24"), Some(24));
    assert_eq!(parse_person_id("24"), None, "no prefix");
    assert_eq!(parse_person_id("i-24"), None, "an item");
    assert_eq!(parse_person_id("s-5"), None, "a studio");
    assert_eq!(parse_person_id("l-2"), None, "a library");
    assert_eq!(parse_person_id("abc"), None);
}

#[test]
fn parse_person_ids_multiple() {
    assert_eq!(parse_person_ids("p-24,p-25"), vec![24, 25]);
    assert_eq!(parse_person_ids("p-24,abc,7"), vec![24], "a bare number is left out");
    assert_eq!(parse_person_ids(""), Vec::<i64>::new());
    assert_eq!(parse_person_ids("p-24, p-25"), vec![24], "blanks are not skipped");
}

#[test]
fn parse_genre_ids_strict() {
    assert_eq!(parse_genre_ids("g-5,g-6"), vec![5, 6]);
    assert_eq!(parse_genre_ids("5,6"), Vec::<i64>::new(), "bare numbers");
    assert_eq!(parse_genre_ids("g-5,abc,g-7"), vec![5, 7]);
    assert_eq!(parse_genre_ids(""), Vec::<i64>::new());
}

#[test]
fn parse_studio_ids_strict() {
    assert_eq!(parse_studio_ids("s-5,s-6"), vec![5, 6]);
    assert_eq!(parse_studio_ids("5,6"), Vec::<i64>::new(), "bare numbers");
    assert_eq!(parse_studio_ids("s-5,g-7"), vec![5], "a genre");
}

#[test]
fn parse_item_ids_strict() {
    assert_eq!(parse_item_ids("i-5,i-6"), vec![5, 6]);
    assert_eq!(parse_item_ids("5,6"), Vec::<i64>::new(), "bare numbers");
    assert_eq!(parse_item_ids("i-5,p-7"), vec![5], "a person");
    assert_eq!(parse_item_ids(" i-5 , i-6"), vec![5, 6], "blanks are skipped");
}

#[test]
fn identifiers_round_trip() {
    assert_eq!(item_id(42), "i-42");
    assert_eq!(library_id(2), "l-2");
    assert_eq!(person_id(24), "p-24");
    assert_eq!(genre_id(5), "g-5");
    assert_eq!(studio_id(7), "s-7");
    assert_eq!(image_tag(9), "img-9");
    for kind in [
        IdKind::Item,
        IdKind::Library,
        IdKind::People,
        IdKind::Genre,
        IdKind::Studio,
        IdKind::Image,
    ] {
        for n in [1, 10, i64::MAX] {
            assert_eq!(parse_typed_id(&format_id(kind, n)), Some((kind, n)));
        }
        assert_eq!(parse_typed_id(&format_id(kind, 0)), None);
        assert_eq!(parse_typed_id(&format_id(kind, i64::MIN)), None);
    }
    assert_eq!(format_id(IdKind::Item, i64::MIN), "i--9223372036854775808");
    assert_eq!(parse_typed_id("i-9223372036854775808"), None);
}

#[test]
fn lenient_values() {
    assert_eq!(lenient_bool(" True "), Some(true));
    assert_eq!(lenient_bool("ON"), Some(true));
    assert_eq!(lenient_bool("no"), Some(false));
    assert_eq!(lenient_bool("0"), Some(false));
    assert_eq!(lenient_bool(""), None);
    assert_eq!(lenient_bool("maybe"), None);
    assert_eq!(lenient_string("  x "), Some("x".to_string()));
    assert_eq!(lenient_string("  "), None);
    assert_eq!(lenient_i64(" -12 "), Some(-12));
    assert_eq!(lenient_i64("+12"), Some(12));
    assert_eq!(lenient_i64("abc"), None);
    assert_eq!(lenient_i64(""), None);
    assert_eq!(lenient_i64("9223372036854775808"), None);
    assert_eq!(lenient_u64(7), Some(7));
    assert_eq!(lenient_u64(u64::MAX), None);
}

#[test]
fn parents_of_taxonomy_lists() {
    assert_eq!(library_parent_filter(None), Some(None));
    assert_eq!(library_parent_filter(Some("")), Some(None));
    assert_eq!(library_parent_filter(Some("l-3")), Some(Some(3)));
    assert_eq!(library_parent_filter(Some("3")), None);
    assert_eq!(library_parent_filter(Some("i-3")), None);
    assert_eq!(resolved_item("i-3", Some(true)), Some(3));
    assert_eq!(resolved_item("i-3", Some(false)), None);
    assert_eq!(resolved_item("i-3", None), None);
    assert_eq!(resolved_item("p-3", Some(true)), None);
}
