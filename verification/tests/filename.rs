//! Names of media files and season folders.

use emrs::filename::{
    chinese_number, clean_title, decide, extract_year, file_stem, parse_base, parse_filename,
    parse_season_folder, read_bare_number, season_with, tidy_title, title_with_match,
    year_of_token, ParsedName, Sign, Signs,
};

#[test]
fn sxxexx_basic() {
    let p = parse_filename("爱书的下克上 S2E01.mkv");
    assert_eq!(p.title, "爱书的下克上");
    assert_eq!(p.season, 2);
    assert_eq!(p.episode, 1);
    assert!(p.is_episode());
}

#[test]
fn sxxexx_leading_series_dir() {
    let p = parse_filename("租借女友 S1E49.mkv");
    assert_eq!(p.title, "租借女友");
    assert_eq!(p.season, 1);
    assert_eq!(p.episode, 49);
}

#[test]
fn nxn_pattern() {
    let p = parse_filename("Show.Name.1x02.mkv");
    assert_eq!(p.title, "Show.Name");
    assert_eq!(p.season, 1);
    assert_eq!(p.episode, 2);
}

#[test]
fn episode_marker() {
    let p = parse_filename("EP03.mkv");
    assert_eq!(p.episode, 3);
}

#[test]
fn chinese_episode() {
    let p = parse_filename("第01集.mkv");
    assert_eq!(p.episode, 1);
}

#[test]
fn chinese_number_episode() {
    let p = parse_filename("第十二话.mkv");
    assert_eq!(p.episode, 12);
}

#[test]
fn provider_tag() {
    let p = parse_filename("Movie 2020 [tmdb=502419].mkv");
    assert_eq!(p.tmdb_id.as_deref(), Some("502419"));
    assert_eq!(p.year, Some(2020));
    assert_eq!(p.title, "Movie");
}

#[test]
fn year_only_movie() {
    let p = parse_filename("Movie (2019).mkv");
    assert_eq!(p.year, Some(2019));
    assert_eq!(p.title, "Movie");
}

#[test]
fn season_folder() {
    assert_eq!(parse_season_folder("Season 2"), 2);
    assert_eq!(parse_season_folder("S01"), 1);
    assert_eq!(parse_season_folder("第 3 季"), 3);
    assert_eq!(parse_season_folder("specials"), 0);
    assert_eq!(parse_season_folder("爱书的下克上"), -1);
}

#[test]
fn bare_number_weak_episode() {
    let p = parse_filename("01.mkv");
    assert_eq!(p.episode, 1);
    assert!(p.weak_episode);
}

#[test]
fn chinese_number_values() {
    assert_eq!(chinese_number("十"), Some(10));
    assert_eq!(chinese_number("十二"), Some(12));
    assert_eq!(chinese_number("二十"), Some(20));
    assert_eq!(chinese_number("三十七"), Some(37));
}

#[test]
fn chinese_numerals_without_ten_are_digits() {
    assert_eq!(chinese_number("一二三"), Some(123));
    assert_eq!(chinese_number("一"), Some(1));
    assert_eq!(chinese_number("两〇"), Some(20));
    assert_eq!(chinese_number(""), Some(0));
    assert_eq!(chinese_number("零十五"), Some(15));
    assert_eq!(chinese_number("一百"), None);
    assert_eq!(chinese_number("x"), None);
    assert_eq!(chinese_number("九九九九九九九九九九九九九九九九九九九九"), None);
}

#[test]
fn episode_range_comes_before_single_episode() {
    let p = parse_filename("Show S01E03-E04.mkv");
    assert_eq!(p.title, "Show");
    assert_eq!((p.season, p.episode, p.episode_end), (1, 3, 4));
    let q = parse_filename("Show E03-E04.mkv");
    assert_eq!((q.season, q.episode, q.episode_end), (0, 3, 4));
}

#[test]
fn provider_tags_of_all_kinds() {
    let p = parse_filename("Show {imdb-tt123} (tvdb:77) [tmdbid=5] [tmdb=6].mkv");
    assert_eq!(p.imdb_id.as_deref(), Some("tt123"));
    assert_eq!(p.tvdb_id.as_deref(), Some("77"));
    assert_eq!(p.tmdb_id.as_deref(), Some("6"));
    assert_eq!(p.title, "Show");
}

#[test]
fn extension_is_cut_only_if_it_is_one() {
    assert_eq!(file_stem("a.mkv"), "a");
    assert_eq!(file_stem("a.b.mp4"), "a.b");
    assert_eq!(file_stem("a."), "a.");
    assert_eq!(file_stem("a.toolong"), "a.toolong");
    assert_eq!(file_stem("a.日本"), "a.日本");
    assert_eq!(file_stem("plain"), "plain");
}

#[test]
fn titles_are_tidied() {
    assert_eq!(tidy_title("..[ Some   Title ]--"), "Some Title");
    assert_eq!(tidy_title("\u{3000}A\tB"), "A B");
    assert_eq!(clean_title("  Some.Movie (1999) extra "), "Some.Movie");
    assert_eq!(
        title_with_match("x (1999)", &Some(vec![Some("x (1999)".to_string()), Some(" x ".to_string())])),
        "x"
    );
    assert_eq!(title_with_match("x", &None), "x");
}

#[test]
fn years_are_plausible() {
    assert_eq!(extract_year("Movie.2019.mkv"), Some(2019));
    assert_eq!(extract_year("Movie 2150"), None);
    assert_eq!(year_of_token(Some("1899")), None);
    assert_eq!(year_of_token(Some("1900")), Some(1900));
    assert_eq!(year_of_token(Some("2099")), Some(2099));
    assert_eq!(year_of_token(None), None);
}

#[test]
fn bare_numbers() {
    assert_eq!(read_bare_number(" 0 7 "), Some(7));
    assert_eq!(read_bare_number("7a"), None);
    assert_eq!(read_bare_number("  "), None);
    assert_eq!(read_bare_number("99999999999999999999"), None);
}

#[test]
fn first_sign_decides() {
    let sign = |n: &str, title: &str| {
        Some(Sign {
            groups: vec![None, Some(n.to_string()), Some("8".to_string())],
            title: title.to_string(),
        })
    };
    let p = decide(&Signs {
        tags: vec![("TMDB".to_string(), "1".to_string())],
        range: None,
        season_episode: sign("2", "strong"),
        crossed: sign("3", "weak"),
        marker: sign("4", "weaker"),
        chinese: None,
        chinese_num: None,
        year: Some(2001),
        bare: "5".to_string(),
        bare_title: "5".to_string(),
    });
    assert_eq!(p.title, "strong");
    assert_eq!((p.season, p.episode, p.episode_end), (2, 8, 0));
    assert_eq!(p.tmdb_id.as_deref(), Some("1"));
    assert_eq!(p.year, Some(2001));
    assert!(!p.weak_episode);
}

#[test]
fn season_signs_in_order() {
    assert_eq!(season_with("x", Some(4), Some(5), None, None), 4);
    assert_eq!(season_with("x", None, Some(5), Some(6), None), 5);
    assert_eq!(season_with("x", None, None, None, Some(7)), 7);
    assert_eq!(season_with(" Specials ", None, None, None, None), 0);
    assert_eq!(season_with("特别篇", None, None, None, None), 0);
    assert_eq!(season_with("x", None, None, None, None), -1);
    assert_eq!(parse_season_folder("第二季"), 2);
    assert_eq!(parse_season_folder("第十季"), 10);
}

#[test]
fn ranges_without_a_dash() {
    for name in ["S01E03E04.mkv", "Show.S01E03E04.mkv", "Show S01EP03EP04.mkv"] {
        let p = parse_filename(name);
        assert_eq!((p.season, p.episode, p.episode_end), (1, 3, 4), "{name}");
    }
    let p = parse_filename("Show.S01E03.E04.mkv");
    assert_eq!((p.season, p.episode, p.episode_end), (1, 3, 0));
    let p = parse_filename("E03-E04.mkv");
    assert_eq!((p.season, p.episode, p.episode_end), (0, 3, 4));
}

#[test]
fn a_season_alone_is_a_hint() {
    let mut p = parse_filename("Movie.mkv");
    assert!(!p.is_episode());
    p.season = 1;
    assert!(p.is_episode());
}

#[test]
fn cleaned_titles_stay() {
    for raw in ["  [A]\t b\r\n(c) -", "._- x ~", "((2019)) y (2020)", "A (2019) (2020)", "(((", ""] {
        let t = clean_title(raw);
        assert_eq!(clean_title(&t), t, "{raw:?}");
        assert!(!t.contains("  ") && !t.contains('\t') && !t.contains('\n'));
        let edge = |c: char| c.is_whitespace() || "._-+~[]()".contains(c);
        assert!(!t.starts_with(edge) && !t.ends_with(edge), "{t:?}");
    }
}

#[test]
fn a_tag_sets_only_its_id() {
    for name in ["Show S01E02", "Movie (2019)", "12", "第三话"] {
        let plain = parse_base(name);
        let mut tagged = parse_base(&format!("{name}[tmdb=a1]"));
        assert_eq!(tagged.tmdb_id.take().as_deref(), Some("a1"));
        assert_eq!(tagged, plain, "{name}");
    }
}

/// All texts of up to `n` of these pieces.
fn combinations(pieces: &[&str], n: usize) -> Vec<String> {
    let mut all = vec![String::new()];
    let mut last = all.clone();
    for _ in 0..n {
        last = last.iter().flat_map(|s| pieces.iter().map(move |p| format!("{s}{p}"))).collect();
        all.extend(last.iter().cloned());
    }
    all
}

#[test]
fn cleaning_twice_is_cleaning_once() {
    let pieces = ["(2019)", "[", "\t", "1987]", "x.", "[20\u{661}\u{662})"];
    for raw in combinations(&pieces, 3) {
        let t = clean_title(&raw);
        assert_eq!(clean_title(&t), t, "{raw:?}");
    }
}

#[test]
fn a_tag_behind_any_name_sets_only_its_id() {
    let pieces = ["[", "]", "tmdb", "[tmdb=7", "[tvdb=1]", "{imdb-tt2", "}", "E03"];
    let kinds = ["tmdb", "tmdbid", "imdb", "imdbid", "tvdb", "tvdbid"];
    for (i, name) in combinations(&pieces, 2).iter().enumerate() {
        let kind = kinds[i % 6];
        let mut expected = parse_base(name);
        let id = Some("a1Z".to_string());
        match &kind[..4] {
            "tmdb" => expected.tmdb_id = id,
            "imdb" => expected.imdb_id = id,
            _ => expected.tvdb_id = id,
        }
        assert_eq!(parse_base(&format!("{name}[{kind}=a1Z]")), expected, "{name:?}");
    }
}

#[test]
fn a_name_that_tells_nothing() {
    assert_eq!(parse_filename(""), ParsedName::default());
    assert!(!ParsedName::default().is_episode());
    assert!(ParsedName { season: 1, ..Default::default() }.is_episode());
}
