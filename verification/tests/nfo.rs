//! NFO documents.

use emrs::nfo::{
    build, decode, extract_person_id, parse_nfo_str, read_nfo, rel_path, root_kind, NfoKind, Walk,
};
use emrs::xml::XmlEvent;

fn rating(text: &Option<String>) -> Option<f64> {
    text.as_deref().and_then(|t| t.parse::<f64>().ok())
}

#[test]
fn parse_tvshow() {
    let xml = r#"<?xml version="1.0" encoding="UTF-8"?>
<tvshow>
  <title>爱书的下克上</title>
  <originaltitle>本好きの下剋上</originaltitle>
  <overview>女大学生转生为书痴少女的故事。</overview>
  <year>2019</year>
  <status>Ended</status>
  <rating>8.1</rating>
  <runtime>24</runtime>
  <tagline>书痴的异世界</tagline>
  <mpaa>TV-14</mpaa>
  <uniqueid type="tmdb">108978</uniqueid>
  <uniqueid type="imdb">tt1234567</uniqueid>
  <art>
    <poster>https://image.tmdb.org/p/example.jpg</poster>
    <fanart>https://image.tmdb.org/p/bg.jpg</fanart>
  </art>
</tvshow>"#;
    let nfo = parse_nfo_str(xml).unwrap();
    assert_eq!(nfo.kind, Some(NfoKind::TvShow));
    assert_eq!(nfo.title.as_deref(), Some("爱书的下克上"));
    assert_eq!(nfo.year, Some(2019));
    assert_eq!(nfo.runtime, Some(24));
    assert_eq!(nfo.status.as_deref(), Some("Ended"));
    assert_eq!(nfo.tagline.as_deref(), Some("书痴的异世界"));
    assert_eq!(nfo.official_rating.as_deref(), Some("TV-14"));
    assert_eq!(rating(&nfo.community_rating), Some(8.1));
    assert_eq!(nfo.tmdb_id.as_deref(), Some("108978"));
    assert_eq!(nfo.imdb_id.as_deref(), Some("tt1234567"));
    assert!(nfo.has_any_id());
    assert_eq!(nfo.poster.as_deref(), Some("https://image.tmdb.org/p/example.jpg"));
    assert_eq!(nfo.backdrops, vec!["https://image.tmdb.org/p/bg.jpg".to_string()]);
}

#[test]
fn parse_episode() {
    let xml = r#"<episodedetails>
  <title>第二话</title>
  <season>2</season>
  <episode>1</episode>
  <uniqueid type="tmdb">1234</uniqueid>
  <thumb>https://img/still.jpg</thumb>
</episodedetails>"#;
    let nfo = parse_nfo_str(xml).unwrap();
    assert_eq!(nfo.kind, Some(NfoKind::Episode));
    assert_eq!(nfo.season, 2);
    assert_eq!(nfo.episode, 1);
    assert_eq!(nfo.tmdb_id.as_deref(), Some("1234"));
    assert_eq!(nfo.poster.as_deref(), Some("https://img/still.jpg"));
}

#[test]
fn parse_movie() {
    let xml = r#"<movie>
  <title>Movie Example</title>
  <year>2020</year>
  <imdbid>tt9999</imdbid>
</movie>"#;
    let nfo = parse_nfo_str(xml).unwrap();
    assert_eq!(nfo.kind, Some(NfoKind::Movie));
    assert_eq!(nfo.imdb_id.as_deref(), Some("tt9999"));
}

#[test]
fn multi_values_and_actors() {
    let xml = r#"<movie>
  <genre>惊悚</genre>
  <genre>剧情</genre>
  <studio>Atom</studio>
  <studio>Fox</studio>
  <tag>revenge</tag>
  <tag>politics</tag>
  <actor>
    <name>惠英红</name>
    <role>Madame Tang</role>
    <thumb>https://img/hkr.jpg</thumb>
    <profile>https://www.themoviedb.org/person/84205</profile>
  </actor>
  <actor>
    <name>巫书维</name>
    <role>Marco</role>
    <thumb/>
  </actor>
</movie>"#;
    let nfo = parse_nfo_str(xml).unwrap();
    assert_eq!(nfo.genres, vec!["惊悚".to_string(), "剧情".to_string()]);
    assert_eq!(nfo.studios, vec!["Atom".to_string(), "Fox".to_string()]);
    assert_eq!(nfo.tags, vec!["revenge".to_string(), "politics".to_string()]);
    assert_eq!(nfo.actors.len(), 2);
    assert_eq!(nfo.actors[0].name, "惠英红");
    assert_eq!(nfo.actors[0].role.as_deref(), Some("Madame Tang"));
    assert_eq!(nfo.actors[0].tmdb_id.as_deref(), Some("84205"));
    assert_eq!(nfo.actors[0].thumb.as_deref(), Some("https://img/hkr.jpg"));
    assert_eq!(nfo.actors[1].tmdb_id, None);
    assert_eq!(nfo.actors[1].thumb, None);
}

#[test]
fn images_classify_poster_backdrop_and_actor_thumb() {
    let xml = r#"<tvshow>
  <title>Show</title>
  <thumb aspect="poster">https://img/poster.jpg</thumb>
  <thumb aspect="poster" season="1" type="season">https://img/season1.jpg</thumb>
  <fanart><thumb>https://img/fanart.jpg</thumb></fanart>
  <actor><name>A</name><thumb>https://img/actor-a.jpg</thumb></actor>
</tvshow>"#;
    let nfo = parse_nfo_str(xml).unwrap();
    assert_eq!(nfo.poster.as_deref(), Some("https://img/poster.jpg"));
    assert_eq!(nfo.backdrops, vec!["https://img/fanart.jpg".to_string()]);
    assert!(!nfo.backdrops.iter().any(|u| u.contains("actor")));
    assert_eq!(nfo.actors[0].thumb.as_deref(), Some("https://img/actor-a.jpg"));
}

#[test]
fn poster_empty_without_any_poster_tag() {
    let xml = r#"<tvshow>
  <title>Show</title>
  <actor><name>A</name><thumb>https://img/actor-a.jpg</thumb></actor>
</tvshow>"#;
    let nfo = parse_nfo_str(xml).unwrap();
    assert!(nfo.poster.is_none(), "a portrait is no poster");
}

#[test]
fn nested_rating() {
    let xml = r#"<movie>
  <title>M</title>
  <ratings>
    <rating default="true" max="10" name="themoviedb"><value>7.006</value><votes>85</votes></rating>
  </ratings>
</movie>"#;
    let nfo = parse_nfo_str(xml).unwrap();
    assert_eq!(rating(&nfo.community_rating), Some(7.006));
}

#[test]
fn extract_person_id_variants() {
    assert_eq!(
        extract_person_id("https://www.themoviedb.org/person/84205").as_deref(),
        Some("84205")
    );
    assert_eq!(
        extract_person_id("https://www.themoviedb.org/person/1294367/").as_deref(),
        Some("1294367")
    );
    assert_eq!(extract_person_id("https://example.com/no-id"), None);
}

#[test]
fn decode_utf16_bom() {
    let mut bytes = vec![0xFF, 0xFE];
    for u in "你好".encode_utf16() {
        bytes.extend_from_slice(&u.to_le_bytes());
    }
    let s = decode(bytes);
    assert_eq!(s, "你好");
}

#[test]
fn decode_other_encodings() {
    let mut bytes = vec![0xFE, 0xFF];
    for u in "a😀".encode_utf16() {
        bytes.extend_from_slice(&u.to_be_bytes());
    }
    bytes.push(0x41);
    assert_eq!(decode(bytes), "a😀", "a byte left over is dropped");
    assert_eq!(decode(vec![0xEF, 0xBB, 0xBF, 0x41]), "A");
    assert_eq!(decode(vec![0x41, 0xFF]), "A\u{FFFD}");
    assert_eq!(decode(vec![0xFF, 0xFE, 0x00, 0xD8]), "", "a lone surrogate gives nothing");
    assert_eq!(decode(vec![]), "");
}

#[test]
fn broken_document_gives_nothing() {
    assert!(parse_nfo_str("<movie><title>x</titl").is_none());
    assert!(parse_nfo_str("<movie></tvshow>").is_none());
    let whole = parse_nfo_str("").unwrap();
    assert_eq!(whole.kind, None);
    assert!(!whole.has_any_id());
}

#[test]
fn documents_are_read_from_bytes() {
    let nfo = read_nfo("<season><season>3</season><plot>a &amp; b</plot></season>".as_bytes().to_vec())
        .unwrap();
    assert_eq!(nfo.kind, Some(NfoKind::Season));
    assert_eq!(nfo.season, 3);
    assert_eq!(nfo.description.as_deref(), Some("a & b"));
}

#[test]
fn paths_below_the_root() {
    let names = |v: &[&str]| v.iter().map(|s| s.to_string()).collect::<Vec<_>>();
    assert_eq!(rel_path(&names(&["movie"]), None), "");
    assert_eq!(rel_path(&names(&["movie", "art", "poster"]), None), "art/poster");
    assert_eq!(rel_path(&names(&["movie", "thumb"]), Some("poster")), "thumb@poster");
    assert_eq!(rel_path(&names(&["movie", "thumb"]), Some("")), "thumb");
    assert_eq!(rel_path(&names(&["movie", "title"]), Some("poster")), "title");
    assert_eq!(root_kind("episode"), Some(NfoKind::Episode));
    assert_eq!(root_kind("other"), None);
}

#[test]
fn a_walk_keeps_first_ids_and_actor_parts() {
    let start = |n: &str, a: &[(&str, &str)]| {
        XmlEvent::Start(
            n.to_string(),
            a.iter().map(|(k, v)| (k.to_string(), v.to_string())).collect(),
        )
    };
    let text = |t: &str| XmlEvent::Text(t.to_string());
    let end = |n: &str| XmlEvent::End(n.to_string());
    let mut w = Walk::new();
    for e in [
        start("movie", &[]),
        start("uniqueid", &[("type", "TMDB")]),
        text(" 1 "),
        end("uniqueid"),
        start("uniqueid", &[("type", "tmdb")]),
        text("2"),
        end("uniqueid"),
        start("actor", &[]),
        start("name", &[]),
        text("A"),
        text("B"),
        end("name"),
        end("actor"),
        XmlEvent::Other,
        end("movie"),
    ] {
        w.step(e);
    }
    assert!(w.stack.is_empty());
    let nfo = build(&w);
    assert_eq!(nfo.tmdb_id.as_deref(), Some("1"));
    assert_eq!(nfo.actors[0].name, "A");
    assert_eq!(nfo.kind, Some(NfoKind::Movie));
}

#[test]
fn written_text_reads_back() {
    for s in ["", "a", "你好 a😀", "\u{10000}\u{10FFFF}", "é\u{FFFD}"] {
        let mut little = vec![0xFF, 0xFE];
        let mut big = vec![0xFE, 0xFF];
        for u in s.encode_utf16() {
            little.extend_from_slice(&u.to_le_bytes());
            big.extend_from_slice(&u.to_be_bytes());
        }
        assert_eq!(decode(little), s);
        assert_eq!(decode(big), s);
        let mut marked = vec![0xEF, 0xBB, 0xBF];
        marked.extend_from_slice(s.as_bytes());
        assert_eq!(decode(marked), s);
        assert_eq!(decode(s.as_bytes().to_vec()), s);
    }
    assert_eq!(decode("\u{FEFF}a".as_bytes().to_vec()), "a");
}

#[test]
fn a_document_that_holds_nothing() {
    let nfo = emrs::nfo::Nfo::default();
    assert!(!nfo.has_any_id());
    assert_eq!((nfo.kind, nfo.title, nfo.season, nfo.episode), (None, None, 0, 0));
    assert!(nfo.genres.is_empty() && nfo.actors.is_empty() && nfo.backdrops.is_empty());
}
