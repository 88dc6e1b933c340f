//! Tokens, devices and the guard.

use emrs::auth::{
    choose_token, device_from_parts, extract_token, guard_after_cache, guard_after_lookup,
    guard_begin, hex_val, is_compat_anonymous_read, lowercase_query, note_key, parse_emby_auth,
    percent_decode, query_value_for, rejection_text, rewritten_target, urldecode, GuardStep, TokenSources,
};

fn sources(query: Option<&str>, headers: &[(&str, &str)]) -> TokenSources {
    let header = |name: &str| {
        headers
            .iter()
            .find(|(k, _)| k.eq_ignore_ascii_case(name))
            .map(|(_, v)| v.to_string())
    };
    TokenSources {
        authorization: header("Authorization"),
        query: query.map(String::from),
        x_emby_token: header("X-Emby-Token"),
        x_mediabrowser_token: header("X-MediaBrowser-Token"),
        x_emby_authorization: header("X-Emby-Authorization"),
    }
}

#[test]
fn token_matrix() {
    let p = sources(None, &[("Authorization", "Bearer abc")]);
    assert_eq!(extract_token(&p), "abc");
    let p = sources(Some("X-Emby-Token=t1"), &[]);
    assert_eq!(extract_token(&p), "t1");
    let p = sources(Some("api_key=t2"), &[]);
    assert_eq!(extract_token(&p), "t2");
    let p = sources(None, &[("X-Emby-Token", "t3")]);
    assert_eq!(extract_token(&p), "t3");
    let p = sources(
        None,
        &[(
            "X-Emby-Authorization",
            r#"MediaBrowser Client="Infuse", Device="iPhone", DeviceId="d1", Version="7", Token="t4""#,
        )],
    );
    assert_eq!(extract_token(&p), "t4");
    let p = sources(Some("x-emby-token=q"), &[("Authorization", "Bearer h")]);
    assert_eq!(extract_token(&p), "h");
}

#[test]
fn device_parse() {
    let d = device_from_parts(Some(
        r#"MediaBrowser Client="Infuse", Device="iPhone 15", DeviceId="abc", Version="7.8""#,
    ));
    assert_eq!(d.client, "Infuse");
    assert_eq!(d.device, "iPhone 15");
    assert_eq!(d.device_id, "abc");
    assert_eq!(d.version, "7.8");
}

#[test]
fn anonymous_read_paths() {
    assert!(is_compat_anonymous_read("GET", "/Sessions"));
    assert!(is_compat_anonymous_read("GET", "/emby/Items/Counts"));
    assert!(is_compat_anonymous_read("HEAD", "/emby/emby/System/Info"));
    assert!(!is_compat_anonymous_read("GET", "/Videos/1/a.mp4"));
    assert!(!is_compat_anonymous_read("GET", "/Videos/1"));
    assert!(!is_compat_anonymous_read("POST", "/Sessions"));
}

#[test]
fn lowercase_query_rewrites() {
    assert_eq!(
        lowercase_query("MediaSourceId=42&UserID=7").as_deref(),
        Some("mediasourceid=42&userid=7")
    );
    assert_eq!(lowercase_query("&Limit&&A=B=C&").as_deref(), Some("limit&a=B=C"));
    assert_eq!(lowercase_query("&&"), None);
    assert_eq!(lowercase_query(""), None);
    assert_eq!(
        rewritten_target("/probe", Some("MediaSourceId=42&UserID=7")).as_deref(),
        Some("/probe?mediasourceid=42&userid=7")
    );
    assert_eq!(rewritten_target("/probe", Some("&")), None);
    assert_eq!(rewritten_target("/probe", None), None);
    let once = lowercase_query("Ab=Cd&EF").unwrap();
    assert_eq!(lowercase_query(&once), Some(once.clone()));
}

#[test]
fn tokens_in_order() {
    let all = [
        ("X-Emby-Token", "h1"),
        ("X-MediaBrowser-Token", "h2"),
        ("X-Emby-Authorization", "Emby Token=e"),
    ];
    assert_eq!(extract_token(&sources(Some("apikey=q"), &all)), "q");
    assert_eq!(extract_token(&sources(Some("apikey="), &all)), "h1");
    assert_eq!(extract_token(&sources(None, &all[1..])), "h2");
    assert_eq!(extract_token(&sources(None, &all[2..])), "e");
    assert_eq!(extract_token(&sources(None, &[])), "");
    assert_eq!(extract_token(&sources(None, &[("Authorization", "bEaReR   x ")])), "x");
    assert_eq!(extract_token(&sources(None, &[("Authorization", "Bearer ")])), "");
    assert_eq!(extract_token(&sources(None, &[("Authorization", "Basic abcd")])), "");
    assert_eq!(choose_token(&sources(None, &all), Some("d".to_string())), "d");
}

#[test]
fn query_values_are_decoded() {
    assert_eq!(urldecode("a%20b+c%4"), "a b c%4");
    assert_eq!(urldecode("%e4%bd%a0"), "你");
    assert_eq!(urldecode("%FF"), "\u{FFFD}");
    assert_eq!(urldecode("%zz%"), "%zz%");
    assert_eq!(percent_decode(b"%41%4a+"), b"AJ ".to_vec());
    assert_eq!(hex_val(Some(&b'f')), Some(15));
    assert_eq!(hex_val(Some(&b'F')), Some(15));
    assert_eq!(hex_val(Some(&b'g')), None);
    assert_eq!(hex_val(None), None);
    assert_eq!(query_value_for(Some("x=1&API_KEY=a%20b")).as_deref(), Some("a%20b"));
    assert_eq!(query_value_for(Some("api_key")), None);
    assert_eq!(query_value_for(None), None);
    assert_eq!(extract_token(&sources(Some("x=1&API_KEY=a%20b"), &[])), "a b");
}

#[test]
fn header_values_are_trimmed_and_cut() {
    let long = "x".repeat(300);
    let raw = format!("Client = \"\"a\"\" ,Device={long},deviceid=1,DeviceId=2,junk,Token=\"\"");
    let (token, d) = parse_emby_auth(&raw);
    assert_eq!(token, None);
    assert_eq!(d.client, "a");
    assert_eq!(d.device.len(), 200);
    assert_eq!(d.device_id, "2");
    assert_eq!(d.version, "");
    assert_eq!(device_from_parts(None).device_id, "");
}

#[test]
fn guard_steps() {
    assert_eq!(guard_begin("", "k", "GET", "/Sessions"), GuardStep::PassAnonymous);
    assert_eq!(guard_begin("", "k", "GET", "/Items"), GuardStep::Reject);
    assert_eq!(guard_begin("k", "k", "GET", "/Items"), GuardStep::PassMaster);
    assert_eq!(guard_begin("t", "", "GET", "/Items"), GuardStep::AskCache);
    assert_eq!(guard_after_cache(Some("revoked")), GuardStep::Reject);
    assert_eq!(guard_after_cache(Some("admin:ok")), GuardStep::AskAdmin { noted: true });
    assert_eq!(guard_after_cache(Some("user:ok")), GuardStep::AskUser { noted: true });
    assert_eq!(guard_after_cache(Some("?")), GuardStep::AskAdmin { noted: false });
    assert_eq!(guard_after_cache(None), GuardStep::AskAdmin { noted: false });
    let look = |step, found| guard_after_lookup(step, found, "GET", "/Items");
    assert_eq!(look(GuardStep::AskUser { noted: true }, true), GuardStep::Pass);
    assert_eq!(
        look(GuardStep::AskUser { noted: true }, false),
        GuardStep::AskAdmin { noted: false }
    );
    assert_eq!(look(GuardStep::AskAdmin { noted: false }, true), GuardStep::NoteAdmin);
    assert_eq!(
        look(GuardStep::AskAdmin { noted: false }, false),
        GuardStep::AskUser { noted: false }
    );
    assert_eq!(look(GuardStep::AskUser { noted: false }, true), GuardStep::NoteUser);
    assert_eq!(look(GuardStep::AskUser { noted: false }, false), GuardStep::Reject);
    assert_eq!(
        guard_after_lookup(GuardStep::AskUser { noted: false }, false, "HEAD", "/Sessions"),
        GuardStep::PassAnonymous
    );
    assert_eq!(rejection_text(), "登录失效 请重新登录");
    assert_eq!(note_key("h"), "auth:h");
}
