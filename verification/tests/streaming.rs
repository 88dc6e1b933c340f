//! Ranges, content types, sources, reports and images.

use emrs::emby::rows::MediaSourceRow;
use emrs::images::{
    image_of_tag, image_plan, image_target, jpeg_quality, max_size, measure, open_image,
    render_image, resized_type, ImageOwner, ImagePlan, ResizeQuery,
};
use emrs::progress::{
    image_ids_wanted, is_complete, parse_report, position_ms, resolve_runtime, session_id,
};
use emrs::streaming::{
    direct_key, local_path, mime_for, parse_range, play_plan, probe_timeout_secs, resolved_status, serve_plan,
    should_backfill, starts_probe, subtitle_found, subtitle_offset, CloudRef, HttpDriver, PlayPlan,
    RangeResult,
};

#[test]
fn strm_should_backfill_when_no_streams() {
    assert!(should_backfill(Some("url"), None));
    assert!(should_backfill(Some("url"), Some("")));
    assert!(should_backfill(Some("url"), Some("[]")));
    assert!(should_backfill(Some("strm"), Some("[]")));
    assert!(!should_backfill(Some("url"), Some(r#"[{"stream_type":"Video"}]"#)));
    assert!(!should_backfill(Some("url"), Some("{}")));
    assert!(!should_backfill(Some("local"), None));
    assert!(!should_backfill(Some("local"), Some("[]")));
    assert!(!should_backfill(None, None));
    assert!(!should_backfill(Some("webdav"), None));
}

#[test]
fn ranges() {
    assert_eq!(parse_range(None, 10), RangeResult::Full);
    assert_eq!(parse_range(Some("bytes=2-5"), 10), RangeResult::Partial(2, 5));
    assert_eq!(parse_range(Some("bytes=2-"), 10), RangeResult::Partial(2, 9));
    assert_eq!(parse_range(Some(" 2 - 99 "), 10), RangeResult::Partial(2, 9));
    assert_eq!(parse_range(Some("bytes=-3"), 10), RangeResult::Partial(7, 9));
    assert_eq!(parse_range(Some("bytes=-30"), 10), RangeResult::Partial(0, 9));
    assert_eq!(parse_range(Some("bytes=-0"), 10), RangeResult::Unsat);
    assert_eq!(parse_range(Some("bytes=-3"), 0), RangeResult::Unsat);
    assert_eq!(parse_range(Some("bytes=10-"), 10), RangeResult::Unsat);
    assert_eq!(parse_range(Some("bytes=5-2"), 10), RangeResult::Unsat);
    assert_eq!(parse_range(Some("bytes=x-2"), 10), RangeResult::Unsat);
    assert_eq!(parse_range(Some("bytes=1-x"), 10), RangeResult::Unsat);
    assert_eq!(parse_range(Some("bytes=1"), 10), RangeResult::Unsat);
    assert_eq!(parse_range(Some("bytes=+1-2"), 10), RangeResult::Partial(1, 2));
    for total in 1..20u64 {
        for a in 0..25u64 {
            for b in 0..25u64 {
                let header = format!("bytes={a}-{b}");
                if let RangeResult::Partial(s, e) = parse_range(Some(&header), total) {
                    assert!(s <= e && e < total);
                }
            }
        }
    }
}

#[test]
fn answers_to_ranges() {
    let full = serve_plan(None, 10);
    assert_eq!((full.status, full.start, full.length, full.content_range), (200, 0, 10, None));
    let part = serve_plan(Some("bytes=2-5"), 10);
    assert_eq!((part.status, part.start, part.length), (206, 2, 4));
    assert_eq!(part.content_range.as_deref(), Some("bytes 2-5/10"));
    let none = serve_plan(Some("bytes=11-"), 10);
    assert_eq!((none.status, none.length), (416, 0));
    assert_eq!(none.content_range.as_deref(), Some("bytes */10"));
}

#[test]
fn content_types() {
    for (path, mime) in [
        ("/a/b.MP4", "video/mp4"),
        ("x.m4v", "video/mp4"),
        ("x.mkv", "video/x-matroska"),
        ("x.webm", "video/webm"),
        ("x.avi", "video/x-msvideo"),
        ("x.m2ts", "video/mp2t"),
        ("x.mov", "video/quicktime"),
        ("x.wmv", "video/x-ms-wmv"),
        ("x.flv", "video/x-flv"),
        ("x.mpeg", "video/mpeg"),
        ("x.3gp", "video/3gpp"),
        ("x.ogv", "video/ogg"),
        ("x.srt", "application/octet-stream"),
        ("mp4", "video/mp4"),
        ("a.mkv/b", "application/octet-stream"),
    ] {
        assert_eq!(mime_for(path), mime, "{path}");
    }
    assert_eq!(local_path("file:///a"), "/a");
    assert_eq!(local_path("/a"), "/a");
}

#[test]
fn sources_are_played() {
    assert!(matches!(play_plan(None, Some("local")), PlayPlan::NotFound));
    assert!(matches!(play_plan(Some("/a"), Some("local")), PlayPlan::Serve(p) if p == "/a"));
    assert!(matches!(play_plan(Some("u"), None), PlayPlan::Redirect(p) if p == "u"));
    match play_plan(Some("u"), Some("strm")) {
        PlayPlan::Resolve(r) => {
            assert_eq!((r.path_type.as_str(), r.path_url.as_str()), ("strm", "u"));
            assert_eq!(HttpDriver.resolve_direct(&r).as_deref(), Some("u"));
        }
        _ => panic!("a known kind is left to its driver"),
    }
    assert_eq!(HttpDriver.kind(), "http");
    let r = CloudRef { path_type: "http".into(), path_url: "x".into() };
    assert_eq!(resolved_status(&Ok(HttpDriver.resolve_direct(&r))), 307);
    assert_eq!(resolved_status(&Ok(None)), 404);
    assert_eq!(resolved_status(&Err("e".into())), 500);
    let r = CloudRef { path_type: "url".into(), path_url: "https://cdn.example.com/a.mp4".into() };
    assert_eq!(direct_key(&r), "direct:url:https://cdn.example.com/a.mp4");
    assert_eq!(HttpDriver.resolve_direct(&r).as_deref(), Some("https://cdn.example.com/a.mp4"));
    assert_eq!(subtitle_offset(-3), 0);
    assert_eq!(subtitle_offset(3), 3);
    assert!(subtitle_found(Some("x")));
    assert!(!subtitle_found(Some("")));
    assert!(!subtitle_found(None));
}

#[test]
fn probes_in_the_background() {
    let m = MediaSourceRow {
        media_id: Some(5),
        item_id: 1,
        uuid: None,
        name: None,
        path_type: Some("strm".into()),
        path_url: Some("http://x".into()),
        file_container: None,
        file_size: None,
        file_second: None,
        file_metadata: None,
        file_chapters: None,
    };
    assert!(starts_probe(true, &m, &vec![4]));
    assert!(!starts_probe(false, &m, &vec![]));
    assert!(!starts_probe(true, &m, &vec![4, 5]));
    let mut n = m.clone();
    n.path_url = Some(String::new());
    assert!(!starts_probe(true, &n, &vec![]));
    n = m.clone();
    n.media_id = None;
    assert!(!starts_probe(true, &n, &vec![]));
    n = m.clone();
    n.file_metadata = Some("[1]".into());
    assert!(!starts_probe(true, &n, &vec![]));
    assert_eq!(probe_timeout_secs(0), 1);
    assert_eq!(probe_timeout_secs(9), 9);
}

#[test]
fn reports() {
    let r = parse_report(
        br#"{"ItemId":"i-1","PositionTicks":25000,"Failed":true,"Item":{"RunTimeTicks":70}}"#,
    );
    assert_eq!(r.item_id.as_deref(), Some("i-1"));
    assert_eq!((r.position_ticks, r.failed, r.runtime_ticks), (25000, true, 70));
    let r = parse_report(br#"{"RunTimeTicks":5,"Item":{"RunTimeTicks":70},"PositionTicks":1.5}"#);
    assert_eq!((r.runtime_ticks, r.position_ticks, r.failed), (5, 0, false));
    assert_eq!(r.item_id, None);
    let r = parse_report(b"");
    assert!(r.item_id.is_none());
    assert_eq!(r.runtime_ticks, 0);
    assert_eq!(position_ms(25_999), 2);
    assert_eq!(position_ms(-25_999), -2);
    assert_eq!(resolve_runtime(0, Some(3)), 30_000_000);
    assert_eq!(resolve_runtime(8, Some(3)), 8);
    assert_eq!(resolve_runtime(0, None), 0);
    assert!(is_complete(false, 80, 100));
    assert!(!is_complete(false, 79, 100));
    assert!(!is_complete(true, 100, 100));
    assert!(!is_complete(true, 100, i64::MAX));
    assert!(!is_complete(false, 100, 0));
    assert_eq!(session_id(7), "session-7");
    assert!(image_ids_wanted(&vec![]).is_empty());
}

#[test]
fn images() {
    assert_eq!(image_of_tag(Some("img-7")), Some(7));
    assert_eq!(image_of_tag(Some("i-7")), None);
    assert_eq!(image_of_tag(None), None);
    for (path, ty, index) in [
        ("Primary", "primary", 0),
        ("Primary/0", "primary", 0),
        ("primary.jpg", "primary", 0),
        ("Backdrop/2.jpg", "backdrop", 2),
        ("Backdrop/x", "backdrop", 0),
    ] {
        let t = image_target("p-4", path).unwrap();
        assert_eq!(t.owner, ImageOwner::Person(4));
        assert_eq!((t.image_type.as_str(), t.index), (ty, index), "{path}");
    }
    assert_eq!(image_target("i-4", "Logo").unwrap().owner, ImageOwner::Item(4));
    assert!(image_target("l-4", "Logo").is_none());
    assert!(image_target("4", "Logo").is_none());
    let mut q = ResizeQuery::default();
    assert_eq!(image_plan(None, true, &q), ImagePlan::NotFound);
    assert_eq!(image_plan(Some(""), true, &q), ImagePlan::NotFound);
    assert_eq!(image_plan(Some("u"), false, &q), ImagePlan::Redirect);
    assert_eq!(image_plan(Some("u"), true, &q), ImagePlan::Proxy);
    q.maxheight = Some(3);
    assert_eq!(image_plan(Some("u"), true, &q), ImagePlan::Resize);
    assert_eq!(max_size(None, 20), 20);
    assert_eq!(max_size(Some(10), 20), 10);
    assert_eq!(max_size(Some(-1), 20), 1);
    assert_eq!(max_size(Some(0x1_0000_0005), 20), 5);
    assert_eq!(jpeg_quality(None), 90);
    assert_eq!(jpeg_quality(Some(0)), 1);
    assert_eq!(jpeg_quality(Some(101)), 100);
    assert_eq!(jpeg_quality(Some(55)), 55);
    assert_eq!(resized_type(true), "image/png");
    assert_eq!(resized_type(false), "image/jpeg");
}

fn make_alpha_png(w: u32, h: u32) -> Vec<u8> {
    let mut img = image::RgbaImage::new(w, h);
    for (x, _y, p) in img.enumerate_pixels_mut() {
        *p = if x < w / 2 {
            image::Rgba([0, 0, 0, 0])
        } else {
            image::Rgba([255, 255, 255, 255])
        };
    }
    let mut out = Vec::new();
    image::DynamicImage::ImageRgba8(img)
        .write_to(&mut std::io::Cursor::new(&mut out), image::ImageFormat::Png)
        .unwrap();
    out
}

fn make_opaque_jpeg(w: u32, h: u32) -> Vec<u8> {
    let img = image::RgbImage::new(w, h);
    let mut out = Vec::new();
    let enc = image::codecs::jpeg::JpegEncoder::new_with_quality(&mut out, 90);
    image::DynamicImage::ImageRgb8(img).write_with_encoder(enc).unwrap();
    out
}

fn resized(bytes: &[u8], q: &ResizeQuery) -> Option<(Vec<u8>, &'static str)> {
    let img = open_image(bytes)?;
    let size = measure(&img);
    let mw = max_size(q.maxwidth, size.width) as f64;
    let mh = max_size(q.maxheight, size.height) as f64;
    let scale = (mw / size.width as f64).min(mh / size.height as f64).min(1.0);
    let w = ((size.width as f64 * scale).round() as u32).max(1);
    let h = ((size.height as f64 * scale).round() as u32).max(1);
    render_image(&img, w, h, q.quality)
}

#[test]
fn resize_alpha_png_outputs_png_with_alpha() {
    let bytes = make_alpha_png(20, 20);
    let q = ResizeQuery { maxwidth: Some(10), maxheight: None, quality: None, tag: None };
    let (out, ct) = resized(&bytes, &q).unwrap();
    assert_eq!(ct, "image/png", "带 alpha 的图必须输出 PNG 保透明");
    let decoded = image::ImageReader::new(std::io::Cursor::new(&out))
        .with_guessed_format()
        .unwrap()
        .decode()
        .unwrap();
    assert!(decoded.color().has_alpha(), "输出应保留 alpha 通道");
    assert_eq!((decoded.width(), decoded.height()), (10, 10));
}

#[test]
fn resize_opaque_jpeg_outputs_jpeg() {
    let bytes = make_opaque_jpeg(16, 16);
    let q = ResizeQuery { maxwidth: Some(8), maxheight: None, quality: None, tag: None };
    let (_, ct) = resized(&bytes, &q).unwrap();
    assert_eq!(ct, "image/jpeg", "无 alpha 的图仍走 JPEG 压缩");
}

#[test]
fn images_that_cannot_be_decoded() {
    assert!(open_image(b"no image").is_none());
    let img = open_image(&make_opaque_jpeg(16, 9)).unwrap();
    let size = measure(&img);
    assert_eq!((size.width, size.height, size.alpha), (16, 9, false));
    let (out, _) = render_image(&img, 16, 9, Some(50)).unwrap();
    let (small, _) = render_image(&img, 8, 9, None).unwrap();
    let small = measure(&open_image(&small).unwrap());
    assert!(small.width == 8 && 1 <= small.height && small.height <= 9);
    let (worse, _) = render_image(&img, 16, 9, Some(1)).unwrap();
    assert_ne!(out, worse);
}
