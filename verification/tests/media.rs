//! Streams and media sources.

use emrs::emby::language::{display_language, external_subtitle_language, language_name};
use emrs::emby::media_source::{
    defaults_from_streams, estimate_bitrate, media_sources_json, playback_claims, playback_info,
    ticket_ttl, PlaybackRefusal, PlaybackSource, RequiredHttpHeaders, TicketError,
};
use emrs::emby::rows::{ExternalSubtitleRow, MediaSourceRow, StreamInfo};
use emrs::emby::streams::{
    channel_label, codec_tag, external_subtitle_title, is_anamorphic, media_streams_json,
    stream_display_title, stream_json, subtitle_codec, title_with_codec, video_range,
    MediaStreamDto,
};

fn stream(ty: &str, codec: &str) -> StreamInfo {
    StreamInfo {
        stream_type: ty.into(),
        codec: codec.into(),
        index: None,
        title: None,
        language: None,
        width: None,
        height: None,
        frame_rate: None,
        bit_rate: None,
        channels: None,
        sample_rate: None,
        pixel_format: None,
        profile: None,
        bit_depth: None,
        color_primaries: None,
        color_space: None,
        color_transfer: None,
        display_aspect_ratio: None,
        is_default: None,
        is_forced: None,
        time_base: None,
        level: None,
        refs: None,
        is_interlaced: None,
        channel_layout: None,
        sample_aspect_ratio: None,
        is_avc: None,
    }
}

fn source() -> MediaSourceRow {
    MediaSourceRow {
        media_id: Some(4),
        item_id: 12,
        uuid: Some("u1".into()),
        name: None,
        path_type: Some("local".into()),
        path_url: Some("/m/a.mkv".into()),
        file_container: None,
        file_size: Some(1000),
        file_second: Some(4),
        file_metadata: None,
        file_chapters: Some("[{\"a\":1},2]".into()),
    }
}

fn check_external_subtitle_title_marks_forced() {
    assert_eq!(external_subtitle_title("JPSC.ass", "ass", false), "JPSC.ass (ass)");
    assert_eq!(
        external_subtitle_title("Movie.eng.forced.srt", "srt", true),
        "Movie.eng.forced.srt (srt) (强制)"
    );
    assert_eq!(external_subtitle_title("", "ass", false), "ass");
    assert_eq!(external_subtitle_title("", "ass", true), "ass (强制)");
}

#[test]
fn dto_external_subtitle_title_marks_forced() {
    check_external_subtitle_title_marks_forced();
}

#[test]
fn media_source_external_subtitle_title_marks_forced() {
    check_external_subtitle_title_marks_forced();
}

fn check_media_stream_dto_shape() {
    assert_eq!(format!("{:?}", RequiredHttpHeaders {}), "RequiredHttpHeaders");

    let mut v = stream("Video", "h264");
    v.index = Some(0);
    v.width = Some(1920);
    v.height = Some(1080);
    v.frame_rate = Some(23.976f64.to_bits());
    v.bit_rate = Some(7541653);
    v.color_transfer = Some("bt709".into());
    v.color_primaries = Some("bt709".into());
    v.color_space = Some("bt709".into());
    v.is_avc = Some(true);
    v.is_default = Some(true);
    v.time_base = Some("1/1000".into());
    v.pixel_format = Some("yuv420p".into());
    v.profile = Some("High".into());
    v.level = Some(40);
    let s = stream_json(&v, 0, Some("mp4"));
    assert_eq!(s.stream_type, "Video");
    assert_eq!(s.codec, "h264");
    assert_eq!(s.video_range.as_deref(), Some("SDR"));
    assert_eq!(s.bit_rate, Some(7541653));
    assert_eq!(s.height, Some(1080));
    assert_eq!(s.nal_length_size.as_deref(), Some("4"));
    assert!(s.language.is_none());
    assert!(s.channels.is_none());
    assert_eq!(s.average_frame_rate.map(f64::from_bits), Some(23.976));

    let mut v2 = v.clone();
    v2.codec = "hevc".into();
    v2.is_avc = Some(false);
    let s2 = stream_json(&v2, 0, Some("mkv"));
    assert!(s2.nal_length_size.is_none());

    let mut a = stream("Audio", "flac");
    a.index = Some(1);
    a.language = Some("jpn".into());
    a.channels = Some(2);
    a.sample_rate = Some(48000);
    a.channel_layout = Some("stereo".into());
    a.is_default = Some(true);
    a.time_base = Some("1/1000".into());
    let sa = stream_json(&a, 1, Some("mp4"));
    assert_eq!(sa.stream_type, "Audio");
    assert_eq!(sa.language.as_deref(), Some("jpn"));
    assert_eq!(sa.channels, Some(2));
    assert!(sa.height.is_none());
}

#[test]
fn dto_media_stream_dto_shape() {
    check_media_stream_dto_shape();
}

#[test]
fn media_source_media_stream_dto_shape() {
    check_media_stream_dto_shape();
}

#[test]
fn titles_of_streams() {
    let mut v = stream("Video", "h264");
    v.height = Some(1080);
    assert_eq!(stream_display_title(&v), "1080p H264");
    v.height = Some(0);
    assert_eq!(stream_display_title(&v), "H264");
    let mut a = stream("Audio", "aac");
    a.language = Some("jpn".into());
    a.channels = Some(2);
    a.is_default = Some(true);
    assert_eq!(stream_display_title(&a), "Japanese AAC stereo (默认)");
    a.language = None;
    a.channels = Some(3);
    a.is_default = None;
    assert_eq!(stream_display_title(&a), "AAC");
    a.channel_layout = Some("5.1(side)".into());
    assert_eq!(stream_display_title(&a), "AAC 5.1(side)");
    let mut s = stream("Subtitle", "ass");
    s.language = Some("chi".into());
    s.is_default = Some(true);
    assert_eq!(stream_display_title(&s), "Chinese (默认 ASS)");
    s.title = Some("简体".into());
    assert_eq!(stream_display_title(&s), "简体 (默认 ASS)");
    s.language = Some("eng".into());
    s.is_default = None;
    assert_eq!(stream_display_title(&s), "English (ASS)");
    s.language = Some("xyz".into());
    assert_eq!(stream_display_title(&s), "xyz (ASS)");
    s.language = None;
    s.title = None;
    s.codec = "hdmv_pgs_subtitle".into();
    assert_eq!(stream_display_title(&s), "hdmv_pgs_subtitle (PGS)");
    assert_eq!(title_with_codec(&v, "X"), "X");
}

#[test]
fn codecs_and_ranges() {
    assert_eq!(subtitle_codec("WebVTT"), "vtt");
    assert_eq!(subtitle_codec("dvd_subtitle"), "dvdsub");
    assert_eq!(subtitle_codec("SubRip"), "subrip");
    assert_eq!(codec_tag("H265"), Some("hvc1"));
    assert_eq!(codec_tag("ac3"), Some("ac-3"));
    assert_eq!(codec_tag("flac"), None);
    assert_eq!(channel_label(6), Some("5.1"));
    assert_eq!(channel_label(1), Some("mono"));
    assert_eq!(channel_label(8), Some("7.1"));
    assert_eq!(channel_label(4), None);
    let mut v = stream("Video", "hevc");
    assert!(!is_anamorphic(&v));
    v.sample_aspect_ratio = Some("4:3".into());
    assert!(is_anamorphic(&v));
    v.sample_aspect_ratio = Some("0:1".into());
    assert!(!is_anamorphic(&v));
    v.color_transfer = Some("smpte2084".into());
    assert_eq!(video_range(&v), "HDR10");
    v.color_transfer = Some("arib-std-b67".into());
    assert_eq!(video_range(&v), "HLG");
    assert_eq!(stream_json(&v, 0, Some("mkv")).codec_tag, None);
    assert_eq!(stream_json(&v, 0, Some("mov")).codec_tag.as_deref(), Some("hvc1"));
}

#[test]
fn languages() {
    assert_eq!(language_name("ENG"), Some("English"));
    assert_eq!(language_name("yue"), Some("Chinese (Cantonese)"));
    assert_eq!(language_name("ca"), Some("Catalan"));
    assert_eq!(language_name("xx"), None);
    assert_eq!(display_language(&Some("xx".to_string())).as_deref(), Some("xx"));
    assert_eq!(display_language(&None), None);
    assert_eq!(external_subtitle_language("Movie.CHS.ass").as_deref(), Some("chi"));
    assert_eq!(external_subtitle_language("Movie.jp.zh.ass").as_deref(), Some("chi"));
    assert_eq!(external_subtitle_language("Movie.en.srt").as_deref(), Some("eng"));
    assert_eq!(external_subtitle_language("Movie.ar.srt").as_deref(), Some("ara"));
    assert_eq!(external_subtitle_language("Movie.srt"), None);
}

#[test]
fn subtitle_files_follow_the_streams() {
    let mut v = stream("Video", "h264");
    v.index = Some(5);
    let a = stream("Audio", "aac");
    let row = |title: &str, forced: i64| ExternalSubtitleRow {
        display_title: Some(title.into()),
        codec: Some("ASS".into()),
        path: None,
        is_forced: forced,
    };
    let list = media_streams_json(
        &vec![v, a],
        Some("mkv"),
        &vec![row("a.eng.ass", 0), row("b", 1)],
        Some("u9"),
    );
    let index: Vec<i64> = list.iter().map(|s| s.index).collect();
    assert_eq!(index, vec![5, 1, 6, 7]);
    assert_eq!(list[2].delivery_url.as_deref(), Some("/Videos/u9/Subtitles/0"));
    assert_eq!(list[3].delivery_url.as_deref(), Some("/Videos/u9/Subtitles/1"));
    assert_eq!(list[2].language.as_deref(), Some("eng"));
    assert_eq!(list[2].display_language.as_deref(), Some("English"));
    assert_eq!(list[2].codec, "ass");
    assert_eq!(list[2].display_title, "a.eng.ass (ass)");
    assert!(list[3].is_forced);
    assert!(list[3].is_external);
    assert_eq!(list[3].path.as_deref(), Some(""));
    assert_eq!(list[3].protocol, "File");
    let alone = media_streams_json(&vec![], None, &vec![row("x", 0)], None);
    assert_eq!(alone[0].index, 0);
    assert_eq!(alone[0].delivery_url, None);
}

#[test]
fn defaults_of_streams() {
    let dto = |ty: &str, index: i64, bit_rate: Option<i64>, is_default: bool| {
        let mut d = MediaStreamDto::default();
        d.stream_type = ty.into();
        d.index = index;
        d.bit_rate = bit_rate;
        d.is_default = is_default;
        d
    };
    let list = vec![
        dto("Video", 0, None, false),
        dto("Audio", 1, Some(9), false),
        dto("Subtitle", 2, None, false),
        dto("Subtitle", 3, None, true),
        dto("Video", 4, Some(77), false),
        dto("Audio", 5, None, true),
    ];
    assert_eq!(defaults_from_streams(&list), (Some(77), Some(1), Some(3)));
    assert_eq!(defaults_from_streams(&vec![dto("Subtitle", 2, None, false)]), (None, None, Some(2)));
    assert_eq!(defaults_from_streams(&vec![]), (None, None, None));
    assert_eq!(estimate_bitrate(Some(1000), Some(3)), Some(2666));
    assert_eq!(estimate_bitrate(Some(i64::MAX), Some(1)), Some(i64::MAX));
    assert_eq!(estimate_bitrate(Some(-9), Some(5)), Some(-14));
    assert_eq!(estimate_bitrate(Some(1000), Some(0)), None);
    assert_eq!(estimate_bitrate(None, Some(4)), None);
}

#[test]
fn media_source_objects() {
    let probed = vec![stream("Video", "h264"), stream("Audio", "aac")];
    let list = media_sources_json(&source(), "tick", &probed, &vec![], true);
    assert_eq!(list.len(), 1);
    let d = &list[0];
    assert_eq!(d.direct_stream_url, "/s/tick");
    assert_eq!(d.bitrate, Some(2000), "the mean of the file");
    assert_eq!(d.media_streams[0].bit_rate, Some(2000));
    assert_eq!(d.media_streams[1].bit_rate, None);
    assert_eq!(d.container, "mp4");
    assert_eq!(d.name, "Stream");
    assert_eq!(d.source_type, "Default");
    assert_eq!(d.run_time_ticks, 40_000_000);
    assert_eq!(d.item_id, "i-12");
    assert_eq!(d.id, "u1");
    assert_eq!(d.path, "/m/a.mkv");
    assert_eq!(d.default_audio_stream_index, Some(1));
    assert_eq!(d.chapters.len(), 2);
    assert!(d.supports_direct_play && !d.supports_transcoding);
    let mut m = source();
    m.file_chapters = Some("nonsense".into());
    m.uuid = None;
    let e = media_sources_json(&m, "t", &vec![], &vec![], false);
    assert_eq!(e[0].chapters.len(), 0);
    assert_eq!(e[0].source_type, "Grouping");
    assert_eq!(e[0].id, "");
}

#[test]
fn tickets_outlast_files() {
    assert_eq!(ticket_ttl(None), 21_600);
    assert_eq!(ticket_ttl(Some(60)), 21_600);
    assert_eq!(ticket_ttl(Some(-5)), 21_600);
    assert_eq!(ticket_ttl(Some(20_000)), 23_600);
    let c = playback_claims(Some("key"), 7, "u", Some(20_000), 100).unwrap();
    assert_eq!((c.uuid.as_str(), c.user_id, c.exp), ("u", 7, 23_700));
    assert_eq!(playback_claims(None, 7, "u", None, 100).unwrap_err(), TicketError::MissingKey);
}

#[test]
fn playback_information() {
    let one = |uuid: Option<&str>, ticket: Option<&str>| {
        let mut m = source();
        m.uuid = uuid.map(String::from);
        PlaybackSource {
            media: m,
            ticket: ticket.map(String::from),
            probed: vec![],
            subtitles: vec![],
        }
    };
    let info = playback_info(&vec![one(None, Some("a")), one(Some("u2"), Some("b"))]).unwrap();
    assert_eq!(info.play_session_id, "u2");
    assert_eq!(info.media_sources[0].source_type, "Default");
    assert_eq!(info.media_sources[1].source_type, "Grouping");
    assert_eq!(playback_info(&vec![]).unwrap_err(), PlaybackRefusal::NotFound);
    assert_eq!(
        playback_info(&vec![one(None, Some("a")), one(None, None)]).unwrap_err(),
        PlaybackRefusal::NoTicket
    );
    assert_eq!(PlaybackRefusal::NoTicket.status(), 500);
    assert_eq!(PlaybackRefusal::NoTicket.text(), "未配置播放票据签名密钥 playback.signing_key");
    assert_eq!(PlaybackRefusal::NotFound.status(), 404);
    assert_eq!(PlaybackRefusal::StoreFailed.text(), "查询失败");
}
