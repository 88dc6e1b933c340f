//! The streams of a media source.

use vstd::prelude::*;
use vstd::string::*;

use crate::emby::language::{
    display_language, external_subtitle_language, language_name, language_of, marked_language,
    shown_language,
};
use crate::emby::rows::{ExternalSubtitleRow, StreamInfo};
use crate::number::{int_text, nat_text, push_i64, push_u64};
use crate::text::{copy_opt, lower, lowered, opt, opt_is, opt_str, owned, same, same_ignoring_case};

verus! {

/// An element of `MediaStreams`. What a stream's type does not set stays absent.
/// A frame rate is held as its bits.
#[derive(Debug)]
pub struct MediaStreamDto {
    pub index: i64,
    pub stream_type: String,
    pub codec: String,
    pub display_title: String,
    pub time_base: String,
    pub is_default: bool,
    pub is_forced: bool,
    pub is_external: bool,
    pub is_hearing_impaired: bool,
    pub is_interlaced: bool,
    pub is_text_subtitle_stream: bool,
    pub supports_external_stream: bool,
    pub protocol: String,
    pub extended_video_type: String,
    pub extended_video_sub_type: String,
    pub extended_video_sub_type_description: String,
    pub attachment_size: i64,
    pub color_transfer: Option<String>,
    pub color_primaries: Option<String>,
    pub color_space: Option<String>,
    pub video_range: Option<String>,
    pub bit_rate: Option<i64>,
    pub bit_depth: Option<i64>,
    pub ref_frames: Option<i64>,
    pub height: Option<i64>,
    pub width: Option<i64>,
    pub profile: Option<String>,
    pub aspect_ratio: Option<String>,
    pub codec_tag: Option<String>,
    pub nal_length_size: Option<String>,
    pub is_anamorphic: Option<bool>,
    pub pixel_format: Option<String>,
    pub level: Option<i64>,
    pub average_frame_rate: Option<u64>,
    pub real_frame_rate: Option<u64>,
    pub language: Option<String>,
    pub display_language: Option<String>,
    pub channel_layout: Option<String>,
    pub channels: Option<i64>,
    pub sample_rate: Option<i64>,
    pub title: Option<String>,
    pub delivery_method: Option<String>,
    pub subtitle_location_type: Option<String>,
    pub delivery_url: Option<String>,
    pub path: Option<String>,
}

/// The content of a stream object.
pub struct MediaStreamView {
    pub index: int,
    pub stream_type: Seq<char>,
    pub codec: Seq<char>,
    pub display_title: Seq<char>,
    pub time_base: Seq<char>,
    pub is_default: bool,
    pub is_forced: bool,
    pub is_external: bool,
    pub is_hearing_impaired: bool,
    pub is_interlaced: bool,
    pub is_text_subtitle_stream: bool,
    pub supports_external_stream: bool,
    pub protocol: Seq<char>,
    pub extended_video_type: Seq<char>,
    pub extended_video_sub_type: Seq<char>,
    pub extended_video_sub_type_description: Seq<char>,
    pub attachment_size: int,
    pub color_transfer: Option<Seq<char>>,
    pub color_primaries: Option<Seq<char>>,
    pub color_space: Option<Seq<char>>,
    pub video_range: Option<Seq<char>>,
    pub bit_rate: Option<i64>,
    pub bit_depth: Option<i64>,
    pub ref_frames: Option<i64>,
    pub height: Option<i64>,
    pub width: Option<i64>,
    pub profile: Option<Seq<char>>,
    pub aspect_ratio: Option<Seq<char>>,
    pub codec_tag: Option<Seq<char>>,
    pub nal_length_size: Option<Seq<char>>,
    pub is_anamorphic: Option<bool>,
    pub pixel_format: Option<Seq<char>>,
    pub level: Option<i64>,
    pub average_frame_rate: Option<u64>,
    pub real_frame_rate: Option<u64>,
    pub language: Option<Seq<char>>,
    pub display_language: Option<Seq<char>>,
    pub channel_layout: Option<Seq<char>>,
    pub channels: Option<i64>,
    pub sample_rate: Option<i64>,
    pub title: Option<Seq<char>>,
    pub delivery_method: Option<Seq<char>>,
    pub subtitle_location_type: Option<Seq<char>>,
    pub delivery_url: Option<Seq<char>>,
    pub path: Option<Seq<char>>,
}

impl View for MediaStreamDto {
    type V = MediaStreamView;

    open spec fn view(&self) -> MediaStreamView {
        MediaStreamView {
            index: self.index as int,
            stream_type: self.stream_type@,
            codec: self.codec@,
            display_title: self.display_title@,
            time_base: self.time_base@,
            is_default: self.is_default,
            is_forced: self.is_forced,
            is_external: self.is_external,
            is_hearing_impaired: self.is_hearing_impaired,
            is_interlaced: self.is_interlaced,
            is_text_subtitle_stream: self.is_text_subtitle_stream,
            supports_external_stream: self.supports_external_stream,
            protocol: self.protocol@,
            extended_video_type: self.extended_video_type@,
            extended_video_sub_type: self.extended_video_sub_type@,
            extended_video_sub_type_description: self.extended_video_sub_type_description@,
            attachment_size: self.attachment_size as int,
            color_transfer: opt(self.color_transfer),
            color_primaries: opt(self.color_primaries),
            color_space: opt(self.color_space),
            video_range: opt(self.video_range),
            bit_rate: self.bit_rate,
            bit_depth: self.bit_depth,
            ref_frames: self.ref_frames,
            height: self.height,
            width: self.width,
            profile: opt(self.profile),
            aspect_ratio: opt(self.aspect_ratio),
            codec_tag: opt(self.codec_tag),
            nal_length_size: opt(self.nal_length_size),
            is_anamorphic: self.is_anamorphic,
            pixel_format: opt(self.pixel_format),
            level: self.level,
            average_frame_rate: self.average_frame_rate,
            real_frame_rate: self.real_frame_rate,
            language: opt(self.language),
            display_language: opt(self.display_language),
            channel_layout: opt(self.channel_layout),
            channels: self.channels,
            sample_rate: self.sample_rate,
            title: opt(self.title),
            delivery_method: opt(self.delivery_method),
            subtitle_location_type: opt(self.subtitle_location_type),
            delivery_url: opt(self.delivery_url),
            path: opt(self.path),
        }
    }
}

/// A stream object of which nothing is known.
pub open spec fn empty_stream() -> MediaStreamView {
    MediaStreamView {
        index: 0,
        stream_type: Seq::empty(),
        codec: Seq::empty(),
        display_title: Seq::empty(),
        time_base: Seq::empty(),
        is_default: false,
        is_forced: false,
        is_external: false,
        is_hearing_impaired: false,
        is_interlaced: false,
        is_text_subtitle_stream: false,
        supports_external_stream: false,
        protocol: "File"@,
        extended_video_type: "None"@,
        extended_video_sub_type: "None"@,
        extended_video_sub_type_description: "None"@,
        attachment_size: 0,
        color_transfer: None,
        color_primaries: None,
        color_space: None,
        video_range: None,
        bit_rate: None,
        bit_depth: None,
        ref_frames: None,
        height: None,
        width: None,
        profile: None,
        aspect_ratio: None,
        codec_tag: None,
        nal_length_size: None,
        is_anamorphic: None,
        pixel_format: None,
        level: None,
        average_frame_rate: None,
        real_frame_rate: None,
        language: None,
        display_language: None,
        channel_layout: None,
        channels: None,
        sample_rate: None,
        title: None,
        delivery_method: None,
        subtitle_location_type: None,
        delivery_url: None,
        path: None,
    }
}

impl Default for MediaStreamDto {
    fn default() -> (r: Self)
        ensures
            r@ == empty_stream(),
    {
        MediaStreamDto {
            index: 0,
            stream_type: String::new(),
            codec: String::new(),
            display_title: String::new(),
            time_base: String::new(),
            is_default: false,
            is_forced: false,
            is_external: false,
            is_hearing_impaired: false,
            is_interlaced: false,
            is_text_subtitle_stream: false,
            supports_external_stream: false,
            protocol: "File".to_owned(),
            extended_video_type: "None".to_owned(),
            extended_video_sub_type: "None".to_owned(),
            extended_video_sub_type_description: "None".to_owned(),
            attachment_size: 0,
            color_transfer: None,
            color_primaries: None,
            color_space: None,
            video_range: None,
            bit_rate: None,
            bit_depth: None,
            ref_frames: None,
            height: None,
            width: None,
            profile: None,
            aspect_ratio: None,
            codec_tag: None,
            nal_length_size: None,
            is_anamorphic: None,
            pixel_format: None,
            level: None,
            average_frame_rate: None,
            real_frame_rate: None,
            language: None,
            display_language: None,
            channel_layout: None,
            channels: None,
            sample_rate: None,
            title: None,
            delivery_method: None,
            subtitle_location_type: None,
            delivery_url: None,
            path: None,
        }
    }
}

// ---------------------------------------------------------------------------
// Codecs

/// What `str::to_uppercase` makes of a string.
pub uninterp spec fn unicode_upper(s: Seq<char>) -> Seq<char>;

/// The upper-case form of an ASCII letter; any other character unchanged.
pub open spec fn upper_char(c: char) -> char {
    if 'a' <= c <= 'z' {
        (c as u8 - 32) as char
    } else {
        c
    }
}

/// `s` with its ASCII letters in upper case.
pub open spec fn upper(s: Seq<char>) -> Seq<char> {
    s.map_values(|c: char| upper_char(c))
}

/// `str::to_uppercase`: the upper-case form by Unicode's rules. The contract
/// names the result, and says what it is of a text in ASCII.
#[verifier::external_body]
fn to_upper(s: &str) -> (r: String)
    ensures
        r@ == unicode_upper(s@),
        vstd::utf8::is_ascii_chars(s@) ==> r@ == upper(s@),
{
    s.to_uppercase()
}

/// The name that Emby gives a subtitle codec.
pub open spec fn subtitle_codec_of(codec: Seq<char>) -> Seq<char> {
    let c = lower(codec);
    if c == "hdmv_pgs_subtitle"@ {
        "pgs"@
    } else if c == "dvd_subtitle"@ {
        "dvdsub"@
    } else if c == "webvtt"@ {
        "vtt"@
    } else {
        c
    }
}

/// The name that Emby gives a subtitle codec.
pub fn subtitle_codec(codec: &str) -> (r: String)
    ensures
        r@ == subtitle_codec_of(codec@),
{
    let c = lowered(codec);
    if same(c.as_str(), "hdmv_pgs_subtitle") {
        "pgs".to_owned()
    } else if same(c.as_str(), "dvd_subtitle") {
        "dvdsub".to_owned()
    } else if same(c.as_str(), "webvtt") {
        "vtt".to_owned()
    } else {
        c
    }
}

/// The name that Emby gives the codec of a stream: only subtitle codecs are renamed.
pub open spec fn codec_of(stream_type: Seq<char>, codec: Seq<char>) -> Seq<char> {
    if stream_type == "Subtitle"@ {
        subtitle_codec_of(codec)
    } else {
        codec
    }
}

/// The name that Emby gives the codec of a stream.
pub fn subtitle_codec_if_sub(stream_type: &str, codec: &str) -> (r: String)
    ensures
        r@ == codec_of(stream_type@, codec@),
{
    if same(stream_type, "Subtitle") {
        subtitle_codec(codec)
    } else {
        codec.to_owned()
    }
}

/// The sample entry tag of a codec in an MP4 file.
pub open spec fn codec_tag_of(codec: Seq<char>) -> Option<Seq<char>> {
    let c = lower(codec);
    if c == "h264"@ {
        Some("avc1"@)
    } else if c == "hevc"@ || c == "h265"@ {
        Some("hvc1"@)
    } else if c == "aac"@ {
        Some("mp4a"@)
    } else if c == "ac3"@ {
        Some("ac-3"@)
    } else {
        None
    }
}

/// The sample entry tag of a codec in an MP4 file.
pub fn codec_tag(codec: &str) -> (r: Option<&'static str>)
    ensures
        opt_str(r) == codec_tag_of(codec@),
{
    let l = lowered(codec);
    let c = l.as_str();
    if same(c, "h264") {
        Some("avc1")
    } else if same(c, "hevc") || same(c, "h265") {
        Some("hvc1")
    } else if same(c, "aac") {
        Some("mp4a")
    } else if same(c, "ac3") {
        Some("ac-3")
    } else {
        None
    }
}

/// The usual name of a number of channels.
pub open spec fn channel_label_of(channels: i64) -> Option<Seq<char>> {
    if channels == 1 {
        Some("mono"@)
    } else if channels == 2 {
        Some("stereo"@)
    } else if channels == 6 {
        Some("5.1"@)
    } else if channels == 8 {
        Some("7.1"@)
    } else {
        None
    }
}

/// The usual name of a number of channels.
pub fn channel_label(channels: i64) -> (r: Option<&'static str>)
    ensures
        opt_str(r) == channel_label_of(channels),
{
    if channels == 1 {
        Some("mono")
    } else if channels == 2 {
        Some("stereo")
    } else if channels == 6 {
        Some("5.1")
    } else if channels == 8 {
        Some("7.1")
    } else {
        None
    }
}

/// Whether a stream is H.264 in AVC packaging.
pub fn is_h264_avc(s: &StreamInfo) -> (r: bool)
    ensures
        r == h264_avc(*s),
{
    same_ignoring_case(s.codec.as_str(), "h264") && match s.is_avc {
        Some(b) => b,
        None => false,
    }
}

/// Whether a stream is H.264 in AVC packaging.
pub open spec fn h264_avc(s: StreamInfo) -> bool {
    lower(s.codec@) == lower("h264"@) && s.is_avc == Some(true)
}

/// Whether the pixels of a stream are not square.
pub open spec fn anamorphic(s: StreamInfo) -> bool {
    match opt(s.sample_aspect_ratio) {
        Some(sar) => sar.len() > 0 && sar != "1:1"@ && sar != "0:1"@,
        None => false,
    }
}

/// Whether the pixels of a stream are not square.
pub fn is_anamorphic(s: &StreamInfo) -> (r: bool)
    ensures
        r == anamorphic(*s),
{
    match &s.sample_aspect_ratio {
        Some(sar) => !sar.as_str().is_empty() && !same(sar.as_str(), "1:1") && !same(
            sar.as_str(),
            "0:1",
        ),
        None => false,
    }
}

/// The dynamic range that a colour transfer stands for.
pub open spec fn video_range_of(transfer: Option<Seq<char>>) -> Seq<char> {
    if transfer == Some("smpte2084"@) || transfer == Some("smpte2086"@) {
        "HDR10"@
    } else if transfer == Some("arib-std-b67"@) {
        "HLG"@
    } else {
        "SDR"@
    }
}

/// The dynamic range of a stream.
pub fn video_range(s: &StreamInfo) -> (r: String)
    ensures
        r@ == video_range_of(opt(s.color_transfer)),
{
    let t = crate::text::borrowed(&s.color_transfer);
    if opt_is(t, "smpte2084") || opt_is(t, "smpte2086") {
        "HDR10".to_owned()
    } else if opt_is(t, "arib-std-b67") {
        "HLG".to_owned()
    } else {
        "SDR".to_owned()
    }
}

// ---------------------------------------------------------------------------
// Titles

/// The non-empty text of an option.
pub open spec fn filled(o: Option<Seq<char>>) -> Option<Seq<char>> {
    match o {
        Some(s) => if s.len() > 0 {
            Some(s)
        } else {
            None
        },
        None => None,
    }
}

fn filled_text(o: &Option<String>) -> (r: Option<&str>)
    ensures
        opt_str(r) == filled(opt(*o)),
{
    match o {
        Some(s) => if s.as_str().is_empty() {
            None
        } else {
            Some(s.as_str())
        },
        None => None,
    }
}

/// What follows the codec in the title of an audio stream.
pub open spec fn layout_label(s: StreamInfo) -> Option<Seq<char>> {
    match filled(opt(s.channel_layout)) {
        Some(l) => Some(l),
        None => match s.channels {
            Some(n) => channel_label_of(n),
            None => None,
        },
    }
}

/// The title of a video stream: its height and its codec.
pub open spec fn video_title(s: StreamInfo, upper_codec: Seq<char>) -> Seq<char> {
    match s.height {
        Some(h) => if h > 0 {
            int_text(h as int) + "p "@ + upper_codec
        } else {
            upper_codec
        },
        None => upper_codec,
    }
}

/// The title of an audio stream: language, codec, channels and a mark on the default.
pub open spec fn audio_title(s: StreamInfo, upper_codec: Seq<char>) -> Seq<char> {
    let head = match shown_language(opt(s.language)) {
        Some(l) => l + " "@ + upper_codec,
        None => upper_codec,
    };
    let body = match layout_label(s) {
        Some(l) => head + " "@ + l,
        None => head,
    };
    if s.is_default == Some(true) {
        body + " (默认)"@
    } else {
        body
    }
}

/// What a subtitle's title starts with: the language's name. Chinese says
/// nothing about the script, so there the track's own title comes first, as it
/// does where the language is not known.
pub open spec fn subtitle_base(s: StreamInfo) -> Seq<char> {
    match shown_language(opt(s.language)) {
        Some(name) => if name == "Chinese"@ {
            match filled(opt(s.title)) {
                Some(t) => t,
                None => "Chinese"@,
            }
        } else {
            name
        },
        None => match filled(opt(s.title)) {
            Some(t) => t,
            None => s.codec@,
        },
    }
}

/// The title of a subtitle stream.
pub open spec fn subtitle_title(s: StreamInfo, upper_codec: Seq<char>) -> Seq<char> {
    if s.is_default == Some(true) {
        subtitle_base(s) + " (默认 "@ + upper_codec + ")"@
    } else {
        subtitle_base(s) + " ("@ + upper_codec + ")"@
    }
}

/// The codec name whose upper-case form a title shows.
pub open spec fn titled_codec(s: StreamInfo) -> Seq<char> {
    if s.stream_type@ == "Video"@ || s.stream_type@ == "Audio"@ {
        s.codec@
    } else {
        subtitle_codec_of(s.codec@)
    }
}

/// The title of a stream, given its codec in upper case.
pub open spec fn title_of(s: StreamInfo, upper_codec: Seq<char>) -> Seq<char> {
    if s.stream_type@ == "Video"@ {
        video_title(s, upper_codec)
    } else if s.stream_type@ == "Audio"@ {
        audio_title(s, upper_codec)
    } else {
        subtitle_title(s, upper_codec)
    }
}

fn is_set(b: Option<bool>) -> (r: bool)
    ensures
        r == (b == Some(true)),
{
    match b {
        Some(x) => x,
        None => false,
    }
}

/// The title of a stream, given its codec in upper case.
pub fn title_with_codec(s: &StreamInfo, upper_codec: &str) -> (r: String)
    ensures
        r@ == title_of(*s, upper_codec@),
{
    if same(s.stream_type.as_str(), "Video") {
        match s.height {
            Some(h) => {
                if h > 0 {
                    let mut t = String::new();
                    push_i64(&mut t, h);
                    assert(t@ =~= int_text(h as int));
                    t.concat("p ").concat(upper_codec)
                } else {
                    upper_codec.to_owned()
                }
            },
            None => upper_codec.to_owned(),
        }
    } else if same(s.stream_type.as_str(), "Audio") {
        let head = match display_language(&s.language) {
            Some(l) => l.concat(" ").concat(upper_codec),
            None => upper_codec.to_owned(),
        };
        let label = match filled_text(&s.channel_layout) {
            Some(l) => Some(l),
            None => match s.channels {
                Some(n) => channel_label(n),
                None => None,
            },
        };
        let body = match label {
            Some(l) => head.concat(" ").concat(l),
            None => head,
        };
        if is_set(s.is_default) {
            body.concat(" (默认)")
        } else {
            body
        }
    } else {
        let base = match display_language(&s.language) {
            Some(name) => {
                if same(name.as_str(), "Chinese") {
                    match filled_text(&s.title) {
                        Some(t) => t.to_owned(),
                        None => "Chinese".to_owned(),
                    }
                } else {
                    name
                }
            },
            None => match filled_text(&s.title) {
                Some(t) => t.to_owned(),
                None => s.codec.clone(),
            },
        };
        if is_set(s.is_default) {
            base.concat(" (默认 ").concat(upper_codec).concat(")")
        } else {
            base.concat(" (").concat(upper_codec).concat(")")
        }
    }
}

/// The title of a stream.
pub fn stream_display_title(s: &StreamInfo) -> (r: String)
    ensures
        r@ == title_of(*s, unicode_upper(titled_codec(*s))),
        vstd::utf8::is_ascii_chars(titled_codec(*s)) ==> r@ == title_of(
            *s,
            upper(titled_codec(*s)),
        ),
{
    let codec = if same(s.stream_type.as_str(), "Video") || same(s.stream_type.as_str(), "Audio") {
        s.codec.clone()
    } else {
        subtitle_codec(s.codec.as_str())
    };
    let upper = to_upper(codec.as_str());
    title_with_codec(s, upper.as_str())
}

/// The title of a subtitle file.
pub open spec fn external_title(title: Seq<char>, codec: Seq<char>, is_forced: bool) -> Seq<char> {
    let base = if title.len() == 0 {
        codec
    } else {
        title + " ("@ + codec + ")"@
    };
    if is_forced {
        base + " (强制)"@
    } else {
        base
    }
}

/// The title of a subtitle file: its name and codec, with a mark where it is forced.
pub fn external_subtitle_title(title: &str, codec: &str, is_forced: bool) -> (r: String)
    ensures
        r@ == external_title(title@, codec@, is_forced),
{
    let base = if title.is_empty() {
        codec.to_owned()
    } else {
        title.to_owned().concat(" (").concat(codec).concat(")")
    };
    if is_forced {
        base.concat(" (强制)")
    } else {
        base
    }
}

// ---------------------------------------------------------------------------
// Stream objects

/// Whether a container is of the MP4 family, whose streams carry codec tags.
pub open spec fn tags_codecs(container: Option<Seq<char>>) -> bool {
    container == Some("mp4"@) || container == Some("m4v"@) || container == Some("mov"@)
}

/// The object of a probed stream. `upper_codec` is the codec of its title.
pub open spec fn stream_view(
    s: StreamInfo,
    fallback_index: int,
    container: Option<Seq<char>>,
    upper_codec: Seq<char>,
) -> MediaStreamView {
    let base = MediaStreamView {
        index: match s.index {
            Some(i) => i as int,
            None => fallback_index,
        },
        stream_type: s.stream_type@,
        codec: codec_of(s.stream_type@, s.codec@),
        display_title: title_of(s, upper_codec),
        time_base: match opt(s.time_base) {
            Some(t) => t,
            None => Seq::empty(),
        },
        is_default: s.is_default == Some(true),
        is_forced: s.is_forced == Some(true),
        is_interlaced: s.is_interlaced == Some(true),
        ..empty_stream()
    };
    let tag = if tags_codecs(container) {
        codec_tag_of(s.codec@)
    } else {
        None
    };
    if s.stream_type@ == "Video"@ {
        MediaStreamView {
            color_transfer: opt(s.color_transfer),
            color_primaries: opt(s.color_primaries),
            color_space: opt(s.color_space),
            video_range: Some(video_range_of(opt(s.color_transfer))),
            bit_rate: s.bit_rate,
            bit_depth: s.bit_depth,
            ref_frames: s.refs,
            height: s.height,
            width: s.width,
            profile: opt(s.profile),
            aspect_ratio: opt(s.display_aspect_ratio),
            codec_tag: tag,
            nal_length_size: if h264_avc(s) {
                Some("4"@)
            } else {
                None
            },
            is_anamorphic: Some(anamorphic(s)),
            pixel_format: opt(s.pixel_format),
            level: s.level,
            average_frame_rate: s.frame_rate,
            real_frame_rate: s.frame_rate,
            ..base
        }
    } else if s.stream_type@ == "Audio"@ {
        MediaStreamView {
            language: opt(s.language),
            display_language: shown_language(opt(s.language)),
            codec_tag: tag,
            channel_layout: opt(s.channel_layout),
            bit_rate: s.bit_rate,
            channels: s.channels,
            sample_rate: s.sample_rate,
            profile: opt(s.profile),
            ..base
        }
    } else if s.stream_type@ == "Subtitle"@ {
        MediaStreamView {
            language: opt(s.language),
            display_language: shown_language(opt(s.language)),
            title: opt(s.title),
            delivery_method: Some("Embed"@),
            subtitle_location_type: Some("InternalStream"@),
            is_text_subtitle_stream: true,
            supports_external_stream: true,
            ..base
        }
    } else {
        base
    }
}

/// The object of a probed stream, given the codec of its title in upper case.
pub fn stream_with_codec(
    s: &StreamInfo,
    fallback_index: usize,
    container: Option<&str>,
    upper_codec: &str,
) -> (r: MediaStreamDto)
    requires
        fallback_index <= i64::MAX,
    ensures
        r@ == stream_view(*s, fallback_index as int, opt_str(container), upper_codec@),
{
    let has_codec_tag = opt_is(container, "mp4") || opt_is(container, "m4v") || opt_is(
        container,
        "mov",
    );
    let mut dto = MediaStreamDto::default();
    dto.index = match s.index {
        Some(i) => i,
        None => fallback_index as i64,
    };
    dto.stream_type = s.stream_type.clone();
    dto.codec = subtitle_codec_if_sub(s.stream_type.as_str(), s.codec.as_str());
    dto.display_title = title_with_codec(s, upper_codec);
    dto.time_base = match &s.time_base {
        Some(t) => t.clone(),
        None => String::new(),
    };
    dto.is_default = is_set(s.is_default);
    dto.is_forced = is_set(s.is_forced);
    dto.is_interlaced = is_set(s.is_interlaced);
    let tag = if has_codec_tag {
        owned(codec_tag(s.codec.as_str()))
    } else {
        None
    };
    if same(s.stream_type.as_str(), "Video") {
        dto.color_transfer = copy_opt(&s.color_transfer);
        dto.color_primaries = copy_opt(&s.color_primaries);
        dto.color_space = copy_opt(&s.color_space);
        dto.video_range = Some(video_range(s));
        dto.bit_rate = s.bit_rate;
        dto.bit_depth = s.bit_depth;
        dto.ref_frames = s.refs;
        dto.height = s.height;
        dto.width = s.width;
        dto.profile = copy_opt(&s.profile);
        dto.aspect_ratio = copy_opt(&s.display_aspect_ratio);
        dto.codec_tag = tag;
        dto.nal_length_size = if is_h264_avc(s) {
            Some("4".to_owned())
        } else {
            None
        };
        dto.is_anamorphic = Some(is_anamorphic(s));
        dto.pixel_format = copy_opt(&s.pixel_format);
        dto.level = s.level;
        dto.average_frame_rate = s.frame_rate;
        dto.real_frame_rate = s.frame_rate;
    } else if same(s.stream_type.as_str(), "Audio") {
        dto.language = copy_opt(&s.language);
        dto.display_language = display_language(&s.language);
        dto.codec_tag = tag;
        dto.channel_layout = copy_opt(&s.channel_layout);
        dto.bit_rate = s.bit_rate;
        dto.channels = s.channels;
        dto.sample_rate = s.sample_rate;
        dto.profile = copy_opt(&s.profile);
    } else if same(s.stream_type.as_str(), "Subtitle") {
        dto.language = copy_opt(&s.language);
        dto.display_language = display_language(&s.language);
        dto.title = copy_opt(&s.title);
        dto.delivery_method = Some("Embed".to_owned());
        dto.subtitle_location_type = Some("InternalStream".to_owned());
        dto.is_text_subtitle_stream = true;
        dto.supports_external_stream = true;
    }
    dto
}

/// The object of a probed stream.
pub open spec fn probed_stream(
    s: StreamInfo,
    fallback_index: int,
    container: Option<Seq<char>>,
) -> MediaStreamView {
    stream_view(s, fallback_index, container, unicode_upper(titled_codec(s)))
}

/// The object of a probed stream.
pub fn stream_json(s: &StreamInfo, fallback_index: usize, container: Option<&str>) -> (r:
    MediaStreamDto)
    requires
        fallback_index <= i64::MAX,
    ensures
        r@ == probed_stream(*s, fallback_index as int, opt_str(container)),
        vstd::utf8::is_ascii_chars(titled_codec(*s)) ==> r@ == stream_view(
            *s,
            fallback_index as int,
            opt_str(container),
            upper(titled_codec(*s)),
        ),
{
    let codec = if same(s.stream_type.as_str(), "Video") || same(s.stream_type.as_str(), "Audio") {
        s.codec.clone()
    } else {
        subtitle_codec(s.codec.as_str())
    };
    let upper = to_upper(codec.as_str());
    stream_with_codec(s, fallback_index, container, upper.as_str())
}

/// The text of an option, empty where it is absent.
pub open spec fn or_empty(o: Option<Seq<char>>) -> Seq<char> {
    match o {
        Some(s) => s,
        None => Seq::empty(),
    }
}

fn text_or_empty(o: &Option<String>) -> (r: String)
    ensures
        r@ == or_empty(opt(*o)),
{
    match o {
        Some(s) => s.clone(),
        None => String::new(),
    }
}

/// The address at which a subtitle file is served: `n` counts the subtitle
/// files of the media source from zero.
pub open spec fn delivery_url(uuid: Option<Seq<char>>, n: int) -> Option<Seq<char>> {
    match uuid {
        Some(u) => Some("/Videos/"@ + u + "/Subtitles/"@ + nat_text(n as nat)),
        None => None,
    }
}

/// The object of a subtitle file.
pub open spec fn external_stream(
    row: ExternalSubtitleRow,
    uuid: Option<Seq<char>>,
    index: int,
    n: int,
) -> MediaStreamView {
    let title = or_empty(opt(row.display_title));
    let codec = lower(or_empty(opt(row.codec)));
    let language = marked_language(title);
    MediaStreamView {
        index,
        stream_type: "Subtitle"@,
        codec: subtitle_codec_of(codec),
        display_title: external_title(title, codec, row.is_forced != 0),
        is_forced: row.is_forced != 0,
        is_external: true,
        is_text_subtitle_stream: true,
        supports_external_stream: true,
        delivery_method: Some("External"@),
        delivery_url: delivery_url(uuid, n),
        display_language: match language {
            Some(l) => language_of(l),
            None => None,
        },
        language,
        title: Some(title),
        path: Some(or_empty(opt(row.path))),
        ..empty_stream()
    }
}

/// The object of a subtitle file.
pub fn external_json(row: &ExternalSubtitleRow, uuid: Option<&str>, index: i64, n: usize) -> (r:
    MediaStreamDto)
    ensures
        r@ == external_stream(*row, opt_str(uuid), index as int, n as int),
{
    let title = text_or_empty(&row.display_title);
    let raw_codec = text_or_empty(&row.codec);
    let codec = lowered(raw_codec.as_str());
    let is_forced = row.is_forced != 0;
    let language = external_subtitle_language(title.as_str());
    let mut dto = MediaStreamDto::default();
    dto.index = index;
    dto.stream_type = "Subtitle".to_owned();
    dto.codec = subtitle_codec(codec.as_str());
    dto.display_title = external_subtitle_title(title.as_str(), codec.as_str(), is_forced);
    dto.is_forced = is_forced;
    dto.is_external = true;
    dto.is_text_subtitle_stream = true;
    dto.supports_external_stream = true;
    dto.delivery_method = Some("External".to_owned());
    dto.delivery_url = match uuid {
        Some(u) => {
            let mut url = "/Videos/".to_owned().concat(u).concat("/Subtitles/");
            push_u64(&mut url, n as u64);
            Some(url)
        },
        None => None,
    };
    dto.display_language = match &language {
        Some(l) => owned(language_name(l.as_str())),
        None => None,
    };
    dto.language = language;
    dto.title = Some(title);
    dto.path = Some(text_or_empty(&row.path));
    dto
}

/// The contents of a list of stream objects.
pub open spec fn stream_views(v: Seq<MediaStreamDto>) -> Seq<MediaStreamView> {
    v.map_values(|d: MediaStreamDto| d@)
}

/// The greatest index of a list of streams; `-1` where the list is empty.
pub open spec fn last_index(v: Seq<MediaStreamView>) -> int
    decreases v.len(),
{
    if v.len() == 0 {
        -1
    } else if v.len() == 1 {
        v[0].index
    } else {
        let rest = last_index(v.drop_last());
        if v.last().index > rest {
            v.last().index
        } else {
            rest
        }
    }
}

/// The objects of the probed streams.
pub open spec fn probed_streams(list: Seq<StreamInfo>, container: Option<Seq<char>>) -> Seq<
    MediaStreamView,
> {
    list.map(|i: int, s: StreamInfo| probed_stream(s, i, container))
}

/// The objects of a media source's streams: the probed ones, then the subtitle
/// files, numbered on from the greatest index so far.
pub open spec fn all_streams(
    list: Seq<StreamInfo>,
    container: Option<Seq<char>>,
    subtitles: Seq<ExternalSubtitleRow>,
    uuid: Option<Seq<char>>,
) -> Seq<MediaStreamView> {
    let probed = probed_streams(list, container);
    probed + subtitles.map(
        |n: int, row: ExternalSubtitleRow|
            external_stream(row, uuid, last_index(probed) + 1 + n, n),
    )
}

/// The index that a probed stream has: its own, or its place in the list.
pub open spec fn probed_index(s: StreamInfo, place: int) -> int {
    match s.index {
        Some(i) => i as int,
        None => place,
    }
}

/// The greatest index of a list of probed streams; `-1` where it is empty.
pub open spec fn greatest_probed(list: Seq<StreamInfo>) -> int
    decreases list.len(),
{
    if list.len() == 0 {
        -1
    } else if list.len() == 1 {
        probed_index(list[0], 0)
    } else {
        let rest = greatest_probed(list.drop_last());
        let last = probed_index(list.last(), list.len() - 1);
        if last > rest {
            last
        } else {
            rest
        }
    }
}

/// The greatest index does not depend on the container.
pub proof fn lemma_greatest_probed(list: Seq<StreamInfo>, container: Option<Seq<char>>)
    ensures
        last_index(probed_streams(list, container)) == greatest_probed(list),
    decreases list.len(),
{
    if list.len() > 1 {
        lemma_greatest_probed(list.drop_last(), container);
        assert(probed_streams(list, container).drop_last() =~= probed_streams(
            list.drop_last(),
            container,
        ));
    }
}

/// The objects of a media source's streams.
pub fn media_streams_json(
    list: &Vec<StreamInfo>,
    container: Option<&str>,
    subtitles: &Vec<ExternalSubtitleRow>,
    uuid: Option<&str>,
) -> (r: Vec<MediaStreamDto>)
    requires
        list@.len() <= i64::MAX,
        subtitles@.len() <= i64::MAX,
        greatest_probed(list@) + 1 + subtitles@.len() <= i64::MAX,
    ensures
        stream_views(r@) == all_streams(list@, opt_str(container), subtitles@, opt_str(uuid)),
{
    let ghost probed = probed_streams(list@, opt_str(container));
    proof {
        lemma_greatest_probed(list@, opt_str(container));
    }
    let mut streams: Vec<MediaStreamDto> = Vec::new();
    let mut greatest: i64 = -1;
    let mut i: usize = 0;
    assert(probed.take(0) =~= Seq::empty());
    while i < list.len()
        invariant
            i <= list.len() <= i64::MAX,
            probed == probed_streams(list@, opt_str(container)),
            stream_views(streams@) == probed.take(i as int),
            greatest == last_index(probed.take(i as int)),
        decreases list.len() - i,
    {
        let s = stream_json(&list[i], i, container);
        if i == 0 || s.index > greatest {
            greatest = s.index;
        }
        streams.push(s);
        proof {
            assert(probed[i as int] == s@);
            assert(stream_views(streams@) =~= probed.take(i + 1));
            assert(probed.take(i + 1).drop_last() =~= probed.take(i as int));
        }
        i = i + 1;
    }
    assert(probed.take(list@.len() as int) =~= probed);
    let ghost whole = all_streams(list@, opt_str(container), subtitles@, opt_str(uuid));
    let mut n: usize = 0;
    assert(whole.take(probed.len() as int) =~= probed);
    while n < subtitles.len()
        invariant
            n <= subtitles.len() <= i64::MAX,
            list.len() == probed.len(),
            probed == probed_streams(list@, opt_str(container)),
            greatest == last_index(probed),
            greatest + 1 + subtitles@.len() <= i64::MAX,
            whole == all_streams(list@, opt_str(container), subtitles@, opt_str(uuid)),
            stream_views(streams@) == whole.take(list.len() + n),
        decreases subtitles.len() - n,
    {
        let index: i64 = greatest + 1 + n as i64;
        let s = external_json(&subtitles[n], uuid, index, n);
        let ghost before = stream_views(streams@);
        streams.push(s);
        proof {
            assert(whole.len() == probed.len() + subtitles@.len());
            assert(whole[probed.len() + n] == s@);
            assert(stream_views(streams@) =~= before.push(s@));
            assert(stream_views(streams@) =~= whole.take(list.len() + n + 1));
        }
        n = n + 1;
    }
    assert(whole.take(list.len() + subtitles@.len()) =~= whole);
    streams
}

proof fn lemma_last_index(v: Seq<MediaStreamView>, i: int)
    requires
        0 <= i < v.len(),
    ensures
        v[i].index <= last_index(v),
    decreases v.len(),
{
    if v.len() > 1 && i < v.len() - 1 {
        lemma_last_index(v.drop_last(), i);
        assert(v.drop_last()[i] == v[i]);
    }
}

/// The subtitle files are numbered after all probed streams, one after the other.
pub proof fn law_subtitle_files_come_last(
    list: Seq<StreamInfo>,
    container: Option<Seq<char>>,
    subtitles: Seq<ExternalSubtitleRow>,
    uuid: Option<Seq<char>>,
    i: int,
    j: int,
)
    requires
        0 <= i < j < list.len() + subtitles.len(),
        list.len() <= j,
    ensures
        ({
            let all = all_streams(list, container, subtitles, uuid);
            &&& all.len() == list.len() + subtitles.len()
            &&& all[i].index < all[j].index
            &&& all[j].is_external
            &&& all[j].delivery_url == delivery_url(uuid, j - list.len())
        }),
{
    let probed = probed_streams(list, container);
    if i < list.len() {
        lemma_last_index(probed, i);
        assert(all_streams(list, container, subtitles, uuid)[i] == probed[i]);
    }
}

// ---------------------------------------------------------------------------
// What streams show

/// A video stream is shown with its picture: size, bit rate, depth, profile,
/// colours and frame rate are those of the probe.
pub proof fn law_video_stream(
    s: StreamInfo,
    place: int,
    container: Option<Seq<char>>,
    upper_codec: Seq<char>,
)
    requires
        s.stream_type@ == "Video"@,
    ensures
        ({
            let r = stream_view(s, place, container, upper_codec);
            &&& r.stream_type == "Video"@
            &&& r.codec == s.codec@
            &&& s.index is Some ==> r.index == s.index->0
            &&& s.index is None ==> r.index == place
            &&& r.width == s.width && r.height == s.height
            &&& r.bit_rate == s.bit_rate && r.bit_depth == s.bit_depth
            &&& r.ref_frames == s.refs && r.level == s.level
            &&& r.profile == opt(s.profile) && r.pixel_format == opt(s.pixel_format)
            &&& r.aspect_ratio == opt(s.display_aspect_ratio)
            &&& r.color_transfer == opt(s.color_transfer) && r.color_primaries == opt(
                s.color_primaries,
            ) && r.color_space == opt(s.color_space)
            &&& r.average_frame_rate == s.frame_rate && r.real_frame_rate == s.frame_rate
            &&& r.is_default <==> s.is_default == Some(true)
            &&& r.is_forced <==> s.is_forced == Some(true)
            &&& r.is_interlaced <==> s.is_interlaced == Some(true)
            &&& !r.is_external && !r.is_text_subtitle_stream
            &&& r.language is None && r.channels is None
            &&& s.height is Some && s.height->0 > 0 ==> r.display_title == nat_text(
                s.height->0 as nat,
            ) + "p "@ + upper_codec
            &&& s.height is None ==> r.display_title == upper_codec
            &&& s.height is Some && s.height->0 <= 0 ==> r.display_title == upper_codec
            &&& r.video_range == Some(video_range_of(opt(s.color_transfer)))
            &&& r.is_anamorphic == Some(anamorphic(s))
            &&& r.nal_length_size == (if h264_avc(s) {
                Some("4"@)
            } else {
                None
            })
            &&& s.time_base is Some ==> r.time_base == s.time_base->0@
            &&& r.delivery_method is None && r.delivery_url is None && r.path is None
        }),
{
    lemma_stream_types_differ();
}

/// An audio stream is shown with its sound: channels, sample rate and language
/// are those of the probe. Its title names the language, the codec and the
/// layout, and says if it is the default.
pub proof fn law_audio_stream(
    s: StreamInfo,
    place: int,
    container: Option<Seq<char>>,
    upper_codec: Seq<char>,
)
    requires
        s.stream_type@ == "Audio"@,
    ensures
        ({
            let r = stream_view(s, place, container, upper_codec);
            &&& r.stream_type == "Audio"@
            &&& r.codec == s.codec@
            &&& s.index is Some ==> r.index == s.index->0
            &&& s.index is None ==> r.index == place
            &&& r.channels == s.channels && r.sample_rate == s.sample_rate
            &&& r.bit_rate == s.bit_rate && r.profile == opt(s.profile)
            &&& r.channel_layout == opt(s.channel_layout)
            &&& r.language == opt(s.language)
            &&& r.is_default <==> s.is_default == Some(true)
            &&& r.width is None && r.height is None && r.video_range is None
            &&& !r.is_external && !r.is_text_subtitle_stream
            &&& r.display_language == shown_language(opt(s.language))
            &&& s.time_base is Some ==> r.time_base == s.time_base->0@
            &&& s.language is Some && s.channel_layout is None && s.channels is None && s.is_default
                != Some(true) ==> r.display_title == shown_language(opt(s.language))->0 + " "@
                + upper_codec
            &&& s.language is None && s.channel_layout is None && s.channels is None && s.is_default
                != Some(true) ==> r.display_title == upper_codec
            &&& s.language is None && s.channel_layout is None && s.channels is None && s.is_default
                == Some(true) ==> r.display_title == upper_codec + " (默认)"@
            &&& s.language is None && s.channel_layout is None && s.channels == Some(6i64)
                && s.is_default != Some(true) ==> r.display_title == upper_codec + " "@ + "5.1"@
            &&& s.language is None && s.channel_layout is None && s.channels == Some(2i64)
                && s.is_default != Some(true) ==> r.display_title == upper_codec + " "@ + "stereo"@
            &&& s.language is None && s.channel_layout is Some && s.channel_layout->0@.len() > 0
                && s.is_default != Some(true) ==> r.display_title == upper_codec + " "@
                + s.channel_layout->0@
        }),
{
    lemma_stream_types_differ();
}

/// The title of a default track is that of the same track without the mark, and
/// the mark behind it.
pub proof fn law_default_mark(s: StreamInfo, t: StreamInfo, upper_codec: Seq<char>)
    requires
        s.stream_type@ == "Audio"@ && t.stream_type@ == "Audio"@,
        opt(s.language) == opt(t.language),
        opt(s.channel_layout) == opt(t.channel_layout),
        s.channels == t.channels,
        s.is_default == Some(true),
        t.is_default != Some(true),
    ensures
        title_of(s, upper_codec) == title_of(t, upper_codec) + " (默认)"@,
{
    lemma_stream_types_differ();
}

/// A subtitle inside a file is shown as text, with its language and its title.
pub proof fn law_inner_subtitle(
    s: StreamInfo,
    place: int,
    container: Option<Seq<char>>,
    upper_codec: Seq<char>,
)
    requires
        s.stream_type@ == "Subtitle"@,
    ensures
        ({
            let r = stream_view(s, place, container, upper_codec);
            &&& r.stream_type == "Subtitle"@
            &&& s.index is Some ==> r.index == s.index->0
            &&& s.index is None ==> r.index == place
            &&& r.language == opt(s.language) && r.title == opt(s.title)
            &&& r.codec == subtitle_codec_of(s.codec@)
            &&& r.display_language == shown_language(opt(s.language))
            &&& s.is_default != Some(true) && shown_language(opt(s.language)) is Some
                && shown_language(opt(s.language)) != Some("Chinese"@) ==> r.display_title
                == shown_language(opt(s.language))->0 + " ("@ + upper_codec + ")"@
            &&& s.is_default != Some(true) && shown_language(opt(s.language)) == Some("Chinese"@)
                && s.title is Some && s.title->0@.len() > 0 ==> r.display_title == s.title->0@
                + " ("@ + upper_codec + ")"@
            &&& s.is_default != Some(true) && shown_language(opt(s.language)) == Some("Chinese"@)
                && s.title is None ==> r.display_title == "Chinese"@ + " ("@ + upper_codec + ")"@
            &&& r.delivery_method == Some("Embed"@)
            &&& r.subtitle_location_type == Some("InternalStream"@)
            &&& r.is_text_subtitle_stream && r.supports_external_stream && !r.is_external
            &&& r.is_default <==> s.is_default == Some(true)
            &&& r.is_forced <==> s.is_forced == Some(true)
            &&& r.bit_rate is None && r.codec_tag is None && r.delivery_url is None
            &&& s.language is None && s.title is Some && s.title->0@.len() > 0 && s.is_default
                != Some(true) ==> r.display_title == s.title->0@ + " ("@ + upper_codec + ")"@
            &&& s.language is None && s.title is None && s.is_default != Some(true)
                ==> r.display_title == s.codec@ + " ("@ + upper_codec + ")"@
            &&& s.language is None && s.title is None && s.is_default == Some(true)
                ==> r.display_title == s.codec@ + " (默认 "@ + upper_codec + ")"@
        }),
{
    lemma_stream_types_differ();
}

proof fn lemma_stream_types_differ()
    ensures
        "Video"@ != "Audio"@ && "Video"@ != "Subtitle"@ && "Audio"@ != "Subtitle"@,
        "Audio"@ != "Video"@ && "Subtitle"@ != "Video"@ && "Subtitle"@ != "Audio"@,
{
    reveal_strlit("Video");
    reveal_strlit("Audio");
    reveal_strlit("Subtitle");
    assert("Video"@[0] == 'V' && "Audio"@[0] == 'A' && "Subtitle"@[0] == 'S');
}

/// A subtitle file is shown at its place, with its title, its path and the
/// address where it is fetched, which counts the subtitle files from zero.
pub proof fn law_subtitle_file(
    row: ExternalSubtitleRow,
    uuid: Seq<char>,
    index: int,
    n: nat,
    title: Seq<char>,
)
    requires
        opt(row.display_title) == Some(title),
    ensures
        ({
            let r = external_stream(row, Some(uuid), index, n as int);
            &&& r.index == index
            &&& r.stream_type == "Subtitle"@
            &&& r.title == Some(title)
            &&& r.is_external && r.is_text_subtitle_stream && r.supports_external_stream
            &&& r.is_forced <==> row.is_forced != 0
            &&& !r.is_default
            &&& r.delivery_method == Some("External"@)
            &&& r.delivery_url == Some("/Videos/"@ + uuid + "/Subtitles/"@ + nat_text(n))
            &&& row.path is Some ==> r.path == Some(row.path->0@)
            &&& r.language == marked_language(title)
            &&& marked_language(title) is Some ==> r.display_language == language_of(
                marked_language(title)->0,
            )
            &&& marked_language(title) is None ==> r.display_language is None
            &&& row.codec is Some ==> r.codec == subtitle_codec_of(lower(row.codec->0@))
            &&& row.codec is Some && title.len() > 0 && row.is_forced == 0 ==> r.display_title
                == title + " ("@ + lower(row.codec->0@) + ")"@
            &&& row.codec is Some && title.len() > 0 && row.is_forced != 0 ==> r.display_title
                == title + " ("@ + lower(row.codec->0@) + ")"@ + " (强制)"@
            &&& row.codec is Some && title.len() == 0 && row.is_forced == 0 ==> r.display_title
                == lower(row.codec->0@)
        }),
        external_stream(row, None, index, n as int).delivery_url is None,
{
}

/// The names of codecs that clients know, the tags that containers give them,
/// and the words for channels and for the range of a picture.
pub proof fn law_stream_words(codec: Seq<char>, n: i64)
    ensures
        subtitle_codec_of("hdmv_pgs_subtitle"@) == "pgs"@,
        subtitle_codec_of("dvd_subtitle"@) == "dvdsub"@,
        subtitle_codec_of("webvtt"@) == "vtt"@,
        subtitle_codec_of("ass"@) == "ass"@,
        codec_of("Audio"@, codec) == codec,
        codec_of("Video"@, codec) == codec,
        codec_tag_of("h264"@) == Some("avc1"@),
        codec_tag_of("hevc"@) == Some("hvc1"@),
        codec_tag_of("h265"@) == Some("hvc1"@),
        codec_tag_of("aac"@) == Some("mp4a"@),
        codec_tag_of("ac3"@) == Some("ac-3"@),
        codec.len() > 4 ==> codec_tag_of(codec) is None,
        channel_label_of(1) == Some("mono"@),
        channel_label_of(2) == Some("stereo"@),
        channel_label_of(6) == Some("5.1"@),
        channel_label_of(8) == Some("7.1"@),
        n != 1 && n != 2 && n != 6 && n != 8 ==> channel_label_of(n) is None,
        video_range_of(Some("smpte2084"@)) == "HDR10"@,
        video_range_of(Some("smpte2086"@)) == "HDR10"@,
        video_range_of(Some("arib-std-b67"@)) == "HLG"@,
        video_range_of(None) == "SDR"@,
        tags_codecs(Some("mp4"@)) && tags_codecs(Some("m4v"@)) && tags_codecs(Some("mov"@)),
        !tags_codecs(None),
        codec.len() != 3 ==> !tags_codecs(Some(codec)),
{
    lemma_stream_types_differ();
    reveal_strlit("hdmv_pgs_subtitle");
    reveal_strlit("dvd_subtitle");
    reveal_strlit("webvtt");
    reveal_strlit("ass");
    reveal_strlit("h264");
    reveal_strlit("hevc");
    reveal_strlit("h265");
    reveal_strlit("aac");
    reveal_strlit("ac3");
    reveal_strlit("smpte2084");
    reveal_strlit("smpte2086");
    reveal_strlit("arib-std-b67");
    reveal_strlit("mp4");
    reveal_strlit("m4v");
    reveal_strlit("mov");
    assert(lower("hdmv_pgs_subtitle"@) =~= "hdmv_pgs_subtitle"@);
    assert(lower("dvd_subtitle"@) =~= "dvd_subtitle"@);
    assert(lower("webvtt"@) =~= "webvtt"@);
    assert(lower("ass"@) =~= "ass"@);
    assert(lower("h264"@) =~= "h264"@);
    assert(lower("hevc"@) =~= "hevc"@);
    assert(lower("h265"@) =~= "h265"@);
    assert(lower("aac"@) =~= "aac"@);
    assert(lower("ac3"@) =~= "ac3"@);
    assert("hdmv_pgs_subtitle"@.len() == 17 && "dvd_subtitle"@.len() == 12 && "webvtt"@.len() == 6
        && "ass"@.len() == 3);
    assert("h264"@[2] == '6' && "h265"@[2] == '6' && "h264"@[3] == '4' && "h265"@[3] == '5'
        && "hevc"@[1] == 'e' && "h264"@[1] == '2' && "h265"@[1] == '2');
    assert("aac"@[1] == 'a' && "ac3"@[1] == 'c' && "aac"@.len() == 3 && "ac3"@.len() == 3);
    assert("h264"@.len() == 4 && "hevc"@.len() == 4 && "h265"@.len() == 4);
    assert("arib-std-b67"@.len() == 12 && "smpte2084"@.len() == 9 && "smpte2086"@.len() == 9);
    assert("mp4"@.len() == 3 && "m4v"@.len() == 3 && "mov"@.len() == 3);
    assert(lower(codec).len() == codec.len());
}

/// A picture is anamorphic whose pixels are not square, and it is in AVC form
/// only where the probe says so of H.264.
pub proof fn law_picture_forms(s: StreamInfo, ratio: Seq<char>)
    ensures
        opt(s.sample_aspect_ratio) == Some("4:3"@) ==> anamorphic(s),
        opt(s.sample_aspect_ratio) == Some("1:1"@) ==> !anamorphic(s),
        opt(s.sample_aspect_ratio) == Some("0:1"@) ==> !anamorphic(s),
        opt(s.sample_aspect_ratio) == Some(ratio) && ratio.len() > 3 ==> anamorphic(s),
        s.sample_aspect_ratio is None ==> !anamorphic(s),
        s.codec@ == "h264"@ && s.is_avc == Some(true) ==> h264_avc(s),
        s.is_avc != Some(true) ==> !h264_avc(s),
        s.codec@ == "hevc"@ ==> !h264_avc(s),
{
    reveal_strlit("4:3");
    reveal_strlit("1:1");
    reveal_strlit("0:1");
    reveal_strlit("h264");
    reveal_strlit("hevc");
    assert("4:3"@.len() == 3 && "1:1"@.len() == 3 && "0:1"@.len() == 3);
    assert("4:3"@[0] == '4' && "1:1"@[0] == '1' && "0:1"@[0] == '0');
    assert(lower("hevc"@)[1] == 'e' && lower("h264"@)[1] == '2');
}

/// A codec is tagged only in the containers that tag codecs.
pub proof fn law_codec_tags(s: StreamInfo, place: int, upper_codec: Seq<char>)
    requires
        s.stream_type@ == "Video"@ || s.stream_type@ == "Audio"@,
    ensures
        stream_view(s, place, Some("mp4"@), upper_codec).codec_tag == codec_tag_of(s.codec@),
        stream_view(s, place, None, upper_codec).codec_tag is None,
        stream_view(s, place, Some("matroska"@), upper_codec).codec_tag is None,
{
    lemma_stream_types_differ();
    reveal_strlit("mp4");
    reveal_strlit("m4v");
    reveal_strlit("mov");
    reveal_strlit("matroska");
    assert("matroska"@.len() == 8 && "mp4"@.len() == 3 && "m4v"@.len() == 3 && "mov"@.len() == 3);
}

/// Streams and subtitle files are shown one for one: the probed streams first,
/// in their order, and each subtitle file at the next free place.
pub proof fn law_streams_in_order(
    list: Seq<StreamInfo>,
    container: Option<Seq<char>>,
    subtitles: Seq<ExternalSubtitleRow>,
    uuid: Option<Seq<char>>,
    i: int,
    n: int,
)
    ensures
        all_streams(list, container, subtitles, uuid).len() == list.len() + subtitles.len(),
        0 <= i < list.len() ==> all_streams(list, container, subtitles, uuid)[i] == stream_view(
            list[i],
            i,
            container,
            unicode_upper(titled_codec(list[i])),
        ),
        0 <= n < subtitles.len() ==> all_streams(list, container, subtitles, uuid)[list.len() + n]
            == external_stream(subtitles[n], uuid, greatest_probed(list) + 1 + n, n),
{
    lemma_greatest_probed(list, container);
}

/// Only the twenty-six small letters of ASCII change into capitals here.
pub proof fn law_upper(s: Seq<char>, i: int)
    requires
        0 <= i < s.len(),
    ensures
        upper(s).len() == s.len(),
        'a' <= s[i] <= 'z' ==> upper(s)[i] as int == s[i] as int - 32,
        !('a' <= s[i] <= 'z') ==> upper(s)[i] == s[i],
{
}

} // verus!
