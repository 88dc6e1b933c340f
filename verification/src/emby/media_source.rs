//! Media sources: one playable file of an item, with its streams, its default
//! tracks and the ticket that lets a client fetch it.

use vstd::prelude::*;
use vstd::string::*;

use crate::emby::rows::{ExternalSubtitleRow, MediaSourceRow, StreamInfo};
use crate::emby::streams::{
    all_streams, greatest_probed, media_streams_json, or_empty, stream_views, MediaStreamDto,
    MediaStreamView,
};
use crate::ids::{id_text, item_id, IdKind};
use crate::json::{elements, elements_of, parse_json, parsed_json, trees, Json, JsonView};
use crate::number::trunc_div;
use crate::text::{borrowed, first_of, join2, opt, same};

verus! {

/// The headers that a client has to send; always none.
#[derive(Debug)]
pub struct RequiredHttpHeaders {}

/// An element of `MediaSources`.
#[derive(Debug)]
pub struct MediaSourceDto {
    pub protocol: String,
    pub id: String,
    pub path: String,
    pub source_type: String,
    pub container: String,
    pub name: String,
    pub is_remote: bool,
    pub has_mixed_protocols: bool,
    pub size: i64,
    pub run_time_ticks: i64,
    pub supports_transcoding: bool,
    pub supports_direct_stream: bool,
    pub supports_direct_play: bool,
    pub is_infinite_stream: bool,
    pub requires_opening: bool,
    pub requires_closing: bool,
    pub requires_looping: bool,
    pub supports_probing: bool,
    pub media_streams: Vec<MediaStreamDto>,
    pub formats: Vec<String>,
    pub bitrate: Option<i64>,
    pub required_http_headers: RequiredHttpHeaders,
    pub direct_stream_url: String,
    pub add_api_key_to_direct_stream_url: bool,
    pub read_at_native_framerate: bool,
    pub default_audio_stream_index: Option<i64>,
    pub default_subtitle_stream_index: Option<i64>,
    pub item_id: String,
    pub chapters: Vec<Json>,
}

// ---------------------------------------------------------------------------
// Tickets

/// How long a ticket lasts at least, in seconds.
pub const PLAYBACK_TICKET_TTL: u64 = 21_600;

/// How much longer than the file a ticket lasts, in seconds.
pub const TICKET_SLACK: u64 = 3_600;

/// What a ticket vouches for, and until when (in seconds since the epoch).
#[derive(Debug)]
pub struct TicketClaims {
    pub uuid: String,
    pub user_id: i64,
    pub exp: u64,
}

/// Why no ticket can be issued.
#[derive(Debug, Clone, Copy, PartialEq, Eq, Structural)]
pub enum TicketError {
    /// No signing key is configured.
    MissingKey,
}

/// How long a ticket lasts: an hour more than the file, and never less than
/// the least duration of a ticket.
pub open spec fn ticket_seconds(duration: Option<i64>) -> int {
    match duration {
        Some(s) => if s > 0 && s + TICKET_SLACK > PLAYBACK_TICKET_TTL {
            s + TICKET_SLACK
        } else {
            PLAYBACK_TICKET_TTL as int
        },
        None => PLAYBACK_TICKET_TTL as int,
    }
}

/// How long a ticket lasts.
pub fn ticket_ttl(duration: Option<i64>) -> (r: u64)
    ensures
        r == ticket_seconds(duration),
{
    match duration {
        Some(s) => {
            if s > 0 && s as u64 + TICKET_SLACK > PLAYBACK_TICKET_TTL {
                s as u64 + TICKET_SLACK
            } else {
                PLAYBACK_TICKET_TTL
            }
        },
        None => PLAYBACK_TICKET_TTL,
    }
}

/// A ticket lasts at least six hours, and an hour longer than the file.
pub proof fn law_ticket_outlasts_file(duration: Option<i64>)
    ensures
        ticket_seconds(duration) >= PLAYBACK_TICKET_TTL,
        duration is Some ==> ticket_seconds(duration) >= duration->0 + TICKET_SLACK || duration->0
            <= 0,
        ticket_seconds(duration) <= i64::MAX + TICKET_SLACK,
{
}

/// What a playback ticket is to vouch for: the file and the user, for as long
/// as the file plays and an hour more. Without a signing key there is no ticket.
pub fn playback_claims(
    signing_key: Option<&str>,
    user_id: i64,
    uuid: &str,
    duration: Option<i64>,
    now: u64,
) -> (r: Result<TicketClaims, TicketError>)
    requires
        signing_key is Some ==> now + ticket_seconds(duration) <= u64::MAX,
    ensures
        match r {
            Ok(c) => signing_key is Some && c.uuid@ == uuid@ && c.user_id == user_id && c.exp == now
                + ticket_seconds(duration),
            Err(e) => signing_key is None && e == TicketError::MissingKey,
        },
{
    if signing_key.is_none() {
        return Err(TicketError::MissingKey);
    }
    Ok(TicketClaims { uuid: uuid.to_owned(), user_id, exp: now + ticket_ttl(duration) })
}

// ---------------------------------------------------------------------------
// Defaults

/// The bit rate of the first video stream that has one.
pub open spec fn first_bitrate(v: Seq<MediaStreamView>) -> Option<i64>
    decreases v.len(),
{
    if v.len() == 0 {
        None
    } else {
        first_of(
            first_bitrate(v.drop_last()),
            if v.last().stream_type == "Video"@ {
                v.last().bit_rate
            } else {
                None
            },
        )
    }
}

/// The index of the first stream of a type.
pub open spec fn first_index(v: Seq<MediaStreamView>, stream_type: Seq<char>) -> Option<int>
    decreases v.len(),
{
    if v.len() == 0 {
        None
    } else {
        first_of(
            first_index(v.drop_last(), stream_type),
            if v.last().stream_type == stream_type {
                Some(v.last().index)
            } else {
                None
            },
        )
    }
}

/// The index of the first subtitle stream that is marked as the default.
pub open spec fn first_default_subtitle(v: Seq<MediaStreamView>) -> Option<int>
    decreases v.len(),
{
    if v.len() == 0 {
        None
    } else {
        first_of(
            first_default_subtitle(v.drop_last()),
            if v.last().stream_type == "Subtitle"@ && v.last().is_default {
                Some(v.last().index)
            } else {
                None
            },
        )
    }
}

/// The subtitle stream that plays by default: the one marked so, or the first.
pub open spec fn default_subtitle(v: Seq<MediaStreamView>) -> Option<int> {
    first_of(first_default_subtitle(v), first_index(v, "Subtitle"@))
}

/// An optional `i64` as an integer.
pub open spec fn opt_int(o: Option<i64>) -> Option<int> {
    match o {
        Some(n) => Some(n as int),
        None => None,
    }
}

/// The bit rate, the default audio stream and the default subtitle stream of
/// a list of streams.
pub fn defaults_from_streams(streams: &Vec<MediaStreamDto>) -> (r: (
    Option<i64>,
    Option<i64>,
    Option<i64>,
))
    ensures
        r.0 == first_bitrate(stream_views(streams@)),
        opt_int(r.1) == first_index(stream_views(streams@), "Audio"@),
        opt_int(r.2) == default_subtitle(stream_views(streams@)),
{
    let ghost v = stream_views(streams@);
    proof {
        reveal_strlit("Video");
        reveal_strlit("Audio");
        reveal_strlit("Subtitle");
        assert("Video"@.len() == 5 && "Video"@[0] == 'V');
        assert("Audio"@.len() == 5 && "Audio"@[0] == 'A');
        assert("Subtitle"@.len() == 8);
    }
    let mut bitrate: Option<i64> = None;
    let mut audio: Option<i64> = None;
    let mut subtitle: Option<i64> = None;
    let mut subtitle_default: Option<i64> = None;
    let mut i: usize = 0;
    while i < streams.len()
        invariant
            i <= streams.len(),
            v == stream_views(streams@),
            "Video"@ != "Audio"@,
            "Video"@ != "Subtitle"@,
            "Audio"@ != "Subtitle"@,
            bitrate == first_bitrate(v.take(i as int)),
            opt_int(audio) == first_index(v.take(i as int), "Audio"@),
            opt_int(subtitle) == first_index(v.take(i as int), "Subtitle"@),
            opt_int(subtitle_default) == first_default_subtitle(v.take(i as int)),
        decreases streams.len() - i,
    {
        let s = &streams[i];
        proof {
            assert(v.take(i + 1).drop_last() =~= v.take(i as int));
            assert(v.take(i + 1).last() == s@);
        }
        if same(s.stream_type.as_str(), "Video") {
            if bitrate.is_none() {
                bitrate = s.bit_rate;
            }
        } else if same(s.stream_type.as_str(), "Audio") {
            if audio.is_none() {
                audio = Some(s.index);
            }
        } else if same(s.stream_type.as_str(), "Subtitle") {
            if subtitle.is_none() {
                subtitle = Some(s.index);
            }
            if subtitle_default.is_none() && s.is_default {
                subtitle_default = Some(s.index);
            }
        }
        i = i + 1;
    }
    assert(v.take(v.len() as int) =~= v);
    let chosen = if subtitle_default.is_some() {
        subtitle_default
    } else {
        subtitle
    };
    (bitrate, audio, chosen)
}

/// Eight times a size, held within the range of `i64`.
pub open spec fn bits_of(size: i64) -> int {
    if size * 8 > i64::MAX {
        i64::MAX as int
    } else if size * 8 < i64::MIN {
        i64::MIN as int
    } else {
        size * 8
    }
}

/// The mean bit rate of a file of known size and positive duration.
pub open spec fn mean_bitrate(size: Option<i64>, seconds: Option<i64>) -> Option<int> {
    match (size, seconds) {
        (Some(size), Some(secs)) => if secs > 0 {
            Some(trunc_div(bits_of(size), secs as int))
        } else {
            None
        },
        _ => None,
    }
}

/// The mean bit rate of a file of known size and positive duration.
pub fn estimate_bitrate(size: Option<i64>, seconds: Option<i64>) -> (r: Option<i64>)
    ensures
        opt_int(r) == mean_bitrate(size, seconds),
{
    match (size, seconds) {
        (Some(size), Some(secs)) => {
            if secs > 0 {
                let bits: i64 = if size > i64::MAX / 8 {
                    i64::MAX
                } else if size < i64::MIN / 8 {
                    i64::MIN
                } else {
                    size * 8
                };
                assert(bits == bits_of(size));
                Some(bits / secs)
            } else {
                None
            }
        },
        _ => None,
    }
}

// ---------------------------------------------------------------------------
// The object

/// A stream with the media source's bit rate where it is a video stream
/// without one of its own.
pub open spec fn with_bitrate(s: MediaStreamView, bitrate: Option<i64>) -> MediaStreamView {
    if s.stream_type == "Video"@ && s.bit_rate is None {
        MediaStreamView { bit_rate: bitrate, ..s }
    } else {
        s
    }
}

fn fill_bitrate(streams: &mut Vec<MediaStreamDto>, bitrate: Option<i64>)
    ensures
        stream_views(final(streams)@) == stream_views(old(streams)@).map_values(
            |s: MediaStreamView| with_bitrate(s, bitrate),
        ),
{
    let ghost before = stream_views(streams@);
    let ghost whole = before.map_values(|s: MediaStreamView| with_bitrate(s, bitrate));
    let mut i: usize = 0;
    while i < streams.len()
        invariant
            whole == before.map_values(|s: MediaStreamView| with_bitrate(s, bitrate)),
            streams.len() == before.len(),
            i <= streams.len(),
            forall|k: int| 0 <= k < i ==> (#[trigger] streams@[k])@ == whole[k],
            forall|k: int| i <= k < streams.len() ==> (#[trigger] streams@[k])@ == before[k],
        decreases streams.len() - i,
    {
        if same(streams[i].stream_type.as_str(), "Video") && streams[i].bit_rate.is_none() {
            streams[i].bit_rate = bitrate;
        }
        i = i + 1;
    }
    assert(stream_views(streams@) =~= whole);
}

/// The bit rate of a media source: that of its video stream, or the mean of the file.
pub open spec fn source_bitrate(streams: Seq<MediaStreamView>, media: MediaSourceRow) -> Option<int> {
    first_of(opt_int(first_bitrate(streams)), mean_bitrate(media.file_size, media.file_second))
}

/// The chapters that a document lists; none where it is absent or no list.
pub open spec fn chapters_of(document: Option<JsonView>) -> Seq<JsonView> {
    elements_of(document)
}

/// The document of a media source's chapters, as read.
pub open spec fn chapter_document(media: MediaSourceRow) -> Option<JsonView> {
    match opt(media.file_chapters) {
        Some(text) => parsed_json(vstd::utf8::encode_utf8(text)),
        None => None,
    }
}

/// The text of an option, or another text where it is absent.
pub open spec fn or_text(o: Option<Seq<char>>, other: Seq<char>) -> Seq<char> {
    match o {
        Some(s) => s,
        None => other,
    }
}

fn text_or(o: &Option<String>, other: &str) -> (r: String)
    ensures
        r@ == or_text(opt(*o), other@),
{
    match o {
        Some(s) => s.clone(),
        None => other.to_owned(),
    }
}

/// Whether `r` is the object of a media source whose streams, before bit rates
/// are filled in, are `streams`.
pub open spec fn source_of(
    r: MediaSourceDto,
    media: MediaSourceRow,
    ticket: Seq<char>,
    streams: Seq<MediaStreamView>,
    document: Option<JsonView>,
    is_first: bool,
) -> bool {
    &&& r.protocol@ == "File"@
    &&& r.id@ == or_empty(opt(media.uuid))
    &&& r.path@ == or_empty(opt(media.path_url))
    &&& r.source_type@ == if is_first {
        "Default"@
    } else {
        "Grouping"@
    }
    &&& r.container@ == or_text(opt(media.file_container), "mp4"@)
    &&& r.name@ == or_text(opt(media.name), "Stream"@)
    &&& !r.is_remote
    &&& !r.has_mixed_protocols
    &&& r.size == match media.file_size {
        Some(n) => n,
        None => 0,
    }
    &&& r.run_time_ticks == match media.file_second {
        Some(s) => s * 10_000_000,
        None => 0,
    }
    &&& !r.supports_transcoding
    &&& r.supports_direct_stream
    &&& r.supports_direct_play
    &&& !r.is_infinite_stream
    &&& !r.requires_opening
    &&& !r.requires_closing
    &&& !r.requires_looping
    &&& r.supports_probing
    &&& opt_int(r.bitrate) == source_bitrate(streams, media)
    &&& stream_views(r.media_streams@) == streams.map_values(
        |s: MediaStreamView| with_bitrate(s, r.bitrate),
    )
    &&& r.formats@.len() == 0
    &&& r.direct_stream_url@ == "/s/"@ + ticket
    &&& !r.add_api_key_to_direct_stream_url
    &&& !r.read_at_native_framerate
    &&& opt_int(r.default_audio_stream_index) == first_index(streams, "Audio"@)
    &&& opt_int(r.default_subtitle_stream_index) == default_subtitle(streams)
    &&& r.item_id@ == id_text(IdKind::Item, media.item_id as int)
    &&& trees(r.chapters@) == chapters_of(document)
}

/// The streams that a media source's object shows before bit rates are filled in.
pub open spec fn source_streams(
    media: MediaSourceRow,
    probed: Seq<StreamInfo>,
    subtitles: Seq<ExternalSubtitleRow>,
) -> Seq<MediaStreamView> {
    all_streams(probed, opt(media.file_container), subtitles, opt(media.uuid))
}

/// The object of a media source, given its stream objects and the document of
/// its chapters.
pub fn media_source_with(
    media: &MediaSourceRow,
    ticket: &str,
    streams: Vec<MediaStreamDto>,
    document: Option<Json>,
    is_first: bool,
) -> (r: MediaSourceDto)
    requires
        crate::emby::shared::ticks_fit(0, media.file_second),
    ensures
        source_of(
            r,
            *media,
            ticket@,
            stream_views(streams@),
            crate::json::opt_tree(document),
            is_first,
        ),
{
    let mut streams = streams;
    let (first, default_audio, default_subtitle) = defaults_from_streams(&streams);
    let bitrate = if first.is_some() {
        first
    } else {
        estimate_bitrate(media.file_size, media.file_second)
    };
    fill_bitrate(&mut streams, bitrate);
    proof {
        reveal_strlit("");
        assert(""@ =~= Seq::empty());
    }
    MediaSourceDto {
        protocol: "File".to_owned(),
        id: text_or(&media.uuid, ""),
        path: text_or(&media.path_url, ""),
        source_type: if is_first {
            "Default".to_owned()
        } else {
            "Grouping".to_owned()
        },
        container: text_or(&media.file_container, "mp4"),
        name: text_or(&media.name, "Stream"),
        is_remote: false,
        has_mixed_protocols: false,
        size: match media.file_size {
            Some(n) => n,
            None => 0,
        },
        run_time_ticks: match media.file_second {
            Some(s) => s * 10_000_000,
            None => 0,
        },
        supports_transcoding: false,
        supports_direct_stream: true,
        supports_direct_play: true,
        is_infinite_stream: false,
        requires_opening: false,
        requires_closing: false,
        requires_looping: false,
        supports_probing: true,
        media_streams: streams,
        formats: Vec::new(),
        bitrate,
        required_http_headers: RequiredHttpHeaders {  },
        direct_stream_url: join2("/s/", ticket),
        add_api_key_to_direct_stream_url: false,
        read_at_native_framerate: false,
        default_audio_stream_index: default_audio,
        default_subtitle_stream_index: default_subtitle,
        item_id: item_id(media.item_id),
        chapters: elements(document),
    }
}

/// The objects of a media source: always one. The source's metadata holds
/// `probed`, and `subtitles` are the subtitle files beside it.
pub fn media_sources_json(
    media: &MediaSourceRow,
    ticket: &str,
    probed: &Vec<StreamInfo>,
    subtitles: &Vec<ExternalSubtitleRow>,
    is_first: bool,
) -> (r: Vec<MediaSourceDto>)
    requires
        crate::emby::shared::ticks_fit(0, media.file_second),
        probed@.len() <= i64::MAX,
        subtitles@.len() <= i64::MAX,
        greatest_probed(probed@) + 1 + subtitles@.len() <= i64::MAX,
    ensures
        r@.len() == 1,
        source_of(
            r@[0],
            *media,
            ticket@,
            source_streams(*media, probed@, subtitles@),
            chapter_document(*media),
            is_first,
        ),
{
    let streams = media_streams_json(
        probed,
        borrowed(&media.file_container),
        subtitles,
        borrowed(&media.uuid),
    );
    let document = match &media.file_chapters {
        Some(text) => parse_json(text.as_str().as_bytes()),
        None => None,
    };
    let mut out: Vec<MediaSourceDto> = Vec::new();
    out.push(media_source_with(media, ticket, streams, document, is_first));
    out
}

/// Where the bit rate is known from a video stream or from the size and the
/// duration of the file, the source and each of its video streams have one.
pub proof fn law_bitrate_is_filled_in(
    r: MediaSourceDto,
    media: MediaSourceRow,
    ticket: Seq<char>,
    streams: Seq<MediaStreamView>,
    document: Option<JsonView>,
    is_first: bool,
    i: int,
)
    requires
        source_of(r, media, ticket, streams, document, is_first),
        first_bitrate(streams) is Some || (media.file_size is Some && media.file_second is Some
            && media.file_second->0 > 0),
        0 <= i < r.media_streams@.len(),
        stream_views(r.media_streams@)[i].stream_type == "Video"@,
    ensures
        r.bitrate is Some,
        stream_views(r.media_streams@)[i].bit_rate is Some,
{
    let shown = streams.map_values(|s: MediaStreamView| with_bitrate(s, r.bitrate));
    assert(shown.len() == r.media_streams@.len());
    assert(shown[i] == with_bitrate(streams[i], r.bitrate));
}

// ---------------------------------------------------------------------------
// Playback information

/// What a client needs to play an item: its media sources and the identifier of
/// the session.
#[derive(Debug)]
pub struct PlaybackInfoResponseDto {
    pub media_sources: Vec<MediaSourceDto>,
    pub play_session_id: String,
}

/// Why there is no playback information.
#[derive(Debug, Clone, Copy, PartialEq, Eq, Structural)]
pub enum PlaybackRefusal {
    /// There is no such item, or it has no media source.
    NotFound,
    /// The store could not be asked.
    StoreFailed,
    /// No ticket could be issued.
    NoTicket,
}

impl PlaybackRefusal {
    /// The status of the answer.
    pub fn status(self) -> (r: u16)
        ensures
            r == match self {
                PlaybackRefusal::NotFound => 404u16,
                PlaybackRefusal::StoreFailed => 500u16,
                PlaybackRefusal::NoTicket => 500u16,
            },
    {
        match self {
            PlaybackRefusal::NotFound => 404,
            PlaybackRefusal::StoreFailed => 500,
            PlaybackRefusal::NoTicket => 500,
        }
    }

    /// The text of the answer.
    pub fn text(self) -> (r: &'static str)
        ensures
            r@ == match self {
                PlaybackRefusal::NotFound => ""@,
                PlaybackRefusal::StoreFailed => "查询失败"@,
                PlaybackRefusal::NoTicket => "未配置播放票据签名密钥 playback.signing_key"@,
            },
    {
        match self {
            PlaybackRefusal::NotFound => "",
            PlaybackRefusal::StoreFailed => "查询失败",
            PlaybackRefusal::NoTicket => "未配置播放票据签名密钥 playback.signing_key",
        }
    }
}

/// A media source with what goes into its object: its ticket (none where none
/// could be issued), its probed streams and its subtitle files.
#[derive(Debug)]
pub struct PlaybackSource {
    pub media: MediaSourceRow,
    pub ticket: Option<String>,
    pub probed: Vec<StreamInfo>,
    pub subtitles: Vec<ExternalSubtitleRow>,
}

/// Whether a source's numbers stay within range.
pub open spec fn source_fits(s: PlaybackSource) -> bool {
    &&& crate::emby::shared::ticks_fit(0, s.media.file_second)
    &&& s.probed@.len() <= i64::MAX
    &&& s.subtitles@.len() <= i64::MAX
    &&& greatest_probed(s.probed@) + 1 + s.subtitles@.len() <= i64::MAX
}

/// The identifier of the session: that of the first source that has one.
pub open spec fn session_of(sources: Seq<PlaybackSource>) -> Seq<char>
    decreases sources.len(),
{
    if sources.len() == 0 {
        Seq::empty()
    } else {
        let rest = session_of(sources.drop_last());
        if rest.len() > 0 {
            rest
        } else {
            or_empty(opt(sources.last().media.uuid))
        }
    }
}

/// Whether the object of source `i` is `d`; the first source is the default one.
pub open spec fn shows_source(d: MediaSourceDto, sources: Seq<PlaybackSource>, i: int) -> bool {
    &&& sources[i].ticket is Some
    &&& source_of(
        d,
        sources[i].media,
        sources[i].ticket->0@,
        source_streams(sources[i].media, sources[i].probed@, sources[i].subtitles@),
        chapter_document(sources[i].media),
        i == 0,
    )
}

/// The playback information of an item, given its sources; none of the sources
/// means that the item is not found, and one ticket that could not be issued
/// that there is none at all.
pub fn playback_info(sources: &Vec<PlaybackSource>) -> (r: Result<
    PlaybackInfoResponseDto,
    PlaybackRefusal,
>)
    requires
        forall|i: int| 0 <= i < sources@.len() ==> source_fits(#[trigger] sources@[i]),
    ensures
        match r {
            Ok(info) => {
                &&& sources@.len() > 0
                &&& info.media_sources@.len() == sources@.len()
                &&& forall|i: int|
                    0 <= i < sources@.len() ==> shows_source(
                        #[trigger] info.media_sources@[i],
                        sources@,
                        i,
                    )
                &&& info.play_session_id@ == session_of(sources@)
            },
            Err(PlaybackRefusal::NotFound) => sources@.len() == 0,
            Err(PlaybackRefusal::NoTicket) => exists|i: int|
                0 <= i < sources@.len() && (#[trigger] sources@[i]).ticket is None,
            Err(PlaybackRefusal::StoreFailed) => false,
        },
{
    if sources.len() == 0 {
        return Err(PlaybackRefusal::NotFound);
    }
    let mut out: Vec<MediaSourceDto> = Vec::new();
    let mut session = String::new();
    let mut i: usize = 0;
    assert(session@ =~= Seq::empty());
    while i < sources.len()
        invariant
            i <= sources.len(),
            forall|k: int| 0 <= k < sources@.len() ==> source_fits(#[trigger] sources@[k]),
            out.len() == i,
            forall|k: int| 0 <= k < i ==> shows_source(#[trigger] out@[k], sources@, k),
            session@ == session_of(sources@.take(i as int)),
        decreases sources.len() - i,
    {
        let s = &sources[i];
        assert(source_fits(sources@[i as int]));
        let ticket = match &s.ticket {
            Some(t) => t.as_str(),
            None => {
                assert(sources@[i as int].ticket is None);
                return Err(PlaybackRefusal::NoTicket);
            },
        };
        let mut one = media_sources_json(&s.media, ticket, &s.probed, &s.subtitles, i == 0);
        if session.as_str().is_empty() {
            session = text_or_none(&s.media.uuid);
        }
        proof {
            assert(sources@.take(i + 1).drop_last() =~= sources@.take(i as int));
        }
        let d = one.remove(0);
        assert(shows_source(d, sources@, i as int));
        out.push(d);
        i = i + 1;
    }
    assert(sources@.take(sources@.len() as int) =~= sources@);
    Ok(PlaybackInfoResponseDto { media_sources: out, play_session_id: session })
}

fn text_or_none(o: &Option<String>) -> (r: String)
    ensures
        r@ == or_empty(opt(*o)),
{
    match o {
        Some(s) => s.clone(),
        None => String::new(),
    }
}

// ---------------------------------------------------------------------------
// What a source shows

/// The bit rate of a source is that of its first video stream that has one.
pub proof fn law_first_bitrate(v: Seq<MediaStreamView>, k: int)
    ensures
        0 <= k < v.len() && v[k].stream_type == "Video"@ && v[k].bit_rate is Some && (forall|i: int|
            0 <= i < k ==> !((#[trigger] v[i]).stream_type == "Video"@ && (#[trigger] v[i]).bit_rate is Some)) ==> first_bitrate(v) == v[k].bit_rate,
        (forall|i: int| 0 <= i < v.len() ==> !((#[trigger] v[i]).stream_type == "Video"@ && (#[trigger] v[i]).bit_rate is Some)) ==> first_bitrate(v) is None,
    decreases v.len(),
{
    if v.len() > 0 {
        let rest = v.drop_last();
        assert(forall|i: int| 0 <= i < rest.len() ==> #[trigger] rest[i] == v[i]);
        assert(v[v.len() - 1] == v.last());
        law_first_bitrate(rest, k);
        if forall|i: int| 0 <= i < v.len() ==> !((#[trigger] v[i]).stream_type == "Video"@ && (#[trigger] v[i]).bit_rate is Some) {
            assert forall|i: int| 0 <= i < rest.len() implies !((#[trigger] rest[i]).stream_type == "Video"@ && (#[trigger] rest[i]).bit_rate is Some) by {
                assert(rest[i] == v[i]);
            }
        }
        if 0 <= k < v.len() && v[k].stream_type == "Video"@ && v[k].bit_rate is Some && (forall|i: int|
            0 <= i < k ==> !((#[trigger] v[i]).stream_type == "Video"@ && (#[trigger] v[i]).bit_rate is Some)) {
            assert forall|i: int| 0 <= i < k implies !((#[trigger] rest[i]).stream_type == "Video"@ && (#[trigger] rest[i]).bit_rate is Some) by {
                assert(rest[i] == v[i]);
            }
            if k == rest.len() {
                assert forall|i: int| 0 <= i < rest.len() implies !((#[trigger] rest[i]).stream_type == "Video"@ && (#[trigger] rest[i]).bit_rate is Some) by {
                    assert(rest[i] == v[i]);
                }
            }
        }
    }
}

/// The default track of a type is the first one of it.
pub proof fn law_first_of_type(v: Seq<MediaStreamView>, stream_type: Seq<char>, k: int)
    ensures
        0 <= k < v.len() && v[k].stream_type == stream_type && (forall|i: int|
            0 <= i < k ==> !((#[trigger] v[i]).stream_type == stream_type)) ==> first_index(v, stream_type) == Some(v[k].index),
        (forall|i: int| 0 <= i < v.len() ==> !((#[trigger] v[i]).stream_type == stream_type)) ==> first_index(v, stream_type) is None,
    decreases v.len(),
{
    if v.len() > 0 {
        let rest = v.drop_last();
        assert(forall|i: int| 0 <= i < rest.len() ==> #[trigger] rest[i] == v[i]);
        assert(v[v.len() - 1] == v.last());
        law_first_of_type(rest, stream_type, k);
        if forall|i: int| 0 <= i < v.len() ==> !((#[trigger] v[i]).stream_type == stream_type) {
            assert forall|i: int| 0 <= i < rest.len() implies !((#[trigger] rest[i]).stream_type == stream_type) by {
                assert(rest[i] == v[i]);
            }
        }
        if 0 <= k < v.len() && v[k].stream_type == stream_type && (forall|i: int|
            0 <= i < k ==> !((#[trigger] v[i]).stream_type == stream_type)) {
            assert forall|i: int| 0 <= i < k implies !((#[trigger] rest[i]).stream_type == stream_type) by {
                assert(rest[i] == v[i]);
            }
            if k == rest.len() {
                assert forall|i: int| 0 <= i < rest.len() implies !((#[trigger] rest[i]).stream_type == stream_type) by {
                    assert(rest[i] == v[i]);
                }
            }
        }
    }
}

/// The first subtitle that is marked as the default goes before all others.
pub proof fn law_first_default_subtitle(v: Seq<MediaStreamView>, k: int)
    ensures
        0 <= k < v.len() && v[k].stream_type == "Subtitle"@ && v[k].is_default && (forall|i: int|
            0 <= i < k ==> !((#[trigger] v[i]).stream_type == "Subtitle"@ && (#[trigger] v[i]).is_default)) ==> first_default_subtitle(v) == Some(v[k].index),
        (forall|i: int| 0 <= i < v.len() ==> !((#[trigger] v[i]).stream_type == "Subtitle"@ && (#[trigger] v[i]).is_default)) ==> first_default_subtitle(v) is None,
    decreases v.len(),
{
    if v.len() > 0 {
        let rest = v.drop_last();
        assert(forall|i: int| 0 <= i < rest.len() ==> #[trigger] rest[i] == v[i]);
        assert(v[v.len() - 1] == v.last());
        law_first_default_subtitle(rest, k);
        if forall|i: int| 0 <= i < v.len() ==> !((#[trigger] v[i]).stream_type == "Subtitle"@ && (#[trigger] v[i]).is_default) {
            assert forall|i: int| 0 <= i < rest.len() implies !((#[trigger] rest[i]).stream_type == "Subtitle"@ && (#[trigger] rest[i]).is_default) by {
                assert(rest[i] == v[i]);
            }
        }
        if 0 <= k < v.len() && v[k].stream_type == "Subtitle"@ && v[k].is_default && (forall|i: int|
            0 <= i < k ==> !((#[trigger] v[i]).stream_type == "Subtitle"@ && (#[trigger] v[i]).is_default)) {
            assert forall|i: int| 0 <= i < k implies !((#[trigger] rest[i]).stream_type == "Subtitle"@ && (#[trigger] rest[i]).is_default) by {
                assert(rest[i] == v[i]);
            }
            if k == rest.len() {
                assert forall|i: int| 0 <= i < rest.len() implies !((#[trigger] rest[i]).stream_type == "Subtitle"@ && (#[trigger] rest[i]).is_default) by {
                    assert(rest[i] == v[i]);
                }
            }
        }
    }
}

/// A subtitle marked as the default is shown; without one it is the first
/// subtitle, and without subtitles there is none.
pub proof fn law_default_subtitle(v: Seq<MediaStreamView>)
    ensures
        first_default_subtitle(v) is Some ==> default_subtitle(v) == first_default_subtitle(v),
        first_default_subtitle(v) is None ==> default_subtitle(v) == first_index(v, "Subtitle"@),
        (forall|i: int| 0 <= i < v.len() ==> (#[trigger] v[i]).stream_type != "Subtitle"@)
            ==> default_subtitle(v) is None,
{
    law_first_default_subtitle(v, 0);
    law_first_of_type(v, "Subtitle"@, 0);
}

/// Where no stream tells a bit rate, it is the bits of the file by its seconds;
/// a file without a size or a duration has none.
pub proof fn law_mean_bitrate(size: i64, seconds: i64)
    ensures
        0 <= size <= i64::MAX / 8 && seconds > 0 ==> mean_bitrate(Some(size), Some(seconds)) == Some(
            8 * size / seconds as int,
        ),
        seconds <= 0 ==> mean_bitrate(Some(size), Some(seconds)) is None,
        mean_bitrate(None, Some(seconds)) is None,
        mean_bitrate(Some(size), None) is None,
{
}

/// A ticket is good for six hours, or for an hour more than the file lasts where
/// that is longer.
pub proof fn law_ticket_time(seconds: i64)
    ensures
        seconds <= 18_000 ==> ticket_seconds(Some(seconds)) == 21_600,
        seconds > 18_000 ==> ticket_seconds(Some(seconds)) == seconds + 3_600,
        ticket_seconds(None) == 21_600,
{
}

/// A source carries what its row says: its identifier, its address, its name,
/// its container, its size and its duration. The first source of an item is the
/// default one.
pub proof fn law_source_carries_the_row(
    r: MediaSourceDto,
    media: MediaSourceRow,
    ticket: Seq<char>,
    streams: Seq<MediaStreamView>,
    document: Option<JsonView>,
    is_first: bool,
)
    requires
        source_of(r, media, ticket, streams, document, is_first),
    ensures
        media.uuid is Some ==> r.id@ == media.uuid->0@,
        media.uuid is None ==> r.id@.len() == 0,
        media.path_url is Some ==> r.path@ == media.path_url->0@,
        media.path_url is None ==> r.path@.len() == 0,
        media.name is Some ==> r.name@ == media.name->0@,
        media.name is None ==> r.name@ == "Stream"@,
        media.file_container is Some ==> r.container@ == media.file_container->0@,
        media.file_container is None ==> r.container@ == "mp4"@,
        media.file_size is Some ==> r.size == media.file_size->0,
        media.file_size is None ==> r.size == 0,
        media.file_second is Some ==> r.run_time_ticks == 10_000_000 * media.file_second->0,
        media.file_second is None ==> r.run_time_ticks == 0,
        r.item_id@ == id_text(IdKind::Item, media.item_id as int),
        r.direct_stream_url@ == "/s/"@ + ticket,
        is_first ==> r.source_type@ == "Default"@,
        !is_first ==> r.source_type@ == "Grouping"@,
        r.protocol@ == "File"@,
        !r.is_remote && !r.supports_transcoding && r.supports_direct_stream
            && r.supports_direct_play && r.supports_probing,
        !r.has_mixed_protocols && !r.is_infinite_stream && !r.requires_opening
            && !r.requires_closing && !r.requires_looping,
        !r.add_api_key_to_direct_stream_url && !r.read_at_native_framerate,
        r.formats@.len() == 0,
        document matches Some(JsonView::List(chapters)) ==> trees(r.chapters@) == chapters,
        document is None ==> r.chapters@.len() == 0,
{
    assert(trees(r.chapters@).len() == r.chapters@.len());
}

/// A source shows all its streams, in order, and leaves them as they are but for
/// a bit rate that a video stream lacks. Its own bit rate is that of the first
/// video stream that has one, its default tracks are those of its streams.
pub proof fn law_source_shows_its_streams(
    r: MediaSourceDto,
    media: MediaSourceRow,
    ticket: Seq<char>,
    streams: Seq<MediaStreamView>,
    document: Option<JsonView>,
    is_first: bool,
    i: int,
)
    requires
        source_of(r, media, ticket, streams, document, is_first),
        0 <= i < streams.len(),
    ensures
        r.media_streams@.len() == streams.len(),
        streams[i].stream_type != "Video"@ || streams[i].bit_rate is Some ==> r.media_streams@[i]@
            == streams[i],
        r.media_streams@[i]@.index == streams[i].index,
        r.media_streams@[i]@.display_title == streams[i].display_title,
        streams[i].stream_type == "Video"@ && streams[i].bit_rate is None
            ==> r.media_streams@[i]@.bit_rate == r.bitrate,
        first_bitrate(streams) is Some ==> r.bitrate == first_bitrate(streams),
        opt_int(r.default_audio_stream_index) == first_index(streams, "Audio"@),
        opt_int(r.default_subtitle_stream_index) == default_subtitle(streams),
{
    let shown = stream_views(r.media_streams@);
    assert(shown.len() == r.media_streams@.len());
    assert(shown[i] == r.media_streams@[i]@);
}

/// The session of a playback is the first source that has an identifier.
pub proof fn law_session_is_the_first_source(sources: Seq<PlaybackSource>, k: int)
    ensures
        0 <= k < sources.len() && sources[k].media.uuid is Some && sources[k].media.uuid->0@.len()
            > 0 && (forall|i: int|
            0 <= i < k ==> (#[trigger] sources[i]).media.uuid is None || sources[i].media.uuid->0@.len()
                == 0) ==> session_of(sources) == sources[k].media.uuid->0@,
        (forall|i: int|
            0 <= i < sources.len() ==> (#[trigger] sources[i]).media.uuid is None
                || sources[i].media.uuid->0@.len() == 0) ==> session_of(sources).len() == 0,
    decreases sources.len(),
{
    if sources.len() > 0 {
        let rest = sources.drop_last();
        assert(forall|i: int| 0 <= i < rest.len() ==> #[trigger] rest[i] == sources[i]);
        assert(sources[sources.len() - 1] == sources.last());
        law_session_is_the_first_source(rest, k);
        if 0 <= k < sources.len() && (forall|i: int|
            0 <= i < k ==> (#[trigger] sources[i]).media.uuid is None || sources[i].media.uuid->0@.len()
                == 0) {
            assert forall|i: int| 0 <= i < k implies (#[trigger] rest[i]).media.uuid is None
                || rest[i].media.uuid->0@.len() == 0 by {
                assert(rest[i] == sources[i]);
            }
        }
        if forall|i: int|
            0 <= i < sources.len() ==> (#[trigger] sources[i]).media.uuid is None
                || sources[i].media.uuid->0@.len() == 0 {
            assert forall|i: int| 0 <= i < rest.len() implies (#[trigger] rest[i]).media.uuid is None
                || rest[i].media.uuid->0@.len() == 0 by {
                assert(rest[i] == sources[i]);
            }
        }
    }
}

/// The sources of an item are shown in their order, each with its own ticket and
/// its own streams, and only the first of them is the default one.
pub proof fn law_sources_in_order(d: MediaSourceDto, sources: Seq<PlaybackSource>, i: int)
    requires
        0 <= i < sources.len(),
        shows_source(d, sources, i),
    ensures
        sources[i].ticket is Some && d.direct_stream_url@ == "/s/"@ + sources[i].ticket->0@,
        d.item_id@ == id_text(IdKind::Item, sources[i].media.item_id as int),
        sources[i].media.uuid is Some ==> d.id@ == sources[i].media.uuid->0@,
        d.source_type@ == "Default"@ <==> i == 0,
        d.media_streams@.len() == sources[i].probed@.len() + sources[i].subtitles@.len(),
{
    reveal_strlit("Default");
    reveal_strlit("Grouping");
    assert("Default"@[0] == 'D' && "Grouping"@[0] == 'G');
    assert(stream_views(d.media_streams@).len() == d.media_streams@.len());
}

} // verus!
