//! Serving media: byte ranges, content types, and how a source is played.

use vstd::prelude::*;
use vstd::string::*;

use crate::number::{
    all_digits, digits_value, is_digit, lemma_nat_text, nat_text, parse_u64, push_u64, u64_of,
};
use crate::text::{
    after_last, find_char, is_space, join3, lemma_after_last, lemma_position, lemma_position_bounds,
    lemma_trim_bounds, lemma_trim_is_part, lower, lowered, opt, opt_str, position, range_text, same,
    starts, strip_prefix, tail_after_last, to_chars, trim, trimmed, without_prefix,
};

verus! {

// ---------------------------------------------------------------------------
// Ranges

/// What a range header asks for.
#[derive(Debug, Clone, Copy, PartialEq, Eq, Structural)]
pub enum RangeResult {
    /// The whole file.
    Full,
    /// Nothing that the file holds.
    Unsat,
    /// The bytes from the first to the second number, both included.
    Partial(u64, u64),
}

/// A header without the unit in front and without blanks around it.
pub open spec fn range_spec(header: Seq<char>) -> Seq<char> {
    match without_prefix(header, "bytes="@) {
        Some(rest) => trim(rest),
        None => trim(header),
    }
}

/// The last `n` bytes of a file, or all of it where it has fewer.
pub open spec fn suffix_range(n: Option<u64>, total: u64) -> RangeResult {
    match n {
        Some(v) => if v == 0 || total == 0 {
            RangeResult::Unsat
        } else if v >= total {
            RangeResult::Partial(0, (total - 1) as u64)
        } else {
            RangeResult::Partial((total - v) as u64, (total - 1) as u64)
        },
        None => RangeResult::Unsat,
    }
}

/// The bytes from `start` to `end`, or to the end of the file.
pub open spec fn bounded_range(start: Option<u64>, end: Seq<char>, total: u64) -> RangeResult {
    match start {
        Some(s) => if s >= total {
            RangeResult::Unsat
        } else if end.len() == 0 {
            RangeResult::Partial(s, (total - 1) as u64)
        } else {
            match u64_of(end) {
                Some(e) => if e < s {
                    RangeResult::Unsat
                } else if e >= total {
                    RangeResult::Partial(s, (total - 1) as u64)
                } else {
                    RangeResult::Partial(s, e)
                },
                None => RangeResult::Unsat,
            }
        },
        None => RangeResult::Unsat,
    }
}

/// What a range header asks of a file of `total` bytes: `start-`, `start-end`
/// or `-count`. Without a header it is the whole file.
pub open spec fn range_of(header: Option<Seq<char>>, total: u64) -> RangeResult {
    match header {
        None => RangeResult::Full,
        Some(h) => {
            let s = range_spec(h);
            let at = position(s, '-');
            if at >= s.len() {
                RangeResult::Unsat
            } else {
                let start = trim(s.take(at));
                let end = trim(s.skip(at + 1));
                if start.len() == 0 {
                    suffix_range(u64_of(end), total)
                } else {
                    bounded_range(u64_of(start), end, total)
                }
            }
        },
    }
}

/// What a range header asks of a file of `total` bytes.
pub fn parse_range(range: Option<&str>, total: u64) -> (r: RangeResult)
    ensures
        r == range_of(opt_str(range), total),
{
    let header = match range {
        Some(h) => h,
        None => {
            return RangeResult::Full;
        },
    };
    let spec = match strip_prefix(header, "bytes=") {
        Some(rest) => trimmed(rest.as_str()),
        None => trimmed(header),
    };
    let cs = to_chars(spec.as_str());
    let n: usize = cs.len();
    let at: usize = find_char(cs.as_slice(), 0, n, '-');
    assert(cs@.subrange(0, n as int) =~= spec@);
    if at == n {
        return RangeResult::Unsat;
    }
    let head = range_text(cs.as_slice(), 0, at);
    let tail = range_text(cs.as_slice(), at + 1, n);
    assert(head@ =~= spec@.take(at as int));
    assert(tail@ =~= spec@.skip(at + 1));
    let start_s = trimmed(head.as_str());
    let end_s = trimmed(tail.as_str());
    if start_s.as_str().is_empty() {
        if total == 0 {
            return RangeResult::Unsat;
        }
        return match parse_u64(end_s.as_str()) {
            Some(v) => if v == 0 {
                RangeResult::Unsat
            } else if v >= total {
                RangeResult::Partial(0, total - 1)
            } else {
                RangeResult::Partial(total - v, total - 1)
            },
            None => RangeResult::Unsat,
        };
    }
    let start: u64 = match parse_u64(start_s.as_str()) {
        Some(v) => v,
        None => {
            return RangeResult::Unsat;
        },
    };
    if start >= total {
        return RangeResult::Unsat;
    }
    if end_s.as_str().is_empty() {
        return RangeResult::Partial(start, total - 1);
    }
    match parse_u64(end_s.as_str()) {
        Some(e) => if e < start {
            RangeResult::Unsat
        } else if e >= total {
            RangeResult::Partial(start, total - 1)
        } else {
            RangeResult::Partial(start, e)
        },
        None => RangeResult::Unsat,
    }
}

/// A range that can be served is not empty and lies within the file.
pub proof fn law_range_within_file(header: Option<Seq<char>>, total: u64)
    ensures
        range_of(header, total) matches RangeResult::Partial(start, end) ==> start <= end && end
            < total,
        header is None <==> range_of(header, total) == RangeResult::Full,
{
}

proof fn lemma_digits_stay(s: Seq<char>)
    requires
        s.len() > 0,
        all_digits(s),
    ensures
        trim(s) == s,
        s[0] != '+',
        u64_of(s) == if digits_value(s) <= u64::MAX {
            Some(digits_value(s) as u64)
        } else {
            None
        },
{
    assert(is_digit(s[0]));
    assert(is_digit(s[s.len() - 1]));
    lemma_trim_bounds(s, |c: char| is_space(c), 0, s.len() as int);
    assert(s.subrange(0, s.len() as int) =~= s);
}

proof fn lemma_range_parts(header: Seq<char>, a: Seq<char>, b: Seq<char>)
    requires
        header == "bytes="@ + a + "-"@ + b,
        all_digits(a),
        all_digits(b),
    ensures
        range_spec(header) == a + "-"@ + b,
        position(a + "-"@ + b, '-') == a.len(),
        (a + "-"@ + b).take(a.len() as int) == a,
        (a + "-"@ + b).skip(1int + a.len()) == b,
        (a + "-"@ + b).len() == a.len() + 1 + b.len(),
        trim(a) == a,
        trim(b) == b,
{
    reveal_strlit("bytes=");
    reveal_strlit("-");
    let s = a + "-"@ + b;
    assert(header.take(6) =~= "bytes="@);
    assert(starts(header, "bytes="@)) by {
        assert(header.subrange(0, 6) =~= "bytes="@);
    }
    assert(header.skip(6) =~= s);
    assert(s[a.len() as int] == '-');
    let first = s[0];
    let last = s[s.len() - 1];
    assert(!is_space(first)) by {
        if a.len() > 0 {
            assert(is_digit(a[0]));
        }
    }
    assert(!is_space(last)) by {
        if b.len() > 0 {
            assert(is_digit(b[b.len() - 1]));
            assert(last == b[b.len() - 1]);
        }
    }
    lemma_trim_bounds(s, |c: char| is_space(c), 0, s.len() as int);
    assert(s.subrange(0, s.len() as int) =~= s);
    assert forall|i: int| 0 <= i < a.len() implies #[trigger] s[i] != '-' by {
        assert(s[i] == a[i]);
        assert(is_digit(a[i]));
    }
    lemma_position(s, '-', a.len() as int);
    assert(s.take(a.len() as int) =~= a);
    assert(s.skip(1int + a.len()) =~= b);
    if a.len() > 0 {
        lemma_digits_stay(a);
    } else {
        lemma_trim_bounds(a, |c: char| is_space(c), 0, 0);
        assert(a.subrange(0, 0) =~= a);
    }
    if b.len() > 0 {
        lemma_digits_stay(b);
    } else {
        lemma_trim_bounds(b, |c: char| is_space(c), 0, 0);
        assert(b.subrange(0, 0) =~= b);
    }
}

/// A range that starts within the file and has no end is served up to the last
/// byte; one that starts behind the last byte is refused.
pub proof fn law_open_range(s: u64, total: u64)
    ensures
        s < total ==> range_of(Some("bytes="@ + nat_text(s as nat) + "-"@), total)
            == RangeResult::Partial(s, (total - 1) as u64),
        s >= total ==> range_of(Some("bytes="@ + nat_text(s as nat) + "-"@), total)
            == RangeResult::Unsat,
{
    let a = nat_text(s as nat);
    let none = Seq::<char>::empty();
    lemma_nat_text(s as nat);
    lemma_digits_stay(a);
    assert("bytes="@ + a + "-"@ =~= "bytes="@ + a + "-"@ + none);
    lemma_range_parts("bytes="@ + a + "-"@, a, none);
}

/// A range with both ends is served from its first byte to its last one, or to
/// the last byte of the file where that comes first. It is refused exactly
/// where it starts behind the file or ends before it starts.
pub proof fn law_closed_range(s: u64, e: u64, total: u64)
    ensures
        range_of(Some("bytes="@ + nat_text(s as nat) + "-"@ + nat_text(e as nat)), total) == (if s
            < total && s <= e {
            RangeResult::Partial(s, if e < total { e } else { (total - 1) as u64 })
        } else {
            RangeResult::Unsat
        }),
{
    let a = nat_text(s as nat);
    let b = nat_text(e as nat);
    lemma_nat_text(s as nat);
    lemma_nat_text(e as nat);
    lemma_digits_stay(a);
    lemma_digits_stay(b);
    lemma_range_parts("bytes="@ + a + "-"@ + b, a, b);
}

/// A range that gives only a count is served with that many bytes at the end of
/// the file, or with all of it where it has fewer; none are refused.
pub proof fn law_suffix_range(n: u64, total: u64)
    ensures
        range_of(Some("bytes=-"@ + nat_text(n as nat)), total) == (if n > 0 && total > 0 {
            RangeResult::Partial(if n < total { (total - n) as u64 } else { 0 }, (total - 1) as u64)
        } else {
            RangeResult::Unsat
        }),
{
    let b = nat_text(n as nat);
    let none = Seq::<char>::empty();
    lemma_nat_text(n as nat);
    lemma_digits_stay(b);
    reveal_strlit("bytes=-");
    reveal_strlit("bytes=");
    reveal_strlit("-");
    assert("bytes=-"@ + b =~= "bytes="@ + none + "-"@ + b);
    lemma_range_parts("bytes=-"@ + b, none, b);
}

/// Consecutive ranges cover a file: where one ends, the next one starts, and
/// together they hold what one range over both holds.
pub proof fn law_ranges_join(s: u64, m: u64, e: u64, total: u64)
    requires
        s <= m < e < total,
    ensures
        ({
            let left = range_of(
                Some("bytes="@ + nat_text(s as nat) + "-"@ + nat_text(m as nat)),
                total,
            );
            let right = range_of(
                Some("bytes="@ + nat_text((m + 1) as nat) + "-"@ + nat_text(e as nat)),
                total,
            );
            let both = range_of(
                Some("bytes="@ + nat_text(s as nat) + "-"@ + nat_text(e as nat)),
                total,
            );
            left == RangeResult::Partial(s, m) && right == RangeResult::Partial((m + 1) as u64, e)
                && both == RangeResult::Partial(s, e)
        }),
{
    law_closed_range(s, m, total);
    law_closed_range((m + 1) as u64, e, total);
    law_closed_range(s, e, total);
}

/// The unit in front of a range may be left out.
pub proof fn law_unit_is_optional(spec: Seq<char>, total: u64)
    requires
        !starts(spec, "bytes="@),
    ensures
        range_of(Some("bytes="@ + spec), total) == range_of(Some(spec), total),
{
    reveal_strlit("bytes=");
    let h = "bytes="@ + spec;
    assert(h.subrange(0, 6) =~= "bytes="@);
    assert(h.skip(6) =~= spec);
}

/// A header without a dash asks for nothing that can be served.
pub proof fn law_range_needs_a_dash(header: Seq<char>, total: u64)
    requires
        !header.contains('-'),
    ensures
        range_of(Some(header), total) == RangeResult::Unsat,
{
    let s = range_spec(header);
    lemma_position_bounds(s, '-');
    let p = |c: char| is_space(c);
    let body = match without_prefix(header, "bytes="@) {
        Some(rest) => rest,
        None => header,
    };
    let (a, b) = lemma_trim_is_part(body, p);
    if position(s, '-') < s.len() {
        let k = position(s, '-');
        assert(s[k] == '-');
        assert(body[a + k] == '-');
        if starts(header, "bytes="@) {
            assert(header["bytes="@.len() + a + k] == '-');
        } else {
            assert(header[a + k] == '-');
        }
    }
}

/// How a file is answered.
#[derive(Debug)]
pub struct ServePlan {
    pub status: u16,
    /// The byte to start from.
    pub start: u64,
    /// How many bytes the answer holds.
    pub length: u64,
    pub content_range: Option<String>,
}

/// The range that an answer names.
pub open spec fn content_range_of(r: RangeResult, total: u64) -> Option<Seq<char>> {
    match r {
        RangeResult::Full => None,
        RangeResult::Unsat => Some("bytes */"@ + nat_text(total as nat)),
        RangeResult::Partial(start, end) => Some(
            "bytes "@ + nat_text(start as nat) + "-"@ + nat_text(end as nat) + "/"@ + nat_text(
                total as nat,
            ),
        ),
    }
}

/// Whether `p` answers a range: with the whole file, with the range, or with
/// nothing but the size of the file.
pub open spec fn plan_of(p: ServePlan, r: RangeResult, total: u64) -> bool {
    &&& opt(p.content_range) == content_range_of(r, total)
    &&& match r {
        RangeResult::Full => p.status == 200 && p.start == 0 && p.length == total,
        RangeResult::Unsat => p.status == 416 && p.start == 0 && p.length == 0,
        RangeResult::Partial(start, end) => p.status == 206 && p.start == start && p.length == end
            - start + 1,
    }
}

/// How a file of `total` bytes is answered.
pub fn serve_plan(range: Option<&str>, total: u64) -> (r: ServePlan)
    ensures
        plan_of(r, range_of(opt_str(range), total), total),
{
    proof {
        law_range_within_file(opt_str(range), total);
    }
    match parse_range(range, total) {
        RangeResult::Full => ServePlan { status: 200, start: 0, length: total, content_range: None },
        RangeResult::Unsat => {
            let mut s = "bytes */".to_owned();
            push_u64(&mut s, total);
            ServePlan { status: 416, start: 0, length: 0, content_range: Some(s) }
        },
        RangeResult::Partial(start, end) => {
            let mut s = "bytes ".to_owned();
            push_u64(&mut s, start);
            let mut s = s.concat("-");
            push_u64(&mut s, end);
            let mut s = s.concat("/");
            push_u64(&mut s, total);
            ServePlan { status: 206, start, length: end - start + 1, content_range: Some(s) }
        },
    }
}

/// An answer to a range that starts at `s` and ends at `e` within the file
/// holds exactly these bytes and names them with the size of the file; an
/// answer to none holds the whole file; one that cannot be served holds no byte
/// and names the size alone.
pub proof fn law_answer_holds_the_range(p: ServePlan, s: u64, e: u64, total: u64)
    ensures
        s <= e < total && plan_of(
            p,
            range_of(Some("bytes="@ + nat_text(s as nat) + "-"@ + nat_text(e as nat)), total),
            total,
        ) ==> p.status == 206 && p.start == s && p.start + p.length == e + 1 && opt(p.content_range)
            == Some(
            "bytes "@ + nat_text(s as nat) + "-"@ + nat_text(e as nat) + "/"@ + nat_text(
                total as nat,
            ),
        ),
        s < total && plan_of(p, range_of(Some("bytes="@ + nat_text(s as nat) + "-"@), total), total)
            ==> p.status == 206 && p.start == s && p.start + p.length == total,
        s >= total && plan_of(
            p,
            range_of(Some("bytes="@ + nat_text(s as nat) + "-"@), total),
            total,
        ) ==> p.status == 416 && p.length == 0 && opt(p.content_range) == Some(
            "bytes */"@ + nat_text(total as nat),
        ),
        plan_of(p, range_of(None, total), total) ==> p.status == 200 && p.start == 0 && p.length
            == total && p.content_range is None,
{
    law_closed_range(s, e, total);
    law_open_range(s, total);
}

// ---------------------------------------------------------------------------
// Content types

/// The content type of an extension.
pub open spec fn mime_of_extension(ext: Seq<char>) -> Seq<char> {
    if ext == "mp4"@ || ext == "m4v"@ {
        "video/mp4"@
    } else if ext == "mkv"@ {
        "video/x-matroska"@
    } else if ext == "webm"@ {
        "video/webm"@
    } else if ext == "avi"@ {
        "video/x-msvideo"@
    } else if ext == "ts"@ || ext == "m2ts"@ {
        "video/mp2t"@
    } else if ext == "mov"@ {
        "video/quicktime"@
    } else if ext == "wmv"@ {
        "video/x-ms-wmv"@
    } else if ext == "flv"@ {
        "video/x-flv"@
    } else if ext == "mpg"@ || ext == "mpeg"@ {
        "video/mpeg"@
    } else if ext == "3gp"@ {
        "video/3gpp"@
    } else if ext == "ogv"@ {
        "video/ogg"@
    } else {
        "application/octet-stream"@
    }
}

/// The content type of a file, by what follows the last dot of its path.
pub fn mime_for(path: &str) -> (r: &'static str)
    ensures
        r@ == mime_of_extension(lower(after_last(path@, "."@))),
{
    let tail = tail_after_last(path, ".");
    let l = lowered(tail.as_str());
    let ext = l.as_str();
    if same(ext, "mp4") || same(ext, "m4v") {
        "video/mp4"
    } else if same(ext, "mkv") {
        "video/x-matroska"
    } else if same(ext, "webm") {
        "video/webm"
    } else if same(ext, "avi") {
        "video/x-msvideo"
    } else if same(ext, "ts") || same(ext, "m2ts") {
        "video/mp2t"
    } else if same(ext, "mov") {
        "video/quicktime"
    } else if same(ext, "wmv") {
        "video/x-ms-wmv"
    } else if same(ext, "flv") {
        "video/x-flv"
    } else if same(ext, "mpg") || same(ext, "mpeg") {
        "video/mpeg"
    } else if same(ext, "3gp") {
        "video/3gpp"
    } else if same(ext, "ogv") {
        "video/ogg"
    } else {
        "application/octet-stream"
    }
}

/// The path of a file on this machine, without the scheme in front.
pub open spec fn plain_path(path: Seq<char>) -> Seq<char> {
    match without_prefix(path, "file://"@) {
        Some(rest) => rest,
        None => path,
    }
}

/// The path of a file on this machine.
pub fn local_path(path: &str) -> (r: String)
    ensures
        r@ == plain_path(path@),
{
    match strip_prefix(path, "file://") {
        Some(rest) => rest,
        None => path.to_owned(),
    }
}

// ---------------------------------------------------------------------------
// Sources

/// How a source is played.
#[derive(Debug)]
pub enum PlayPlan {
    /// There is nothing to play.
    NotFound,
    /// Serve this file of this machine.
    Serve(String),
    /// Let the driver of this kind resolve this address.
    Resolve(CloudRef),
    /// Send the client to this address.
    Redirect(String),
}

/// A source that a driver resolves: its kind and its address.
#[derive(Debug)]
pub struct CloudRef {
    pub path_type: String,
    pub path_url: String,
}

/// Whether a plan plays a source: one of this machine is served, one of a known
/// kind is left to its driver, and one of no kind is an address to go to.
pub open spec fn plays(plan: PlayPlan, url: Option<Seq<char>>, kind: Option<Seq<char>>) -> bool {
    match url {
        None => plan is NotFound,
        Some(u) => match kind {
            None => plan is Redirect && plan->Redirect_0@ == u,
            Some(k) => if k == "local"@ {
                plan is Serve && plan->Serve_0@ == u
            } else {
                plan is Resolve && plan->Resolve_0.path_type@ == k && plan->Resolve_0.path_url@ == u
            },
        },
    }
}

/// How a source is played. A source that is not known has no address.
pub fn play_plan(url: Option<&str>, kind: Option<&str>) -> (r: PlayPlan)
    ensures
        plays(r, opt_str(url), opt_str(kind)),
{
    match url {
        None => PlayPlan::NotFound,
        Some(u) => match kind {
            None => PlayPlan::Redirect(u.to_owned()),
            Some(k) => if same(k, "local") {
                PlayPlan::Serve(u.to_owned())
            } else {
                PlayPlan::Resolve(CloudRef { path_type: k.to_owned(), path_url: u.to_owned() })
            },
        },
    }
}

/// The status that answers what a driver gave: an address to go to, nothing, or
/// a failure.
pub fn resolved_status(resolved: &Result<Option<String>, String>) -> (r: u16)
    ensures
        r == match *resolved {
            Ok(Some(_)) => 307u16,
            Ok(None) => 404u16,
            Err(_) => 500u16,
        },
{
    match resolved {
        Ok(Some(_)) => 307,
        Ok(None) => 404,
        Err(_) => 500,
    }
}

/// The key under which the address behind a source is cached.
pub fn direct_key(source: &CloudRef) -> (r: String)
    ensures
        r@ == "direct:"@ + source.path_type@ + ":"@ + source.path_url@,
{
    join3("direct:", source.path_type.as_str(), ":").concat(source.path_url.as_str())
}

/// The driver of plain addresses.
#[derive(Debug)]
pub struct HttpDriver;

impl HttpDriver {
    /// The kind of sources that it resolves.
    pub fn kind(&self) -> (r: &'static str)
        ensures
            r@ == "http"@,
    {
        "http"
    }

    /// Where a source is: at its own address.
    pub fn resolve_direct(&self, source: &CloudRef) -> (r: Option<String>)
        ensures
            opt(r) == Some(source.path_url@),
    {
        Some(source.path_url.clone())
    }
}

/// Which subtitle file an index names: a negative index names the first one.
pub fn subtitle_offset(index: i32) -> (r: i32)
    ensures
        r == if index < 0 {
            0
        } else {
            index as int
        },
{
    if index < 0 {
        0
    } else {
        index
    }
}

/// Whether a subtitle file can be served: it is known and has a path.
pub fn subtitle_found(path: Option<&str>) -> (r: bool)
    ensures
        r == (path is Some && path->0@.len() > 0),
{
    match path {
        Some(p) => !p.is_empty(),
        None => false,
    }
}

// ---------------------------------------------------------------------------
// Probing

/// Whether a source is a link whose streams were never probed.
pub open spec fn unprobed_link(path_type: Option<Seq<char>>, metadata: Option<Seq<char>>) -> bool {
    (path_type == Some("url"@) || path_type == Some("strm"@)) && (metadata is None || metadata
        == Some(""@) || metadata == Some("[]"@))
}

/// Whether a source is a link whose streams were never probed.
pub fn should_backfill(path_type: Option<&str>, file_metadata: Option<&str>) -> (r: bool)
    ensures
        r == unprobed_link(opt_str(path_type), opt_str(file_metadata)),
{
    let remote = crate::text::opt_is(path_type, "url") || crate::text::opt_is(path_type, "strm");
    let empty = file_metadata.is_none() || crate::text::opt_is(file_metadata, "")
        || crate::text::opt_is(file_metadata, "[]");
    remote && empty
}

fn has_id(list: &Vec<i64>, id: i64) -> (r: bool)
    ensures
        r == list@.contains(id),
{
    let mut i: usize = 0;
    while i < list.len()
        invariant
            i <= list.len(),
            forall|k: int| 0 <= k < i ==> #[trigger] list@[k] != id,
        decreases list.len() - i,
    {
        if list[i] == id {
            return true;
        }
        i = i + 1;
    }
    false
}

/// Whether playback starts a probe of a source in the background: probing is
/// switched on, the source is known and has an address, it was never probed,
/// and no probe of it is under way.
pub fn starts_probe(
    enabled: bool,
    media: &crate::emby::rows::MediaSourceRow,
    in_flight: &Vec<i64>,
) -> (r: bool)
    ensures
        r == (enabled && media.media_id is Some && opt(media.path_url) is Some && opt(
            media.path_url,
        )->0.len() > 0 && unprobed_link(opt(media.path_type), opt(media.file_metadata))
            && !in_flight@.contains(media.media_id->0)),
{
    if !enabled {
        return false;
    }
    let id: i64 = match media.media_id {
        Some(id) => id,
        None => {
            return false;
        },
    };
    let has_url = match &media.path_url {
        Some(u) => !u.as_str().is_empty(),
        None => false,
    };
    if !has_url || !should_backfill(
        crate::text::borrowed(&media.path_type),
        crate::text::borrowed(&media.file_metadata),
    ) {
        return false;
    }
    !has_id(in_flight, id)
}

/// How long a probe in the background may take, in seconds.
pub fn probe_timeout_secs(configured: u64) -> (r: u64)
    ensures
        r == if configured < 1 {
            1
        } else {
            configured as int
        },
{
    if configured < 1 {
        1
    } else {
        configured
    }
}

// ---------------------------------------------------------------------------
// What is served

/// The content type goes by the extension of a file, in whatever case, and by
/// nothing else of its path.
pub proof fn law_content_types(base: Seq<char>, ext: Seq<char>)
    requires
        !ext.contains('.'),
    ensures
        mime_of_extension(lower(after_last(base + "."@ + ext, "."@))) == mime_of_extension(
            lower(ext),
        ),
        mime_of_extension("mp4"@) == "video/mp4"@,
        mime_of_extension("m4v"@) == "video/mp4"@,
        mime_of_extension("mkv"@) == "video/x-matroska"@,
        mime_of_extension("webm"@) == "video/webm"@,
        mime_of_extension("avi"@) == "video/x-msvideo"@,
        mime_of_extension("ts"@) == "video/mp2t"@,
        mime_of_extension("m2ts"@) == "video/mp2t"@,
        mime_of_extension("mov"@) == "video/quicktime"@,
        mime_of_extension("wmv"@) == "video/x-ms-wmv"@,
        mime_of_extension("flv"@) == "video/x-flv"@,
        mime_of_extension("mpg"@) == "video/mpeg"@,
        mime_of_extension("mpeg"@) == "video/mpeg"@,
        mime_of_extension("3gp"@) == "video/3gpp"@,
        mime_of_extension("ogv"@) == "video/ogg"@,
        ext.len() > 4 ==> mime_of_extension(ext) == "application/octet-stream"@,
{
    reveal_strlit(".");
    lemma_after_last(base, "."@, ext);
    lemma_extensions_differ();
}

proof fn lemma_extensions_differ()
    ensures
        "m4v"@ != "mp4"@,
        "mkv"@ != "mp4"@,
        "mkv"@ != "m4v"@,
        "webm"@ != "mp4"@,
        "webm"@ != "m4v"@,
        "webm"@ != "mkv"@,
        "avi"@ != "mp4"@,
        "avi"@ != "m4v"@,
        "avi"@ != "mkv"@,
        "avi"@ != "webm"@,
        "ts"@ != "mp4"@,
        "ts"@ != "m4v"@,
        "ts"@ != "mkv"@,
        "ts"@ != "webm"@,
        "ts"@ != "avi"@,
        "m2ts"@ != "mp4"@,
        "m2ts"@ != "m4v"@,
        "m2ts"@ != "mkv"@,
        "m2ts"@ != "webm"@,
        "m2ts"@ != "avi"@,
        "m2ts"@ != "ts"@,
        "mov"@ != "mp4"@,
        "mov"@ != "m4v"@,
        "mov"@ != "mkv"@,
        "mov"@ != "webm"@,
        "mov"@ != "avi"@,
        "mov"@ != "ts"@,
        "mov"@ != "m2ts"@,
        "wmv"@ != "mp4"@,
        "wmv"@ != "m4v"@,
        "wmv"@ != "mkv"@,
        "wmv"@ != "webm"@,
        "wmv"@ != "avi"@,
        "wmv"@ != "ts"@,
        "wmv"@ != "m2ts"@,
        "wmv"@ != "mov"@,
        "flv"@ != "mp4"@,
        "flv"@ != "m4v"@,
        "flv"@ != "mkv"@,
        "flv"@ != "webm"@,
        "flv"@ != "avi"@,
        "flv"@ != "ts"@,
        "flv"@ != "m2ts"@,
        "flv"@ != "mov"@,
        "flv"@ != "wmv"@,
        "mpg"@ != "mp4"@,
        "mpg"@ != "m4v"@,
        "mpg"@ != "mkv"@,
        "mpg"@ != "webm"@,
        "mpg"@ != "avi"@,
        "mpg"@ != "ts"@,
        "mpg"@ != "m2ts"@,
        "mpg"@ != "mov"@,
        "mpg"@ != "wmv"@,
        "mpg"@ != "flv"@,
        "mpeg"@ != "mp4"@,
        "mpeg"@ != "m4v"@,
        "mpeg"@ != "mkv"@,
        "mpeg"@ != "webm"@,
        "mpeg"@ != "avi"@,
        "mpeg"@ != "ts"@,
        "mpeg"@ != "m2ts"@,
        "mpeg"@ != "mov"@,
        "mpeg"@ != "wmv"@,
        "mpeg"@ != "flv"@,
        "mpeg"@ != "mpg"@,
        "3gp"@ != "mp4"@,
        "3gp"@ != "m4v"@,
        "3gp"@ != "mkv"@,
        "3gp"@ != "webm"@,
        "3gp"@ != "avi"@,
        "3gp"@ != "ts"@,
        "3gp"@ != "m2ts"@,
        "3gp"@ != "mov"@,
        "3gp"@ != "wmv"@,
        "3gp"@ != "flv"@,
        "3gp"@ != "mpg"@,
        "3gp"@ != "mpeg"@,
        "ogv"@ != "mp4"@,
        "ogv"@ != "m4v"@,
        "ogv"@ != "mkv"@,
        "ogv"@ != "webm"@,
        "ogv"@ != "avi"@,
        "ogv"@ != "ts"@,
        "ogv"@ != "m2ts"@,
        "ogv"@ != "mov"@,
        "ogv"@ != "wmv"@,
        "ogv"@ != "flv"@,
        "ogv"@ != "mpg"@,
        "ogv"@ != "mpeg"@,
        "ogv"@ != "3gp"@,
        "mp4"@.len() == 3,
        "m4v"@.len() == 3,
        "mkv"@.len() == 3,
        "webm"@.len() == 4,
        "avi"@.len() == 3,
        "ts"@.len() == 2,
        "m2ts"@.len() == 4,
        "mov"@.len() == 3,
        "wmv"@.len() == 3,
        "flv"@.len() == 3,
        "mpg"@.len() == 3,
        "mpeg"@.len() == 4,
        "3gp"@.len() == 3,
        "ogv"@.len() == 3,
{
    reveal_strlit("mp4");
    reveal_strlit("m4v");
    reveal_strlit("mkv");
    reveal_strlit("webm");
    reveal_strlit("avi");
    reveal_strlit("ts");
    reveal_strlit("m2ts");
    reveal_strlit("mov");
    reveal_strlit("wmv");
    reveal_strlit("flv");
    reveal_strlit("mpg");
    reveal_strlit("mpeg");
    reveal_strlit("3gp");
    reveal_strlit("ogv");
    assert("mp4"@.len() == 3);
    assert("m4v"@.len() == 3);
    assert("mkv"@.len() == 3);
    assert("webm"@.len() == 4);
    assert("avi"@.len() == 3);
    assert("ts"@.len() == 2);
    assert("m2ts"@.len() == 4);
    assert("mov"@.len() == 3);
    assert("wmv"@.len() == 3);
    assert("flv"@.len() == 3);
    assert("mpg"@.len() == 3);
    assert("mpeg"@.len() == 4);
    assert("3gp"@.len() == 3);
    assert("ogv"@.len() == 3);
    assert("m4v"@[1] == '4' && "mp4"@[1] == 'p');
    assert("mkv"@[1] == 'k' && "mp4"@[1] == 'p');
    assert("mkv"@[1] == 'k' && "m4v"@[1] == '4');
    assert("avi"@[0] == 'a' && "mp4"@[0] == 'm');
    assert("avi"@[0] == 'a' && "m4v"@[0] == 'm');
    assert("avi"@[0] == 'a' && "mkv"@[0] == 'm');
    assert("m2ts"@[0] == 'm' && "webm"@[0] == 'w');
    assert("mov"@[1] == 'o' && "mp4"@[1] == 'p');
    assert("mov"@[1] == 'o' && "m4v"@[1] == '4');
    assert("mov"@[1] == 'o' && "mkv"@[1] == 'k');
    assert("mov"@[0] == 'm' && "avi"@[0] == 'a');
    assert("wmv"@[0] == 'w' && "mp4"@[0] == 'm');
    assert("wmv"@[0] == 'w' && "m4v"@[0] == 'm');
    assert("wmv"@[0] == 'w' && "mkv"@[0] == 'm');
    assert("wmv"@[0] == 'w' && "avi"@[0] == 'a');
    assert("wmv"@[0] == 'w' && "mov"@[0] == 'm');
    assert("flv"@[0] == 'f' && "mp4"@[0] == 'm');
    assert("flv"@[0] == 'f' && "m4v"@[0] == 'm');
    assert("flv"@[0] == 'f' && "mkv"@[0] == 'm');
    assert("flv"@[0] == 'f' && "avi"@[0] == 'a');
    assert("flv"@[0] == 'f' && "mov"@[0] == 'm');
    assert("flv"@[0] == 'f' && "wmv"@[0] == 'w');
    assert("mpg"@[2] == 'g' && "mp4"@[2] == '4');
    assert("mpg"@[1] == 'p' && "m4v"@[1] == '4');
    assert("mpg"@[1] == 'p' && "mkv"@[1] == 'k');
    assert("mpg"@[0] == 'm' && "avi"@[0] == 'a');
    assert("mpg"@[1] == 'p' && "mov"@[1] == 'o');
    assert("mpg"@[0] == 'm' && "wmv"@[0] == 'w');
    assert("mpg"@[0] == 'm' && "flv"@[0] == 'f');
    assert("mpeg"@[0] == 'm' && "webm"@[0] == 'w');
    assert("mpeg"@[1] == 'p' && "m2ts"@[1] == '2');
    assert("3gp"@[0] == '3' && "mp4"@[0] == 'm');
    assert("3gp"@[0] == '3' && "m4v"@[0] == 'm');
    assert("3gp"@[0] == '3' && "mkv"@[0] == 'm');
    assert("3gp"@[0] == '3' && "avi"@[0] == 'a');
    assert("3gp"@[0] == '3' && "mov"@[0] == 'm');
    assert("3gp"@[0] == '3' && "wmv"@[0] == 'w');
    assert("3gp"@[0] == '3' && "flv"@[0] == 'f');
    assert("3gp"@[0] == '3' && "mpg"@[0] == 'm');
    assert("ogv"@[0] == 'o' && "mp4"@[0] == 'm');
    assert("ogv"@[0] == 'o' && "m4v"@[0] == 'm');
    assert("ogv"@[0] == 'o' && "mkv"@[0] == 'm');
    assert("ogv"@[0] == 'o' && "avi"@[0] == 'a');
    assert("ogv"@[0] == 'o' && "mov"@[0] == 'm');
    assert("ogv"@[0] == 'o' && "wmv"@[0] == 'w');
    assert("ogv"@[0] == 'o' && "flv"@[0] == 'f');
    assert("ogv"@[0] == 'o' && "mpg"@[0] == 'm');
    assert("ogv"@[0] == 'o' && "3gp"@[0] == '3');
}

/// A path of the machine stays as it is but for the scheme in front of it.
pub proof fn law_plain_paths(path: Seq<char>)
    ensures
        plain_path("file://"@ + path) == path,
        plain_path("/"@ + path) == "/"@ + path,
{
    reveal_strlit("file://");
    reveal_strlit("/");
    let a = "file://"@ + path;
    assert(a.subrange(0, 7) =~= "file://"@);
    assert(a.skip(7) =~= path);
    let b = "/"@ + path;
    if starts(b, "file://"@) {
        assert(b.subrange(0, 7)[0] == 'f');
    }
}

/// A local file is served, another address is resolved by the driver of its
/// kind, and one without a kind is where the client is sent; only a source
/// without an address is not found.
pub proof fn law_how_a_source_plays(plan: PlayPlan, url: Option<Seq<char>>, kind: Option<Seq<char>>)
    requires
        plays(plan, url, kind),
    ensures
        plan is NotFound <==> url is None,
        plan is Serve <==> url is Some && kind == Some("local"@),
        plan is Redirect <==> url is Some && kind is None,
        plan is Resolve <==> url is Some && kind is Some && kind != Some("local"@),
        plan matches PlayPlan::Serve(path) ==> url == Some(path@),
        plan matches PlayPlan::Redirect(to) ==> url == Some(to@),
        plan matches PlayPlan::Resolve(source) ==> url == Some(source.path_url@) && kind == Some(
            source.path_type@,
        ),
{
}

/// Only a link that was not probed yet is probed when it is played.
pub proof fn law_unprobed_links(metadata: Seq<char>, kind: Seq<char>)
    requires
        metadata.len() > 2,
    ensures
        unprobed_link(Some("url"@), None),
        unprobed_link(Some("strm"@), None),
        unprobed_link(Some("strm"@), Some(""@)),
        unprobed_link(Some("url"@), Some("[]"@)),
        !unprobed_link(Some(kind), Some(metadata)),
        kind != "url"@ && kind != "strm"@ ==> !unprobed_link(Some(kind), None),
        !unprobed_link(None, None),
{
    reveal_strlit("");
    reveal_strlit("[]");
}

} // verus!
