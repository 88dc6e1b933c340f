//! Who sends a request: the token it carries, the device it comes from, and
//! whether it may pass.

use vstd::prelude::*;
use vstd::string::*;

use crate::text::{
    ends, ends_with, find_char, first_of, from_utf8_lossy, is_space, join, join2, joined,
    lemma_filter_map_all, lemma_position, lemma_split_joined, lemma_trim_bounds, lossy_text, lower,
    lowered, opt, opt_str, position, range_text, same, same_ignoring_case, split, split_at_char,
    starts, starts_with, strip_prefix, texts, to_chars, trim, trim_by, trimmed, without_prefix,
};

verus! {

// ---------------------------------------------------------------------------
// Queries

/// The value of a hexadecimal digit, in either case.
pub open spec fn hex_of(b: u8) -> Option<int> {
    if 48 <= b <= 57 {
        Some(b - 48)
    } else if 97 <= b <= 102 {
        Some(b - 87)
    } else if 65 <= b <= 70 {
        Some(b - 55)
    } else {
        None
    }
}

/// The value of a hexadecimal digit; none where there is no digit.
pub fn hex_val(b: Option<&u8>) -> (r: Option<u8>)
    ensures
        match b {
            Some(x) => match hex_of(*x) {
                Some(v) => r == Some(v as u8) && 0 <= v < 16,
                None => r is None,
            },
            None => r is None,
        },
{
    match b {
        Some(x) => {
            let c: u8 = *x;
            if 48 <= c && c <= 57 {
                Some(c - 48)
            } else if 97 <= c && c <= 102 {
                Some(c - 87)
            } else if 65 <= c && c <= 70 {
                Some(c - 55)
            } else {
                None
            }
        },
        None => None,
    }
}

/// Whether an escaped byte stands at the start: a percent sign and two
/// hexadecimal digits.
pub open spec fn escaped(b: Seq<u8>) -> bool {
    b.len() >= 3 && b[0] == 37 && hex_of(b[1]) is Some && hex_of(b[2]) is Some
}

/// Bytes without their escapes: an escaped byte stands for itself, a plus sign
/// for a blank, and a percent sign that starts no escape for itself.
pub open spec fn unescaped(b: Seq<u8>) -> Seq<u8>
    decreases b.len(),
{
    if b.len() == 0 {
        Seq::empty()
    } else if escaped(b) {
        seq![(hex_of(b[1])->0 * 16 + hex_of(b[2])->0) as u8] + unescaped(b.skip(3))
    } else if b[0] == 43 {
        seq![32u8] + unescaped(b.skip(1))
    } else {
        seq![b[0]] + unescaped(b.skip(1))
    }
}

fn byte_at(bytes: &[u8], i: usize) -> (r: Option<&u8>)
    ensures
        match r {
            Some(b) => i < bytes@.len() && *b == bytes@[i as int],
            None => i >= bytes@.len(),
        },
{
    if i < bytes.len() {
        Some(&bytes[i])
    } else {
        None
    }
}

/// Bytes without their escapes.
pub fn percent_decode(bytes: &[u8]) -> (r: Vec<u8>)
    ensures
        r@ == unescaped(bytes@),
{
    let n: usize = bytes.len();
    let mut out: Vec<u8> = Vec::new();
    let mut i: usize = 0;
    assert(bytes@.skip(0) =~= bytes@);
    assert(out@ + unescaped(bytes@) =~= unescaped(bytes@));
    while i < n
        invariant
            i <= n == bytes@.len(),
            out@ + unescaped(bytes@.skip(i as int)) == unescaped(bytes@),
        decreases n - i,
    {
        let ghost rest = bytes@.skip(i as int);
        let ghost before = out@;
        let b: u8 = bytes[i];
        let (hi, lo) = if b == 37 && n - i >= 3 {
            (hex_val(byte_at(bytes, i + 1)), hex_val(byte_at(bytes, i + 2)))
        } else {
            (None, None)
        };
        if hi.is_some() && lo.is_some() {
            let x: u8 = hi.unwrap() * 16 + lo.unwrap();
            out.push(x);
            proof {
                assert(rest[1] == bytes@[i + 1] && rest[2] == bytes@[i + 2]);
                assert(escaped(rest));
                assert(rest.skip(3) =~= bytes@.skip(i + 3));
                assert(out@ + unescaped(bytes@.skip(i + 3)) =~= before + unescaped(rest));
            }
            i = i + 3;
        } else {
            out.push(
                if b == 43 {
                    32
                } else {
                    b
                },
            );
            proof {
                if b == 37 && n - i >= 3 {
                    assert(rest[1] == bytes@[i + 1] && rest[2] == bytes@[i + 2]);
                }
                assert(!escaped(rest));
                assert(rest.skip(1) =~= bytes@.skip(i + 1));
                assert(out@ + unescaped(bytes@.skip(i + 1)) =~= before + unescaped(rest));
            }
            i = i + 1;
        }
    }
    assert(bytes@.skip(n as int) =~= Seq::empty());
    assert(out@ + Seq::<u8>::empty() =~= out@);
    out
}

/// Text without percent and plus signs is not changed.
pub proof fn law_plain_text_stays(b: Seq<u8>)
    requires
        forall|i: int| 0 <= i < b.len() ==> #[trigger] b[i] != 37 && b[i] != 43,
    ensures
        unescaped(b) == b,
    decreases b.len(),
{
    if b.len() > 0 {
        let t = b.skip(1);
        assert forall|i: int| 0 <= i < t.len() implies #[trigger] t[i] != 37 && t[i] != 43 by {
            assert(t[i] == b[i + 1]);
        }
        law_plain_text_stays(t);
        assert(b[0] != 37 && b[0] != 43);
        assert(seq![b[0]] + t =~= b);
    }
}

/// The text of a query value.
pub open spec fn decoded_value(s: Seq<char>) -> Seq<char> {
    lossy_text(unescaped(vstd::utf8::encode_utf8(s)))
}

/// The text of a query value: the text that its bytes encode, where they encode
/// one. ASCII text without percent and plus signs is its own text.
pub fn urldecode(s: &str) -> (r: String)
    ensures
        r@ == decoded_value(s@),
        vstd::utf8::valid_utf8(unescaped(vstd::utf8::encode_utf8(s@))) ==> r@
            == vstd::utf8::decode_utf8(unescaped(vstd::utf8::encode_utf8(s@))),
        vstd::utf8::is_ascii_chars(s@) && !s@.contains('%') && !s@.contains('+') ==> r@ == s@,
{
    let bytes = percent_decode(s.as_bytes());
    proof {
        if vstd::utf8::is_ascii_chars(s@) && !s@.contains('%') && !s@.contains('+') {
            let b = vstd::utf8::encode_utf8(s@);
            vstd::utf8::is_ascii_chars_encode_utf8(s@);
            assert forall|i: int| 0 <= i < b.len() implies #[trigger] b[i] != 37 && b[i] != 43 by {
                assert(b[i] == s@[i] as u8);
                assert(s@.contains(s@[i]));
            }
            law_plain_text_stays(b);
            vstd::utf8::encode_utf8_valid_utf8(s@);
            vstd::utf8::encode_utf8_decode_utf8(s@);
        }
    }
    from_utf8_lossy(bytes.as_slice())
}

/// The name in a pair of a query: what precedes the first equals sign.
pub open spec fn pair_name(pair: Seq<char>) -> Seq<char> {
    pair.take(position(pair, '='))
}

/// The value in a pair of a query: what follows the first equals sign.
pub open spec fn pair_value(pair: Seq<char>) -> Seq<char> {
    if position(pair, '=') < pair.len() {
        pair.skip(position(pair, '=') + 1)
    } else {
        Seq::empty()
    }
}

fn split_pair(pair: &str) -> (r: (String, String))
    ensures
        r.0@ == pair_name(pair@),
        r.1@ == pair_value(pair@),
{
    let cs = to_chars(pair);
    let n: usize = cs.len();
    let at: usize = find_char(cs.as_slice(), 0, n, '=');
    assert(cs@.subrange(0, n as int) =~= pair@);
    let name = range_text(cs.as_slice(), 0, at);
    assert(name@ =~= pair_name(pair@));
    let value = if at < n {
        let v = range_text(cs.as_slice(), at + 1, n);
        assert(v@ =~= pair_value(pair@));
        v
    } else {
        String::new()
    };
    (name, value)
}

/// Whether a name is one of the names under which a query carries a token.
pub open spec fn token_name(name: Seq<char>) -> bool {
    let n = lower(name);
    n == lower("x-emby-token"@) || n == lower("api_key"@) || n == lower("apikey"@) || n == lower(
        "x-mediabrowser-token"@,
    )
}

fn is_token_name(name: &str) -> (r: bool)
    ensures
        r == token_name(name@),
{
    same_ignoring_case(name, "x-emby-token") || same_ignoring_case(name, "api_key")
        || same_ignoring_case(name, "apikey") || same_ignoring_case(name, "x-mediabrowser-token")
}

/// The undecoded value of the first pair that carries a token.
pub open spec fn first_token(pairs: Seq<Seq<char>>) -> Option<Seq<char>>
    decreases pairs.len(),
{
    if pairs.len() == 0 {
        None
    } else if token_name(pair_name(pairs[0])) && pair_value(pairs[0]).len() > 0 {
        Some(pair_value(pairs[0]))
    } else {
        first_token(pairs.skip(1))
    }
}

/// The undecoded token in a query.
pub open spec fn query_token(query: Option<Seq<char>>) -> Option<Seq<char>> {
    match query {
        Some(q) => first_token(split(q, '&')),
        None => None,
    }
}

/// The undecoded token in a query.
pub fn query_value_for(query: Option<&str>) -> (r: Option<String>)
    ensures
        opt(r) == query_token(opt_str(query)),
{
    match query {
        Some(q) => {
            let pairs = split_at_char(q, '&');
            let ghost all = split(q@, '&');
            let mut i: usize = 0;
            assert(all.skip(0) =~= all);
            while i < pairs.len()
                invariant
                    i <= pairs.len(),
                    all == texts(pairs@),
                    all == split(q@, '&'),
                    opt_str(query) == Some(q@),
                    first_token(all) == first_token(all.skip(i as int)),
                decreases pairs.len() - i,
            {
                proof {
                    assert(all.skip(i as int)[0] == pairs@[i as int]@);
                    assert(all.skip(i as int).skip(1) =~= all.skip(i + 1));
                }
                let (name, value) = split_pair(pairs[i].as_str());
                if !value.as_str().is_empty() && is_token_name(name.as_str()) {
                    return Some(value);
                }
                i = i + 1;
            }
            None
        },
        None => None,
    }
}

/// A pair of a query with its name in lower case.
pub open spec fn lowered_pair(pair: Seq<char>) -> Seq<char> {
    if position(pair, '=') < pair.len() {
        lower(pair_name(pair)) + "="@ + pair_value(pair)
    } else {
        lower(pair)
    }
}

/// The pairs of a query with their names in lower case; empty pairs are left out.
pub open spec fn lowered_pairs() -> spec_fn(Seq<char>) -> Option<Seq<char>> {
    |pair: Seq<char>|
        if pair.len() == 0 {
            None
        } else {
            Some(lowered_pair(pair))
        }
}

/// A query with the names in lower case; none where it holds no pair.
pub open spec fn lowered_query(query: Seq<char>) -> Option<Seq<char>> {
    let list = split(query, '&').filter_map(lowered_pairs());
    if list.len() == 0 {
        None
    } else {
        Some(joined(list, "&"@))
    }
}

/// A query with the names in lower case; none where it holds no pair.
pub fn lowercase_query(query: &str) -> (r: Option<String>)
    ensures
        opt(r) == lowered_query(query@),
{
    let pairs = split_at_char(query, '&');
    let ghost all = split(query@, '&');
    let ghost f = lowered_pairs();
    let mut out: Vec<String> = Vec::new();
    let mut i: usize = 0;
    assert(texts(out@) =~= all.take(0).filter_map(f));
    while i < pairs.len()
        invariant
            i <= pairs.len(),
            all == texts(pairs@),
            f == lowered_pairs(),
            texts(out@) == all.take(i as int).filter_map(f),
        decreases pairs.len() - i,
    {
        proof {
            all.lemma_filter_map_take_succ(f, i as int);
            assert(all[i as int] == pairs@[i as int]@);
        }
        let ghost before = texts(out@);
        let pair = pairs[i].as_str();
        if !pair.is_empty() {
            let low = if crate::text::contains_char(pair, '=') {
                proof {
                    crate::text::lemma_position_bounds(pair@, '=');
                    let k = choose|k: int| 0 <= k < pair@.len() && pair@[k] == '=';
                    assert(position(pair@, '=') < pair@.len());
                }
                let (name, value) = split_pair(pair);
                lowered(name.as_str()).concat("=").concat(value.as_str())
            } else {
                proof {
                    crate::text::lemma_position_bounds(pair@, '=');
                    if position(pair@, '=') < pair@.len() {
                        assert(pair@.contains('='));
                    }
                }
                lowered(pair)
            };
            assert(low@ == lowered_pair(pair@));
            out.push(low);
            assert(texts(out@) =~= before.push(low@));
        }
        assert(texts(out@) =~= all.take(i + 1).filter_map(f));
        i = i + 1;
    }
    assert(all.take(all.len() as int) =~= all);
    if out.len() == 0 {
        None
    } else {
        Some(join(&out, "&"))
    }
}

proof fn lemma_lower_twice(s: Seq<char>)
    ensures
        lower(lower(s)) == lower(s),
        lower(s).len() == s.len(),
        !s.contains('=') ==> !lower(s).contains('='),
        !s.contains('&') ==> !lower(s).contains('&'),
{
    assert(lower(lower(s)) =~= lower(s));
    let t = lower(s);
    assert forall|i: int| 0 <= i < t.len() && (t[i] == '=' || t[i] == '&') implies s[i] == t[i] by {
    }
    if t.contains('=') {
        let i = choose|i: int| 0 <= i < t.len() && t[i] == '=';
        assert(s[i] == '=');
    }
    if t.contains('&') {
        let i = choose|i: int| 0 <= i < t.len() && t[i] == '&';
        assert(s[i] == '&');
    }
}

proof fn lemma_lowered_pair(pair: Seq<char>)
    requires
        pair.len() > 0,
        !pair.contains('&'),
    ensures
        lowered_pair(lowered_pair(pair)) == lowered_pair(pair),
        lowered_pair(pair).len() > 0,
        !lowered_pair(pair).contains('&'),
{
    reveal_strlit("=");
    let at = position(pair, '=');
    crate::text::lemma_position_bounds(pair, '=');
    let r = lowered_pair(pair);
    if at < pair.len() {
        let name = pair_name(pair);
        let value = pair_value(pair);
        assert(!name.contains('=')) by {
            if name.contains('=') {
                let i = choose|i: int| 0 <= i < name.len() && name[i] == '=';
                assert(pair[i] == '=');
            }
        }
        assert(!name.contains('&')) by {
            if name.contains('&') {
                let i = choose|i: int| 0 <= i < name.len() && name[i] == '&';
                assert(pair[i] == '&');
            }
        }
        lemma_lower_twice(name);
        let low = lower(name);
        assert("="@ =~= seq!['=']);
        assert forall|i: int| 0 <= i < at implies #[trigger] r[i] != '=' by {
            assert(r[i] == low[i]);
            assert(low.contains(low[i]));
        }
        assert(r[at] == '=');
        crate::text::lemma_position(r, '=', at);
        assert(pair_name(r) =~= low);
        assert(pair_value(r) =~= value);
        assert(!r.contains('&')) by {
            if r.contains('&') {
                let i = choose|i: int| 0 <= i < r.len() && r[i] == '&';
                if i < at {
                    assert(low[i] == '&');
                    assert(low.contains('&'));
                } else if i > at {
                    assert(pair[i] == r[i]);
                    assert(pair.contains('&'));
                }
            }
        }
    } else {
        assert(!pair.contains('=')) by {
            if pair.contains('=') {
                let i = choose|i: int| 0 <= i < pair.len() && pair[i] == '=';
                assert(pair[i] == '=');
            }
        }
        lemma_lower_twice(pair);
        assert forall|i: int| 0 <= i < r.len() implies #[trigger] r[i] != '=' by {
            assert(r.contains(r[i]));
        }
        crate::text::lemma_position(r, '=', r.len() as int);
    }
}

proof fn lemma_lowered_pieces(pieces: Seq<Seq<char>>)
    requires
        forall|i: int| 0 <= i < pieces.len() ==> !(#[trigger] pieces[i]).contains('&'),
    ensures
        ({
            let list = pieces.filter_map(lowered_pairs());
            forall|i: int|
                0 <= i < list.len() ==> {
                    &&& !(#[trigger] list[i]).contains('&')
                    &&& lowered_pairs()(list[i]) == Some(list[i])
                }
        }),
    decreases pieces.len(),
{
    let list = pieces.filter_map(lowered_pairs());
    if pieces.len() > 0 {
        let rest = pieces.drop_last();
        assert forall|i: int| 0 <= i < rest.len() implies !(#[trigger] rest[i]).contains('&') by {
            assert(rest[i] == pieces[i]);
        }
        lemma_lowered_pieces(rest);
        let before = rest.filter_map(lowered_pairs());
        let last = pieces.last();
        assert(!pieces[pieces.len() - 1].contains('&'));
        if last.len() > 0 {
            lemma_lowered_pair(last);
            assert(list =~= before.push(lowered_pair(last)));
        }
        assert forall|i: int| 0 <= i < list.len() implies !(#[trigger] list[i]).contains('&')
            && lowered_pairs()(list[i]) == Some(list[i]) by {
            if i < before.len() {
                assert(list[i] == before[i]);
            }
        }
    }
}

/// The path and query to which a request is rewritten; none where it stays.
pub fn rewritten_target(path: &str, query: Option<&str>) -> (r: Option<String>)
    ensures
        opt(r) == (match opt_str(query) {
            Some(q) => match lowered_query(q) {
                Some(l) => Some(path@ + "?"@ + l),
                None => None,
            },
            None => None,
        }),
{
    match query {
        Some(q) => match lowercase_query(q) {
            Some(l) => Some(crate::text::join3(path, "?", l.as_str())),
            None => None,
        },
        None => None,
    }
}

/// A query whose names are in lower case stays as it is.
pub proof fn law_lowered_query_is_stable(query: Seq<char>)
    ensures
        lowered_query(query) is Some ==> lowered_query(lowered_query(query)->0) == lowered_query(
            query,
        ),
{
    reveal_strlit("&");
    assert("&"@ =~= seq!['&']);
    let pieces = split(query, '&');
    crate::text::lemma_pieces_without(query, '&');
    lemma_lowered_pieces(pieces);
    let list = pieces.filter_map(lowered_pairs());
    if list.len() > 0 {
        crate::text::lemma_split_joined(list, '&');
        crate::text::lemma_filter_map_all(list, lowered_pairs(), list);
    }
}

// ---------------------------------------------------------------------------
// The authorization header of Emby clients

/// The device that a request comes from.
#[derive(Debug, Clone, PartialEq, Eq)]
pub struct DeviceInfo {
    pub client: String,
    pub device: String,
    pub device_id: String,
    pub version: String,
}

impl Default for DeviceInfo {
    fn default() -> (r: Self)
        ensures
            r.client@.len() == 0,
            r.device@.len() == 0,
            r.device_id@.len() == 0,
            r.version@.len() == 0,
    {
        DeviceInfo {
            client: String::new(),
            device: String::new(),
            device_id: String::new(),
            version: String::new(),
        }
    }
}

/// How long a value of the header may be.
pub const VALUE_LIMIT: usize = 200;

/// What the header says, without the scheme in front.
pub open spec fn header_body(raw: Seq<char>) -> Seq<char> {
    match without_prefix(raw, "MediaBrowser "@) {
        Some(rest) => rest,
        None => match without_prefix(raw, "Emby "@) {
            Some(rest) => rest,
            None => raw,
        },
    }
}

/// A value without blanks and quotes around it, cut to the limit.
pub open spec fn header_value(v: Seq<char>) -> Seq<char> {
    let t = trim_by(trim(v), |c: char| c == '"');
    if t.len() > VALUE_LIMIT {
        t.take(VALUE_LIMIT as int)
    } else {
        t
    }
}

/// A part of the header: its name in lower case and its value.
pub open spec fn header_part() -> spec_fn(Seq<char>) -> Option<(Seq<char>, Seq<char>)> {
    |part: Seq<char>|
        if position(part, '=') < part.len() {
            Some((lower(trim(pair_name(part))), header_value(pair_value(part))))
        } else {
            None
        }
}

/// The parts of the header, in order.
pub open spec fn header_parts(raw: Seq<char>) -> Seq<(Seq<char>, Seq<char>)> {
    split(header_body(raw), ',').filter_map(header_part())
}

/// The last value under a name; none where there is no such part.
pub open spec fn last_value(parts: Seq<(Seq<char>, Seq<char>)>, name: Seq<char>) -> Option<Seq<char>>
    decreases parts.len(),
{
    if parts.len() == 0 {
        None
    } else if parts.last().0 == name {
        Some(parts.last().1)
    } else {
        last_value(parts.drop_last(), name)
    }
}

/// The last token that is not empty.
pub open spec fn last_token(parts: Seq<(Seq<char>, Seq<char>)>) -> Option<Seq<char>>
    decreases parts.len(),
{
    if parts.len() == 0 {
        None
    } else if parts.last().0 == "token"@ && parts.last().1.len() > 0 {
        Some(parts.last().1)
    } else {
        last_token(parts.drop_last())
    }
}

/// A value, or nothing where there is none.
pub open spec fn value_or_empty(v: Option<Seq<char>>) -> Seq<char> {
    match v {
        Some(s) => s,
        None => Seq::empty(),
    }
}

/// Whether `d` is the device that the header names.
pub open spec fn device_of(d: DeviceInfo, parts: Seq<(Seq<char>, Seq<char>)>) -> bool {
    &&& d.client@ == value_or_empty(last_value(parts, "client"@))
    &&& d.device@ == value_or_empty(last_value(parts, "device"@))
    &&& d.device_id@ == value_or_empty(last_value(parts, "deviceid"@))
    &&& d.version@ == value_or_empty(last_value(parts, "version"@))
}

fn read_value(v: &str) -> (r: String)
    ensures
        r@ == header_value(v@),
{
    let t = trimmed(v);
    let cs = to_chars(t.as_str());
    let n: usize = cs.len();
    let ghost p = |c: char| c == '"';
    let mut a: usize = 0;
    while a < n && cs[a] == '"'
        invariant
            a <= n == cs@.len(),
            p == (|c: char| c == '"'),
            forall|i: int| 0 <= i < a ==> p(#[trigger] cs@[i]),
        decreases n - a,
    {
        a = a + 1;
    }
    let mut b: usize = n;
    while b > a && cs[b - 1] == '"'
        invariant
            a <= b <= n == cs@.len(),
            p == (|c: char| c == '"'),
            a < n ==> !p(cs@[a as int]),
            a == n ==> b == n,
            forall|i: int| b <= i < n ==> p(#[trigger] cs@[i]),
        decreases b - a,
    {
        b = b - 1;
    }
    proof {
        if a < b {
            assert(!p(cs@[b - 1]));
        }
        if a == b && a < n {
            assert(p(cs@[a as int]));
        }
        crate::text::lemma_trim_bounds(cs@, p, a as int, b as int);
    }
    let ghost core = cs@.subrange(a as int, b as int);
    if b - a > VALUE_LIMIT {
        assert(cs@.subrange(a as int, a + VALUE_LIMIT) =~= core.take(VALUE_LIMIT as int));
        range_text(cs.as_slice(), a, a + VALUE_LIMIT)
    } else {
        range_text(cs.as_slice(), a, b)
    }
}

/// What the header says: its token, and the device that it names. A header
/// field holds ASCII text only, so that a value is cut between characters.
pub fn parse_emby_auth(raw: &str) -> (r: (Option<String>, DeviceInfo))
    requires
        vstd::string::is_ascii(raw),
    ensures
        opt(r.0) == last_token(header_parts(raw@)),
        device_of(r.1, header_parts(raw@)),
{
    let body = match strip_prefix(raw, "MediaBrowser ") {
        Some(rest) => rest,
        None => match strip_prefix(raw, "Emby ") {
            Some(rest) => rest,
            None => raw.to_owned(),
        },
    };
    let pieces = split_at_char(body.as_str(), ',');
    let ghost all = split(header_body(raw@), ',');
    let ghost f = header_part();
    let mut token: Option<String> = None;
    let mut d = DeviceInfo::default();
    let mut i: usize = 0;
    proof {
        reveal_strlit("client");
        reveal_strlit("device");
        reveal_strlit("deviceid");
        reveal_strlit("version");
        reveal_strlit("token");
        assert("client"@.len() == 6 && "client"@[0] == 'c');
        assert("device"@.len() == 6 && "device"@[0] == 'd');
        assert("deviceid"@.len() == 8 && "version"@.len() == 7 && "token"@.len() == 5);
        assert(d.client@ =~= Seq::empty() && d.device@ =~= Seq::empty() && d.device_id@
            =~= Seq::empty() && d.version@ =~= Seq::empty());
    }
    while i < pieces.len()
        invariant
            i <= pieces.len(),
            all == texts(pieces@),
            f == header_part(),
            "client"@ != "device"@,
            "client"@.len() == 6,
            "device"@.len() == 6,
            "deviceid"@.len() == 8,
            "version"@.len() == 7,
            "token"@.len() == 5,
            opt(token) == last_token(all.take(i as int).filter_map(f)),
            device_of(d, all.take(i as int).filter_map(f)),
        decreases pieces.len() - i,
    {
        let part = pieces[i].as_str();
        let ghost known = all.take(i as int).filter_map(f);
        let ghost next = all.take(i + 1).filter_map(f);
        proof {
            all.lemma_filter_map_take_succ(f, i as int);
            assert(all[i as int] == pieces@[i as int]@);
            crate::text::lemma_position_bounds(part@, '=');
        }
        if crate::text::contains_char(part, '=') {
            let (name, value) = split_pair(part);
            let key = lowered(trimmed(name.as_str()).as_str());
            let val = read_value(value.as_str());
            proof {
                let k = choose|k: int| 0 <= k < part@.len() && part@[k] == '=';
                assert(position(part@, '=') < part@.len());
                assert(f(part@) == Some((key@, val@)));
                assert(next =~= known.push((key@, val@)));
                assert(next.last() == (key@, val@));
                assert(next.drop_last() =~= known);
            }
            if same(key.as_str(), "client") {
                d.client = val;
            } else if same(key.as_str(), "device") {
                d.device = val;
            } else if same(key.as_str(), "deviceid") {
                d.device_id = val;
            } else if same(key.as_str(), "version") {
                d.version = val;
            } else if same(key.as_str(), "token") && !val.as_str().is_empty() {
                token = Some(val);
            }
        } else {
            proof {
                if position(part@, '=') < part@.len() {
                    assert(part@.contains('='));
                }
                assert(next =~= known);
            }
        }
        i = i + 1;
    }
    assert(all.take(all.len() as int) =~= all);
    (token, d)
}

/// The token that the header holds.
pub fn extract_token_from_emby_auth(raw: &str) -> (r: Option<String>)
    requires
        vstd::string::is_ascii(raw),
    ensures
        opt(r) == last_token(header_parts(raw@)),
{
    parse_emby_auth(raw).0
}

/// The device that a request comes from, by its `X-Emby-Authorization`.
pub fn device_from_parts(x_emby_authorization: Option<&str>) -> (r: DeviceInfo)
    requires
        x_emby_authorization is Some ==> vstd::string::is_ascii(x_emby_authorization->0),
    ensures
        device_of(
            r,
            match x_emby_authorization {
                Some(raw) => header_parts(raw@),
                None => Seq::empty(),
            },
        ),
{
    match x_emby_authorization {
        Some(raw) => parse_emby_auth(raw).1,
        None => {
            let d = DeviceInfo::default();
            assert(d.client@ =~= Seq::empty() && d.device@ =~= Seq::empty() && d.device_id@
                =~= Seq::empty() && d.version@ =~= Seq::empty());
            d
        },
    }
}

// ---------------------------------------------------------------------------
// The token

/// Where a request may carry a token.
#[derive(Debug)]
pub struct TokenSources {
    pub authorization: Option<String>,
    pub query: Option<String>,
    pub x_emby_token: Option<String>,
    pub x_mediabrowser_token: Option<String>,
    pub x_emby_authorization: Option<String>,
}

impl TokenSources {
    /// Header fields hold ASCII text only.
    pub open spec fn ascii(self) -> bool {
        &&& self.authorization is Some ==> is_ascii_text(self.authorization->0@)
        &&& self.x_emby_authorization is Some ==> is_ascii_text(self.x_emby_authorization->0@)
    }
}

/// Whether a text holds ASCII characters only.
pub open spec fn is_ascii_text(s: Seq<char>) -> bool {
    vstd::utf8::is_ascii_chars(s)
}

/// The token in an `Authorization` header of the scheme `Bearer`.
pub open spec fn bearer_token(authorization: Option<Seq<char>>) -> Option<Seq<char>> {
    match authorization {
        Some(a) => {
            let raw = trim(a);
            if raw.len() > 7 && lower(raw.take(7)) == lower("Bearer "@) {
                Some(trim(raw.skip(7)))
            } else {
                None
            }
        },
        None => None,
    }
}

/// A text that is present and not empty.
pub open spec fn present(s: Option<Seq<char>>) -> Option<Seq<char>> {
    match s {
        Some(t) => if t.len() > 0 {
            Some(t)
        } else {
            None
        },
        None => None,
    }
}

/// The token of a request: that of the `Authorization` header, then that of the
/// query, then those of the two token headers, then that of the header of Emby
/// clients. `decoded` is the text of the query's token. A request without a
/// token has an empty one.
pub open spec fn chosen_token(
    authorization: Option<Seq<char>>,
    decoded: Option<Seq<char>>,
    x_emby_token: Option<Seq<char>>,
    x_mediabrowser_token: Option<Seq<char>>,
    x_emby_authorization: Option<Seq<char>>,
) -> Seq<char> {
    value_or_empty(
        first_of(
            first_of(bearer_token(authorization), decoded),
            first_of(
                first_of(present(x_emby_token), present(x_mediabrowser_token)),
                match x_emby_authorization {
                    Some(raw) => last_token(header_parts(raw)),
                    None => None,
                },
            ),
        ),
    )
}

/// The token of a request.
pub open spec fn token_of(s: TokenSources) -> Seq<char> {
    chosen_token(
        opt(s.authorization),
        match query_token(opt(s.query)) {
            Some(v) => Some(decoded_value(v)),
            None => None,
        },
        opt(s.x_emby_token),
        opt(s.x_mediabrowser_token),
        opt(s.x_emby_authorization),
    )
}

fn read_bearer(authorization: &Option<String>) -> (r: Option<String>)
    ensures
        opt(r) == bearer_token(opt(*authorization)),
{
    match authorization {
        Some(a) => {
            let raw = trimmed(a.as_str());
            let cs = to_chars(raw.as_str());
            let n: usize = cs.len();
            if n > 7 {
                let scheme = range_text(cs.as_slice(), 0, 7);
                assert(scheme@ =~= raw@.take(7));
                if same_ignoring_case(scheme.as_str(), "Bearer ") {
                    let rest = range_text(cs.as_slice(), 7, n);
                    assert(rest@ =~= raw@.skip(7));
                    return Some(trimmed(rest.as_str()));
                }
            }
            None
        },
        None => None,
    }
}

fn copy_present(s: &Option<String>) -> (r: Option<String>)
    ensures
        opt(r) == present(opt(*s)),
{
    match s {
        Some(t) => if t.as_str().is_empty() {
            None
        } else {
            Some(t.clone())
        },
        None => None,
    }
}

/// The token of a request, given the text of the query's token.
pub fn choose_token(s: &TokenSources, decoded: Option<String>) -> (r: String)
    requires
        s.ascii(),
    ensures
        r@ == chosen_token(
            opt(s.authorization),
            opt(decoded),
            opt(s.x_emby_token),
            opt(s.x_mediabrowser_token),
            opt(s.x_emby_authorization),
        ),
{
    if let Some(t) = read_bearer(&s.authorization) {
        return t;
    }
    if let Some(t) = decoded {
        return t;
    }
    if let Some(t) = copy_present(&s.x_emby_token) {
        return t;
    }
    if let Some(t) = copy_present(&s.x_mediabrowser_token) {
        return t;
    }
    if let Some(raw) = &s.x_emby_authorization {
        if let Some(t) = extract_token_from_emby_auth(raw.as_str()) {
            return t;
        }
    }
    let none = String::new();
    assert(none@ =~= Seq::empty());
    none
}

/// The token of a request.
pub fn extract_token(s: &TokenSources) -> (r: String)
    requires
        s.ascii(),
    ensures
        r@ == token_of(*s),
{
    let decoded = match query_value_for(crate::text::borrowed(&s.query)) {
        Some(v) => Some(urldecode(v.as_str())),
        None => None,
    };
    choose_token(s, decoded)
}

/// A token in the `Authorization` header comes before one in the query, that one
/// before those in the token headers, and those before the one in the header of
/// Emby clients; a request with none of them has no token.
pub proof fn law_token_order(
    authorization: Option<Seq<char>>,
    decoded: Option<Seq<char>>,
    x_emby_token: Option<Seq<char>>,
    x_mediabrowser_token: Option<Seq<char>>,
    x_emby_authorization: Option<Seq<char>>,
)
    ensures
        ({
            let t = chosen_token(
                authorization,
                decoded,
                x_emby_token,
                x_mediabrowser_token,
                x_emby_authorization,
            );
            let bearer = bearer_token(authorization);
            &&& bearer is Some ==> t == bearer->0
            &&& bearer is None && decoded is Some ==> t == decoded->0
            &&& bearer is None && decoded is None && present(x_emby_token) is Some ==> t
                == x_emby_token->0
            &&& bearer is None && decoded is None && present(x_emby_token) is None && present(
                x_mediabrowser_token,
            ) is Some ==> t == x_mediabrowser_token->0
            &&& bearer is None && decoded is None && present(x_emby_token) is None && present(
                x_mediabrowser_token,
            ) is None && x_emby_authorization is None ==> t.len() == 0
        }),
{
}

// ---------------------------------------------------------------------------
// The guard

/// Whether a request may pass without a token: it reads, and it reads what
/// some clients ask for before they log in.
pub open spec fn open_to_all(method: Seq<char>, path: Seq<char>) -> bool {
    (method == "GET"@ || method == "HEAD"@) && (ends(path, "/Sessions"@) || ends(
        path,
        "/Items/Counts"@,
    ) || ends(path, "/System/Info"@))
}

/// Whether a request may pass without a token.
pub fn is_compat_anonymous_read(method: &str, path: &str) -> (r: bool)
    ensures
        r == open_to_all(method@, path@),
{
    (same(method, "GET") || same(method, "HEAD")) && (ends_with(path, "/Sessions") || ends_with(
        path,
        "/Items/Counts",
    ) || ends_with(path, "/System/Info"))
}

/// What the guard does next.
#[derive(Debug, Clone, Copy, PartialEq, Eq, Structural)]
pub enum GuardStep {
    /// Let the request pass as nobody's.
    PassAnonymous,
    /// Answer that the login is not valid.
    Reject,
    /// Let the request pass as that of the master key.
    PassMaster,
    /// Ask the cache what it knows of the token.
    AskCache,
    /// Ask the store for an administrator's session. `noted`: because the
    /// cache says that the token is one.
    AskAdmin { noted: bool },
    /// Ask the store for a user's session. `noted`: because the cache says
    /// that the token is one.
    AskUser { noted: bool },
    /// Let the request pass as that of the session found.
    Pass,
    /// Note in the cache that the token is an administrator's, then pass.
    NoteAdmin,
    /// Note in the cache that the token is a user's, then pass.
    NoteUser,
}

/// How long the cache remembers what a token is, in seconds.
pub const NOTE_SECS: u64 = 300;

/// What a rejected request is answered.
pub fn rejection_text() -> (r: &'static str)
    ensures
        r@ == "登录失效 请重新登录"@,
{
    "登录失效 请重新登录"
}

/// The first step: a request without a token passes only if it is open to all,
/// and the master key passes without asking anyone.
pub open spec fn guard_first(
    token: Seq<char>,
    api_key: Seq<char>,
    method: Seq<char>,
    path: Seq<char>,
) -> GuardStep {
    if token.len() == 0 {
        if open_to_all(method, path) {
            GuardStep::PassAnonymous
        } else {
            GuardStep::Reject
        }
    } else if api_key.len() > 0 && token == api_key {
        GuardStep::PassMaster
    } else {
        GuardStep::AskCache
    }
}

/// The first step.
pub fn guard_begin(token: &str, api_key: &str, method: &str, path: &str) -> (r: GuardStep)
    ensures
        r == guard_first(token@, api_key@, method@, path@),
{
    if token.is_empty() {
        if is_compat_anonymous_read(method, path) {
            return GuardStep::PassAnonymous;
        }
        return GuardStep::Reject;
    }
    if !api_key.is_empty() && same(token, api_key) {
        return GuardStep::PassMaster;
    }
    GuardStep::AskCache
}

/// The step after the cache's answer: a revoked token is rejected, and a token
/// that the cache knows is looked up as what the cache says it is.
pub open spec fn guard_cached(note: Option<Seq<char>>) -> GuardStep {
    match note {
        Some(n) => if n == "revoked"@ {
            GuardStep::Reject
        } else if starts(n, "admin:"@) {
            GuardStep::AskAdmin { noted: true }
        } else if starts(n, "user:"@) {
            GuardStep::AskUser { noted: true }
        } else {
            GuardStep::AskAdmin { noted: false }
        },
        None => GuardStep::AskAdmin { noted: false },
    }
}

/// The step after the cache's answer.
pub fn guard_after_cache(note: Option<&str>) -> (r: GuardStep)
    ensures
        r == guard_cached(opt_str(note)),
{
    match note {
        Some(n) => if same(n, "revoked") {
            GuardStep::Reject
        } else if starts_with(n, "admin:") {
            GuardStep::AskAdmin { noted: true }
        } else if starts_with(n, "user:") {
            GuardStep::AskUser { noted: true }
        } else {
            GuardStep::AskAdmin { noted: false }
        },
        None => GuardStep::AskAdmin { noted: false },
    }
}

/// The step after the store's answer. `found`: whether there is such a session;
/// a store that cannot answer finds none. What the cache says is not trusted:
/// where it is not borne out, both kinds of session are looked for.
pub open spec fn guard_looked_up(
    step: GuardStep,
    found: bool,
    method: Seq<char>,
    path: Seq<char>,
) -> GuardStep {
    match step {
        GuardStep::AskAdmin { noted: true } | GuardStep::AskUser { noted: true } => if found {
            GuardStep::Pass
        } else {
            GuardStep::AskAdmin { noted: false }
        },
        GuardStep::AskAdmin { noted: false } => if found {
            GuardStep::NoteAdmin
        } else {
            GuardStep::AskUser { noted: false }
        },
        GuardStep::AskUser { noted: false } => if found {
            GuardStep::NoteUser
        } else if open_to_all(method, path) {
            GuardStep::PassAnonymous
        } else {
            GuardStep::Reject
        },
        _ => step,
    }
}

/// The step after the store's answer.
pub fn guard_after_lookup(step: GuardStep, found: bool, method: &str, path: &str) -> (r: GuardStep)
    ensures
        r == guard_looked_up(step, found, method@, path@),
{
    match step {
        GuardStep::AskAdmin { noted } => {
            if noted {
                if found {
                    GuardStep::Pass
                } else {
                    GuardStep::AskAdmin { noted: false }
                }
            } else if found {
                GuardStep::NoteAdmin
            } else {
                GuardStep::AskUser { noted: false }
            }
        },
        GuardStep::AskUser { noted } => {
            if noted {
                if found {
                    GuardStep::Pass
                } else {
                    GuardStep::AskAdmin { noted: false }
                }
            } else if found {
                GuardStep::NoteUser
            } else if is_compat_anonymous_read(method, path) {
                GuardStep::PassAnonymous
            } else {
                GuardStep::Reject
            }
        },
        _ => step,
    }
}

/// Whether a step lets a request pass with somebody's rights.
pub open spec fn passes(step: GuardStep) -> bool {
    step is PassMaster || step is Pass || step is NoteAdmin || step is NoteUser
}

/// How the guard decides, for what the cache and the store would answer.
pub open spec fn guard_outcome(
    token: Seq<char>,
    api_key: Seq<char>,
    method: Seq<char>,
    path: Seq<char>,
    note: Option<Seq<char>>,
    is_admin: bool,
    is_user: bool,
) -> GuardStep {
    let first = guard_first(token, api_key, method, path);
    if !(first is AskCache) {
        first
    } else {
        let second = guard_cached(note);
        let third = if second is AskUser {
            guard_looked_up(second, is_user, method, path)
        } else {
            guard_looked_up(second, is_admin, method, path)
        };
        if second == (GuardStep::AskAdmin { noted: false }) {
            if third is AskUser {
                guard_looked_up(third, is_user, method, path)
            } else {
                third
            }
        } else if third == (GuardStep::AskAdmin { noted: false }) {
            let fourth = guard_looked_up(third, is_admin, method, path);
            if fourth is AskUser {
                guard_looked_up(fourth, is_user, method, path)
            } else {
                fourth
            }
        } else {
            third
        }
    }
}

/// The guard always comes to a decision. A request passes with somebody's
/// rights only with the master key or with a session that the store knows, and
/// never with a token that was revoked; a request that is not open to all and
/// carries neither is rejected.
pub proof fn law_guard(
    token: Seq<char>,
    api_key: Seq<char>,
    method: Seq<char>,
    path: Seq<char>,
    note: Option<Seq<char>>,
    is_admin: bool,
    is_user: bool,
)
    ensures
        ({
            let end = guard_outcome(token, api_key, method, path, note, is_admin, is_user);
            let master = token.len() > 0 && api_key.len() > 0 && token == api_key;
            &&& passes(end) || end is PassAnonymous || end is Reject
            &&& passes(end) ==> master || (token.len() > 0 && (is_admin || is_user) && note != Some(
                "revoked"@,
            ))
            &&& master ==> end is PassMaster
            &&& token.len() > 0 && (is_admin || is_user) && note != Some("revoked"@) ==> passes(end)
            &&& end is PassAnonymous ==> open_to_all(method, path)
            &&& !master && !open_to_all(method, path) && (token.len() == 0 || !(is_admin
                || is_user)) ==> end is Reject
        }),
{
}

/// The key under which the cache notes what a token is.
pub fn note_key(token_hash: &str) -> (r: String)
    ensures
        r@ == "auth:"@ + token_hash@,
{
    join2("auth:", token_hash)
}

// ---------------------------------------------------------------------------
// What requests say

/// The hexadecimal digit of a number below sixteen.
pub open spec fn hex_digit(n: int) -> u8 {
    if n < 10 {
        (48 + n) as u8
    } else {
        (55 + n) as u8
    }
}

/// Bytes, each written as a percent sign and two hexadecimal digits.
pub open spec fn all_escaped(b: Seq<u8>) -> Seq<u8>
    decreases b.len(),
{
    if b.len() == 0 {
        Seq::empty()
    } else {
        seq![37u8, hex_digit(b[0] as int / 16), hex_digit(b[0] as int % 16)] + all_escaped(b.skip(1))
    }
}

/// Bytes that were escaped read back as they were, and a plus sign reads as a
/// blank.
pub proof fn law_escaped_bytes_read_back(b: Seq<u8>)
    ensures
        unescaped(all_escaped(b)) == b,
        unescaped(seq![43u8] + b) == seq![32u8] + unescaped(b),
    decreases b.len(),
{
    let plus = seq![43u8] + b;
    assert(plus[0] == 43);
    assert(plus.skip(1) =~= b);
    if b.len() > 0 {
        law_escaped_bytes_read_back(b.skip(1));
        let e = all_escaped(b);
        let rest = all_escaped(b.skip(1));
        assert(e.skip(3) =~= rest);
        assert(e[0] == 37 && e[1] == hex_digit(b[0] as int / 16) && e[2] == hex_digit(
            b[0] as int % 16,
        ));
        assert(escaped(e));
        assert(hex_of(e[1])->0 * 16 + hex_of(e[2])->0 == b[0]);
        assert(seq![b[0]] + b.skip(1) =~= b);
    }
}

proof fn lemma_split_first(a: Seq<char>, b: Seq<char>, c: char)
    requires
        !a.contains(c),
    ensures
        split(a.push(c) + b, c) == seq![a] + split(b, c),
        split(a, c) == seq![a],
{
    let s = a.push(c) + b;
    assert forall|i: int| 0 <= i < a.len() implies #[trigger] s[i] != c by {
        assert(s[i] == a[i]);
        assert(a.contains(a[i]));
    }
    assert forall|i: int| 0 <= i < a.len() implies #[trigger] a[i] != c by {
        assert(a.contains(a[i]));
    }
    lemma_position(s, c, a.len() as int);
    lemma_position(a, c, a.len() as int);
    assert(s.take(a.len() as int) =~= a);
    assert(s.skip(1int + a.len()) =~= b);
}

proof fn lemma_pair_parts(name: Seq<char>, value: Seq<char>)
    requires
        !name.contains('='),
    ensures
        pair_name(name.push('=') + value) == name,
        pair_value(name.push('=') + value) == value,
        position(name.push('=') + value, '=') == name.len(),
{
    let pair = name.push('=') + value;
    assert forall|i: int| 0 <= i < name.len() implies #[trigger] pair[i] != '=' by {
        assert(pair[i] == name[i]);
        assert(name.contains(name[i]));
    }
    lemma_position(pair, '=', name.len() as int);
    assert(pair.take(name.len() as int) =~= name);
    assert(pair.skip(1int + name.len()) =~= value);
}

/// A token in a query is found under any of its names, whatever their case, and
/// a pair of another name or without a value before it is passed over.
pub proof fn law_query_token_is_found(name: Seq<char>, value: Seq<char>, rest: Seq<char>)
    requires
        !name.contains('=') && !name.contains('&') && !value.contains('&'),
    ensures
        (lower(name) == lower("x-emby-token"@) || lower(name) == lower("api_key"@) || lower(name)
            == lower("apikey"@) || lower(name) == lower("x-mediabrowser-token"@)) && value.len() > 0
            ==> query_token(Some(name.push('=') + value)) == Some(value) && query_token(
            Some((name.push('=') + value).push('&') + rest),
        ) == Some(value),
        (lower(name) != lower("x-emby-token"@) && lower(name) != lower("api_key"@) && lower(name)
            != lower("apikey"@) && lower(name) != lower("x-mediabrowser-token"@)) || value.len()
            == 0 ==> query_token(Some((name.push('=') + value).push('&') + rest)) == query_token(
            Some(rest),
        ) && query_token(Some(name.push('=') + value)) is None,
        query_token(None) is None,
{
    let pair = name.push('=') + value;
    lemma_pair_parts(name, value);
    assert(!pair.contains('&')) by {
        if pair.contains('&') {
            let i = choose|i: int| 0 <= i < pair.len() && pair[i] == '&';
            if i < name.len() {
                assert(name[i] == '&');
            } else if i > name.len() {
                assert(value[i - name.len() - 1] == '&');
            }
        }
    }
    lemma_split_first(pair, rest, '&');
    let all = seq![pair] + split(rest, '&');
    assert(all[0] == pair);
    assert(all.skip(1) =~= split(rest, '&'));
    assert(seq![pair].skip(1) =~= Seq::<Seq<char>>::empty());
    reveal_with_fuel(first_token, 2);
}

/// The decoded value of the query is the token of a request without a bearer;
/// a bearer is the text behind the word.
pub proof fn law_bearer_is_read(token: Seq<char>)
    requires
        token.len() > 0,
        !is_space(token[0]) && !is_space(token.last()),
    ensures
        bearer_token(Some("Bearer "@ + token)) == Some(token),
        bearer_token(Some("bearer "@ + token)) == Some(token),
        bearer_token(None) is None,
{
    reveal_strlit("Bearer ");
    reveal_strlit("bearer ");
    let p = |c: char| is_space(c);
    let a = "Bearer "@ + token;
    let b = "bearer "@ + token;
    assert(a.last() == token.last() && b.last() == token.last());
    lemma_trim_bounds(a, p, 0, a.len() as int);
    lemma_trim_bounds(b, p, 0, b.len() as int);
    lemma_trim_bounds(token, p, 0, token.len() as int);
    assert(a.subrange(0, a.len() as int) =~= a);
    assert(b.subrange(0, b.len() as int) =~= b);
    assert(token.subrange(0, token.len() as int) =~= token);
    assert(a.take(7) =~= "Bearer "@);
    assert(b.take(7) =~= "bearer "@);
    assert(a.skip(7) =~= token);
    assert(b.skip(7) =~= token);
    assert(lower("bearer "@) =~= lower("Bearer "@));
}

/// A part of the header as clients write it: a name and a value in quotes.
pub open spec fn quoted_part(name: Seq<char>, value: Seq<char>) -> Seq<char> {
    name + "=\""@ + value + "\""@
}

/// A value that can stand in quotes in the header and is not too long.
pub open spec fn plain_value(value: Seq<char>) -> bool {
    0 < value.len() <= 200 && !value.contains('"') && !value.contains(',')
}

proof fn lemma_quoted_part(name: Seq<char>, bare: Seq<char>, value: Seq<char>)
    requires
        name == bare || name == seq![' '] + bare,
        bare.len() > 0 && !is_space(bare[0]) && !is_space(bare.last()),
        !bare.contains('=') && !bare.contains(','),
        plain_value(value),
    ensures
        header_part()(quoted_part(name, value)) == Some((lower(bare), value)),
        !quoted_part(name, value).contains(','),
{
    reveal_strlit("=\"");
    reveal_strlit("\"");
    let part = quoted_part(name, value);
    let q = "\""@ + value + "\""@;
    let sp = |c: char| is_space(c);
    let qu = |c: char| c == '"';
    assert(part =~= name.push('=') + q);
    assert(!name.contains('=')) by {
        if name.contains('=') {
            let i = choose|i: int| 0 <= i < name.len() && name[i] == '=';
            if name == bare {
                assert(bare.contains('='));
            } else {
                assert(bare[i - 1] == '=');
            }
        }
    }
    assert(!part.contains(',')) by {
        if part.contains(',') {
            let i = choose|i: int| 0 <= i < part.len() && part[i] == ',';
            if i < name.len() {
                assert(name[i] == ',');
                if name != bare {
                    assert(bare[i - 1] == ',');
                }
            } else if name.len() + 2 <= i < name.len() + 2 + value.len() {
                assert(value[i - name.len() - 2] == ',');
            }
        }
    }
    lemma_pair_parts(name, q);
    if name == bare {
        lemma_trim_bounds(name, sp, 0, name.len() as int);
        assert(name.subrange(0, name.len() as int) =~= bare);
    } else {
        assert(name.last() == bare.last());
        assert(name[1] == bare[0]);
        lemma_trim_bounds(name, sp, 1, name.len() as int);
        assert(name.subrange(1, name.len() as int) =~= bare);
    }
    assert(q[0] == '"' && q.last() == '"');
    lemma_trim_bounds(q, sp, 0, q.len() as int);
    assert(q.subrange(0, q.len() as int) =~= q);
    assert(q[1] == value[0]);
    assert(q[q.len() - 2] == value[value.len() - 1]);
    assert(value.contains(value[0]) && value.contains(value[value.len() - 1]));
    lemma_trim_bounds(q, qu, 1, q.len() - 1);
    assert(q.subrange(1, q.len() - 1) =~= value);
}

/// The header of a client names the client, the device, its identifier, the
/// version and the token, each under its own name.
pub proof fn law_header_names_the_device(
    raw: Seq<char>,
    client: Seq<char>,
    device: Seq<char>,
    id: Seq<char>,
    version: Seq<char>,
    token: Seq<char>,
    d: DeviceInfo,
)
    requires
        plain_value(client) && plain_value(device) && plain_value(id) && plain_value(version)
            && plain_value(token),
        raw == "MediaBrowser "@ + joined(
            seq![
                quoted_part("Client"@, client),
                quoted_part(" Device"@, device),
                quoted_part(" DeviceId"@, id),
                quoted_part(" Version"@, version),
                quoted_part(" Token"@, token),
            ],
            ","@,
        ),
        device_of(d, header_parts(raw)),
    ensures
        last_token(header_parts(raw)) == Some(token),
        d.client@ == client,
        d.device@ == device,
        d.device_id@ == id,
        d.version@ == version,
{
    reveal_strlit("MediaBrowser ");
    reveal_strlit(",");
    reveal_strlit("Client");
    reveal_strlit("Device");
    reveal_strlit("DeviceId");
    reveal_strlit("Version");
    reveal_strlit("Token");
    reveal_strlit(" Device");
    reveal_strlit(" DeviceId");
    reveal_strlit(" Version");
    reveal_strlit(" Token");
    reveal_strlit("client");
    reveal_strlit("device");
    reveal_strlit("deviceid");
    reveal_strlit("version");
    reveal_strlit("token");
    let list = seq![
        quoted_part("Client"@, client),
        quoted_part(" Device"@, device),
        quoted_part(" DeviceId"@, id),
        quoted_part(" Version"@, version),
        quoted_part(" Token"@, token),
    ];
    let parts = seq![
        ("client"@, client),
        ("device"@, device),
        ("deviceid"@, id),
        ("version"@, version),
        ("token"@, token),
    ];
    assert(" Device"@ =~= seq![' '] + "Device"@);
    assert(" DeviceId"@ =~= seq![' '] + "DeviceId"@);
    assert(" Version"@ =~= seq![' '] + "Version"@);
    assert(" Token"@ =~= seq![' '] + "Token"@);
    lemma_quoted_part("Client"@, "Client"@, client);
    lemma_quoted_part(" Device"@, "Device"@, device);
    lemma_quoted_part(" DeviceId"@, "DeviceId"@, id);
    lemma_quoted_part(" Version"@, "Version"@, version);
    lemma_quoted_part(" Token"@, "Token"@, token);
    assert(lower("Client"@) =~= "client"@);
    assert(lower("Device"@) =~= "device"@);
    assert(lower("DeviceId"@) =~= "deviceid"@);
    assert(lower("Version"@) =~= "version"@);
    assert(lower("Token"@) =~= "token"@);
    let body = joined(list, ","@);
    assert(raw.subrange(0, 13) =~= "MediaBrowser "@);
    assert(raw.skip(13) =~= body);
    assert(","@ =~= seq![',']);
    lemma_split_joined(list, ',');
    lemma_filter_map_all(list, header_part(), parts);
    assert(header_parts(raw) == parts);
    reveal_with_fuel(last_value, 6);
    reveal_with_fuel(last_token, 2);
    assert("client"@.len() == 6 && "device"@.len() == 6 && "deviceid"@.len() == 8
        && "version"@.len() == 7 && "token"@.len() == 5);
    assert("client"@[0] == 'c' && "device"@[0] == 'd');
    let p4 = parts.drop_last();
    let p3 = p4.drop_last();
    let p2 = p3.drop_last();
    let p1 = p2.drop_last();
    assert(p4.last() == parts[3] && p3.last() == parts[2] && p2.last() == parts[1] && p1.last()
        == parts[0]);
}

/// A value of the header that is too long is cut, and one that is not stays.
pub proof fn law_header_value_is_cut(v: Seq<char>)
    requires
        v.len() > 0,
        v[0] != '"' && v.last() != '"' && !is_space(v[0]) && !is_space(v.last()),
    ensures
        v.len() <= 200 ==> header_value(v) == v,
        v.len() > 200 ==> header_value(v) == v.take(200),
{
    lemma_trim_bounds(v, |c: char| is_space(c), 0, v.len() as int);
    lemma_trim_bounds(v, |c: char| c == '"', 0, v.len() as int);
    assert(v.subrange(0, v.len() as int) =~= v);
}

/// The reads that need no login are exactly the three of the compatible
/// clients, at any base path.
pub proof fn law_open_reads(method: Seq<char>, base: Seq<char>)
    ensures
        method == "GET"@ || method == "HEAD"@ ==> open_to_all(method, base + "/Sessions"@)
            && open_to_all(method, base + "/Items/Counts"@) && open_to_all(
            method,
            base + "/System/Info"@,
        ),
        method != "GET"@ && method != "HEAD"@ ==> !open_to_all(method, base),
        !ends(base, "/Sessions"@) && !ends(base, "/Items/Counts"@) && !ends(base, "/System/Info"@)
            ==> !open_to_all(method, base),
{
    let a = base + "/Sessions"@;
    let b = base + "/Items/Counts"@;
    let c = base + "/System/Info"@;
    assert(a.subrange(base.len() as int, a.len() as int) =~= "/Sessions"@);
    assert(b.subrange(base.len() as int, b.len() as int) =~= "/Items/Counts"@);
    assert(c.subrange(base.len() as int, c.len() as int) =~= "/System/Info"@);
}

/// A query keeps its values as they are, and its names in lower case.
pub proof fn law_query_names_are_lowered(name: Seq<char>, value: Seq<char>)
    requires
        !name.contains('=') && !name.contains('&') && !value.contains('&'),
    ensures
        lowered_query(name.push('=') + value) == Some(lower(name) + "="@ + value),
        name.len() > 0 ==> lowered_query(name) == Some(lower(name)),
        lowered_query(Seq::empty()) is None,
{
    let pair = name.push('=') + value;
    let f = lowered_pairs();
    let none = Seq::<char>::empty();
    lemma_pair_parts(name, value);
    assert(!pair.contains('&')) by {
        if pair.contains('&') {
            let i = choose|i: int| 0 <= i < pair.len() && pair[i] == '&';
            if i < name.len() {
                assert(name[i] == '&');
            } else if i > name.len() {
                assert(value[i - name.len() - 1] == '&');
            }
        }
    }
    lemma_split_first(pair, none, '&');
    lemma_split_first(name, none, '&');
    lemma_split_first(none, none, '&');
    assert forall|i: int| 0 <= i < name.len() implies #[trigger] name[i] != '=' by {
        assert(name.contains(name[i]));
    }
    lemma_position(name, '=', name.len() as int);
    lemma_filter_map_all(seq![pair], f, seq![lower(name) + "="@ + value]);
    if name.len() > 0 {
        lemma_filter_map_all(seq![name], f, seq![lower(name)]);
    }
    let one = seq![none];
    one.lemma_filter_map_take_succ(f, 0);
    assert(f(one[0]) is None);
    assert(one.take(1) =~= one);
    assert(one.take(0) =~= Seq::<Seq<char>>::empty());
    reveal(Seq::filter_map);
    assert(one.filter_map(f) =~= Seq::<Seq<char>>::empty());
}

/// What the cache has noted of a token decides whom the store is asked for: an
/// administrator or a user as noted, and an administrator first where nothing is
/// noted. A token that was revoked is not looked up at all.
pub proof fn law_cached_notes(rest: Seq<char>)
    ensures
        guard_cached(Some("revoked"@)) == GuardStep::Reject,
        guard_cached(Some("admin:"@ + rest)) == (GuardStep::AskAdmin { noted: true }),
        guard_cached(Some("user:"@ + rest)) == (GuardStep::AskUser { noted: true }),
        guard_cached(None) == (GuardStep::AskAdmin { noted: false }),
{
    reveal_strlit("revoked");
    reveal_strlit("admin:");
    reveal_strlit("user:");
    let a = "admin:"@ + rest;
    let u = "user:"@ + rest;
    assert(a.subrange(0, 6) =~= "admin:"@);
    assert(u.subrange(0, 5) =~= "user:"@);
    assert(a[0] == 'a' && u[0] == 'u' && "revoked"@[0] == 'r');
    if starts(u, "admin:"@) {
        assert(u.subrange(0, 6)[0] == 'a');
    }
}

/// A session that is found lets the request pass, and is noted as what it was
/// found to be unless that was noted before; one that is not found is looked
/// for as a user's, and then the request is refused unless it is open to all.
pub proof fn law_lookup_steps(method: Seq<char>, path: Seq<char>)
    ensures
        guard_looked_up(GuardStep::AskAdmin { noted: true }, true, method, path) == GuardStep::Pass,
        guard_looked_up(GuardStep::AskUser { noted: true }, true, method, path) == GuardStep::Pass,
        guard_looked_up(GuardStep::AskAdmin { noted: true }, false, method, path) == (
        GuardStep::AskAdmin { noted: false }),
        guard_looked_up(GuardStep::AskUser { noted: true }, false, method, path) == (
        GuardStep::AskAdmin { noted: false }),
        guard_looked_up(GuardStep::AskAdmin { noted: false }, true, method, path)
            == GuardStep::NoteAdmin,
        guard_looked_up(GuardStep::AskAdmin { noted: false }, false, method, path) == (
        GuardStep::AskUser { noted: false }),
        guard_looked_up(GuardStep::AskUser { noted: false }, true, method, path)
            == GuardStep::NoteUser,
        method == "POST"@ ==> guard_looked_up(
            GuardStep::AskUser { noted: false },
            false,
            method,
            path,
        ) == GuardStep::Reject,
        guard_first(Seq::empty(), Seq::empty(), "POST"@, path) == GuardStep::Reject,
{
    reveal_strlit("POST");
    reveal_strlit("GET");
    reveal_strlit("HEAD");
    assert("POST"@[0] == 'P' && "GET"@[0] == 'G' && "HEAD"@[0] == 'H');
}

/// The token of a request is its bearer; without one the token of its query,
/// decoded; without that the first of its token headers, and in the end the
/// token in its authorization header. A request without any has none.
pub proof fn law_token_sources(s: TokenSources, t: Seq<char>)
    requires
        t.len() > 0,
    ensures
        bearer_token(opt(s.authorization)) == Some(t) ==> token_of(s) == t,
        bearer_token(opt(s.authorization)) is None && query_token(opt(s.query)) == Some(t)
            ==> token_of(s) == decoded_value(t),
        s.authorization is None && s.query is None && opt(s.x_emby_token) == Some(t) ==> token_of(s)
            == t,
        s.authorization is None && s.query is None && s.x_emby_token is None && opt(
            s.x_mediabrowser_token,
        ) == Some(t) ==> token_of(s) == t,
        s.authorization is None && s.query is None && s.x_emby_token is None
            && s.x_mediabrowser_token is None && s.x_emby_authorization is Some && last_token(
            header_parts(s.x_emby_authorization->0@),
        ) == Some(t) ==> token_of(s) == t,
        s.authorization is None && s.query is None && s.x_emby_token is None
            && s.x_mediabrowser_token is None && s.x_emby_authorization is None
            ==> token_of(s).len() == 0,
{
}

} // verus!
