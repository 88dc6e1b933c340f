//! Text as sequences of characters: the vocabulary that the contracts of this
//! crate use for strings, and the executable operations that realise it.

use vstd::prelude::*;
use vstd::string::*;
use vstd::utf8::{decode_utf8, encode_utf8_decode_utf8, valid_utf8};

verus! {

/// `String::push` appends one character to the end of the string.
pub assume_specification[ String::push ](s: &mut String, c: char)
    ensures
        final(s)@ == old(s)@.push(c),
;

// ---------------------------------------------------------------------------
// Views

/// The characters of an optional string.
pub open spec fn opt(o: Option<String>) -> Option<Seq<char>> {
    match o {
        Some(s) => Some(s@),
        None => None,
    }
}

/// The characters of an optional string slice.
pub open spec fn opt_str(o: Option<&str>) -> Option<Seq<char>> {
    match o {
        Some(s) => Some(s@),
        None => None,
    }
}

/// The characters of each string of a list.
pub open spec fn texts(v: Seq<String>) -> Seq<Seq<char>> {
    v.map_values(|s: String| s@)
}

/// The first of two optional values that is present.
pub open spec fn first_of<T>(a: Option<T>, b: Option<T>) -> Option<T> {
    if a is Some {
        a
    } else {
        b
    }
}

// ---------------------------------------------------------------------------
// Conversions between strings and character vectors

/// The characters of `s`, in order.
pub fn to_chars(s: &str) -> (r: Vec<char>)
    ensures
        r@ == s@,
{
    let mut v: Vec<char> = Vec::new();
    for c in it: s.chars()
        invariant
            it.seq() == s@,
            v@ == s@.take(it.index() as int),
    {
        v.push(c);
    }
    assert(s@.take(s@.len() as int) =~= s@);
    v
}

/// Appends the characters `cs[from..to]` to `out`.
pub fn push_range(out: &mut String, cs: &[char], from: usize, to: usize)
    requires
        from <= to <= cs@.len(),
    ensures
        final(out)@ == old(out)@ + cs@.subrange(from as int, to as int),
{
    let mut i: usize = from;
    assert(out@ =~= old(out)@ + cs@.subrange(from as int, i as int));
    while i < to
        invariant
            from <= i <= to <= cs@.len(),
            out@ == old(out)@ + cs@.subrange(from as int, i as int),
        decreases to - i,
    {
        out.push(cs[i]);
        i = i + 1;
        assert(out@ =~= old(out)@ + cs@.subrange(from as int, i as int));
    }
}

/// The characters `cs[from..to]` as a string.
pub fn range_text(cs: &[char], from: usize, to: usize) -> (r: String)
    requires
        from <= to <= cs@.len(),
    ensures
        r@ == cs@.subrange(from as int, to as int),
{
    let mut s = String::new();
    push_range(&mut s, cs, from, to);
    assert(s@ =~= cs@.subrange(from as int, to as int));
    s
}

/// What `String::from_utf8_lossy` makes of bytes.
pub uninterp spec fn lossy_text(bytes: Seq<u8>) -> Seq<char>;

/// `String::from_utf8_lossy`: bytes that are no valid UTF-8 are replaced. The
/// contract names the result, and claims that valid UTF-8 is decoded as it is.
#[verifier::external_body]
pub(crate) fn from_utf8_lossy(bytes: &[u8]) -> (r: String)
    ensures
        r@ == lossy_text(bytes@),
        valid_utf8(bytes@) ==> r@ == decode_utf8(bytes@),
{
    String::from_utf8_lossy(bytes).into_owned()
}

/// An owned copy of an optional slice.
pub fn owned(o: Option<&str>) -> (r: Option<String>)
    ensures
        opt(r) == opt_str(o),
{
    match o {
        Some(s) => Some(s.to_owned()),
        None => None,
    }
}

/// A copy of an optional string.
pub fn copy_opt(o: &Option<String>) -> (r: Option<String>)
    ensures
        opt(r) == opt(*o),
{
    match o {
        Some(s) => Some(s.clone()),
        None => None,
    }
}

/// A copy of a list of strings.
pub fn copy_texts(v: &Vec<String>) -> (r: Vec<String>)
    ensures
        texts(r@) == texts(v@),
{
    let mut out: Vec<String> = Vec::new();
    let mut i: usize = 0;
    while i < v.len()
        invariant
            i == out.len(),
            i <= v.len(),
            forall|k: int| 0 <= k < i ==> out@[k]@ == #[trigger] v@[k]@,
        decreases v.len() - i,
    {
        out.push(v[i].clone());
        i = i + 1;
    }
    assert(texts(out@) =~= texts(v@));
    out
}

/// `a` followed by `b`.
pub fn join2(a: &str, b: &str) -> (r: String)
    ensures
        r@ == a@ + b@,
{
    a.to_owned().concat(b)
}

/// `a`, `b` and `c` one after the other.
pub fn join3(a: &str, b: &str, c: &str) -> (r: String)
    ensures
        r@ == a@ + b@ + c@,
{
    a.to_owned().concat(b).concat(c)
}

// ---------------------------------------------------------------------------
// Equality

/// Whether two strings hold the same characters.
pub fn same(a: &str, b: &str) -> (r: bool)
    ensures
        r == (a@ == b@),
{
    let x = a.as_bytes();
    let y = b.as_bytes();
    proof {
        encode_utf8_decode_utf8(a@);
        encode_utf8_decode_utf8(b@);
    }
    if x.len() != y.len() {
        return false;
    }
    let mut i: usize = 0;
    while i < x.len()
        invariant
            x@ == a.spec_bytes(),
            y@ == b.spec_bytes(),
            i <= x.len(),
            x.len() == y.len(),
            forall|k: int| 0 <= k < i ==> x@[k] == y@[k],
        decreases x.len() - i,
    {
        if x[i] != y[i] {
            return false;
        }
        i = i + 1;
    }
    assert(x@ =~= y@);
    true
}

/// Whether an optional string is present and equal to `b`.
pub fn opt_is(a: Option<&str>, b: &str) -> (r: bool)
    ensures
        r == (opt_str(a) == Some(b@)),
{
    match a {
        Some(s) => same(s, b),
        None => false,
    }
}

/// Borrows the string inside an option.
pub fn borrowed(o: &Option<String>) -> (r: Option<&str>)
    ensures
        opt_str(r) == opt(*o),
{
    match o {
        Some(s) => Some(s.as_str()),
        None => None,
    }
}

// ---------------------------------------------------------------------------
// Whitespace

/// The characters of the Unicode property `White_Space`.
pub open spec fn is_space(c: char) -> bool {
    ||| '\t' <= c <= '\r'
    ||| c == ' '
    ||| c == '\u{85}'
    ||| c == '\u{A0}'
    ||| c == '\u{1680}'
    ||| '\u{2000}' <= c <= '\u{200A}'
    ||| c == '\u{2028}'
    ||| c == '\u{2029}'
    ||| c == '\u{202F}'
    ||| c == '\u{205F}'
    ||| c == '\u{3000}'
}

/// Whether `c` is whitespace.
pub fn space(c: char) -> (r: bool)
    ensures
        r == is_space(c),
{
    ('\t' <= c && c <= '\r') || c == ' ' || c == '\u{85}' || c == '\u{A0}' || c == '\u{1680}' || (
    '\u{2000}' <= c && c <= '\u{200A}') || c == '\u{2028}' || c == '\u{2029}' || c == '\u{202F}'
        || c == '\u{205F}' || c == '\u{3000}'
}

/// `s` without its leading characters that satisfy `p`.
pub open spec fn trim_start_by(s: Seq<char>, p: spec_fn(char) -> bool) -> Seq<char>
    decreases s.len(),
{
    if s.len() > 0 && p(s[0]) {
        trim_start_by(s.skip(1), p)
    } else {
        s
    }
}

/// `s` without its trailing characters that satisfy `p`.
pub open spec fn trim_end_by(s: Seq<char>, p: spec_fn(char) -> bool) -> Seq<char>
    decreases s.len(),
{
    if s.len() > 0 && p(s.last()) {
        trim_end_by(s.drop_last(), p)
    } else {
        s
    }
}

/// `s` without the characters at either end that satisfy `p`.
pub open spec fn trim_by(s: Seq<char>, p: spec_fn(char) -> bool) -> Seq<char> {
    trim_end_by(trim_start_by(s, p), p)
}

/// `s` without whitespace at either end.
pub open spec fn trim(s: Seq<char>) -> Seq<char> {
    trim_by(s, |c: char| is_space(c))
}

/// Whether nothing but whitespace is in `s`.
pub open spec fn blank(s: Seq<char>) -> bool {
    trim(s).len() == 0
}

proof fn lemma_trim_start_skip(s: Seq<char>, p: spec_fn(char) -> bool, k: int)
    requires
        0 <= k <= s.len(),
        forall|i: int| 0 <= i < k ==> p(#[trigger] s[i]),
        k == s.len() || !p(s[k]),
    ensures
        trim_start_by(s, p) == s.skip(k),
    decreases k,
{
    if k > 0 {
        let t = s.skip(1);
        assert forall|i: int| 0 <= i < k - 1 implies p(#[trigger] t[i]) by {
            assert(t[i] == s[i + 1]);
        }
        assert(p(s[0]));
        if k < s.len() {
            assert(t[k - 1] == s[k]);
        }
        lemma_trim_start_skip(t, p, k - 1);
        assert(t.skip(k - 1) =~= s.skip(k));
    } else {
        assert(s.skip(0) =~= s);
    }
}

proof fn lemma_trim_end_take(s: Seq<char>, p: spec_fn(char) -> bool, k: int)
    requires
        0 <= k <= s.len(),
        forall|i: int| k <= i < s.len() ==> p(#[trigger] s[i]),
        k == 0 || !p(s[k - 1]),
    ensures
        trim_end_by(s, p) == s.take(k),
    decreases s.len() - k,
{
    if k < s.len() {
        let t = s.drop_last();
        assert(p(s[s.len() - 1]));
        assert forall|i: int| k <= i < t.len() implies p(#[trigger] t[i]) by {
            assert(t[i] == s[i]);
        }
        lemma_trim_end_take(t, p, k);
        assert(t.take(k) =~= s.take(k));
    } else {
        assert(s.take(k) =~= s);
    }
}

/// What trimming leaves, given the two ends that it stops at.
pub proof fn lemma_trim_bounds(s: Seq<char>, p: spec_fn(char) -> bool, a: int, b: int)
    requires
        0 <= a <= b <= s.len(),
        forall|i: int| 0 <= i < a ==> p(#[trigger] s[i]),
        forall|i: int| b <= i < s.len() ==> p(#[trigger] s[i]),
        a < b ==> !p(s[a]) && !p(s[b - 1]),
        a == b ==> a == s.len(),
    ensures
        trim_by(s, p) == s.subrange(a, b),
{
    lemma_trim_start_skip(s, p, a);
    let t = s.skip(a);
    assert forall|i: int| b - a <= i < t.len() implies p(#[trigger] t[i]) by {
        assert(t[i] == s[i + a]);
    }
    if a < b {
        assert(t[b - a - 1] == s[b - 1]);
    }
    lemma_trim_end_take(t, p, b - a);
    assert(t.take(b - a) =~= s.subrange(a, b));
}

proof fn lemma_trim_start_head(s: Seq<char>, p: spec_fn(char) -> bool)
    ensures
        trim_start_by(s, p).len() > 0 ==> !p(trim_start_by(s, p)[0]),
    decreases s.len(),
{
    if s.len() > 0 && p(s[0]) {
        lemma_trim_start_head(s.skip(1), p);
    }
}

proof fn lemma_trim_end_ends(s: Seq<char>, p: spec_fn(char) -> bool)
    ensures
        trim_end_by(s, p).len() > 0 ==> !p(trim_end_by(s, p).last()) && trim_end_by(s, p)[0] == s[0],
    decreases s.len(),
{
    if s.len() > 0 && p(s.last()) {
        lemma_trim_end_ends(s.drop_last(), p);
    }
}

/// A trimmed text starts and ends with what trimming stops at, and is not
/// changed by trimming it again.
pub proof fn lemma_trim_twice(s: Seq<char>, p: spec_fn(char) -> bool)
    ensures
        trim_by(s, p).len() > 0 ==> !p(trim_by(s, p)[0]) && !p(trim_by(s, p).last()),
        trim_by(trim_by(s, p), p) == trim_by(s, p),
{
    lemma_trim_start_head(s, p);
    lemma_trim_end_ends(trim_start_by(s, p), p);
}

/// The bounds of the part of `cs[from..to]` that trimming whitespace leaves.
pub fn trim_bounds(cs: &[char], from: usize, to: usize) -> (r: (usize, usize))
    requires
        from <= to <= cs@.len(),
    ensures
        from <= r.0 <= r.1 <= to,
        cs@.subrange(r.0 as int, r.1 as int) == trim(cs@.subrange(from as int, to as int)),
{
    let ghost s = cs@.subrange(from as int, to as int);
    let ghost p = |c: char| is_space(c);
    let mut a: usize = from;
    while a < to && space(cs[a])
        invariant
            from <= a <= to <= cs@.len(),
            s == cs@.subrange(from as int, to as int),
            p == (|c: char| is_space(c)),
            forall|i: int| 0 <= i < a - from ==> p(#[trigger] s[i]),
        decreases to - a,
    {
        a = a + 1;
    }
    let mut b: usize = to;
    while b > a && space(cs[b - 1])
        invariant
            from <= a <= b <= to <= cs@.len(),
            s == cs@.subrange(from as int, to as int),
            p == (|c: char| is_space(c)),
            a < to ==> !p(s[a - from]),
            a == to ==> b == to,
            forall|i: int| b - from <= i < s.len() ==> p(#[trigger] s[i]),
        decreases b - a,
    {
        b = b - 1;
    }
    proof {
        if a < b {
            assert(!p(s[b - from - 1]));
        }
        if a == b && a < to {
            assert(p(s[a - from]));
        }
        lemma_trim_bounds(s, p, a - from, b - from);
        assert(cs@.subrange(a as int, b as int) =~= s.subrange(a - from, b - from));
    }
    (a, b)
}

/// `s` without whitespace at either end.
pub fn trimmed(s: &str) -> (r: String)
    ensures
        r@ == trim(s@),
{
    let cs = to_chars(s);
    let (a, b) = trim_bounds(cs.as_slice(), 0, cs.len());
    assert(cs@.subrange(0, cs@.len() as int) =~= cs@);
    range_text(cs.as_slice(), a, b)
}

/// Whether nothing but whitespace is in `s`.
pub fn is_blank(s: &str) -> (r: bool)
    ensures
        r == blank(s@),
{
    let cs = to_chars(s);
    let (a, b) = trim_bounds(cs.as_slice(), 0, cs.len());
    assert(cs@.subrange(0, cs@.len() as int) =~= cs@);
    assert(cs@.subrange(a as int, b as int).len() == b - a);
    a == b
}

// ---------------------------------------------------------------------------
// ASCII case

/// The lower-case form of an ASCII letter; any other character unchanged.
pub open spec fn lower_char(c: char) -> char {
    if 'A' <= c <= 'Z' {
        (c as u8 + 32) as char
    } else {
        c
    }
}

/// `s` with its ASCII letters in lower case.
pub open spec fn lower(s: Seq<char>) -> Seq<char> {
    s.map_values(|c: char| lower_char(c))
}

/// The lower-case form of an ASCII letter; any other character unchanged.
pub fn to_lower_char(c: char) -> (r: char)
    ensures
        r == lower_char(c),
{
    if 'A' <= c && c <= 'Z' {
        (c as u8 + 32) as char
    } else {
        c
    }
}

/// `s` with its ASCII letters in lower case.
pub fn lowered(s: &str) -> (r: String)
    ensures
        r@ == lower(s@),
{
    let cs = to_chars(s);
    let mut out = String::new();
    let mut i: usize = 0;
    while i < cs.len()
        invariant
            i <= cs.len(),
            cs@ == s@,
            out@ == lower(s@).take(i as int),
        decreases cs.len() - i,
    {
        out.push(to_lower_char(cs[i]));
        i = i + 1;
        assert(out@ =~= lower(s@).take(i as int));
    }
    assert(lower(s@).take(cs@.len() as int) =~= lower(s@));
    out
}

/// Whether two strings are equal up to ASCII case.
pub fn same_ignoring_case(a: &str, b: &str) -> (r: bool)
    ensures
        r == (lower(a@) == lower(b@)),
{
    same(lowered(a).as_str(), lowered(b).as_str())
}

// ---------------------------------------------------------------------------
// Searching and splitting

/// The position of the first `c` in `s`; the length of `s` where there is none.
pub open spec fn position(s: Seq<char>, c: char) -> int
    decreases s.len(),
{
    if s.len() == 0 || s[0] == c {
        0
    } else {
        1 + position(s.skip(1), c)
    }
}

/// The pieces of `s` between the occurrences of `c`.
pub open spec fn split(s: Seq<char>, c: char) -> Seq<Seq<char>>
    decreases s.len(),
{
    let i = position(s, c);
    if 0 <= i < s.len() {
        seq![s.take(i)] + split(s.skip(i + 1), c)
    } else {
        seq![s]
    }
}

/// `position` is the least index that holds the character.
pub proof fn lemma_position(s: Seq<char>, c: char, k: int)
    requires
        0 <= k <= s.len(),
        forall|i: int| 0 <= i < k ==> #[trigger] s[i] != c,
        k == s.len() || s[k] == c,
    ensures
        position(s, c) == k,
    decreases k,
{
    if k > 0 {
        let t = s.skip(1);
        assert(s[0] != c);
        assert forall|i: int| 0 <= i < k - 1 implies #[trigger] t[i] != c by {
            assert(t[i] == s[i + 1]);
        }
        if k < s.len() {
            assert(t[k - 1] == s[k]);
        }
        lemma_position(t, c, k - 1);
    }
}

/// `position` holds the character, and nothing before it does.
pub proof fn lemma_position_bounds(s: Seq<char>, c: char)
    ensures
        0 <= position(s, c) <= s.len(),
        position(s, c) < s.len() ==> s[position(s, c)] == c,
        forall|i: int| 0 <= i < position(s, c) ==> #[trigger] s[i] != c,
    decreases s.len(),
{
    if s.len() > 0 && s[0] != c {
        let t = s.skip(1);
        lemma_position_bounds(t, c);
        assert forall|i: int| 0 <= i < position(s, c) implies #[trigger] s[i] != c by {
            if i > 0 {
                assert(t[i - 1] == s[i]);
            }
        }
    }
}

/// The first index in `from..to` that holds `c`; `to` where none does.
pub fn find_char(cs: &[char], from: usize, to: usize, c: char) -> (r: usize)
    requires
        from <= to <= cs@.len(),
    ensures
        from <= r <= to,
        r - from == position(cs@.subrange(from as int, to as int), c),
        r < to ==> cs@[r as int] == c,
        forall|i: int| from <= i < r ==> #[trigger] cs@[i] != c,
{
    let ghost s = cs@.subrange(from as int, to as int);
    let mut i: usize = from;
    while i < to && cs[i] != c
        invariant
            from <= i <= to <= cs@.len(),
            forall|k: int| from <= k < i ==> #[trigger] cs@[k] != c,
        decreases to - i,
    {
        i = i + 1;
    }
    proof {
        assert forall|k: int| 0 <= k < i - from implies #[trigger] s[k] != c by {
            assert(s[k] == cs@[k + from]);
        }
        lemma_position(s, c, i - from);
    }
    i
}

/// Whether `c` occurs in `s`.
pub fn contains_char(s: &str, c: char) -> (r: bool)
    ensures
        r == s@.contains(c),
{
    let cs = to_chars(s);
    let i: usize = find_char(cs.as_slice(), 0, cs.len(), c);
    if i < cs.len() {
        assert(s@[i as int] == c);
        true
    } else {
        false
    }
}

/// The pieces of `s` between the occurrences of `c`.
pub fn split_at_char(s: &str, c: char) -> (r: Vec<String>)
    ensures
        texts(r@) == split(s@, c),
{
    let cs = to_chars(s);
    let mut out: Vec<String> = Vec::new();
    let mut start: usize = 0;
    proof {
        assert(s@.skip(0) =~= s@);
        assert(texts(out@) + split(s@, c) =~= split(s@, c));
    }
    loop
        invariant
            start <= cs@.len(),
            cs@ == s@,
            texts(out@) + split(s@.skip(start as int), c) == split(s@, c),
        decreases cs@.len() - start,
    {
        let i: usize = find_char(cs.as_slice(), start, cs.len(), c);
        let ghost rest = s@.skip(start as int);
        let ghost before = texts(out@);
        proof {
            assert(cs@.subrange(start as int, cs@.len() as int) =~= rest);
        }
        let piece = range_text(cs.as_slice(), start, i);
        proof {
            assert(piece@ =~= rest.take(i - start));
        }
        out.push(piece);
        proof {
            assert(texts(out@) =~= before.push(piece@));
        }
        if i == cs.len() {
            proof {
                assert(rest.take(i - start) =~= rest);
                assert(split(rest, c) == seq![rest]);
                assert(before.push(piece@) =~= before + seq![rest]);
            }
            return out;
        }
        proof {
            assert(rest.skip(i - start + 1) =~= s@.skip(i + 1));
            assert(split(rest, c) == seq![rest.take(i - start)] + split(s@.skip(i + 1), c));
            assert(before.push(piece@) + split(s@.skip(i + 1), c) =~= before + split(rest, c));
        }
        start = i + 1;
    }
}

/// No piece of a text holds the character that it was split at.
pub proof fn lemma_pieces_without(s: Seq<char>, c: char)
    ensures
        split(s, c).len() > 0,
        forall|i: int| 0 <= i < split(s, c).len() ==> !(#[trigger] split(s, c)[i]).contains(c),
    decreases s.len(),
{
    let at = position(s, c);
    lemma_position_bounds(s, c);
    let v = split(s, c);
    if at < s.len() {
        lemma_pieces_without(s.skip(at + 1), c);
        let rest = split(s.skip(at + 1), c);
        assert forall|i: int| 0 <= i < v.len() implies !(#[trigger] v[i]).contains(c) by {
            if i == 0 {
                assert forall|k: int| 0 <= k < v[0].len() implies v[0][k] != c by {
                    assert(v[0][k] == s[k]);
                }
            } else {
                assert(v[i] == rest[i - 1]);
            }
        }
    } else {
        assert(v[0] == s);
    }
}

/// Splitting behind one more separator gives one more piece.
pub proof fn lemma_split_push(a: Seq<char>, b: Seq<char>, c: char)
    requires
        !b.contains(c),
    ensures
        split(a + seq![c] + b, c) == split(a, c).push(b),
    decreases a.len(),
{
    let whole = a + seq![c] + b;
    let at = position(a, c);
    lemma_position_bounds(a, c);
    assert forall|i: int| 0 <= i < at implies #[trigger] whole[i] != c by {
        assert(whole[i] == a[i]);
    }
    assert(whole[at] == c);
    lemma_position(whole, c, at);
    if at < a.len() {
        lemma_split_push(a.skip(at + 1), b, c);
        assert(whole.skip(at + 1) =~= a.skip(at + 1) + seq![c] + b);
        assert(whole.take(at) =~= a.take(at));
        assert(split(whole, c) =~= split(a, c).push(b));
    } else {
        assert(whole.skip(at + 1) =~= b);
        assert(whole.take(at) =~= a);
        assert forall|i: int| 0 <= i < b.len() implies #[trigger] b[i] != c by {
            if b[i] == c {
                assert(b.contains(c));
            }
        }
        lemma_position(b, c, b.len() as int);
        assert(split(b, c) == seq![b]);
        assert(split(whole, c) =~= split(a, c).push(b));
    }
}

/// Splitting at a character undoes joining with it, as long as no piece holds it.
pub proof fn lemma_split_joined(v: Seq<Seq<char>>, c: char)
    requires
        v.len() > 0,
        forall|i: int| 0 <= i < v.len() ==> !(#[trigger] v[i]).contains(c),
    ensures
        split(joined(v, seq![c]), c) == v,
    decreases v.len(),
{
    if v.len() == 1 {
        let b = v[0];
        assert forall|i: int| 0 <= i < b.len() implies #[trigger] b[i] != c by {
            if b[i] == c {
                assert(b.contains(c));
            }
        }
        lemma_position(b, c, b.len() as int);
        assert(split(b, c) =~= v);
    } else {
        let rest = v.drop_last();
        assert forall|i: int| 0 <= i < rest.len() implies !(#[trigger] rest[i]).contains(c) by {
            assert(rest[i] == v[i]);
        }
        lemma_split_joined(rest, c);
        lemma_split_push(joined(rest, seq![c]), v.last(), c);
        assert(rest.push(v.last()) =~= v);
    }
}

/// Mapping a list with a function that always gives a value gives all values.
pub proof fn lemma_filter_map_all<A, B>(s: Seq<A>, f: spec_fn(A) -> Option<B>, t: Seq<B>)
    requires
        s.len() == t.len(),
        forall|i: int| 0 <= i < s.len() ==> f(#[trigger] s[i]) == Some(t[i]),
    ensures
        s.filter_map(f) == t,
    decreases s.len(),
{
    if s.len() > 0 {
        let a = s.drop_last();
        let b = t.drop_last();
        assert forall|i: int| 0 <= i < a.len() implies f(#[trigger] a[i]) == Some(b[i]) by {
            assert(a[i] == s[i]);
        }
        lemma_filter_map_all(a, f, b);
        assert(f(s[s.len() - 1]) == Some(t[s.len() - 1]));
        assert(s.filter_map(f) =~= t);
    } else {
        assert(s.filter_map(f) =~= t);
    }
}

/// What a function gives for an element is among what it gives for the list.
pub proof fn lemma_filter_map_has<A, B>(s: Seq<A>, f: spec_fn(A) -> Option<B>, i: int)
    requires
        0 <= i < s.len(),
        f(s[i]) is Some,
    ensures
        s.filter_map(f).contains(f(s[i])->0),
    decreases s.len(),
{
    let n = s.len() - 1;
    s.lemma_filter_map_take_succ(f, n);
    assert(s.take(n + 1) =~= s);
    let rest = s.take(n);
    let before = rest.filter_map(f);
    let all = s.filter_map(f);
    if i < n {
        lemma_filter_map_has(rest, f, i);
        assert(rest[i] == s[i]);
        let k = choose|k: int| 0 <= k < before.len() && before[k] == f(s[i])->0;
        assert(all[k] == before[k]);
    } else {
        assert(all[before.len() as int] == f(s[i])->0);
    }
}

/// Whether `cs` holds `pat` at index `at`.
pub open spec fn occurs_at(s: Seq<char>, pat: Seq<char>, at: int) -> bool {
    0 <= at && at + pat.len() <= s.len() && s.subrange(at, at + pat.len()) == pat
}

/// Whether `pat` occurs somewhere in `s`.
pub open spec fn occurs(s: Seq<char>, pat: Seq<char>) -> bool {
    exists|at: int| #[trigger] occurs_at(s, pat, at)
}

/// Whether `cs` holds `pat` at index `at`.
pub fn match_at(cs: &[char], pat: &[char], at: usize) -> (r: bool)
    requires
        at <= cs@.len(),
    ensures
        r == occurs_at(cs@, pat@, at as int),
{
    let n: usize = cs.len();
    if n - at < pat.len() {
        return false;
    }
    let mut i: usize = 0;
    while i < pat.len()
        invariant
            i <= pat@.len() <= n - at,
            at <= n == cs@.len(),
            forall|k: int| 0 <= k < i ==> #[trigger] pat@[k] == cs@[at + k],
        decreases pat.len() - i,
    {
        if cs[at + i] != pat[i] {
            proof {
                let sub = cs@.subrange(at as int, at + pat@.len());
                assert(sub[i as int] == cs@[at + i]);
            }
            return false;
        }
        i = i + 1;
    }
    assert(cs@.subrange(at as int, at + pat@.len()) =~= pat@);
    true
}

/// The first index at which `pat` occurs in `cs`, from `from` on.
pub fn find_text(cs: &[char], pat: &[char], from: usize) -> (r: Option<usize>)
    requires
        from <= cs@.len(),
    ensures
        match r {
            Some(i) => from <= i <= cs@.len() && occurs_at(cs@, pat@, i as int) && forall|k: int|
                from <= k < i ==> !#[trigger] occurs_at(cs@, pat@, k),
            None => forall|k: int| from <= k ==> !#[trigger] occurs_at(cs@, pat@, k),
        },
{
    let mut i: usize = from;
    loop
        invariant
            from <= i <= cs@.len(),
            forall|k: int| from <= k < i ==> !#[trigger] occurs_at(cs@, pat@, k),
        decreases cs@.len() - i,
    {
        if match_at(cs, pat, i) {
            return Some(i);
        }
        if i == cs.len() {
            return None;
        }
        i = i + 1;
    }
}

/// Whether `pat` occurs somewhere in `s`.
pub fn contains_text(s: &str, pat: &str) -> (r: bool)
    ensures
        r == occurs(s@, pat@),
{
    let cs = to_chars(s);
    let ps = to_chars(pat);
    find_text(cs.as_slice(), ps.as_slice(), 0).is_some()
}

/// Whether `s` starts with `pat`.
pub open spec fn starts(s: Seq<char>, pat: Seq<char>) -> bool {
    occurs_at(s, pat, 0)
}

/// Whether `s` ends with `pat`.
pub open spec fn ends(s: Seq<char>, pat: Seq<char>) -> bool {
    occurs_at(s, pat, s.len() - pat.len())
}

/// Whether `s` starts with `pat`.
pub fn starts_with(s: &str, pat: &str) -> (r: bool)
    ensures
        r == starts(s@, pat@),
{
    let cs = to_chars(s);
    let ps = to_chars(pat);
    match_at(cs.as_slice(), ps.as_slice(), 0)
}

/// Whether `s` ends with `pat`.
pub fn ends_with(s: &str, pat: &str) -> (r: bool)
    ensures
        r == ends(s@, pat@),
{
    let cs = to_chars(s);
    let ps = to_chars(pat);
    if ps.len() > cs.len() {
        return false;
    }
    match_at(cs.as_slice(), ps.as_slice(), cs.len() - ps.len())
}

/// `s` without the prefix `pat`, where it has it.
pub open spec fn without_prefix(s: Seq<char>, pat: Seq<char>) -> Option<Seq<char>> {
    if starts(s, pat) {
        Some(s.skip(pat.len() as int))
    } else {
        None
    }
}

/// `s` without the prefix `pat`, where it has it.
pub fn strip_prefix(s: &str, pat: &str) -> (r: Option<String>)
    ensures
        opt(r) == without_prefix(s@, pat@),
{
    let cs = to_chars(s);
    let ps = to_chars(pat);
    if match_at(cs.as_slice(), ps.as_slice(), 0) {
        assert(cs@.subrange(ps@.len() as int, cs@.len() as int) =~= cs@.skip(ps@.len() as int));
        Some(range_text(cs.as_slice(), ps.len(), cs.len()))
    } else {
        None
    }
}

/// The texts of a list one after the other, with `sep` between any two.
pub open spec fn joined(v: Seq<Seq<char>>, sep: Seq<char>) -> Seq<char>
    decreases v.len(),
{
    if v.len() == 0 {
        Seq::empty()
    } else if v.len() == 1 {
        v[0]
    } else {
        joined(v.drop_last(), sep) + sep + v.last()
    }
}

/// The texts of a list one after the other, with `sep` between any two.
pub fn join(v: &Vec<String>, sep: &str) -> (r: String)
    ensures
        r@ == joined(texts(v@), sep@),
{
    let ghost all = texts(v@);
    let mut out = String::new();
    let mut i: usize = 0;
    while i < v.len()
        invariant
            i <= v.len(),
            all == texts(v@),
            out@ == joined(all.take(i as int), sep@),
        decreases v.len() - i,
    {
        if i > 0 {
            out.append(sep);
        }
        out.append(v[i].as_str());
        proof {
            assert(all.take(i + 1).drop_last() =~= all.take(i as int));
            assert(out@ =~= joined(all.take(i + 1), sep@));
        }
        i = i + 1;
    }
    assert(all.take(all.len() as int) =~= all);
    out
}

/// The position of the last `c` in `s`; `-1` where there is none.
pub open spec fn last_position(s: Seq<char>, c: char) -> int
    decreases s.len(),
{
    if s.len() == 0 {
        -1
    } else if s.last() == c {
        s.len() - 1
    } else {
        last_position(s.drop_last(), c)
    }
}

/// `last_position` is the greatest index that holds the character.
pub proof fn lemma_last_position(s: Seq<char>, c: char, k: int)
    requires
        -1 <= k < s.len(),
        forall|i: int| k < i < s.len() ==> #[trigger] s[i] != c,
        k == -1 || s[k] == c,
    ensures
        last_position(s, c) == k,
    decreases s.len(),
{
    if s.len() > 0 && k < s.len() - 1 {
        let t = s.drop_last();
        assert(s[s.len() - 1] != c);
        assert forall|i: int| k < i < t.len() implies #[trigger] t[i] != c by {
            assert(t[i] == s[i]);
        }
        lemma_last_position(t, c, k);
    }
}

/// The position of the last `c` in `cs`.
pub fn rfind_char(cs: &[char], c: char) -> (r: Option<usize>)
    ensures
        match r {
            Some(i) => i == last_position(cs@, c) && i < cs@.len(),
            None => last_position(cs@, c) == -1,
        },
{
    let mut i: usize = cs.len();
    assert(cs@.take(i as int) =~= cs@);
    while i > 0
        invariant
            i <= cs@.len(),
            last_position(cs@, c) == last_position(cs@.take(i as int), c),
        decreases i,
    {
        assert(cs@.take(i as int).last() == cs@[i - 1]);
        if cs[i - 1] == c {
            return Some(i - 1);
        }
        assert(cs@.take(i as int).drop_last() =~= cs@.take(i - 1));
        i = i - 1;
    }
    None
}

/// Where the last `pat` in `s` starts; `-1` where there is none.
pub open spec fn last_place(s: Seq<char>, pat: Seq<char>) -> int {
    if occurs(s, pat) {
        choose|i: int| occurs_at(s, pat, i) && forall|k: int| k > i ==> !#[trigger] occurs_at(s, pat, k)
    } else {
        -1
    }
}

/// What follows the last `pat` in `s`; all of `s` where there is none.
pub open spec fn after_last(s: Seq<char>, pat: Seq<char>) -> Seq<char> {
    if occurs(s, pat) {
        s.skip(last_place(s, pat) + pat.len())
    } else {
        s
    }
}

/// The last index at which `pat` occurs in `cs`.
pub fn rfind_text(cs: &[char], pat: &[char]) -> (r: Option<usize>)
    ensures
        match r {
            Some(i) => i == last_place(cs@, pat@) && occurs_at(cs@, pat@, i as int) && occurs(
                cs@,
                pat@,
            ),
            None => !occurs(cs@, pat@),
        },
{
    let mut i: usize = cs.len();
    loop
        invariant
            i <= cs@.len(),
            forall|k: int| k > i ==> !#[trigger] occurs_at(cs@, pat@, k),
        decreases i,
    {
        if match_at(cs, pat, i) {
            proof {
                assert(occurs_at(cs@, pat@, i as int));
                let j = last_place(cs@, pat@);
                assert(occurs_at(cs@, pat@, j) && forall|k: int|
                    k > j ==> !#[trigger] occurs_at(cs@, pat@, k));
                assert(j == i);
            }
            return Some(i);
        }
        if i == 0 {
            proof {
                assert forall|k: int| !#[trigger] occurs_at(cs@, pat@, k) by {
                    if k == 0 {
                    }
                }
            }
            return None;
        }
        i = i - 1;
    }
}

/// Behind a `pat` whose last character does not come again stands what
/// `after_last` gives.
pub proof fn lemma_after_last(head: Seq<char>, pat: Seq<char>, tail: Seq<char>)
    requires
        pat.len() > 0,
        !tail.contains(pat.last()),
    ensures
        after_last(head + pat + tail, pat) == tail,
{
    let s = head + pat + tail;
    let at = head.len() as int;
    assert(occurs_at(s, pat, at)) by {
        assert(s.subrange(at, at + pat.len()) =~= pat);
    }
    assert forall|k: int| k > at implies !#[trigger] occurs_at(s, pat, k) by {
        if occurs_at(s, pat, k) {
            assert(s.subrange(k, k + pat.len())[pat.len() - 1] == s[k + pat.len() - 1]);
            assert(s[k + pat.len() - 1] == tail[k - at - 1]);
            assert(tail.contains(tail[k - at - 1]));
        }
    }
    assert(s.skip(at + pat.len()) =~= tail);
    lemma_last_place(s, pat, at);
}

/// `last_place` is the greatest index at which the text occurs.
pub proof fn lemma_last_place(s: Seq<char>, pat: Seq<char>, at: int)
    requires
        occurs_at(s, pat, at),
        forall|k: int| k > at ==> !#[trigger] occurs_at(s, pat, k),
    ensures
        occurs(s, pat),
        last_place(s, pat) == at,
{
    let j = last_place(s, pat);
    assert(occurs_at(s, pat, j) && forall|k: int| k > j ==> !#[trigger] occurs_at(s, pat, k));
    assert(j == at);
}

/// What follows the last `pat` in `s`; all of `s` where there is none.
pub fn tail_after_last(s: &str, pat: &str) -> (r: String)
    ensures
        r@ == after_last(s@, pat@),
{
    let cs = to_chars(s);
    let ps = to_chars(pat);
    let n: usize = cs.len();
    match rfind_text(cs.as_slice(), ps.as_slice()) {
        Some(i) => {
            let start: usize = i + ps.len();
            assert(cs@.subrange(start as int, n as int) =~= s@.skip(start as int));
            range_text(cs.as_slice(), start, n)
        },
        None => s.to_owned(),
    }
}

// ---------------------------------------------------------------------------
// Words

/// How many characters precede the first whitespace of `s`.
pub open spec fn word_len(s: Seq<char>) -> int
    decreases s.len(),
{
    if s.len() == 0 || is_space(s[0]) {
        0
    } else {
        1 + word_len(s.skip(1))
    }
}

/// The words of `s`: the longest runs without whitespace.
pub open spec fn words_of(s: Seq<char>) -> Seq<Seq<char>>
    decreases s.len(),
{
    if s.len() == 0 {
        Seq::empty()
    } else if is_space(s[0]) {
        words_of(s.skip(1))
    } else {
        let k = word_len(s);
        if 0 < k <= s.len() {
            seq![s.take(k)] + words_of(s.skip(k))
        } else {
            Seq::empty()
        }
    }
}

/// `word_len` is the least index that holds whitespace.
pub proof fn lemma_word_len(s: Seq<char>, k: int)
    requires
        0 <= k <= s.len(),
        forall|i: int| 0 <= i < k ==> !is_space(#[trigger] s[i]),
        k == s.len() || is_space(s[k]),
    ensures
        word_len(s) == k,
    decreases k,
{
    if k > 0 {
        let t = s.skip(1);
        assert(!is_space(s[0]));
        assert forall|i: int| 0 <= i < k - 1 implies !is_space(#[trigger] t[i]) by {
            assert(t[i] == s[i + 1]);
        }
        if k < s.len() {
            assert(t[k - 1] == s[k]);
        }
        lemma_word_len(t, k - 1);
    }
}

/// The words of `s`.
pub fn words(s: &str) -> (r: Vec<String>)
    ensures
        texts(r@) == words_of(s@),
{
    let cs = to_chars(s);
    let n: usize = cs.len();
    let mut out: Vec<String> = Vec::new();
    let mut i: usize = 0;
    proof {
        assert(s@.skip(0) =~= s@);
        assert(texts(out@) + words_of(s@) =~= words_of(s@));
    }
    while i < n
        invariant
            i <= n == cs@.len(),
            cs@ == s@,
            texts(out@) + words_of(s@.skip(i as int)) == words_of(s@),
        decreases n - i,
    {
        let ghost rest = s@.skip(i as int);
        if space(cs[i]) {
            assert(rest.skip(1) =~= s@.skip(i + 1));
            i = i + 1;
        } else {
            let start: usize = i;
            while i < n && !space(cs[i])
                invariant
                    start <= i <= n == cs@.len(),
                    forall|k: int| start <= k < i ==> !is_space(#[trigger] cs@[k]),
                decreases n - i,
            {
                i = i + 1;
            }
            let word = range_text(cs.as_slice(), start, i);
            let ghost before = texts(out@);
            out.push(word);
            proof {
                assert forall|k: int| 0 <= k < i - start implies !is_space(#[trigger] rest[k]) by {
                    assert(rest[k] == cs@[start + k]);
                }
                lemma_word_len(rest, i - start);
                assert(word@ =~= rest.take(i - start));
                assert(rest.skip(i - start) =~= s@.skip(i as int));
                assert(texts(out@) =~= before.push(word@));
                assert(before.push(word@) + words_of(s@.skip(i as int)) =~= before + (seq![word@]
                    + words_of(s@.skip(i as int))));
            }
        }
    }
    assert(s@.skip(n as int) =~= Seq::empty());
    assert(texts(out@) + words_of(s@.skip(n as int)) =~= texts(out@));
    out
}

/// The words of `s` with one blank between any two.
pub open spec fn single_spaced(s: Seq<char>) -> Seq<char> {
    joined(words_of(s), " "@)
}

/// Whether the only whitespace in `s` is single blanks between other characters.
pub open spec fn well_spaced(s: Seq<char>) -> bool {
    forall|i: int|
        0 <= i < s.len() && is_space(#[trigger] s[i]) ==> s[i] == ' ' && 0 < i < s.len() - 1
            && !is_space(s[i + 1])
}

/// Whether a text is a word: not empty, and without whitespace.
pub open spec fn is_word(w: Seq<char>) -> bool {
    w.len() > 0 && forall|i: int| 0 <= i < w.len() ==> !is_space(#[trigger] w[i])
}

proof fn lemma_word_len_is_one(s: Seq<char>)
    ensures
        0 <= word_len(s) <= s.len(),
        forall|i: int| 0 <= i < word_len(s) ==> !is_space(#[trigger] s[i]),
        word_len(s) < s.len() ==> is_space(s[word_len(s)]),
    decreases s.len(),
{
    if s.len() > 0 && !is_space(s[0]) {
        let t = s.skip(1);
        lemma_word_len_is_one(t);
        assert forall|i: int| 0 <= i < word_len(s) implies !is_space(#[trigger] s[i]) by {
            if i > 0 {
                assert(t[i - 1] == s[i]);
            }
        }
        if word_len(s) < s.len() {
            assert(t[word_len(t)] == s[word_len(s)]);
        }
    }
}

/// The words of a text are words, the first starts where the text does, and the
/// last ends where the text does.
pub proof fn lemma_words(s: Seq<char>)
    ensures
        forall|i: int| 0 <= i < words_of(s).len() ==> is_word(#[trigger] words_of(s)[i]),
        s.len() > 0 && !is_space(s[0]) ==> words_of(s).len() > 0 && words_of(s)[0][0] == s[0],
        s.len() > 0 && !is_space(s.last()) ==> words_of(s).len() > 0 && words_of(s).last().last()
            == s.last(),
    decreases s.len(),
{
    if s.len() > 0 {
        if is_space(s[0]) {
            lemma_words(s.skip(1));
            if !is_space(s.last()) {
                assert(s.skip(1).last() == s.last());
            }
        } else {
            lemma_word_len_is_one(s);
            let k = word_len(s);
            let w = s.take(k);
            let rest = words_of(s.skip(k));
            lemma_words(s.skip(k));
            let all = words_of(s);
            assert(all == seq![w] + rest);
            assert(is_word(w)) by {
                assert forall|i: int| 0 <= i < w.len() implies !is_space(#[trigger] w[i]) by {
                    assert(w[i] == s[i]);
                }
            }
            assert forall|i: int| 0 <= i < all.len() implies is_word(#[trigger] all[i]) by {
                if i > 0 {
                    assert(all[i] == rest[i - 1]);
                }
            }
            if !is_space(s.last()) {
                if k == s.len() {
                    assert(s.skip(k) =~= Seq::empty());
                    assert(all =~= seq![w]);
                } else {
                    assert(s.skip(k).last() == s.last());
                    assert(all.last() == rest.last());
                }
            }
        }
    }
}

/// Words with a blank between any two are well spaced, and start and end as the
/// first and the last of them do.
pub proof fn lemma_joined_words(v: Seq<Seq<char>>)
    requires
        forall|i: int| 0 <= i < v.len() ==> is_word(#[trigger] v[i]),
    ensures
        well_spaced(joined(v, " "@)),
        v.len() > 0 ==> joined(v, " "@).len() > 0 && joined(v, " "@)[0] == v[0][0] && joined(
            v,
            " "@,
        ).last() == v.last().last(),
        joined(v, " "@).len() > 0 ==> v.len() > 0,
    decreases v.len(),
{
    reveal_strlit(" ");
    let r = joined(v, " "@);
    if v.len() == 1 {
        assert(is_word(v[0]));
    } else if v.len() > 1 {
        let head = v.drop_last();
        let a = joined(head, " "@);
        let w = v.last();
        assert forall|i: int| 0 <= i < head.len() implies is_word(#[trigger] head[i]) by {
            assert(head[i] == v[i]);
        }
        lemma_joined_words(head);
        assert(is_word(v[v.len() - 1]));
        assert(is_word(head[head.len() - 1]));
        assert(r == a + " "@ + w);
        assert(head[0] == v[0]);
        assert forall|i: int| 0 <= i < r.len() && is_space(#[trigger] r[i]) implies r[i] == ' ' && 0
            < i < r.len() - 1 && !is_space(r[i + 1]) by {
            if i < a.len() {
                assert(r[i] == a[i]);
                assert(r[i + 1] == a[i + 1]);
            } else if i == a.len() {
                assert(r[i] == ' ');
                assert(r[i + 1] == w[0]);
            } else {
                assert(r[i] == w[i - a.len() - 1]);
            }
        }
        assert(r.last() == w.last());
        assert(r[0] == a[0]);
    }
}

proof fn lemma_joined_first(w: Seq<char>, v: Seq<Seq<char>>, sep: Seq<char>)
    requires
        v.len() > 0,
    ensures
        joined(seq![w] + v, sep) == w + sep + joined(v, sep),
    decreases v.len(),
{
    let all = seq![w] + v;
    assert(all.last() == v.last());
    if v.len() == 1 {
        assert(all.drop_last() =~= seq![w]);
        assert(joined(all.drop_last(), sep) == w);
    } else {
        assert(all.drop_last() =~= seq![w] + v.drop_last());
        lemma_joined_first(w, v.drop_last(), sep);
    }
    assert(joined(all, sep) =~= w + sep + joined(v, sep));
}

/// Nothing is changed of a text that is well spaced.
pub proof fn lemma_well_spaced_stays(s: Seq<char>)
    requires
        well_spaced(s),
    ensures
        single_spaced(s) == s,
    decreases s.len(),
{
    reveal_strlit(" ");
    reveal_with_fuel(words_of, 2);
    if s.len() == 0 {
        assert(s =~= Seq::empty());
    } else {
        assert(!is_space(s[0]));
        lemma_word_len_is_one(s);
        let k = word_len(s);
        let w = s.take(k);
        if k == s.len() {
            assert(s.skip(k) =~= Seq::empty());
            assert(words_of(s) =~= seq![s]) by {
                assert(w =~= s);
            }
        } else {
            let rest = s.skip(k + 1);
            assert(s.skip(k).skip(1) =~= rest);
            assert(s.skip(k)[0] == s[k]);
            assert(words_of(s) == seq![w] + words_of(rest));
            assert forall|i: int| 0 <= i < rest.len() && is_space(#[trigger] rest[i]) implies rest[i]
                == ' ' && 0 < i < rest.len() - 1 && !is_space(rest[i + 1]) by {
                assert(rest[i] == s[i + k + 1]);
                if i == 0 {
                    assert(!is_space(s[k + 1]));
                }
            }
            lemma_well_spaced_stays(rest);
            assert(rest.len() > 0);
            assert(rest[0] == s[k + 1]);
            lemma_words(rest);
            lemma_joined_first(w, words_of(rest), " "@);
            assert(s =~= w + " "@ + rest);
        }
    }
}

proof fn lemma_trim_start_within(s: Seq<char>, p: spec_fn(char) -> bool)
    ensures
        forall|i: int|
            0 <= i < trim_start_by(s, p).len() ==> s.contains(#[trigger] trim_start_by(s, p)[i]),
    decreases s.len(),
{
    if s.len() > 0 && p(s[0]) {
        lemma_trim_start_within(s.skip(1), p);
        let t = trim_start_by(s, p);
        assert forall|i: int| 0 <= i < t.len() implies s.contains(#[trigger] t[i]) by {
            assert(s.skip(1).contains(trim_start_by(s.skip(1), p)[i]));
            let k = choose|k: int| 0 <= k < s.skip(1).len() && s.skip(1)[k] == t[i];
            assert(s[k + 1] == t[i]);
        }
    }
}

proof fn lemma_trim_end_within(s: Seq<char>, p: spec_fn(char) -> bool)
    ensures
        forall|i: int|
            0 <= i < trim_end_by(s, p).len() ==> s.contains(#[trigger] trim_end_by(s, p)[i]),
    decreases s.len(),
{
    if s.len() > 0 && p(s.last()) {
        lemma_trim_end_within(s.drop_last(), p);
        let t = trim_end_by(s, p);
        assert forall|i: int| 0 <= i < t.len() implies s.contains(#[trigger] t[i]) by {
            assert(s.drop_last().contains(trim_end_by(s.drop_last(), p)[i]));
            let k = choose|k: int| 0 <= k < s.drop_last().len() && s.drop_last()[k] == t[i];
            assert(s[k] == t[i]);
        }
    }
}

/// A trimmed text is a part of the text.
pub proof fn lemma_trim_is_part(s: Seq<char>, p: spec_fn(char) -> bool) -> (r: (int, int))
    ensures
        0 <= r.0 <= r.1 <= s.len(),
        trim_by(s, p) == s.subrange(r.0, r.1),
    decreases s.len(),
{
    if s.len() > 0 && p(s[0]) {
        let (a, b) = lemma_trim_is_part(s.skip(1), p);
        assert(s.subrange(a + 1, b + 1) =~= s.skip(1).subrange(a, b));
        (a + 1, b + 1)
    } else if s.len() > 0 && p(s.last()) {
        let t = s.drop_last();
        let (a, b) = lemma_trim_is_part(t, p);
        assert(t[0] == s[0]);
        assert(trim_start_by(t, p) == t);
        assert(s.subrange(a, b) =~= t.subrange(a, b));
        (a, b)
    } else {
        assert(s.subrange(0, s.len() as int) =~= s);
        (0, s.len() as int)
    }
}

/// A trimmed text holds nothing that the text does not hold.
pub proof fn lemma_trim_within(s: Seq<char>, p: spec_fn(char) -> bool)
    ensures
        forall|i: int| 0 <= i < trim_by(s, p).len() ==> s.contains(#[trigger] trim_by(s, p)[i]),
{
    let a = trim_start_by(s, p);
    let t = trim_by(s, p);
    lemma_trim_start_within(s, p);
    lemma_trim_end_within(a, p);
    assert forall|i: int| 0 <= i < t.len() implies s.contains(#[trigger] t[i]) by {
        let k = choose|k: int| 0 <= k < a.len() && a[k] == t[i];
        assert(s.contains(a[k]));
    }
}

// ---------------------------------------------------------------------------
// Laws

/// Blanks, tabs and line ends are whitespace, and so are the wide blank and the
/// other spaces of Unicode; no visible ASCII character is.
pub proof fn law_whitespace(c: char)
    ensures
        is_space(' ') && is_space('\t') && is_space('\n') && is_space('\r') && is_space('\u{0B}')
            && is_space('\u{0C}'),
        is_space('\u{85}') && is_space('\u{A0}') && is_space('\u{1680}') && is_space('\u{2028}')
            && is_space('\u{2029}') && is_space('\u{202F}') && is_space('\u{205F}') && is_space(
            '\u{3000}',
        ),
        '\u{2000}' <= c <= '\u{200A}' ==> is_space(c),
        '!' <= c <= '~' ==> !is_space(c),
        '\u{4E00}' <= c <= '\u{9FFF}' ==> !is_space(c),
        c < '\t' ==> !is_space(c),
{
}

/// Whitespace around a text is cut, and whitespace within it is kept.
pub proof fn law_trim(a: Seq<char>, core: Seq<char>, b: Seq<char>)
    requires
        forall|i: int| 0 <= i < a.len() ==> is_space(#[trigger] a[i]),
        forall|i: int| 0 <= i < b.len() ==> is_space(#[trigger] b[i]),
        core.len() > 0 && !is_space(core[0]) && !is_space(core.last()),
    ensures
        trim(a + core + b) == core,
        trim(a).len() == 0,
        !blank(a + core + b),
{
    let s = a + core + b;
    let p = |c: char| is_space(c);
    let n = a.len() as int;
    let m = n + core.len();
    assert(s[n] == core[0] && s[m - 1] == core.last());
    assert forall|i: int| 0 <= i < n implies p(#[trigger] s[i]) by {
        assert(s[i] == a[i]);
    }
    assert forall|i: int| m <= i < s.len() implies p(#[trigger] s[i]) by {
        assert(s[i] == b[i - m]);
    }
    lemma_trim_bounds(s, p, n, m);
    assert(s.subrange(n, m) =~= core);
    lemma_trim_bounds(a, p, n, n);
}

/// Only the twenty-six capital letters of ASCII have a lower case here.
pub proof fn law_lower(s: Seq<char>, i: int)
    requires
        0 <= i < s.len(),
    ensures
        lower(s).len() == s.len(),
        'A' <= s[i] <= 'Z' ==> lower(s)[i] as int == s[i] as int + 32,
        !('A' <= s[i] <= 'Z') ==> lower(s)[i] == s[i],
{
}

/// Splitting gives the pieces between the separators, however many there are,
/// and a text without a separator whole.
pub proof fn law_split(a: Seq<char>, b: Seq<char>, c: char)
    requires
        !b.contains(c),
    ensures
        split(b, c) == seq![b],
        split(a.push(c) + b, c) == split(a, c).push(b),
{
    assert forall|i: int| 0 <= i < b.len() implies #[trigger] b[i] != c by {
        assert(b.contains(b[i]));
    }
    lemma_position(b, c, b.len() as int);
    assert(a.push(c) + b =~= a + seq![c] + b);
    lemma_split_push(a, b, c);
}

} // verus!
