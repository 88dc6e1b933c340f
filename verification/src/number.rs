//! Decimal numbers in text: reading them as Rust's integer parsers do and
//! writing them as its formatter does.

use vstd::prelude::*;

use crate::text::to_chars;

verus! {

/// An ASCII decimal digit.
pub open spec fn is_digit(c: char) -> bool {
    '0' <= c <= '9'
}

/// Whether `s` holds nothing but ASCII digits.
pub open spec fn all_digits(s: Seq<char>) -> bool {
    forall|i: int| 0 <= i < s.len() ==> is_digit(#[trigger] s[i])
}

/// The number that a string of digits denotes.
pub open spec fn digits_value(s: Seq<char>) -> int
    decreases s.len(),
{
    if s.len() == 0 {
        0
    } else {
        digits_value(s.drop_last()) * 10 + (s.last() as int - '0' as int)
    }
}

/// The number that `s` denotes: one digit or more.
pub open spec fn nat_of(s: Seq<char>) -> Option<int> {
    if s.len() > 0 && all_digits(s) {
        Some(digits_value(s))
    } else {
        None
    }
}

/// The number that `s` denotes: an optional sign, then one digit or more.
pub open spec fn int_of(s: Seq<char>) -> Option<int> {
    if s.len() > 0 && s[0] == '-' {
        match nat_of(s.skip(1)) {
            Some(n) => Some(-n),
            None => None,
        }
    } else if s.len() > 0 && s[0] == '+' {
        nat_of(s.skip(1))
    } else {
        nat_of(s)
    }
}

/// `s` read as an `i64`.
pub open spec fn i64_of(s: Seq<char>) -> Option<i64> {
    match int_of(s) {
        Some(n) => if i64::MIN <= n <= i64::MAX {
            Some(n as i64)
        } else {
            None
        },
        None => None,
    }
}

/// `s` read as an `i32`.
pub open spec fn i32_of(s: Seq<char>) -> Option<i32> {
    match int_of(s) {
        Some(n) => if i32::MIN <= n <= i32::MAX {
            Some(n as i32)
        } else {
            None
        },
        None => None,
    }
}

/// `s` read as a `u64`: a plus sign is accepted, a minus sign is not.
pub open spec fn u64_of(s: Seq<char>) -> Option<u64> {
    match if s.len() > 0 && s[0] == '+' {
        nat_of(s.skip(1))
    } else {
        nat_of(s)
    } {
        Some(n) => if n <= u64::MAX {
            Some(n as u64)
        } else {
            None
        },
        None => None,
    }
}

/// `s` read as a `u32`: a plus sign is accepted, a minus sign is not.
pub open spec fn u32_of(s: Seq<char>) -> Option<u32> {
    match u64_of(s) {
        Some(n) => if n <= u32::MAX {
            Some(n as u32)
        } else {
            None
        },
        None => None,
    }
}

/// The quotient rounded towards zero, for a positive divisor.
pub open spec fn trunc_div(a: int, b: int) -> int {
    if a >= 0 {
        a / b
    } else {
        -((-a) / b)
    }
}

/// The digit character of a number below ten.
pub open spec fn digit_char(d: int) -> char {
    (d + '0' as int) as char
}

/// The decimal digits of `n`, without leading zeros.
pub open spec fn nat_text(n: nat) -> Seq<char>
    decreases n,
{
    if n < 10 {
        seq![digit_char(n as int)]
    } else {
        nat_text(n / 10).push(digit_char((n % 10) as int))
    }
}

/// The decimal form of `n`, with a minus sign where it is negative.
pub open spec fn int_text(n: int) -> Seq<char> {
    if n < 0 {
        seq!['-'] + nat_text((-n) as nat)
    } else {
        nat_text(n as nat)
    }
}

proof fn lemma_digits_grow(s: Seq<char>, k: int)
    requires
        all_digits(s),
        0 <= k <= s.len(),
    ensures
        0 <= digits_value(s.take(k)) <= digits_value(s),
    decreases s.len(),
{
    if s.len() == 0 {
        assert(s.take(k) =~= s);
    } else {
        let t = s.drop_last();
        assert(is_digit(s[s.len() - 1]));
        assert(all_digits(t)) by {
            assert forall|i: int| 0 <= i < t.len() implies is_digit(#[trigger] t[i]) by {
                assert(t[i] == s[i]);
            }
        }
        if k == s.len() {
            assert(s.take(k) =~= s);
            lemma_digits_grow(t, t.len() as int);
            assert(t.take(t.len() as int) =~= t);
        } else {
            lemma_digits_grow(t, k);
            assert(t.take(k) =~= s.take(k));
        }
    }
}

/// The decimal form of a number is a non-empty string of digits that denotes it.
pub proof fn lemma_nat_text(n: nat)
    ensures
        nat_text(n).len() > 0,
        all_digits(nat_text(n)),
        digits_value(nat_text(n)) == n,
        nat_of(nat_text(n)) == Some(n as int),
    decreases n,
{
    reveal_with_fuel(digits_value, 3);
    if n < 10 {
        let s = nat_text(n);
        assert(s.drop_last() =~= Seq::<char>::empty());
    } else {
        lemma_nat_text(n / 10);
        let t = nat_text(n / 10);
        let s = nat_text(n);
        assert(s.drop_last() =~= t);
        assert(all_digits(s)) by {
            assert forall|i: int| 0 <= i < s.len() implies is_digit(#[trigger] s[i]) by {
                if i < t.len() {
                    assert(s[i] == t[i]);
                }
            }
        }
    }
}

/// Reading back the decimal form of a number gives the number.
pub proof fn lemma_int_text(n: int)
    ensures
        int_text(n).len() > 0,
        int_of(int_text(n)) == Some(n),
        i64::MIN <= n <= i64::MAX ==> i64_of(int_text(n)) == Some(n as i64),
{
    if n < 0 {
        let t = nat_text((-n) as nat);
        lemma_nat_text((-n) as nat);
        assert(int_text(n).skip(1) =~= t);
    } else {
        let t = nat_text(n as nat);
        lemma_nat_text(n as nat);
        assert(is_digit(t[0]));
    }
}

/// Whether `c` is an ASCII decimal digit.
pub fn digit(c: char) -> (r: bool)
    ensures
        r == is_digit(c),
{
    '0' <= c && c <= '9'
}

/// The number that `cs[from..to]` denotes, where it fits in a `u64`.
pub fn read_nat(cs: &[char], from: usize, to: usize) -> (r: Option<u64>)
    requires
        from <= to <= cs@.len(),
    ensures
        match nat_of(cs@.subrange(from as int, to as int)) {
            Some(n) => 0 <= n && if n <= u64::MAX {
                r == Some(n as u64)
            } else {
                r is None
            },
            None => r is None,
        },
{
    let ghost s = cs@.subrange(from as int, to as int);
    if from == to {
        return None;
    }
    let mut k: usize = from;
    while k < to
        invariant
            from <= k <= to <= cs@.len(),
            s == cs@.subrange(from as int, to as int),
            forall|i: int| 0 <= i < k - from ==> is_digit(#[trigger] s[i]),
        decreases to - k,
    {
        if !digit(cs[k]) {
            assert(!is_digit(s[k - from]));
            return None;
        }
        k = k + 1;
    }
    let mut v: u64 = 0;
    let mut i: usize = from;
    assert(s.take(0) =~= Seq::<char>::empty());
    while i < to
        invariant
            from <= i <= to <= cs@.len(),
            s == cs@.subrange(from as int, to as int),
            from < to,
            all_digits(s),
            v == digits_value(s.take(i - from)),
        decreases to - i,
    {
        assert(is_digit(s[i - from]));
        let d: u64 = cs[i] as u64 - '0' as u64;
        proof {
            assert(s.take(i - from + 1).drop_last() =~= s.take(i - from));
            assert(digits_value(s.take(i - from + 1)) == v * 10 + d);
            lemma_digits_grow(s, i - from + 1);
            lemma_digits_grow(s, i - from);
        }
        if v > u64::MAX / 10 || v * 10 > u64::MAX - d {
            return None;
        }
        v = v * 10 + d;
        i = i + 1;
    }
    assert(s.take(s.len() as int) =~= s);
    Some(v)
}

/// `cs[from..to]` read as an `i64`.
pub fn read_i64(cs: &[char], from: usize, to: usize) -> (r: Option<i64>)
    requires
        from <= to <= cs@.len(),
    ensures
        r == i64_of(cs@.subrange(from as int, to as int)),
{
    let ghost s = cs@.subrange(from as int, to as int);
    if from < to && cs[from] == '-' {
        assert(s.skip(1) =~= cs@.subrange(from + 1, to as int));
        match read_nat(cs, from + 1, to) {
            Some(m) => {
                if m < 0x8000_0000_0000_0000 {
                    Some(-(m as i64))
                } else if m == 0x8000_0000_0000_0000 {
                    Some(i64::MIN)
                } else {
                    None
                }
            },
            None => None,
        }
    } else {
        let start: usize = if from < to && cs[from] == '+' {
            from + 1
        } else {
            from
        };
        assert(start > from ==> s.skip(1) =~= cs@.subrange(start as int, to as int));
        match read_nat(cs, start, to) {
            Some(m) => if m < 0x8000_0000_0000_0000 {
                Some(m as i64)
            } else {
                None
            },
            None => None,
        }
    }
}

/// `s` read as an `i64`.
pub fn parse_i64(s: &str) -> (r: Option<i64>)
    ensures
        r == i64_of(s@),
{
    let cs = to_chars(s);
    assert(cs@.subrange(0, cs@.len() as int) =~= cs@);
    read_i64(cs.as_slice(), 0, cs.len())
}

/// `s` read as an `i32`.
pub fn parse_i32(s: &str) -> (r: Option<i32>)
    ensures
        r == i32_of(s@),
{
    match parse_i64(s) {
        Some(n) => if -0x8000_0000 <= n && n <= 0x7fff_ffff {
            Some(n as i32)
        } else {
            None
        },
        None => None,
    }
}

/// `s` read as a `u64`.
pub fn parse_u64(s: &str) -> (r: Option<u64>)
    ensures
        r == u64_of(s@),
{
    let cs = to_chars(s);
    assert(cs@.subrange(0, cs@.len() as int) =~= cs@);
    if cs.len() > 0 && cs[0] == '+' {
        assert(cs@.skip(1) =~= cs@.subrange(1, cs@.len() as int));
        read_nat(cs.as_slice(), 1, cs.len())
    } else {
        read_nat(cs.as_slice(), 0, cs.len())
    }
}

/// `s` read as a `u32`.
pub fn parse_u32(s: &str) -> (r: Option<u32>)
    ensures
        r == u32_of(s@),
{
    match parse_u64(s) {
        Some(n) => if n <= 0xffff_ffff {
            Some(n as u32)
        } else {
            None
        },
        None => None,
    }
}

/// Appends the decimal form of `n` to `out`.
pub fn push_u64(out: &mut String, n: u64)
    ensures
        final(out)@ == old(out)@ + nat_text(n as nat),
    decreases n,
{
    if n >= 10 {
        push_u64(out, n / 10);
    }
    let d: u8 = (n % 10) as u8;
    let c: char = (48u8 + d) as char;
    out.push(c);
    assert(c == digit_char((n % 10) as int));
    assert(out@ =~= old(out)@ + nat_text(n as nat));
}

/// Appends the decimal form of `n` to `out`.
pub fn push_i64(out: &mut String, n: i64)
    ensures
        final(out)@ == old(out)@ + int_text(n as int),
{
    if n < 0 {
        out.push('-');
        let m: u64 = if n == i64::MIN {
            0x8000_0000_0000_0000
        } else {
            (-n) as u64
        };
        push_u64(out, m);
        assert(out@ =~= old(out)@ + int_text(n as int));
    } else {
        push_u64(out, n as u64);
    }
}

/// The decimal form of `n`.
pub fn i64_text(n: i64) -> (r: String)
    ensures
        r@ == int_text(n as int),
{
    let mut s = String::new();
    push_i64(&mut s, n);
    assert(s@ =~= int_text(n as int));
    s
}

/// The decimal form of `n`.
pub fn u64_text(n: u64) -> (r: String)
    ensures
        r@ == nat_text(n as nat),
{
    let mut s = String::new();
    push_u64(&mut s, n);
    assert(s@ =~= nat_text(n as nat));
    s
}

/// The decimal form of a number reads as that number, with a plus sign too; a
/// minus sign is read only where the number may be negative; anything but digits
/// is no number.
pub proof fn law_numbers_read(n: nat)
    ensures
        n <= u64::MAX ==> u64_of(nat_text(n)) == Some(n as u64),
        n > u64::MAX ==> u64_of(nat_text(n)) is None,
        n <= u64::MAX ==> u64_of(seq!['+'] + nat_text(n)) == Some(n as u64),
        u64_of(seq!['-'] + nat_text(n)) is None,
        n <= i64::MAX ==> i64_of(nat_text(n)) == Some(n as i64) && i64_of(seq!['+'] + nat_text(n))
            == Some(n as i64) && i64_of(seq!['-'] + nat_text(n)) == Some((-n) as i64),
        n > i64::MAX ==> i64_of(nat_text(n)) is None,
        n <= u32::MAX ==> u32_of(nat_text(n)) == Some(n as u32),
        n > u32::MAX ==> u32_of(nat_text(n)) is None,
        n <= i32::MAX ==> i32_of(nat_text(n)) == Some(n as i32),
        n > i32::MAX ==> i32_of(nat_text(n)) is None,
        u64_of(Seq::empty()) is None && i64_of(Seq::empty()) is None,
        u64_of(nat_text(n).push('x')) is None && i64_of(nat_text(n).push('x')) is None,
{
    lemma_nat_text(n);
    let s = nat_text(n);
    let plus = seq!['+'] + s;
    let minus = seq!['-'] + s;
    let more = s.push('x');
    assert(is_digit(s[0]));
    assert(plus.skip(1) =~= s);
    assert(minus.skip(1) =~= s);
    assert(minus[0] == '-');
    assert(!is_digit(minus[0]));
    assert(more[0] == s[0]);
    assert(!is_digit(more[s.len() as int]));
}

/// A quotient rounds towards zero, on both sides of it.
pub proof fn law_quotients(a: int, b: int)
    requires
        a >= 0,
        b > 0,
    ensures
        b * trunc_div(a, b) <= a < b * (trunc_div(a, b) + 1),
        trunc_div(-a, b) == -trunc_div(a, b),
{
    vstd::arithmetic::div_mod::lemma_fundamental_div_mod(a, b);
    vstd::arithmetic::div_mod::lemma_mod_bound(a, b);
    assert(b * (a / b + 1) == b * (a / b) + b) by (nonlinear_arith);
}

} // verus!
