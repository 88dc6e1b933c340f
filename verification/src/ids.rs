//! Identifiers on the wire: a type prefix, a hyphen and a positive row number.
//!
//! Rows of different tables are numbered independently, so the prefix alone
//! tells an item (`i-7`) from a library (`l-7`), a person (`p-7`), a genre
//! (`g-7`), a studio (`s-7`) or an image (`img-7`).

use vstd::prelude::*;

use crate::number::{
    i64_of, int_text, is_digit, lemma_int_text, lemma_nat_text, nat_text, push_i64, read_i64,
};
use crate::text::{
    find_char, joined, lemma_filter_map_all, lemma_position, lemma_split_joined, position,
    range_text, same, split, split_at_char, texts, to_chars, trim, trimmed,
};

verus! {

/// The table that an identifier points into.
#[derive(Debug, Clone, Copy, PartialEq, Eq, Structural)]
pub enum IdKind {
    Item,
    Library,
    People,
    Genre,
    Studio,
    Image,
}

/// The prefix that stands for a kind.
pub open spec fn prefix(kind: IdKind) -> Seq<char> {
    match kind {
        IdKind::Item => "i"@,
        IdKind::Library => "l"@,
        IdKind::People => "p"@,
        IdKind::Genre => "g"@,
        IdKind::Studio => "s"@,
        IdKind::Image => "img"@,
    }
}

/// The kind that a prefix stands for.
pub open spec fn kind_of(p: Seq<char>) -> Option<IdKind> {
    if p == "i"@ {
        Some(IdKind::Item)
    } else if p == "l"@ {
        Some(IdKind::Library)
    } else if p == "p"@ {
        Some(IdKind::People)
    } else if p == "g"@ {
        Some(IdKind::Genre)
    } else if p == "s"@ {
        Some(IdKind::Studio)
    } else if p == "img"@ {
        Some(IdKind::Image)
    } else {
        None
    }
}

/// The identifier of row `n` of a kind.
pub open spec fn id_text(kind: IdKind, n: int) -> Seq<char> {
    prefix(kind) + seq!['-'] + int_text(n)
}

/// The identifier of an optional row.
pub open spec fn opt_id_text(kind: IdKind, n: Option<i64>) -> Option<Seq<char>> {
    match n {
        Some(n) => Some(id_text(kind, n as int)),
        None => None,
    }
}

/// The identifiers of a list of rows.
pub open spec fn id_texts(kind: IdKind, ids: Seq<i64>) -> Seq<Seq<char>> {
    ids.map_values(|n: i64| id_text(kind, n as int))
}

/// The kind and row that `s` identifies: what precedes the first hyphen is a
/// known prefix, and what follows it is a positive number.
pub open spec fn id_of(s: Seq<char>) -> Option<(IdKind, i64)> {
    let at = position(s, '-');
    if at >= s.len() {
        None
    } else {
        match (kind_of(s.take(at)), i64_of(s.skip(at + 1))) {
            (Some(k), Some(n)) => if n > 0 {
                Some((k, n))
            } else {
                None
            },
            _ => None,
        }
    }
}

/// The row of one kind that `s` identifies.
pub open spec fn row_of(s: Seq<char>, kind: IdKind) -> Option<i64> {
    match id_of(s) {
        Some((k, n)) => if k == kind {
            Some(n)
        } else {
            None
        },
        None => None,
    }
}

/// Every prefix stands for its own kind.
pub proof fn lemma_prefix_kind(kind: IdKind)
    ensures
        kind_of(prefix(kind)) == Some(kind),
        forall|i: int| 0 <= i < prefix(kind).len() ==> #[trigger] prefix(kind)[i] != '-',
{
    reveal_strlit("i");
    reveal_strlit("l");
    reveal_strlit("p");
    reveal_strlit("g");
    reveal_strlit("s");
    reveal_strlit("img");
    assert("i"@[0] == 'i' && "l"@[0] == 'l' && "p"@[0] == 'p' && "g"@[0] == 'g' && "s"@[0] == 's');
    assert("img"@[0] == 'i' && "img"@[1] == 'm' && "img"@[2] == 'g' && "img"@.len() == 3);
}

/// An identifier names the kind and the row it was made from.
pub proof fn law_id_round_trip(kind: IdKind, n: i64)
    requires
        n > 0,
    ensures
        id_of(id_text(kind, n as int)) == Some((kind, n)),
{
    let s = id_text(kind, n as int);
    let p = prefix(kind);
    lemma_prefix_kind(kind);
    lemma_int_text(n as int);
    assert forall|i: int| 0 <= i < p.len() implies #[trigger] s[i] != '-' by {
        assert(s[i] == p[i]);
    }
    assert(s[p.len() as int] == '-');
    lemma_position(s, '-', p.len() as int);
    assert(s.take(p.len() as int) =~= p);
    assert(s.skip(p.len() as int + 1) =~= int_text(n as int));
}

/// Two rows share an identifier only if they are the same row of the same kind.
pub proof fn law_ids_distinct(a: IdKind, m: i64, b: IdKind, n: i64)
    requires
        m > 0,
        n > 0,
        id_text(a, m as int) == id_text(b, n as int),
    ensures
        a == b,
        m == n,
{
    law_id_round_trip(a, m);
    law_id_round_trip(b, n);
}

/// The identifier of row `n` of a kind.
pub fn format_id(kind: IdKind, n: i64) -> (r: String)
    ensures
        r@ == id_text(kind, n as int),
{
    let mut s = match kind {
        IdKind::Item => "i".to_owned(),
        IdKind::Library => "l".to_owned(),
        IdKind::People => "p".to_owned(),
        IdKind::Genre => "g".to_owned(),
        IdKind::Studio => "s".to_owned(),
        IdKind::Image => "img".to_owned(),
    };
    s.push('-');
    push_i64(&mut s, n);
    assert(s@ =~= id_text(kind, n as int));
    s
}

/// The identifier of an item.
pub fn item_id(n: i64) -> (r: String)
    ensures
        r@ == id_text(IdKind::Item, n as int),
{
    format_id(IdKind::Item, n)
}

/// The identifier of a library.
pub fn library_id(n: i64) -> (r: String)
    ensures
        r@ == id_text(IdKind::Library, n as int),
{
    format_id(IdKind::Library, n)
}

/// The identifier of a person.
pub fn person_id(n: i64) -> (r: String)
    ensures
        r@ == id_text(IdKind::People, n as int),
{
    format_id(IdKind::People, n)
}

/// The identifier of a genre.
pub fn genre_id(n: i64) -> (r: String)
    ensures
        r@ == id_text(IdKind::Genre, n as int),
{
    format_id(IdKind::Genre, n)
}

/// The identifier of a studio.
pub fn studio_id(n: i64) -> (r: String)
    ensures
        r@ == id_text(IdKind::Studio, n as int),
{
    format_id(IdKind::Studio, n)
}

/// The tag of an image.
pub fn image_tag(n: i64) -> (r: String)
    ensures
        r@ == id_text(IdKind::Image, n as int),
{
    format_id(IdKind::Image, n)
}

/// The identifier of an optional row.
pub fn format_opt_id(kind: IdKind, n: Option<i64>) -> (r: Option<String>)
    ensures
        crate::text::opt(r) == opt_id_text(kind, n),
{
    match n {
        Some(n) => Some(format_id(kind, n)),
        None => None,
    }
}

/// The tags of a list of images.
pub fn image_tags(ids: &Vec<i64>) -> (r: Vec<String>)
    ensures
        texts(r@) == id_texts(IdKind::Image, ids@),
{
    let mut out: Vec<String> = Vec::new();
    let mut i: usize = 0;
    while i < ids.len()
        invariant
            i <= ids.len(),
            out.len() == i,
            forall|k: int|
                0 <= k < i ==> (#[trigger] out@[k])@ == id_text(IdKind::Image, ids@[k] as int),
        decreases ids.len() - i,
    {
        out.push(image_tag(ids[i]));
        i = i + 1;
    }
    assert(texts(out@) =~= id_texts(IdKind::Image, ids@));
    out
}

/// The kind that a prefix stands for.
pub fn parse_kind(p: &str) -> (r: Option<IdKind>)
    ensures
        r == kind_of(p@),
{
    if same(p, "i") {
        Some(IdKind::Item)
    } else if same(p, "l") {
        Some(IdKind::Library)
    } else if same(p, "p") {
        Some(IdKind::People)
    } else if same(p, "g") {
        Some(IdKind::Genre)
    } else if same(p, "s") {
        Some(IdKind::Studio)
    } else if same(p, "img") {
        Some(IdKind::Image)
    } else {
        None
    }
}

/// The kind and row that `raw` identifies.
pub fn parse_typed_id(raw: &str) -> (r: Option<(IdKind, i64)>)
    ensures
        r == id_of(raw@),
{
    let cs = to_chars(raw);
    let n: usize = cs.len();
    let at: usize = find_char(cs.as_slice(), 0, n, '-');
    assert(cs@.subrange(0, n as int) =~= raw@);
    if at == n {
        return None;
    }
    let head = range_text(cs.as_slice(), 0, at);
    assert(head@ =~= raw@.take(at as int));
    assert(cs@.subrange(at + 1, n as int) =~= raw@.skip(at + 1));
    match (parse_kind(head.as_str()), read_i64(cs.as_slice(), at + 1, n)) {
        (Some(k), Some(id)) => if id > 0 {
            Some((k, id))
        } else {
            None
        },
        _ => None,
    }
}

/// The row of one kind that `raw` identifies.
pub fn parse_row(raw: &str, kind: IdKind) -> (r: Option<i64>)
    ensures
        r == row_of(raw@, kind),
{
    match parse_typed_id(raw) {
        Some((k, id)) => if k == kind {
            Some(id)
        } else {
            None
        },
        None => None,
    }
}

/// How a piece of a list of identifiers is read.
pub open spec fn piece_row(kind: IdKind, trimming: bool) -> spec_fn(Seq<char>) -> Option<i64> {
    |piece: Seq<char>|
        row_of(
            if trimming {
                trim(piece)
            } else {
                piece
            },
            kind,
        )
}

/// The rows of one kind that the comma-separated pieces of `s` identify, in
/// order; a piece that identifies none is left out.
pub open spec fn rows_of(s: Seq<char>, kind: IdKind, trimming: bool) -> Seq<i64> {
    split(s, ',').filter_map(piece_row(kind, trimming))
}

/// The rows of one kind that a comma-separated list identifies.
pub fn parse_rows(raw: &str, kind: IdKind, trimming: bool) -> (r: Vec<i64>)
    ensures
        r@ == rows_of(raw@, kind, trimming),
{
    let pieces = split_at_char(raw, ',');
    let ghost all = split(raw@, ',');
    let ghost f = piece_row(kind, trimming);
    let mut out: Vec<i64> = Vec::new();
    let mut i: usize = 0;
    while i < pieces.len()
        invariant
            i <= pieces.len(),
            texts(pieces@) == all,
            f == piece_row(kind, trimming),
            out@ == all.take(i as int).filter_map(f),
        decreases pieces.len() - i,
    {
        let row = if trimming {
            let t = trimmed(pieces[i].as_str());
            parse_row(t.as_str(), kind)
        } else {
            parse_row(pieces[i].as_str(), kind)
        };
        proof {
            assert(all[i as int] == pieces@[i as int]@);
            assert(row == f(all[i as int]));
            all.lemma_filter_map_take_succ(f, i as int);
        }
        match row {
            Some(id) => {
                out.push(id);
            },
            None => {},
        }
        assert(out@ =~= all.take(i + 1).filter_map(f));
        i = i + 1;
    }
    assert(all.take(all.len() as int) =~= all);
    out
}

proof fn lemma_id_chars(kind: IdKind, n: i64)
    requires
        n > 0,
    ensures
        !id_text(kind, n as int).contains(','),
        trim(id_text(kind, n as int)) == id_text(kind, n as int),
{
    reveal_strlit("i");
    reveal_strlit("l");
    reveal_strlit("p");
    reveal_strlit("g");
    reveal_strlit("s");
    reveal_strlit("img");
    let s = id_text(kind, n as int);
    let head = prefix(kind);
    let digits = int_text(n as int);
    crate::number::lemma_nat_text(n as nat);
    assert("i"@[0] == 'i' && "l"@[0] == 'l' && "p"@[0] == 'p' && "g"@[0] == 'g' && "s"@[0] == 's');
    assert("img"@[0] == 'i' && "img"@[1] == 'm' && "img"@[2] == 'g');
    assert forall|i: int| 0 <= i < s.len() implies #[trigger] s[i] != ',' && !crate::text::is_space(
        s[i],
    ) by {
        if i < head.len() {
            assert(s[i] == head[i]);
        } else if i > head.len() {
            assert(s[i] == digits[i - head.len() - 1]);
            assert(crate::number::is_digit(digits[i - head.len() - 1]));
        }
    }
    let p = |c: char| crate::text::is_space(c);
    assert(s.len() > 0);
    assert(!p(s[0]) && !p(s[s.len() - 1]));
    crate::text::lemma_trim_bounds(s, p, 0, s.len() as int);
    assert(s.subrange(0, s.len() as int) =~= s);
}

/// A list of identifiers of one kind names the rows it was made from.
pub proof fn law_id_list_round_trip(kind: IdKind, ids: Seq<i64>, trimming: bool)
    requires
        ids.len() > 0,
        forall|i: int| 0 <= i < ids.len() ==> #[trigger] ids[i] > 0,
    ensures
        rows_of(joined(id_texts(kind, ids), seq![',']), kind, trimming) == ids,
{
    let list = id_texts(kind, ids);
    let f = piece_row(kind, trimming);
    assert forall|i: int| 0 <= i < list.len() implies !(#[trigger] list[i]).contains(',') && f(
        list[i],
    ) == Some(ids[i]) by {
        assert(ids[i] > 0);
        lemma_id_chars(kind, ids[i]);
        law_id_round_trip(kind, ids[i]);
    }
    lemma_split_joined(list, ',');
    lemma_filter_map_all(list, f, ids);
}

/// The forms of the identifiers: a letter for the kind, a hyphen and the row.
pub proof fn law_id_forms(n: nat)
    ensures
        id_text(IdKind::Item, n as int) == "i-"@ + nat_text(n),
        id_text(IdKind::Library, n as int) == "l-"@ + nat_text(n),
        id_text(IdKind::People, n as int) == "p-"@ + nat_text(n),
        id_text(IdKind::Genre, n as int) == "g-"@ + nat_text(n),
        id_text(IdKind::Studio, n as int) == "s-"@ + nat_text(n),
        id_text(IdKind::Image, n as int) == "img-"@ + nat_text(n),
{
    reveal_strlit("i");
    reveal_strlit("l");
    reveal_strlit("p");
    reveal_strlit("g");
    reveal_strlit("s");
    reveal_strlit("img");
    reveal_strlit("i-");
    reveal_strlit("l-");
    reveal_strlit("p-");
    reveal_strlit("g-");
    reveal_strlit("s-");
    reveal_strlit("img-");
    assert("i"@ + seq!['-'] =~= "i-"@);
    assert("l"@ + seq!['-'] =~= "l-"@);
    assert("p"@ + seq!['-'] =~= "p-"@);
    assert("g"@ + seq!['-'] =~= "g-"@);
    assert("s"@ + seq!['-'] =~= "s-"@);
    assert("img"@ + seq!['-'] =~= "img-"@);
}

/// A number alone, or one that is not positive, identifies nothing.
pub proof fn law_no_bare_ids(n: nat, kind: IdKind)
    ensures
        id_of(nat_text(n)) is None,
        row_of(nat_text(n), kind) is None,
        id_of(id_text(kind, 0)) is None,
{
    lemma_nat_text(n);
    let s = nat_text(n);
    assert forall|i: int| 0 <= i < s.len() implies #[trigger] s[i] != '-' by {
        assert(is_digit(s[i]));
    }
    lemma_position(s, '-', s.len() as int);
    let z = id_text(kind, 0);
    let p = prefix(kind);
    lemma_prefix_kind(kind);
    lemma_int_text(0);
    assert forall|i: int| 0 <= i < p.len() implies #[trigger] z[i] != '-' by {
        assert(z[i] == p[i]);
    }
    assert(z[p.len() as int] == '-');
    lemma_position(z, '-', p.len() as int);
    assert(z.skip(p.len() as int + 1) =~= int_text(0));
}

} // verus!
