//! JSON documents: what `serde_json` reads, as a tree of plain values.

use vstd::prelude::*;

use crate::text::same;

verus! {

/// A JSON number: its text, and its value where it is an integer that fits.
#[derive(Debug)]
pub struct JsonNumber {
    pub text: String,
    pub whole: Option<i64>,
}

/// A JSON value. The members of an object have distinct names.
#[derive(Debug)]
pub enum Json {
    Null,
    Bool(bool),
    Number(JsonNumber),
    Text(String),
    List(Vec<Json>),
    Object(Vec<(String, Json)>),
}

/// The content of a JSON value.
pub enum JsonView {
    Null,
    Bool(bool),
    Number(Seq<char>, Option<i64>),
    Text(Seq<char>),
    List(Seq<JsonView>),
    Object(Seq<(Seq<char>, JsonView)>),
}

/// The content of a JSON value.
pub open spec fn tree_of(j: Json) -> JsonView
    decreases j,
{
    match j {
        Json::Null => JsonView::Null,
        Json::Bool(b) => JsonView::Bool(b),
        Json::Number(n) => JsonView::Number(n.text@, n.whole),
        Json::Text(s) => JsonView::Text(s@),
        Json::List(v) => JsonView::List(
            Seq::new(
                v@.len(),
                |i: int|
                    if 0 <= i < v@.len() {
                        tree_of(v[i])
                    } else {
                        JsonView::Null
                    },
            ),
        ),
        Json::Object(v) => JsonView::Object(
            Seq::new(
                v@.len(),
                |i: int|
                    if 0 <= i < v@.len() {
                        (v[i].0@, tree_of(v[i].1))
                    } else {
                        (Seq::empty(), JsonView::Null)
                    },
            ),
        ),
    }
}

impl View for Json {
    type V = JsonView;

    open spec fn view(&self) -> JsonView {
        tree_of(*self)
    }
}

/// The value tree of `serde_json`.
#[verifier::external_type_specification]
#[verifier::external_body]
pub struct ExJsonValue(serde_json::Value);

/// Why `serde_json` refused a document.
#[verifier::external_type_specification]
#[verifier::external_body]
pub struct ExJsonError(serde_json::Error);

/// What a value of `serde_json` holds: variant for variant, the members of an
/// object in the order in which its map yields them, and of a number its text
/// and what `Number::as_i64` gives.
pub uninterp spec fn json_tree(v: serde_json::Value) -> JsonView;

/// What `serde_json::from_slice` reads from a document as a `Value`; nothing
/// where it refuses the document.
pub uninterp spec fn parsed_json(bytes: Seq<u8>) -> Option<JsonView>;

/// `serde_json::from_slice` with `Value` as its target. The contract names
/// the result: a value where the bytes are a JSON document, an error where
/// they are not.
#[verifier::external_body]
fn read_value(bytes: &[u8]) -> (r: Result<serde_json::Value, serde_json::Error>)
    ensures
        match r {
            Ok(v) => parsed_json(bytes@) == Some(json_tree(v)),
            Err(_) => parsed_json(bytes@) is None,
        },
{
    serde_json::from_slice::<serde_json::Value>(bytes)
}

/// A `serde_json::Value` as a plain tree. The contract claims that the tree
/// holds what the value holds.
#[verifier::external_body]
fn plain_tree(v: serde_json::Value) -> (r: Json)
    ensures
        r@ == json_tree(v),
{
    match v {
        serde_json::Value::Null => Json::Null,
        serde_json::Value::Bool(b) => Json::Bool(b),
        serde_json::Value::Number(n) => Json::Number(JsonNumber { text: n.to_string(), whole: n.as_i64() }),
        serde_json::Value::String(s) => Json::Text(s),
        serde_json::Value::Array(a) => Json::List(a.into_iter().map(plain_tree).collect()),
        serde_json::Value::Object(m) => Json::Object(m.into_iter().map(|(k, x)| (k, plain_tree(x))).collect()),
    }
}

/// The content of an optional JSON value.
pub open spec fn opt_tree(v: Option<Json>) -> Option<JsonView> {
    match v {
        Some(j) => Some(j@),
        None => None,
    }
}

/// Reads a JSON document; nothing where the bytes are none.
pub fn parse_json(bytes: &[u8]) -> (r: Option<Json>)
    ensures
        opt_tree(r) == parsed_json(bytes@),
{
    match read_value(bytes) {
        Ok(v) => Some(plain_tree(v)),
        Err(_) => None,
    }
}

/// The first member of a list of members that bears a name.
pub open spec fn find_member(members: Seq<(Seq<char>, JsonView)>, name: Seq<char>) -> Option<
    JsonView,
>
    decreases members.len(),
{
    if members.len() == 0 {
        None
    } else if members[0].0 == name {
        Some(members[0].1)
    } else {
        find_member(members.skip(1), name)
    }
}

/// The member of an object that bears a name; nothing for any other value.
pub open spec fn member_of(v: JsonView, name: Seq<char>) -> Option<JsonView> {
    match v {
        JsonView::Object(members) => find_member(members, name),
        _ => None,
    }
}

/// The text of a JSON string.
pub open spec fn text_of(v: Option<JsonView>) -> Option<Seq<char>> {
    match v {
        Some(JsonView::Text(s)) => Some(s),
        _ => None,
    }
}

/// The value of a JSON number that is an integer and fits.
pub open spec fn int_of(v: Option<JsonView>) -> Option<i64> {
    match v {
        Some(JsonView::Number(_, whole)) => whole,
        _ => None,
    }
}

/// The value of a JSON boolean.
pub open spec fn bool_of(v: Option<JsonView>) -> Option<bool> {
    match v {
        Some(JsonView::Bool(b)) => Some(b),
        _ => None,
    }
}

/// The content of a borrowed optional JSON value.
pub open spec fn opt_ref_tree(v: Option<&Json>) -> Option<JsonView> {
    match v {
        Some(j) => Some(j@),
        None => None,
    }
}

impl Json {
    /// The member of an object that bears a name.
    pub fn member(&self, name: &str) -> (r: Option<&Json>)
        ensures
            opt_ref_tree(r) == member_of(self@, name@),
    {
        match self {
            Json::Object(v) => {
                let ghost members = self@->Object_0;
                let mut i: usize = 0;
                assert(members.skip(0) =~= members);
                while i < v.len()
                    invariant
                        i <= v.len(),
                        members == self@->Object_0,
                        self@ is Object,
                        members.len() == v.len(),
                        forall|k: int| 0 <= k < v.len() ==> #[trigger] members[k] == (v[k].0@, v[k].1@),
                        find_member(members, name@) == find_member(members.skip(i as int), name@),
                    decreases v.len() - i,
                {
                    let entry = &v[i];
                    proof {
                        assert(members.skip(i as int)[0] == members[i as int]);
                        assert(members.skip(i as int).skip(1) =~= members.skip(i + 1));
                    }
                    if same(entry.0.as_str(), name) {
                        return Some(&entry.1);
                    }
                    i = i + 1;
                }
                None
            },
            _ => None,
        }
    }
}

/// The text of a JSON string.
pub fn as_text(v: Option<&Json>) -> (r: Option<String>)
    ensures
        crate::text::opt(r) == text_of(opt_ref_tree(v)),
{
    match v {
        Some(Json::Text(s)) => Some(s.clone()),
        _ => None,
    }
}

/// The value of a JSON number that is an integer and fits.
pub fn as_int(v: Option<&Json>) -> (r: Option<i64>)
    ensures
        r == int_of(opt_ref_tree(v)),
{
    match v {
        Some(Json::Number(n)) => n.whole,
        _ => None,
    }
}

/// The value of a JSON boolean.
pub fn as_bool(v: Option<&Json>) -> (r: Option<bool>)
    ensures
        r == bool_of(opt_ref_tree(v)),
{
    match v {
        Some(Json::Bool(b)) => Some(*b),
        _ => None,
    }
}

/// The elements of a JSON list; none for any other value.
pub open spec fn elements_of(v: Option<JsonView>) -> Seq<JsonView> {
    match v {
        Some(JsonView::List(s)) => s,
        _ => Seq::empty(),
    }
}

/// The contents of a list of JSON values.
pub open spec fn trees(v: Seq<Json>) -> Seq<JsonView> {
    v.map_values(|j: Json| j@)
}

/// The elements of a JSON list; none for any other value.
pub fn elements(v: Option<Json>) -> (r: Vec<Json>)
    ensures
        trees(r@) == elements_of(opt_tree(v)),
{
    match v {
        Some(Json::List(list)) => {
            assert(trees(list@) =~= elements_of(opt_tree(v)));
            list
        },
        _ => {
            let none: Vec<Json> = Vec::new();
            assert(trees(none@) =~= Seq::empty());
            none
        },
    }
}

/// The contents of a list of members.
pub open spec fn members_view(v: Seq<(String, Json)>) -> Seq<(Seq<char>, JsonView)> {
    v.map_values(|m: (String, Json)| (m.0@, m.1@))
}

/// Whether no name occurs twice.
pub open spec fn distinct_names(members: Seq<(Seq<char>, JsonView)>) -> bool {
    forall|i: int, j: int|
        0 <= i < j < members.len() ==> (#[trigger] members[i]).0 != (#[trigger] members[j]).0
}

proof fn lemma_find_none(members: Seq<(Seq<char>, JsonView)>, name: Seq<char>)
    requires
        forall|k: int| 0 <= k < members.len() ==> (#[trigger] members[k]).0 != name,
    ensures
        find_member(members, name) is None,
    decreases members.len(),
{
    if members.len() > 0 {
        let rest = members.skip(1);
        assert forall|k: int| 0 <= k < rest.len() implies (#[trigger] rest[k]).0 != name by {
            assert(rest[k] == members[k + 1]);
        }
        lemma_find_none(rest, name);
        assert(members[0].0 != name);
    }
}

/// The members after one was put in place of what bore its name, or at the end.
pub open spec fn with_member(
    members: Seq<(Seq<char>, JsonView)>,
    name: Seq<char>,
    value: JsonView,
) -> Seq<(Seq<char>, JsonView)>
    decreases members.len(),
{
    if members.len() == 0 {
        seq![(name, value)]
    } else if members[0].0 == name {
        seq![(name, value)] + members.skip(1)
    } else {
        seq![members[0]] + with_member(members.skip(1), name, value)
    }
}

/// Putting a member changes what is found under its name, and nothing else.
pub proof fn law_put_then_find(
    members: Seq<(Seq<char>, JsonView)>,
    name: Seq<char>,
    value: JsonView,
    other: Seq<char>,
)
    ensures
        find_member(with_member(members, name, value), name) == Some(value),
        other != name ==> find_member(with_member(members, name, value), other) == find_member(
            members,
            other,
        ),
    decreases members.len(),
{
    reveal_with_fuel(find_member, 2);
    let next = with_member(members, name, value);
    if members.len() == 0 {
        assert(next.skip(1) =~= Seq::empty());
    } else if members[0].0 == name {
        assert(next.skip(1) =~= members.skip(1));
    } else {
        law_put_then_find(members.skip(1), name, value, other);
        assert(next[0] == members[0]);
        assert(next.skip(1) =~= with_member(members.skip(1), name, value));
    }
}

proof fn lemma_with_member_at(
    members: Seq<(Seq<char>, JsonView)>,
    at: int,
    value: JsonView,
)
    requires
        0 <= at < members.len(),
        forall|k: int| 0 <= k < at ==> (#[trigger] members[k]).0 != members[at].0,
    ensures
        with_member(members, members[at].0, value) == members.update(at, (members[at].0, value)),
    decreases at,
{
    let name = members[at].0;
    let expected = members.update(at, (name, value));
    if at == 0 {
        assert(seq![(name, value)] + members.skip(1) =~= expected);
    } else {
        let rest = members.skip(1);
        assert(rest[at - 1] == members[at]);
        assert forall|k: int| 0 <= k < at - 1 implies (#[trigger] rest[k]).0 != rest[at - 1].0 by {
            assert(rest[k] == members[k + 1]);
        }
        lemma_with_member_at(rest, at - 1, value);
        assert(members[0].0 != name);
        assert(seq![members[0]] + rest.update(at - 1, (name, value)) =~= expected);
    }
}

proof fn lemma_with_member_end(
    members: Seq<(Seq<char>, JsonView)>,
    name: Seq<char>,
    value: JsonView,
)
    requires
        forall|k: int| 0 <= k < members.len() ==> (#[trigger] members[k]).0 != name,
    ensures
        with_member(members, name, value) == members.push((name, value)),
    decreases members.len(),
{
    if members.len() == 0 {
        assert(seq![(name, value)] =~= members.push((name, value)));
    } else {
        let rest = members.skip(1);
        assert forall|k: int| 0 <= k < rest.len() implies (#[trigger] rest[k]).0 != name by {
            assert(rest[k] == members[k + 1]);
        }
        lemma_with_member_end(rest, name, value);
        assert(members[0].0 != name);
        assert(seq![members[0]] + rest.push((name, value)) =~= members.push((name, value)));
    }
}

fn put_member(members: &mut Vec<(String, Json)>, name: String, value: Json)
    ensures
        members_view(final(members)@) == with_member(members_view(old(members)@), name@, value@),
{
    let ghost before = members_view(members@);
    let mut i: usize = 0;
    while i < members.len()
        invariant
            i <= members.len(),
            before == members_view(members@),
            before == members_view(old(members)@),
            forall|k: int| 0 <= k < i ==> (#[trigger] before[k]).0 != name@,
        decreases members.len() - i,
    {
        assert(before[i as int] == (members@[i as int].0@, members@[i as int].1@));
        if same(members[i].0.as_str(), name.as_str()) {
            proof {
                lemma_with_member_at(before, i as int, value@);
            }
            members.set(i, (name, value));
            assert(members_view(members@) =~= before.update(i as int, (name@, value@)));
            return;
        }
        i = i + 1;
    }
    proof {
        lemma_with_member_end(before, name@, value@);
    }
    members.push((name, value));
    assert(members_view(members@) =~= before.push((name@, value@)));
}

/// The members of one object over those of another: a name that both bear has
/// the value of the first.
pub open spec fn merged(
    base: Seq<(Seq<char>, JsonView)>,
    over: Seq<(Seq<char>, JsonView)>,
) -> Seq<(Seq<char>, JsonView)>
    decreases over.len(),
{
    if over.len() == 0 {
        base
    } else {
        merged(with_member(base, over[0].0, over[0].1), over.skip(1))
    }
}

/// An object over another one; a value that is no object changes nothing.
pub open spec fn merged_values(a: JsonView, b: JsonView) -> JsonView {
    match (a, b) {
        (JsonView::Object(base), JsonView::Object(over)) => JsonView::Object(merged(base, over)),
        _ => a,
    }
}

/// An object over another one; a value that is no object changes nothing.
pub fn merge_json(a: Json, b: Json) -> (r: Json)
    ensures
        r@ == merged_values(a@, b@),
{
    match (a, b) {
        (Json::Object(base), Json::Object(over)) => {
            let ghost first = members_view(base@);
            let ghost second = members_view(over@);
            proof {
                assert(a@->Object_0 =~= first);
                assert(b@->Object_0 =~= second);
            }
            let mut out = base;
            let mut rest = over;
            while rest.len() > 0
                invariant
                    merged(first, second) == merged(members_view(out@), members_view(rest@)),
                decreases rest.len(),
            {
                let ghost left = members_view(rest@);
                let (name, value) = rest.remove(0);
                proof {
                    assert(left[0] == (name@, value@));
                    assert(members_view(rest@) =~= left.skip(1));
                }
                put_member(&mut out, name, value);
            }
            let r = Json::Object(out);
            assert(r@->Object_0 =~= members_view(out@));
            r
        },
        (a, _) => a,
    }
}

/// What is found in an object over another one: what the first holds, and what
/// the other holds under names that the first does not bear.
pub proof fn law_merge_prefers_second(
    base: Seq<(Seq<char>, JsonView)>,
    over: Seq<(Seq<char>, JsonView)>,
    name: Seq<char>,
)
    requires
        distinct_names(over),
    ensures
        find_member(merged(base, over), name) == match find_member(over, name) {
            Some(v) => Some(v),
            None => find_member(base, name),
        },
    decreases over.len(),
{
    if over.len() > 0 {
        let rest = over.skip(1);
        assert(distinct_names(rest)) by {
            assert forall|i: int, j: int| 0 <= i < j < rest.len() implies (#[trigger] rest[i]).0 != (
            #[trigger] rest[j]).0 by {
                assert(rest[i] == over[i + 1] && rest[j] == over[j + 1]);
            }
        }
        law_merge_prefers_second(with_member(base, over[0].0, over[0].1), rest, name);
        law_put_then_find(base, over[0].0, over[0].1, name);
        if over[0].0 == name {
            assert forall|k: int| 0 <= k < rest.len() implies (#[trigger] rest[k]).0 != name by {
                assert(rest[k] == over[k + 1]);
                assert(over[0].0 != over[k + 1].0);
            }
            lemma_find_none(rest, name);
        }
    }
}

/// The values of a document are read by their kind: a text as a text, a whole
/// number as a number, a truth value as one; and nothing is read as another kind.
pub proof fn law_values_by_kind(s: Seq<char>, n: i64, b: bool, list: Seq<JsonView>)
    ensures
        text_of(Some(JsonView::Text(s))) == Some(s),
        text_of(Some(JsonView::Number(s, Some(n)))) is None && text_of(Some(JsonView::Bool(b))) is None
            && text_of(Some(JsonView::Null)) is None && text_of(None) is None,
        int_of(Some(JsonView::Number(s, Some(n)))) == Some(n),
        int_of(Some(JsonView::Number(s, None))) is None && int_of(Some(JsonView::Text(s))) is None
            && int_of(Some(JsonView::Null)) is None && int_of(None) is None,
        bool_of(Some(JsonView::Bool(b))) == Some(b),
        bool_of(Some(JsonView::Text(s))) is None && bool_of(Some(JsonView::Null)) is None
            && bool_of(None) is None,
        elements_of(Some(JsonView::List(list))) == list,
        elements_of(Some(JsonView::Text(s))).len() == 0 && elements_of(None).len() == 0,
{
}

/// A member is found by its name, wherever it stands among others of other
/// names; nothing but an object has members.
pub proof fn law_members_are_found(
    before: Seq<(Seq<char>, JsonView)>,
    name: Seq<char>,
    value: JsonView,
    after: Seq<(Seq<char>, JsonView)>,
    s: Seq<char>,
)
    requires
        forall|k: int| 0 <= k < before.len() ==> (#[trigger] before[k]).0 != name,
    ensures
        member_of(JsonView::Object(before.push((name, value)) + after), name) == Some(value),
        member_of(JsonView::Object(before), name) is None,
        member_of(JsonView::Text(s), name) is None && member_of(JsonView::Null, name) is None,
    decreases before.len(),
{
    let all = before.push((name, value)) + after;
    lemma_find_none(before, name);
    if before.len() == 0 {
        assert(all[0] == (name, value));
    } else {
        let rest = before.skip(1);
        assert forall|k: int| 0 <= k < rest.len() implies (#[trigger] rest[k]).0 != name by {
            assert(rest[k] == before[k + 1]);
        }
        law_members_are_found(rest, name, value, after, s);
        assert(all[0] == before[0]);
        assert(all.skip(1) =~= rest.push((name, value)) + after);
    }
}

/// Of two objects that are merged, the second one's members count before the
/// first one's, and all members of both are there; anything but two objects
/// leaves the first value.
pub proof fn law_merged_values(
    base: Seq<(Seq<char>, JsonView)>,
    over: Seq<(Seq<char>, JsonView)>,
    a: JsonView,
    b: JsonView,
    name: Seq<char>,
)
    requires
        distinct_names(over),
    ensures
        member_of(JsonView::Object(over), name) is Some ==> member_of(
            merged_values(JsonView::Object(base), JsonView::Object(over)),
            name,
        ) == member_of(JsonView::Object(over), name),
        member_of(JsonView::Object(over), name) is None ==> member_of(
            merged_values(JsonView::Object(base), JsonView::Object(over)),
            name,
        ) == member_of(JsonView::Object(base), name),
        !(a is Object) || !(b is Object) ==> merged_values(a, b) == a,
{
    law_merge_prefers_second(base, over, name);
}

} // verus!
