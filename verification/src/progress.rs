//! Playback reports: what a client says about where it is, and when something
//! counts as watched.

use vstd::prelude::*;
use vstd::string::*;

use crate::emby::rows::ItemRow;
use crate::json::{
    as_bool, as_int, as_text, bool_of, int_of, member_of, parse_json, parsed_json, text_of, Json,
    JsonView,
};
use crate::number::{int_text, push_i64, trunc_div};
use crate::text::opt;

verus! {

/// How many ticks a millisecond has.
pub const TICKS_PER_MS: i64 = 10_000;

/// How many ticks a second has.
pub const TICKS_PER_SECOND: i64 = 10_000_000;

/// What a report says.
#[derive(Debug)]
pub struct Report {
    /// The item that is played; a report without one is ignored.
    pub item_id: Option<String>,
    /// The position, in ticks.
    pub position_ticks: i64,
    /// Whether playback failed.
    pub failed: bool,
    /// The duration, in ticks; zero where it is not known.
    pub runtime_ticks: i64,
}

/// A document, or an empty object where there is none.
pub open spec fn body_or_empty(document: Option<JsonView>) -> JsonView {
    match document {
        Some(b) => b,
        None => JsonView::Object(Seq::empty()),
    }
}

/// An integer, or zero.
pub open spec fn or_zero(n: Option<i64>) -> i64 {
    match n {
        Some(n) => n,
        None => 0,
    }
}

/// The duration that a report gives: its own, or that of the item in it.
pub open spec fn reported_runtime(body: JsonView) -> i64 {
    match int_of(member_of(body, "RunTimeTicks"@)) {
        Some(n) => n,
        None => match member_of(body, "Item"@) {
            Some(item) => or_zero(int_of(member_of(item, "RunTimeTicks"@))),
            None => 0,
        },
    }
}

/// Whether `r` is what a document reports.
pub open spec fn report_of(r: Report, body: JsonView) -> bool {
    &&& opt(r.item_id) == text_of(member_of(body, "ItemId"@))
    &&& r.position_ticks == or_zero(int_of(member_of(body, "PositionTicks"@)))
    &&& r.failed == (bool_of(member_of(body, "Failed"@)) == Some(true))
    &&& r.runtime_ticks == reported_runtime(body)
}

/// What a document reports.
pub fn read_report(body: &Json) -> (r: Report)
    ensures
        report_of(r, body@),
{
    let runtime = match as_int(body.member("RunTimeTicks")) {
        Some(n) => n,
        None => match body.member("Item") {
            Some(item) => match as_int(item.member("RunTimeTicks")) {
                Some(n) => n,
                None => 0,
            },
            None => 0,
        },
    };
    Report {
        item_id: as_text(body.member("ItemId")),
        position_ticks: match as_int(body.member("PositionTicks")) {
            Some(n) => n,
            None => 0,
        },
        failed: match as_bool(body.member("Failed")) {
            Some(b) => b,
            None => false,
        },
        runtime_ticks: runtime,
    }
}

/// What a request reports. One that is no JSON document reports nothing.
pub fn parse_report(bytes: &[u8]) -> (r: Report)
    ensures
        report_of(r, body_or_empty(parsed_json(bytes@))),
{
    let body = match parse_json(bytes) {
        Some(b) => b,
        None => {
            let none = Json::Object(Vec::new());
            assert(none@->Object_0 =~= Seq::empty());
            none
        },
    };
    read_report(&body)
}

/// A position in milliseconds.
pub fn position_ms(position_ticks: i64) -> (r: i64)
    ensures
        r == trunc_div(position_ticks as int, TICKS_PER_MS as int),
        r == ms_of_ticks(position_ticks as int),
{
    position_ticks / TICKS_PER_MS
}

/// The duration to go by: the reported one, or that of the file where none was
/// reported.
pub open spec fn runtime_of(reported: i64, file_second: Option<i64>) -> int {
    if reported == 0 && file_second is Some {
        file_second->0 * TICKS_PER_SECOND
    } else {
        reported as int
    }
}

/// The duration to go by.
pub fn resolve_runtime(reported: i64, file_second: Option<i64>) -> (r: i64)
    requires
        i64::MIN <= runtime_of(reported, file_second) <= i64::MAX,
    ensures
        r == runtime_of(reported, file_second),
{
    if reported == 0 {
        if let Some(secs) = file_second {
            return secs * TICKS_PER_SECOND;
        }
    }
    reported
}

/// Whether something counts as watched: it did not fail, its duration is known,
/// and four fifths of it were played.
pub open spec fn watched(failed: bool, position: int, runtime: int) -> bool {
    !failed && runtime > 0 && position >= runtime * 8 / 10
}

/// Whether something counts as watched.
pub fn is_complete(failed: bool, position_ticks: i64, runtime_ticks: i64) -> (r: bool)
    requires
        !failed && runtime_ticks > 0 ==> runtime_ticks * 8 <= i64::MAX,
    ensures
        r == watched(failed, position_ticks as int, runtime_ticks as int),
{
    !failed && runtime_ticks > 0 && position_ticks >= runtime_ticks * 8 / 10
}

/// What was watched stays watched further on, and a failure is never watched.
pub proof fn law_watched_is_monotone(failed: bool, a: int, b: int, runtime: int)
    requires
        a <= b,
    ensures
        watched(failed, a, runtime) ==> watched(failed, b, runtime),
        !watched(true, a, runtime),
        runtime > 0 ==> watched(false, runtime, runtime),
{
}

/// Something that did not fail and whose duration is known counts as watched
/// from four fifths of its duration on, to within the tick that the division
/// rounds away, and exactly so where five divides the duration. Nothing else
/// counts as watched.
pub proof fn law_watched_from_four_fifths(position: int, runtime: int)
    ensures
        runtime > 0 && 10 * position >= 8 * runtime ==> watched(false, position, runtime),
        watched(false, position, runtime) ==> runtime > 0 && 10 * (position + 1) > 8 * runtime,
        runtime > 0 && 10 * (position + 1) > 8 * runtime ==> watched(false, position, runtime),
        runtime > 0 && runtime % 5 == 0 ==> (watched(false, position, runtime) <==> 10 * position
            >= 8 * runtime),
        !watched(true, position, runtime),
        runtime <= 0 ==> !watched(false, position, runtime),
{
}

/// Whether something counts as watched does not depend on the unit of time: a
/// position and a duration of whole fives may both be multiplied.
pub proof fn law_watched_keeps_scale(position: int, runtime: int, k: int)
    requires
        k > 0,
        runtime % 5 == 0,
    ensures
        watched(false, k * position, k * runtime) <==> watched(false, position, runtime),
{
    assert(k * runtime > 0 <==> runtime > 0) by (nonlinear_arith)
        requires
            k > 0,
    ;
    let fifth = runtime / 5;
    assert(k * runtime == 5 * (k * fifth)) by (nonlinear_arith)
        requires
            runtime == 5 * fifth,
    ;
    assert(10 * (k * position) >= 8 * (k * runtime) <==> 10 * position >= 8 * runtime)
        by (nonlinear_arith)
        requires
            k > 0,
    ;
    law_watched_from_four_fifths(position, runtime);
    law_watched_from_four_fifths(k * position, k * runtime);
}

/// Four fifths of a duration are enough, and one tick less is not, however long
/// it is.
pub proof fn law_watched_boundary(fifth: int)
    requires
        fifth > 0,
    ensures
        watched(false, 4 * fifth, 5 * fifth),
        !watched(false, 4 * fifth - 1, 5 * fifth),
        !watched(false, 0, 5 * fifth),
{
}

/// A duration that was reported counts, whatever the file says; without one it
/// is the seconds of the file, of ten million ticks each; without both it is
/// not known.
pub proof fn law_reported_duration_counts(reported: i64, file_second: Option<i64>, seconds: i64)
    ensures
        reported != 0 ==> runtime_of(reported, file_second) == reported,
        runtime_of(0, Some(seconds)) == 10_000_000 * seconds,
        runtime_of(0, None) == 0,
{
}

/// A report on an item is read member by member: each of its four values comes
/// from the member of its name alone, and where a report gives no duration of
/// its own, the duration is that of the item inside it.
pub proof fn law_report_reads_members(r: Report, body: JsonView, n: i64, t: Seq<char>, s: Seq<char>)
    requires
        report_of(r, body),
    ensures
        member_of(body, "ItemId"@) == Some(JsonView::Text(s)) ==> opt(r.item_id) == Some(s),
        member_of(body, "ItemId"@) is None ==> r.item_id is None,
        member_of(body, "PositionTicks"@) == Some(JsonView::Number(t, Some(n))) ==> r.position_ticks
            == n,
        member_of(body, "PositionTicks"@) is None ==> r.position_ticks == 0,
        r.failed <==> member_of(body, "Failed"@) == Some(JsonView::Bool(true)),
        member_of(body, "RunTimeTicks"@) == Some(JsonView::Number(t, Some(n))) ==> r.runtime_ticks
            == n,
        member_of(body, "RunTimeTicks"@) is None && member_of(body, "Item"@) is None
            ==> r.runtime_ticks == 0,
        member_of(body, "RunTimeTicks"@) is None && member_of(body, "Item"@) is Some && member_of(
            member_of(body, "Item"@)->0,
            "RunTimeTicks"@,
        ) == Some(JsonView::Number(t, Some(n))) ==> r.runtime_ticks == n,
{
}

/// The identifier of the session in which an item is played.
pub fn session_id(item_id: i64) -> (r: String)
    ensures
        r@ == "session-"@ + int_text(item_id as int),
{
    let mut s = "session-".to_owned();
    push_i64(&mut s, item_id);
    s
}

/// The items whose images a list needs: each row's own, and that of its series.
pub open spec fn image_owners(items: Seq<ItemRow>) -> Seq<i64>
    decreases items.len(),
{
    if items.len() == 0 {
        Seq::empty()
    } else {
        let rest = image_owners(items.drop_last()).push(items.last().id);
        match items.last().series_id {
            Some(s) => rest.push(s),
            None => rest,
        }
    }
}

/// The items whose images a list needs.
pub fn image_ids_wanted(items: &Vec<ItemRow>) -> (r: Vec<i64>)
    ensures
        r@ == image_owners(items@),
{
    let mut ids: Vec<i64> = Vec::new();
    let mut i: usize = 0;
    while i < items.len()
        invariant
            i <= items.len(),
            ids@ == image_owners(items@.take(i as int)),
        decreases items.len() - i,
    {
        assert(items@.take(i + 1).drop_last() =~= items@.take(i as int));
        ids.push(items[i].id);
        if let Some(s) = items[i].series_id {
            ids.push(s);
        }
        i = i + 1;
    }
    assert(items@.take(items@.len() as int) =~= items@);
    ids
}

/// The images of exactly these items are wanted: those in the list, and the
/// series of those that belong to one.
pub proof fn law_images_wanted(items: Seq<ItemRow>, id: i64)
    ensures
        image_owners(items).contains(id) <==> exists|i: int|
            0 <= i < items.len() && ((#[trigger] items[i]).id == id || items[i].series_id == Some(
                id,
            )),
    decreases items.len(),
{
    if items.len() > 0 {
        let rest = items.drop_last();
        let row = items.last();
        law_images_wanted(rest, id);
        let before = image_owners(rest);
        let all = image_owners(items);
        assert(forall|k: int| 0 <= k < before.len() ==> all[k] == #[trigger] before[k]);
        assert(all[before.len() as int] == row.id);
        if row.series_id is Some {
            assert(all[1int + before.len()] == row.series_id->0);
        }
        if all.contains(id) {
            let k = choose|k: int| 0 <= k < all.len() && all[k] == id;
            if k < before.len() {
                assert(before[k] == id);
                assert(before.contains(id));
                let i = choose|i: int|
                    0 <= i < rest.len() && ((#[trigger] rest[i]).id == id || rest[i].series_id
                        == Some(id));
                assert(items[i] == rest[i]);
            } else {
                assert(items[items.len() - 1] == row);
            }
        }
        if exists|i: int|
            0 <= i < items.len() && ((#[trigger] items[i]).id == id || items[i].series_id == Some(
                id,
            )) {
            let i = choose|i: int|
                0 <= i < items.len() && ((#[trigger] items[i]).id == id || items[i].series_id
                    == Some(id));
            if i < rest.len() {
                assert(rest[i] == items[i]);
                let k = choose|k: int| 0 <= k < before.len() && before[k] == id;
                assert(all[k] == id);
            } else {
                assert(items[i] == row);
            }
        }
    }
}

/// The milliseconds in so many ticks.
pub open spec fn ms_of_ticks(ticks: int) -> int {
    trunc_div(ticks, TICKS_PER_MS as int)
}

/// Ten thousand ticks are a millisecond, and a part of one does not count.
pub proof fn law_ticks_to_ms(ms: int, rest: int)
    requires
        0 <= ms,
        0 <= rest < 10_000,
    ensures
        ms_of_ticks(10_000 * ms + rest) == ms,
        ms_of_ticks(-(10_000 * ms + rest)) == -ms,
{
}

/// A request that is no document reports nothing: no item, no position, no
/// duration and no failure.
pub proof fn law_no_document_reports_nothing(r: Report)
    requires
        report_of(r, body_or_empty(None)),
    ensures
        r.item_id is None,
        r.position_ticks == 0,
        !r.failed,
        r.runtime_ticks == 0,
{
}

} // verus!
