//! Background jobs: what a request for one comes to, how far it is, and what
//! it reports in the end.

use vstd::arithmetic::power::pow;
use vstd::prelude::*;
use vstd::string::*;

use crate::block_cache::hex_digit;
use crate::number::{int_text, nat_text, push_i64, push_u64};
use crate::streaming::{law_plain_paths, local_path, plain_path};
use crate::text::{is_space, lemma_trim_bounds, lower, lowered, opt, opt_str, same, trim, trimmed};

verus! {

// ---------------------------------------------------------------------------
// Job identifiers

/// What `Uuid::parse_str` makes of a text; nothing where it is no UUID.
pub uninterp spec fn uuid_of(s: Seq<char>) -> Option<u128>;

/// `Uuid::parse_str`. The contract names the number that the text stands for.
#[verifier::external_body]
fn parse_uuid(s: &str) -> (r: Option<u128>)
    ensures
        r == uuid_of(s@),
{
    uuid::Uuid::parse_str(s).ok().map(|u| u.as_u128())
}

/// Digit `k` of the thirty-two hexadecimal digits of a number, from the left.
pub open spec fn hex_digit_at(number: u128, k: int) -> char {
    hex_digit((number as int / pow(16, (31 - k) as nat)) % 16)
}

/// How many hyphens stand before place `i` of a UUID.
pub open spec fn hyphens_before(i: int) -> int {
    if i <= 8 {
        0
    } else if i <= 13 {
        1
    } else if i <= 18 {
        2
    } else if i <= 23 {
        3
    } else {
        4
    }
}

/// A number as a UUID: its hexadecimal digits in lower case, in groups of eight,
/// four, four, four and twelve with hyphens between them.
pub open spec fn hyphenated(number: u128) -> Seq<char> {
    Seq::new(
        36,
        |i: int|
            if i == 8 || i == 13 || i == 18 || i == 23 {
                '-'
            } else {
                hex_digit_at(number, i - hyphens_before(i))
            },
    )
}

/// `Uuid::to_string` of the UUID with this number. The contract claims that it
/// is the hyphenated form in lower case, and that `Uuid::parse_str` reads the
/// number back.
#[verifier::external_body]
fn uuid_text(number: u128) -> (r: String)
    ensures
        r@ == hyphenated(number),
        uuid_of(r@) == Some(number),
{
    uuid::Uuid::from_u128(number).to_string()
}

/// How a request about a job is answered.
#[derive(Debug, Clone, Copy, PartialEq, Eq, Structural)]
pub enum JobAnswer {
    /// The identifier is no identifier.
    BadId,
    /// There is no such job.
    NotFound,
    /// Here it is.
    Found,
}

/// The identifier of a job, by which a client asks for it: its number as a UUID,
/// which stands for that job and no other.
pub fn job_id(number: u128) -> (r: String)
    ensures
        r@ == hyphenated(number),
        uuid_of(r@) == Some(number),
{
    uuid_text(number)
}

/// The number of a job.
pub fn job_number(raw: &str) -> (r: Option<u128>)
    ensures
        r == uuid_of(raw@),
{
    parse_uuid(raw)
}

/// How a request about a job is answered, given the job's number and whether it
/// is known.
pub fn job_answer(number: Option<u128>, known: bool) -> (r: JobAnswer)
    ensures
        r == if number is None {
            JobAnswer::BadId
        } else if known {
            JobAnswer::Found
        } else {
            JobAnswer::NotFound
        },
        r == answer_to(number, known),
{
    if number.is_none() {
        JobAnswer::BadId
    } else if known {
        JobAnswer::Found
    } else {
        JobAnswer::NotFound
    }
}

// ---------------------------------------------------------------------------
// Scanning

/// What is to be scanned.
#[derive(Debug)]
pub enum ScanTarget {
    /// The library of this folder.
    Folder(String),
    /// All libraries.
    All,
}

/// Whether `t` is what a request asks to scan: a folder, if one is named.
pub open spec fn target_of(t: ScanTarget, path: Option<Seq<char>>) -> bool {
    match path {
        Some(p) => if trim(p).len() > 0 {
            t matches ScanTarget::Folder(f) && f@ == trim(p)
        } else {
            t is All
        },
        None => t is All,
    }
}

/// What a request asks to scan.
pub fn scan_target(path: Option<&str>) -> (r: ScanTarget)
    ensures
        target_of(r, opt_str(path)),
{
    match path {
        Some(p) => {
            let t = trimmed(p);
            if t.as_str().is_empty() {
                ScanTarget::All
            } else {
                ScanTarget::Folder(t)
            }
        },
        None => ScanTarget::All,
    }
}

/// Why a scan is not started.
#[derive(Debug, Clone, Copy, PartialEq, Eq, Structural)]
pub enum ScanRefusal {
    /// The folder belongs to no library: a scan makes none.
    NotALibrary,
    /// There is no library to scan.
    NothingToScan,
    /// No scan could be queued.
    NotQueued,
}

impl ScanRefusal {
    /// The status of the answer.
    pub fn status(self) -> (r: u16)
        ensures
            r == match self {
                ScanRefusal::NotALibrary => 400u16,
                ScanRefusal::NothingToScan => 400u16,
                ScanRefusal::NotQueued => 500u16,
            },
    {
        match self {
            ScanRefusal::NotALibrary => 400,
            ScanRefusal::NothingToScan => 400,
            ScanRefusal::NotQueued => 500,
        }
    }

    /// The text of the answer.
    pub fn text(self) -> (r: &'static str)
        ensures
            r@ == match self {
                ScanRefusal::NotALibrary => "该路径未登记为媒体库，请先在「媒体库」页新建"@,
                ScanRefusal::NothingToScan => "无可扫描的媒体库（先在「媒体库」页新建）"@,
                ScanRefusal::NotQueued => "扫描入队失败"@,
            },
    {
        match self {
            ScanRefusal::NotALibrary => "该路径未登记为媒体库，请先在「媒体库」页新建",
            ScanRefusal::NothingToScan => "无可扫描的媒体库（先在「媒体库」页新建）",
            ScanRefusal::NotQueued => "扫描入队失败",
        }
    }
}

/// Whether there is anything to scan. `libraries` is the number of libraries
/// that were found; none where they could not be looked up.
pub fn check_scan(target: &ScanTarget, libraries: Option<usize>) -> (r: Result<(), ScanRefusal>)
    ensures
        match r {
            Ok(_) => libraries is Some && libraries->0 > 0,
            Err(ScanRefusal::NotQueued) => libraries is None,
            Err(ScanRefusal::NotALibrary) => libraries == Some(0usize) && target is Folder,
            Err(ScanRefusal::NothingToScan) => libraries == Some(0usize) && target is All,
        },
        r == may_scan(target is Folder, libraries),
{
    match libraries {
        None => Err(ScanRefusal::NotQueued),
        Some(n) => if n > 0 {
            Ok(())
        } else {
            match target {
                ScanTarget::Folder(_) => Err(ScanRefusal::NotALibrary),
                ScanTarget::All => Err(ScanRefusal::NothingToScan),
            }
        },
    }
}

/// Whether any scan was queued at all.
pub fn check_queued(queued: usize) -> (r: Result<(), ScanRefusal>)
    ensures
        match r {
            Ok(_) => queued > 0,
            Err(e) => queued == 0 && e == ScanRefusal::NotQueued,
        },
{
    if queued > 0 {
        Ok(())
    } else {
        Err(ScanRefusal::NotQueued)
    }
}

/// A queued scan: how it stands, and how many items it has updated.
#[derive(Debug)]
pub struct ScanRow {
    pub status: String,
    pub updated: i64,
}

/// How many of the scans have a status.
pub open spec fn count_status(rows: Seq<ScanRow>, status: Seq<char>) -> int
    decreases rows.len(),
{
    if rows.len() == 0 {
        0
    } else {
        count_status(rows.drop_last(), status) + if rows.last().status@ == status {
            1int
        } else {
            0int
        }
    }
}

fn count_rows(rows: &Vec<ScanRow>, status: &str) -> (r: usize)
    ensures
        r == count_status(rows@, status@),
        r <= rows@.len(),
{
    let mut n: usize = 0;
    let mut i: usize = 0;
    while i < rows.len()
        invariant
            i <= rows.len(),
            n <= i,
            n == count_status(rows@.take(i as int), status@),
        decreases rows.len() - i,
    {
        assert(rows@.take(i + 1).drop_last() =~= rows@.take(i as int));
        if same(rows[i].status.as_str(), status) {
            n = n + 1;
        }
        i = i + 1;
    }
    assert(rows@.take(rows@.len() as int) =~= rows@);
    n
}

/// What the watcher of a scan does next.
#[derive(Debug)]
pub enum ScanStep {
    /// All scans are over.
    Finish,
    /// Take back the scans that have not begun, and end.
    CancelPending,
    /// Report this, and look again later.
    Wait(String),
}

/// How far a scan is.
pub open spec fn scan_progress(running: int, pending: int) -> Seq<char> {
    "扫描中 running="@ + nat_text(running as nat) + " pending="@ + nat_text(pending as nat)
}

/// Whether `s` is what follows from how the scans stand.
pub open spec fn scan_step_of(s: ScanStep, rows: Seq<ScanRow>, cancelled: bool) -> bool {
    match s {
        ScanStep::Finish => count_status(rows, "pending"@) == 0 && count_status(rows, "running"@)
            == 0,
        ScanStep::CancelPending => cancelled && count_status(rows, "pending"@) + count_status(
            rows,
            "running"@,
        ) != 0,
        ScanStep::Wait(text) => !cancelled && count_status(rows, "pending"@) + count_status(
            rows,
            "running"@,
        ) != 0 && text@ == scan_progress(
            count_status(rows, "running"@),
            count_status(rows, "pending"@),
        ),
    }
}

/// What the watcher of a scan does next: it ends once no scan is pending or
/// running, or when it was cancelled.
pub fn scan_step(rows: &Vec<ScanRow>, cancelled: bool) -> (r: ScanStep)
    ensures
        ({
            let pending = count_status(rows@, "pending"@);
            let running = count_status(rows@, "running"@);
            if pending + running == 0 {
                r is Finish
            } else if cancelled {
                r is CancelPending
            } else {
                r matches ScanStep::Wait(text) && text@ == scan_progress(running, pending)
            }
        }),
        scan_step_of(r, rows@, cancelled),
{
    let pending: usize = count_rows(rows, "pending");
    let running: usize = count_rows(rows, "running");
    if pending == 0 && running == 0 {
        return ScanStep::Finish;
    }
    if cancelled {
        return ScanStep::CancelPending;
    }
    let mut s = "扫描中 running=".to_owned();
    push_u64(&mut s, running as u64);
    let mut s = s.concat(" pending=");
    push_u64(&mut s, pending as u64);
    ScanStep::Wait(s)
}

/// How many items the scans have updated that were not taken back.
pub open spec fn scanned_media(rows: Seq<ScanRow>) -> int
    decreases rows.len(),
{
    if rows.len() == 0 {
        0
    } else {
        scanned_media(rows.drop_last()) + if rows.last().status@ == "canceled"@ {
            0
        } else {
            rows.last().updated as int
        }
    }
}

/// Whether the sums over the first scans, one by one, stay within range.
pub open spec fn media_fits(rows: Seq<ScanRow>) -> bool {
    forall|i: int|
        0 <= i <= rows.len() ==> i64::MIN <= #[trigger] scanned_media(rows.take(i)) <= i64::MAX
}

/// What a scan comes to: how many items were updated, and how many scans failed.
pub fn scan_summary(rows: &Vec<ScanRow>) -> (r: (i64, usize))
    requires
        media_fits(rows@),
    ensures
        r.0 == scanned_media(rows@),
        r.1 == count_status(rows@, "failed"@),
{
    let mut media: i64 = 0;
    let mut i: usize = 0;
    while i < rows.len()
        invariant
            i <= rows.len(),
            media_fits(rows@),
            media == scanned_media(rows@.take(i as int)),
        decreases rows.len() - i,
    {
        proof {
            assert(rows@.take(i + 1).drop_last() =~= rows@.take(i as int));
            assert(i64::MIN <= scanned_media(rows@.take(i + 1)) <= i64::MAX);
        }
        if !same(rows[i].status.as_str(), "canceled") {
            media = media + rows[i].updated;
        }
        i = i + 1;
    }
    assert(rows@.take(rows@.len() as int) =~= rows@);
    (media, count_rows(rows, "failed"))
}

// ---------------------------------------------------------------------------
// Scraping

/// The library that a request is confined to: only a positive number names one.
pub fn scrape_scope(library_id: Option<i64>) -> (r: Option<i64>)
    ensures
        r == (match library_id {
            Some(n) => if n > 0 {
                Some(n)
            } else {
                None
            },
            None => None,
        }),
{
    match library_id {
        Some(n) => if n > 0 {
            Some(n)
        } else {
            None
        },
        None => None,
    }
}

/// How many items have the status: the first entry of that status counts.
pub open spec fn picked(rows: Seq<(String, i64)>, status: Seq<char>) -> i64
    decreases rows.len(),
{
    if rows.len() == 0 {
        0
    } else if rows[0].0@ == status {
        rows[0].1
    } else {
        picked(rows.skip(1), status)
    }
}

/// How many items have the status.
pub fn pick(rows: &Vec<(String, i64)>, status: &str) -> (r: i64)
    ensures
        r == picked(rows@, status@),
{
    let mut i: usize = 0;
    assert(rows@.skip(0) =~= rows@);
    while i < rows.len()
        invariant
            i <= rows.len(),
            picked(rows@, status@) == picked(rows@.skip(i as int), status@),
        decreases rows.len() - i,
    {
        assert(rows@.skip(i as int)[0] == rows@[i as int]);
        assert(rows@.skip(i as int).skip(1) =~= rows@.skip(i + 1));
        if same(rows[i].0.as_str(), status) {
            return rows[i].1;
        }
        i = i + 1;
    }
    0
}

/// How many items there are in all.
pub open spec fn total_items(rows: Seq<(String, i64)>) -> int
    decreases rows.len(),
{
    if rows.len() == 0 {
        0
    } else {
        total_items(rows.drop_last()) + rows.last().1
    }
}

/// How many items are still to be scraped.
pub open spec fn unscraped(rows: Seq<(String, i64)>) -> int
    decreases rows.len(),
{
    if rows.len() == 0 {
        0
    } else {
        unscraped(rows.drop_last()) + if rows.last().0@ == "pending"@ || rows.last().0@
            == "scraping"@ {
            rows.last().1 as int
        } else {
            0
        }
    }
}

/// Whether the sums over the first entries, one by one, stay within range.
pub open spec fn totals_fit(rows: Seq<(String, i64)>) -> bool {
    forall|i: int|
        0 <= i <= rows.len() ==> i64::MIN <= #[trigger] total_items(rows.take(i)) <= i64::MAX
}

/// Whether the sums of what is still to be scraped, entry by entry, stay within
/// range.
pub open spec fn unscraped_fit(rows: Seq<(String, i64)>) -> bool {
    forall|i: int|
        0 <= i <= rows.len() ==> i64::MIN <= #[trigger] unscraped(rows.take(i)) <= i64::MAX
}

fn sum_items(rows: &Vec<(String, i64)>) -> (r: i64)
    requires
        totals_fit(rows@),
    ensures
        r == total_items(rows@),
{
    let mut total: i64 = 0;
    let mut i: usize = 0;
    while i < rows.len()
        invariant
            i <= rows.len(),
            totals_fit(rows@),
            total == total_items(rows@.take(i as int)),
        decreases rows.len() - i,
    {
        proof {
            assert(rows@.take(i + 1).drop_last() =~= rows@.take(i as int));
            assert(i64::MIN <= total_items(rows@.take(i + 1)) <= i64::MAX);
        }
        total = total + rows[i].1;
        i = i + 1;
    }
    assert(rows@.take(rows@.len() as int) =~= rows@);
    total
}

fn sum_unscraped(rows: &Vec<(String, i64)>) -> (r: i64)
    requires
        unscraped_fit(rows@),
    ensures
        r == unscraped(rows@),
{
    let mut left: i64 = 0;
    let mut i: usize = 0;
    while i < rows.len()
        invariant
            i <= rows.len(),
            unscraped_fit(rows@),
            left == unscraped(rows@.take(i as int)),
        decreases rows.len() - i,
    {
        proof {
            assert(rows@.take(i + 1).drop_last() =~= rows@.take(i as int));
            assert(i64::MIN <= unscraped(rows@.take(i + 1)) <= i64::MAX);
        }
        if same(rows[i].0.as_str(), "pending") || same(rows[i].0.as_str(), "scraping") {
            left = left + rows[i].1;
        }
        i = i + 1;
    }
    assert(rows@.take(rows@.len() as int) =~= rows@);
    left
}

/// How the items of a scope stand.
#[derive(Debug, Clone, Copy, PartialEq, Eq, Structural)]
pub struct ScrapeCounts {
    pub pending: i64,
    pub scraped: i64,
    pub none: i64,
    pub failed: i64,
}

/// How the items of a scope stand.
pub open spec fn counts_of(rows: Seq<(String, i64)>) -> ScrapeCounts {
    ScrapeCounts {
        pending: picked(rows, "pending"@),
        scraped: picked(rows, "scraped"@),
        none: picked(rows, "none"@),
        failed: picked(rows, "failed"@),
    }
}

/// How the items of a scope stand.
pub fn snapshot(rows: &Vec<(String, i64)>) -> (r: ScrapeCounts)
    ensures
        r == counts_of(rows@),
{
    ScrapeCounts {
        pending: pick(rows, "pending"),
        scraped: pick(rows, "scraped"),
        none: pick(rows, "none"),
        failed: pick(rows, "failed"),
    }
}

/// What a scraping job does next.
#[derive(Debug)]
pub enum ScrapeStep {
    /// Nothing can be scraped: end, with this many items passed over.
    Skip(i64),
    /// Report this, and end with these counts.
    Report(String, ScrapeCounts),
    /// End with these counts.
    Finish(ScrapeCounts),
    /// End, because the job was cancelled.
    Cancelled,
    /// Report this, and look again later.
    Wait(String),
}

/// Whether only items without an identifier are looked at: that is so where
/// nothing can be scraped and nothing was asked to be scraped anew.
pub fn only_missing(configured: bool, force: bool) -> (r: bool)
    ensures
        r == (!configured && !force),
{
    !configured && !force
}

/// Whether `s` is what a scraping job does next.
pub open spec fn scrape_step_of(
    s: ScrapeStep,
    configured: bool,
    force: bool,
    rows: Seq<(String, i64)>,
    cancelled: bool,
) -> bool {
    if !configured {
        s matches ScrapeStep::Skip(n) && n == total_items(rows)
    } else if !force {
        s matches ScrapeStep::Report(text, counts) && counts == counts_of(rows) && text@
            == "当前 pending "@ + int_text(picked(rows, "pending"@) as int)
    } else if unscraped(rows) == 0 {
        s matches ScrapeStep::Finish(counts) && counts == counts_of(rows)
    } else if cancelled {
        s is Cancelled
    } else {
        s matches ScrapeStep::Wait(text) && text@ == "刮削中 剩余 "@ + int_text(unscraped(rows))
    }
}

/// What a scraping job does next. Without a key it passes over everything; it
/// waits for the items to be scraped only where they are scraped anew.
pub fn scrape_step(configured: bool, force: bool, rows: &Vec<(String, i64)>, cancelled: bool) -> (r:
    ScrapeStep)
    requires
        !configured ==> totals_fit(rows@),
        configured && force ==> unscraped_fit(rows@),
    ensures
        scrape_step_of(r, configured, force, rows@, cancelled),
{
    if !configured {
        return ScrapeStep::Skip(sum_items(rows));
    }
    if !force {
        let mut s = "当前 pending ".to_owned();
        push_i64(&mut s, pick(rows, "pending"));
        return ScrapeStep::Report(s, snapshot(rows));
    }
    let left: i64 = sum_unscraped(rows);
    if left == 0 {
        return ScrapeStep::Finish(snapshot(rows));
    }
    if cancelled {
        return ScrapeStep::Cancelled;
    }
    let mut s = "刮削中 剩余 ".to_owned();
    push_i64(&mut s, left);
    ScrapeStep::Wait(s)
}

// ---------------------------------------------------------------------------
// Probing

/// The options of a request to probe.
#[derive(Debug, Default)]
pub struct ProbeOpts {
    pub force: Option<String>,
}

/// Whether a word asks for force, in whatever case.
pub open spec fn forceful(word: Option<Seq<char>>) -> bool {
    match word {
        Some(w) => lower(w) == "1"@ || lower(w) == "true"@ || lower(w) == "yes"@ || lower(w)
            == "on"@,
        None => false,
    }
}

impl ProbeOpts {
    /// Whether all local files are probed, and not only those without streams.
    pub fn force(&self) -> (r: bool)
        ensures
            r == forceful(opt(self.force)),
    {
        match &self.force {
            Some(w) => {
                let l = lowered(w.as_str());
                same(l.as_str(), "1") || same(l.as_str(), "true") || same(l.as_str(), "yes")
                    || same(l.as_str(), "on")
            },
            None => false,
        }
    }
}

/// Whether a stored file lacks what a probe would give: its streams or its duration.
pub open spec fn lacks_probe(metadata: Option<Seq<char>>, duration: Option<i64>) -> bool {
    metadata is None || metadata == Some(""@) || metadata == Some("[]"@) || duration is None
}

/// Whether a stored file is probed.
pub fn wants_probe(force: bool, metadata: Option<&str>, duration: Option<i64>) -> (r: bool)
    ensures
        r == (force || lacks_probe(opt_str(metadata), duration)),
{
    force || metadata.is_none() || crate::text::opt_is(metadata, "") || crate::text::opt_is(
        metadata,
        "[]",
    ) || duration.is_none()
}

/// The file that a stored address stands for; none where there is no address.
pub open spec fn probed_path(url: Option<Seq<char>>) -> Seq<char> {
    match url {
        Some(u) => plain_path(u),
        None => Seq::empty(),
    }
}

/// The file that a stored address stands for.
pub fn probe_path(url: Option<&str>) -> (r: String)
    ensures
        r@ == probed_path(opt_str(url)),
{
    match url {
        Some(u) => local_path(u),
        None => String::new(),
    }
}

/// What came of probing one file.
#[derive(Debug, Clone, Copy, PartialEq, Eq, Structural)]
pub enum ProbeOutcome {
    /// The file is not there.
    Missing,
    /// So many rows were updated.
    Stored(u64),
    /// The result could not be stored.
    Failed,
}

/// What came of probing so far.
#[derive(Debug, Clone, Copy, PartialEq, Eq, Structural)]
pub struct ProbeTally {
    pub updated: usize,
    pub missing: usize,
    pub failed: usize,
}

impl ProbeTally {
    /// Nothing was probed yet.
    pub fn new() -> (r: ProbeTally)
        ensures
            r == (ProbeTally { updated: 0, missing: 0, failed: 0 }),
    {
        ProbeTally { updated: 0, missing: 0, failed: 0 }
    }

    /// Counts one more file; one whose row is gone counts nowhere.
    pub fn record(&mut self, outcome: ProbeOutcome)
        requires
            old(self).updated < usize::MAX,
            old(self).missing < usize::MAX,
            old(self).failed < usize::MAX,
        ensures
            *final(self) == (match outcome {
                ProbeOutcome::Missing => ProbeTally {
                    missing: (old(self).missing + 1) as usize,
                    ..*old(self)
                },
                ProbeOutcome::Stored(n) => if n > 0 {
                    ProbeTally { updated: (old(self).updated + 1) as usize, ..*old(self) }
                } else {
                    *old(self)
                },
                ProbeOutcome::Failed => ProbeTally {
                    failed: (old(self).failed + 1) as usize,
                    ..*old(self)
                },
            }),
            counted(*old(self), outcome, *final(self)),
    {
        match outcome {
            ProbeOutcome::Missing => {
                self.missing = self.missing + 1;
            },
            ProbeOutcome::Stored(n) => {
                if n > 0 {
                    self.updated = self.updated + 1;
                }
            },
            ProbeOutcome::Failed => {
                self.failed = self.failed + 1;
            },
        }
    }
}

/// How far probing is.
pub fn probe_progress(done: usize, of: usize) -> (r: String)
    ensures
        r@ == "探测 "@ + nat_text(done as nat) + "/"@ + nat_text(of as nat),
{
    let mut s = "探测 ".to_owned();
    push_u64(&mut s, done as u64);
    let mut s = s.concat("/");
    push_u64(&mut s, of as u64);
    s
}

/// The duration of a file: the one in its own header, or the one that the
/// prober reports.
pub fn probed_duration(header: Option<i64>, reported: Option<i64>) -> (r: Option<i64>)
    ensures
        r == crate::text::first_of(header, reported),
{
    if header.is_some() {
        header
    } else {
        reported
    }
}

// ---------------------------------------------------------------------------
// Watching

/// The folders that a request asks to watch: those it names, or those of all
/// libraries; a request that comes to none is refused.
pub fn watch_roots(named: Option<Vec<String>>, libraries: Vec<String>) -> (r: Option<Vec<String>>)
    ensures
        ({
            let wanted = if named is Some && named->0@.len() > 0 {
                named->0@
            } else {
                libraries@
            };
            match r {
                Some(v) => v@ == wanted && wanted.len() > 0,
                None => wanted.len() == 0,
            }
        }),
{
    if let Some(list) = named {
        if list.len() > 0 {
            return Some(list);
        }
    }
    if libraries.len() > 0 {
        Some(libraries)
    } else {
        None
    }
}

// ---------------------------------------------------------------------------
// What jobs come to

/// A status is counted once for each scan that has it, and a scan of another
/// status does not count.
pub proof fn law_status_counts(rows: Seq<ScanRow>, row: ScanRow, status: Seq<char>)
    ensures
        0 <= count_status(rows, status) <= rows.len(),
        count_status(rows, status) == 0 <==> forall|i: int|
            0 <= i < rows.len() ==> (#[trigger] rows[i]).status@ != status,
        row.status@ == status ==> count_status(rows.push(row), status) == count_status(rows, status)
            + 1,
        row.status@ != status ==> count_status(rows.push(row), status) == count_status(rows, status),
    decreases rows.len(),
{
    assert(rows.push(row).drop_last() =~= rows);
    if rows.len() > 0 {
        let rest = rows.drop_last();
        law_status_counts(rest, row, status);
        assert(rows[rows.len() - 1] == rows.last());
        assert forall|i: int| 0 <= i < rest.len() implies #[trigger] rest[i] == rows[i] by {
        }
        if count_status(rows, status) == 0 {
            assert forall|i: int| 0 <= i < rows.len() implies (#[trigger] rows[i]).status@
                != status by {
                if i < rest.len() {
                    assert(rest[i] == rows[i]);
                }
            }
        } else if count_status(rest, status) != 0 {
            let i = choose|i: int| 0 <= i < rest.len() && (#[trigger] rest[i]).status@ == status;
            assert(rows[i].status@ == status);
        }
    }
}

/// A job of scans is over exactly when none of them is left to run or running;
/// until then it ends only by being cancelled.
pub proof fn law_scans_are_awaited(s: ScanStep, rows: Seq<ScanRow>, cancelled: bool)
    requires
        scan_step_of(s, rows, cancelled),
    ensures
        s is Finish <==> forall|i: int|
            0 <= i < rows.len() ==> (#[trigger] rows[i]).status@ != "pending"@ && rows[i].status@
                != "running"@,
        s is CancelPending ==> cancelled,
        s is Wait ==> !cancelled,
        rows.len() == 0 ==> s is Finish,
{
    if rows.len() > 0 {
        law_status_counts(rows, rows[0], "pending"@);
        law_status_counts(rows, rows[0], "running"@);
    }
    if s is Finish {
        assert forall|i: int| 0 <= i < rows.len() implies (#[trigger] rows[i]).status@ != "pending"@
            && rows[i].status@ != "running"@ by {
        }
    }
}

/// What a scan has updated counts unless the scan was taken back.
pub proof fn law_updates_count(rows: Seq<ScanRow>, row: ScanRow)
    ensures
        row.status@ != "canceled"@ ==> scanned_media(rows.push(row)) == scanned_media(rows)
            + row.updated,
        row.status@ == "canceled"@ ==> scanned_media(rows.push(row)) == scanned_media(rows),
        scanned_media(Seq::empty()) == 0,
{
    assert(rows.push(row).drop_last() =~= rows);
}

/// A request to scan names a folder, without the blanks around it, or means all
/// libraries.
pub proof fn law_scan_target(t: ScanTarget, folder: Seq<char>)
    requires
        folder.len() > 0,
        !is_space(folder[0]) && !is_space(folder.last()),
    ensures
        target_of(t, Some(folder)) ==> (t matches ScanTarget::Folder(f) && f@ == folder),
        target_of(t, None) ==> t is All,
        target_of(t, Some(Seq::empty())) ==> t is All,
        target_of(t, Some(seq![' '])) ==> t is All,
{
    let p = |c: char| is_space(c);
    lemma_trim_bounds(folder, p, 0, folder.len() as int);
    assert(folder.subrange(0, folder.len() as int) =~= folder);
    let empty = Seq::<char>::empty();
    let blank = seq![' '];
    lemma_trim_bounds(empty, p, 0, 0);
    lemma_trim_bounds(blank, p, 1, 1);
}

/// The number of items of a status is that of its first row, and zero where it
/// has none.
pub proof fn law_picked_counts(rows: Seq<(String, i64)>, status: Seq<char>, k: int)
    ensures
        0 <= k < rows.len() && rows[k].0@ == status && (forall|i: int|
            0 <= i < k ==> (#[trigger] rows[i]).0@ != status) ==> picked(rows, status) == rows[k].1,
        (forall|i: int| 0 <= i < rows.len() ==> (#[trigger] rows[i]).0@ != status) ==> picked(
            rows,
            status,
        ) == 0,
    decreases rows.len(),
{
    if rows.len() > 0 && rows[0].0@ != status {
        let rest = rows.skip(1);
        law_picked_counts(rest, status, k - 1);
        if 0 <= k < rows.len() && rows[k].0@ == status && (forall|i: int|
            0 <= i < k ==> (#[trigger] rows[i]).0@ != status) {
            assert(k > 0);
            assert(rest[k - 1] == rows[k]);
            assert forall|i: int| 0 <= i < k - 1 implies (#[trigger] rest[i]).0@ != status by {
                assert(rest[i] == rows[i + 1]);
            }
        }
        if forall|i: int| 0 <= i < rows.len() ==> (#[trigger] rows[i]).0@ != status {
            assert forall|i: int| 0 <= i < rest.len() implies (#[trigger] rest[i]).0@ != status by {
                assert(rest[i] == rows[i + 1]);
            }
        }
    }
}

/// Items are left to scrape while they are pending or being scraped, and all
/// items count for what is passed over.
pub proof fn law_scrape_sums(rows: Seq<(String, i64)>, row: (String, i64))
    ensures
        row.0@ == "pending"@ || row.0@ == "scraping"@ ==> unscraped(rows.push(row)) == unscraped(
            rows,
        ) + row.1,
        row.0@ != "pending"@ && row.0@ != "scraping"@ ==> unscraped(rows.push(row)) == unscraped(
            rows,
        ),
        total_items(rows.push(row)) == total_items(rows) + row.1,
        unscraped(Seq::empty()) == 0,
        total_items(Seq::empty()) == 0,
{
    assert(rows.push(row).drop_last() =~= rows);
}

/// A job that scrapes passes everything over where nothing is configured,
/// reports how things stand unless it is to scrape all, and otherwise goes on
/// until nothing is left or it is cancelled.
pub proof fn law_scrape_steps(
    s: ScrapeStep,
    configured: bool,
    force: bool,
    rows: Seq<(String, i64)>,
    cancelled: bool,
)
    requires
        scrape_step_of(s, configured, force, rows, cancelled),
    ensures
        s is Skip <==> !configured,
        s is Report <==> configured && !force,
        s is Finish <==> configured && force && unscraped(rows) == 0,
        s is Cancelled <==> configured && force && unscraped(rows) != 0 && cancelled,
        s is Wait <==> configured && force && unscraped(rows) != 0 && !cancelled,
        s matches ScrapeStep::Skip(n) ==> n == total_items(rows),
        s matches ScrapeStep::Report(text, counts) ==> counts.pending == picked(rows, "pending"@)
            && counts.scraped == picked(rows, "scraped"@) && counts.none == picked(rows, "none"@)
            && counts.failed == picked(rows, "failed"@) && text@ == "当前 pending "@ + int_text(
            counts.pending as int,
        ),
        s matches ScrapeStep::Finish(counts) ==> counts.pending == picked(rows, "pending"@)
            && counts.scraped == picked(rows, "scraped"@) && counts.none == picked(rows, "none"@)
            && counts.failed == picked(rows, "failed"@),
        s matches ScrapeStep::Wait(text) ==> text@ == "刮削中 剩余 "@ + int_text(unscraped(rows)),
{
}

/// The words by which a probe is forced; no other word and no word forces one.
pub proof fn law_force_words(w: Seq<char>)
    ensures
        forceful(Some("1"@)) && forceful(Some("true"@)) && forceful(Some("yes"@)) && forceful(
            Some("on"@),
        ) && forceful(Some("TRUE"@)),
        !forceful(None),
        !forceful(Some("0"@)) && !forceful(Some("false"@)),
        w.len() > 4 ==> !forceful(Some(w)),
{
    reveal_strlit("1");
    reveal_strlit("true");
    reveal_strlit("yes");
    reveal_strlit("on");
    reveal_strlit("TRUE");
    reveal_strlit("0");
    reveal_strlit("false");
    assert(lower("1"@) =~= "1"@);
    assert(lower("true"@) =~= "true"@);
    assert(lower("yes"@) =~= "yes"@);
    assert(lower("on"@) =~= "on"@);
    assert(lower("TRUE"@) =~= "true"@);
    assert(lower("0"@)[0] == '0');
    assert("1"@[0] == '1');
    assert(lower("0"@).len() == 1 && lower("false"@).len() == 5 && lower(w).len() == w.len());
}

/// A file is probed that has no duration or no streams; one with both is not.
pub proof fn law_what_lacks_a_probe(metadata: Seq<char>, seconds: i64)
    requires
        metadata.len() > 2,
    ensures
        !lacks_probe(Some(metadata), Some(seconds)),
        lacks_probe(Some(metadata), None),
        lacks_probe(None, Some(seconds)),
        lacks_probe(Some(""@), Some(seconds)),
        lacks_probe(Some("[]"@), Some(seconds)),
{
    reveal_strlit("");
    reveal_strlit("[]");
}

/// What a question about a job is answered with.
pub open spec fn answer_to(number: Option<u128>, known: bool) -> JobAnswer {
    match number {
        None => JobAnswer::BadId,
        Some(_) => if known {
            JobAnswer::Found
        } else {
            JobAnswer::NotFound
        },
    }
}

/// Whether a scan may be queued, given how many libraries it concerns.
pub open spec fn may_scan(of_folder: bool, libraries: Option<usize>) -> Result<(), ScanRefusal> {
    match libraries {
        None => Err(ScanRefusal::NotQueued),
        Some(n) => if n > 0 {
            Ok(())
        } else if of_folder {
            Err(ScanRefusal::NotALibrary)
        } else {
            Err(ScanRefusal::NothingToScan)
        },
    }
}

/// Whether `after` counts one outcome more than `before`.
pub open spec fn counted(before: ProbeTally, outcome: ProbeOutcome, after: ProbeTally) -> bool {
    &&& after.updated == before.updated + (if outcome matches ProbeOutcome::Stored(n) && n > 0 {
        1int
    } else {
        0int
    })
    &&& after.missing == before.missing + (if outcome is Missing {
        1int
    } else {
        0int
    })
    &&& after.failed == before.failed + (if outcome is Failed {
        1int
    } else {
        0int
    })
}

/// A job is found by a valid identifier of a job that is known, and by nothing
/// else; an identifier that is none is told apart from one that nobody has.
pub proof fn law_job_answers(number: Option<u128>, known: bool)
    ensures
        answer_to(number, known) == JobAnswer::Found <==> number is Some && known,
        answer_to(number, known) == JobAnswer::NotFound <==> number is Some && !known,
        answer_to(number, known) == JobAnswer::BadId <==> number is None,
{
}

/// A scan is queued exactly where it concerns a library.
pub proof fn law_scans_need_a_library(of_folder: bool, libraries: Option<usize>)
    ensures
        may_scan(of_folder, libraries) is Ok <==> libraries is Some && libraries->0 > 0,
        may_scan(of_folder, libraries) == Err::<(), ScanRefusal>(ScanRefusal::NotALibrary)
            <==> of_folder && libraries == Some(0usize),
        may_scan(of_folder, libraries) == Err::<(), ScanRefusal>(ScanRefusal::NothingToScan)
            <==> !of_folder && libraries == Some(0usize),
        may_scan(of_folder, libraries) == Err::<(), ScanRefusal>(ScanRefusal::NotQueued)
            <==> libraries is None,
{
}

/// Every probe counts at most once: as updated where it stored a row, as missing
/// or as failed; one that stored nothing does not count.
pub proof fn law_probes_are_counted(before: ProbeTally, outcome: ProbeOutcome, after: ProbeTally)
    requires
        counted(before, outcome, after),
    ensures
        outcome is Missing ==> after.missing == before.missing + 1 && after.updated
            == before.updated && after.failed == before.failed,
        outcome is Failed ==> after.failed == before.failed + 1 && after.updated == before.updated
            && after.missing == before.missing,
        outcome matches ProbeOutcome::Stored(n) ==> after.missing == before.missing && after.failed
            == before.failed && (n > 0 ==> after.updated == before.updated + 1) && (n == 0
            ==> after.updated == before.updated),
{
}

/// The identifier of a job has thirty-six characters, with hyphens behind the
/// first eight, and behind the next three groups of four.
pub proof fn law_job_id_form(number: u128, i: int)
    requires
        0 <= i < 36,
    ensures
        hyphenated(number).len() == 36,
        i == 8 || i == 13 || i == 18 || i == 23 ==> hyphenated(number)[i] == '-',
        i < 8 ==> hyphenated(number)[i] == hex_digit_at(number, i),
        24 <= i ==> hyphenated(number)[i] == hex_digit_at(number, i - 4),
        9 <= i < 13 ==> hyphenated(number)[i] == hex_digit_at(number, i - 1),
        14 <= i < 18 ==> hyphenated(number)[i] == hex_digit_at(number, i - 2),
        19 <= i < 23 ==> hyphenated(number)[i] == hex_digit_at(number, i - 3),
{
}

/// What is probed is a path of the machine, without the scheme in front of it.
pub proof fn law_probed_paths(path: Seq<char>)
    ensures
        probed_path(Some("file://"@ + path)) == path,
        probed_path(Some("/"@ + path)) == "/"@ + path,
        probed_path(None).len() == 0,
{
    law_plain_paths(path);
}

} // verus!
