//! The block cache, the two-tier cache, libraries, the watcher and jobs.

use emrs::block_cache::{
    belongs_to, block_name, evicted, is_block_file, key_hash, lock_name, name_of_digest,
    next_block_step, stats, BlockCacheConfig, BlockEvent, BlockStep, RangeRead,
};
use emrs::cache::{
    after_far, after_near, cache_plan, item_key, playback_info_key, playback_info_pattern,
    resume_key, session_key, stale_keys, tiers_to_write, token_key, user_key, CacheBackend, CacheError, CachePlan, Tier,
    TierStep,
};
use emrs::jobs::{
    check_queued, check_scan, wants_probe, job_answer, job_id, job_number, only_missing, pick, probe_path,
    probe_progress, probed_duration, scan_step, scan_summary, scan_target, scrape_scope,
    scrape_step, snapshot, watch_roots, JobAnswer, ProbeOpts, ProbeOutcome, ProbeTally, ScanRefusal,
    ScanRow, ScanStep, ScanTarget, ScrapeCounts, ScrapeStep,
};
use emrs::library::{
    change_status, check_library_change, check_new_library, deletion_plan, deletion_status,
    folder_step, get_or_create_by_path, identify_step, is_valid_collection_type, library_name, listed_status,
    metadata_tables, path_type, refusal_text, unresolved_path, FolderStep, IdentifyStep, Refusal,
    Table,
};
use emrs::watcher::{
    match_roots, path_in, watch_plan, Batch, Resolved, WatchAction, WatchEvent,
};

fn texts(list: &[&str]) -> Vec<String> {
    list.iter().map(|s| s.to_string()).collect()
}

#[test]
fn key_hash_stable_and_safe() {
    assert_eq!(key_hash("abc"), key_hash("abc"));
    assert_ne!(key_hash("abc"), key_hash("abd"));
    assert!(!key_hash("../evil").contains(".."));
    assert_eq!(key_hash("abc"), "ba7816bf8f01cfea414140de");
    assert_eq!(key_hash("abc").len(), 24);
}

#[test]
fn block_files() {
    let cfg = BlockCacheConfig::default();
    assert_eq!(cfg.dir, "data/block-cache");
    assert_eq!((cfg.block_size, cfg.max_blocks, cfg.fetch_timeout_secs), (4 << 20, 1024, 30));
    assert_eq!(block_name("ab", 0), "ab-00000000.bin");
    assert_eq!(block_name("ab", 0x1f), "ab-0000001f.bin");
    assert_eq!(block_name("ab", u64::MAX), "ab-ffffffffffffffff.bin");
    assert_eq!(lock_name("ab", 31), "ab:31");
    assert_eq!(name_of_digest(&(0..12).collect()), "000102030405060708090a0b");
    assert!(is_block_file("x.bin"));
    assert!(!is_block_file(".bin"));
    assert!(!is_block_file("x.tmp"));
    assert!(belongs_to(&block_name("ab", 7), "ab"));
    assert!(!belongs_to(&block_name("ab", 7), "ac"));
    assert_eq!(
        stats(&vec![("a.bin".into(), 3), ("b.tmp".into(), 9), ("c.bin".into(), 4)]),
        (2, 7)
    );
}

fn read(source: &[u8], start: u64, end: Option<u64>, size: u64) -> (Vec<u8>, usize) {
    let mut r = RangeRead::new(start, end, size);
    let mut reads = 0;
    while let Some(idx) = r.wanted() {
        let from = ((idx * size) as usize).min(source.len());
        let to = (from + size as usize).min(source.len());
        r.feed(&source[from..to].to_vec());
        reads += 1;
    }
    (r.out, reads)
}

#[test]
fn read_range_spans_blocks() {
    let source: Vec<u8> = (0..64).collect();
    let (v, reads) = read(&source, 5, Some(40), 16);
    assert_eq!(v, source[5..40].to_vec());
    assert_eq!(reads, 3);
}

#[test]
fn read_range_to_eof() {
    let source: Vec<u8> = (0..64).collect();
    assert_eq!(read(&source, 48, None, 16).0, source[48..].to_vec());
}

#[test]
fn every_range_is_read_back() {
    let source: Vec<u8> = (0..23).collect();
    for size in [1, 4, 5, 23, 40] {
        for start in 0..30u64 {
            assert_eq!(read(&source, start, None, size).0, source[(start as usize).min(23)..]);
            for end in start..30 {
                let expected =
                    source[(start as usize).min(23)..(end as usize).min(23)].to_vec();
                assert_eq!(read(&source, start, Some(end), size).0, expected);
            }
        }
    }
}

#[test]
fn read_block_caches_after_first_fetch() {
    let next = |s, e| next_block_step(s, e, 3, 16);
    let s = next(BlockStep::Look, BlockEvent::Length(None));
    assert_eq!(s, BlockStep::Lock);
    let s = next(s, BlockEvent::Done);
    let s = next(s, BlockEvent::Length(None));
    assert_eq!(s, BlockStep::Fetch(48));
    let s = next(s, BlockEvent::Bytes(Some(16)));
    assert_eq!(s, BlockStep::Store);
    assert_eq!(next(s, BlockEvent::Done), BlockStep::Return);
    let s = next(BlockStep::Look, BlockEvent::Length(Some(16)));
    assert_eq!(s, BlockStep::Read(16));
    assert_eq!(next(s, BlockEvent::Bytes(Some(16))), BlockStep::ReturnCached);
    assert_eq!(next(s, BlockEvent::Bytes(Some(15))), BlockStep::Lock);
    assert_eq!(next(s, BlockEvent::Bytes(None)), BlockStep::Fail);
    assert_eq!(next(BlockStep::LookAgain, BlockEvent::Length(Some(2))), BlockStep::ReadLocked);
    assert_eq!(next(BlockStep::ReadLocked, BlockEvent::Bytes(Some(2))), BlockStep::Return);
    assert_eq!(next(BlockStep::Fetch(48), BlockEvent::Bytes(Some(0))), BlockStep::Return);
    assert_eq!(next(BlockStep::Fetch(48), BlockEvent::Bytes(None)), BlockStep::Fail);
}

#[test]
fn evict_keeps_max_blocks() {
    assert_eq!(evicted(&vec![5, 1, 9, 1, 7, 3], 4), vec![1, 3]);
    assert!(evicted(&vec![5, 1, 9, 1], 4).is_empty());
    assert_eq!(evicted(&vec![2, 2, 2], 0), vec![0, 1, 2]);
    assert!(evicted(&vec![], 0).is_empty());
}

#[test]
fn factory_memory_default() {
    assert!(matches!(cache_plan(CacheBackend::Memory, None), Ok(CachePlan::Memory)));
}

#[test]
fn factory_redis_requires_url() {
    match cache_plan(CacheBackend::Redis, None) {
        Err(CacheError::Unavailable(text)) => assert_eq!(text, "Redis 后端必须配置 cache.url"),
        Ok(_) => panic!("a server needs an address"),
    }
    match cache_plan(CacheBackend::Valkey, Some("redis://x")) {
        Ok(CachePlan::Server(CacheBackend::Valkey, url)) => assert_eq!(url, "redis://x"),
        _ => panic!("a server with an address is used"),
    }
}

#[test]
fn cache_keys_and_tiers() {
    assert_eq!(token_key("h"), "auth:token:h");
    assert_eq!(user_key(3), "auth:user:3");
    assert_eq!(item_key(-3), "item:-3");
    assert_eq!(session_key("s"), "session:s");
    assert_eq!(resume_key(1, 2), "resume:1:2");
    assert_eq!(playback_info_key(1, 2, "p"), "pbinfo:1:2:p");
    assert_eq!(playback_info_pattern(1), "pbinfo:1:*");
    let keys: Vec<String> = [(1, 2), (1, 30), (12, 2), (-1, 2)]
        .iter()
        .map(|(item, user)| playback_info_key(*item, *user, "p"))
        .chain(texts(&["pbinfo:1", "item:1"]))
        .collect();
    assert_eq!(stale_keys(&keys, &playback_info_pattern(1)), keys[..2].to_vec());
    assert_eq!(stale_keys(&keys, "item:1"), texts(&["item:1"]));
    assert_eq!(stale_keys(&keys, "*"), keys);
    assert!(stale_keys(&keys, "").is_empty());
    assert_eq!(tiers_to_write(true), vec![Tier::Near, Tier::Far]);
    assert_eq!(tiers_to_write(false), vec![Tier::Near]);
    assert!(matches!(after_near(Some("v".into()), true), TierStep::Return(Some(v)) if v == "v"));
    assert!(matches!(after_near(None, true), TierStep::AskFar));
    assert!(matches!(after_near(None, false), TierStep::Return(None)));
    assert!(matches!(after_far(Some("v".into())), TierStep::Backfill(v) if v == "v"));
    assert!(matches!(after_far(None), TierStep::Return(None)));
}

#[test]
fn match_roots_prefix() {
    let roots = texts(&["/lib"]);
    let pending = texts(&["/lib/Movies/a.strm", "/other/b.strm"]);
    let hits = match_roots(&pending, &roots);
    assert_eq!(hits.len(), 1);
}

#[test]
fn innermost_root_is_hit() {
    let roots = texts(&["/lib", "/lib/sub", "/x"]);
    assert_eq!(match_roots(&texts(&["/lib/sub/a"]), &roots), texts(&["/lib/sub"]));
    assert_eq!(
        match_roots(&texts(&["/lib/sub/a", "/lib/b"]), &roots),
        texts(&["/lib", "/lib/sub"])
    );
    assert!(match_roots(&texts(&["/library/a"]), &roots).is_empty());
    assert!(path_in("/lib//sub/./a", "/lib/sub/"));
    assert!(!path_in("lib/a", "/lib"));
    assert!(!path_in("./a", "a"));
    assert!(path_in("/", "/"));
}

#[test]
fn batches_of_changes() {
    let roots = texts(&["/a", "/b"]);
    let mut batch = Batch::new(1);
    let idle = batch.step(WatchEvent::Elapsed, 1, &roots);
    assert!(matches!(idle, WatchAction::Continue));
    for p in ["/a/1", "/b/2", "/a/1"] {
        let wait = batch.step(WatchEvent::Changed(p.into()), 1, &roots);
        assert!(matches!(wait, WatchAction::Wait));
    }
    assert_eq!(batch.pending.len(), 2);
    match batch.step(WatchEvent::Elapsed, 1, &roots) {
        WatchAction::Scan(hits) => assert_eq!(hits, roots),
        _ => panic!("the batch is scanned"),
    }
    assert!(batch.pending.is_empty());
    assert!(matches!(batch.step(WatchEvent::Closed, 1, &roots), WatchAction::Stop));
    batch.step(WatchEvent::Changed("/a/3".into()), 1, &roots);
    assert!(matches!(batch.step(WatchEvent::Closed, 1, &roots), WatchAction::Continue));
    assert!(matches!(batch.step(WatchEvent::Elapsed, 2, &roots), WatchAction::Stop));
}

#[test]
fn watched_folders() {
    let r = |given: &str, result: Result<&str, &str>| Resolved {
        given: given.into(),
        result: result.map(String::from).map_err(String::from),
    };
    let plan = watch_plan(&vec![], &vec![
        r("x", Ok("/x")),
        r("./x", Ok("/x")),
        r("y", Err("gone")),
        r("z", Ok("/z")),
    ]);
    assert_eq!(plan.roots, texts(&["/x", "/z"]));
    assert_eq!(plan.failed, vec![("y".to_string(), "gone".to_string())]);
    let again = watch_plan(&plan.roots, &vec![r("n", Ok("/n")), r("z", Ok("/z"))]);
    assert_eq!(again.roots, texts(&["/x", "/z", "/n"]));
    assert_eq!(watch_roots(Some(texts(&["a"])), texts(&["b"])), Some(texts(&["a"])));
    assert_eq!(watch_roots(Some(vec![]), texts(&["b"])), Some(texts(&["b"])));
    assert_eq!(watch_roots(None, vec![]), None);
}

#[test]
fn libraries() {
    assert!(is_valid_collection_type("tvshows"));
    assert!(is_valid_collection_type("playlists"));
    assert!(!is_valid_collection_type("TVShows"));
    assert_eq!(path_type("http://x"), "strm");
    assert_eq!(path_type("https://x"), "strm");
    assert_eq!(path_type("/x"), "local");
    assert_eq!(unresolved_path(" D:\\a\\b "), "D:/a/b");
    assert_eq!(library_name(Some("m")), "m");
    assert_eq!(library_name(None), "Library");
    assert_eq!(check_new_library("a", "/b", None).unwrap(), "tvshows");
    assert_eq!(check_new_library("a", "/b", Some("movies")).unwrap(), "movies");
    assert_eq!(check_new_library("", "/b", Some("x")).unwrap_err(), Refusal::Empty);
    assert_eq!(check_new_library("a", "", None).unwrap_err(), Refusal::Empty);
    assert_eq!(check_new_library("a", "/b", Some("x")).unwrap_err(), Refusal::CollectionType);
    assert_eq!(check_library_change(None), Ok(()));
    assert_eq!(check_library_change(Some("x")), Err(Refusal::CollectionType));
    assert_eq!(refusal_text(Refusal::Empty, None), "name 和 path 不能为空");
    assert_eq!(refusal_text(Refusal::CollectionType, Some("x")), "非法 collection_type: x");
    assert!(matches!(get_or_create_by_path(Some(4), "n", "/a"), Ok(4)));
    for (path, kind) in [("/a", "local"), ("http://a", "strm"), ("https://a", "strm")] {
        let row = get_or_create_by_path(None, "n", path).unwrap_err();
        assert_eq!((row.name.as_str(), row.path.as_str(), row.path_type), ("n", path, kind));
    }
    assert_eq!(folder_step(Some(4)), FolderStep::Existing(4));
    assert_eq!(folder_step(None), FolderStep::Create);
    assert_eq!((change_status(Some(1)), change_status(Some(0)), change_status(None)), (200, 404, 500));
    assert_eq!(
        (deletion_status(Some(1)), deletion_status(Some(0)), deletion_status(None)),
        (204, 404, 500)
    );
    let plan = deletion_plan();
    assert_eq!(plan.len(), 12);
    assert_eq!(plan[0], Table::ExternalSubtitle);
    assert_eq!(plan[11], Table::Library);
    assert_eq!(identify_step(None, None), IdentifyStep::Fail);
    assert_eq!(identify_step(Some(0), None), IdentifyStep::NotFound);
    assert_eq!(identify_step(Some(1), None), IdentifyStep::ClearAndScrape);
    assert_eq!(identify_step(Some(1), Some(false)), IdentifyStep::Scrape);
    assert_eq!(metadata_tables().len(), 5);
    assert_eq!(listed_status(None), "pending");
    assert_eq!(listed_status(Some("none")), "none");
}

#[test]
fn scans() {
    assert!(matches!(scan_target(Some(" /a ")), ScanTarget::Folder(p) if p == "/a"));
    assert!(matches!(scan_target(Some("  ")), ScanTarget::All));
    assert!(matches!(scan_target(None), ScanTarget::All));
    let folder = scan_target(Some("/a"));
    assert_eq!(check_scan(&folder, Some(1)), Ok(()));
    assert_eq!(check_scan(&folder, Some(0)), Err(ScanRefusal::NotALibrary));
    assert_eq!(check_scan(&ScanTarget::All, Some(0)), Err(ScanRefusal::NothingToScan));
    assert_eq!(check_scan(&folder, None), Err(ScanRefusal::NotQueued));
    assert_eq!(check_queued(0), Err(ScanRefusal::NotQueued));
    assert_eq!(check_queued(2), Ok(()));
    assert_eq!((ScanRefusal::NotALibrary.status(), ScanRefusal::NotQueued.status()), (400, 500));
    assert_eq!(ScanRefusal::NothingToScan.text(), "无可扫描的媒体库（先在「媒体库」页新建）");
    assert_eq!(ScanRefusal::NotALibrary.text(), "该路径未登记为媒体库，请先在「媒体库」页新建");
    assert_eq!(ScanRefusal::NotQueued.text(), "扫描入队失败");
    let row = |s: &str, n: i64| ScanRow { status: s.into(), updated: n };
    let rows = vec![row("pending", 0), row("running", 2), row("done", 5)];
    assert!(matches!(scan_step(&rows, true), ScanStep::CancelPending));
    match scan_step(&rows, false) {
        ScanStep::Wait(text) => assert_eq!(text, "扫描中 running=1 pending=1"),
        _ => panic!("scans are under way"),
    }
    let over = vec![row("done", 5), row("failed", 2), row("canceled", 9)];
    assert!(matches!(scan_step(&over, true), ScanStep::Finish));
    assert_eq!(scan_summary(&over), (7, 1));
}

#[test]
fn scrapes() {
    assert_eq!(scrape_scope(Some(3)), Some(3));
    assert_eq!(scrape_scope(Some(0)), None);
    assert_eq!(scrape_scope(None), None);
    let rows: Vec<(String, i64)> =
        vec![("pending".into(), 4), ("scraping".into(), 1), ("none".into(), 2)];
    assert_eq!(pick(&rows, "none"), 2);
    assert_eq!(pick(&rows, "failed"), 0);
    let counts = ScrapeCounts { pending: 4, scraped: 0, none: 2, failed: 0 };
    assert_eq!(snapshot(&rows), counts);
    assert!(matches!(scrape_step(false, true, &rows, false), ScrapeStep::Skip(7)));
    match scrape_step(true, false, &rows, false) {
        ScrapeStep::Report(text, c) => {
            assert_eq!(text, "当前 pending 4");
            assert_eq!(c, counts);
        }
        _ => panic!("a report"),
    }
    match scrape_step(true, true, &rows, false) {
        ScrapeStep::Wait(text) => assert_eq!(text, "刮削中 剩余 5"),
        _ => panic!("items are left"),
    }
    assert!(matches!(scrape_step(true, true, &rows, true), ScrapeStep::Cancelled));
    let done: Vec<(String, i64)> = vec![("scraped".into(), 4)];
    assert!(matches!(scrape_step(true, true, &done, true), ScrapeStep::Finish(c) if c.scraped == 4));
    let huge: Vec<(String, i64)> = vec![("none".into(), i64::MAX), ("failed".into(), i64::MAX)];
    assert!(matches!(scrape_step(true, false, &huge, false), ScrapeStep::Report(_, _)));
    assert!(matches!(scrape_step(true, true, &huge, false), ScrapeStep::Finish(_)));
    assert!(only_missing(false, false));
    assert!(!only_missing(true, false));
    assert!(!only_missing(false, true));
}

#[test]
fn probes() {
    let opts = |s: Option<&str>| ProbeOpts { force: s.map(String::from) };
    assert!(opts(Some("YES")).force());
    assert!(opts(Some("1")).force());
    assert!(!opts(Some("2")).force());
    assert!(!opts(None).force());
    assert!(wants_probe(true, Some("[1]"), Some(3)));
    assert!(!wants_probe(false, Some("[1]"), Some(3)));
    assert!(wants_probe(false, Some("[1]"), None));
    assert!(wants_probe(false, Some("[]"), Some(3)));
    assert!(wants_probe(false, None, Some(3)));
    assert_eq!(probe_path(Some("file:///a")), "/a");
    assert_eq!(probe_path(None), "");
    assert_eq!(probe_progress(2, 9), "探测 2/9");
    assert_eq!(probed_duration(None, Some(4)), Some(4));
    assert_eq!(probed_duration(Some(5), Some(4)), Some(5));
    let mut t = ProbeTally::new();
    for o in [
        ProbeOutcome::Missing,
        ProbeOutcome::Stored(1),
        ProbeOutcome::Stored(0),
        ProbeOutcome::Failed,
        ProbeOutcome::Stored(2),
    ] {
        t.record(o);
    }
    assert_eq!(t, ProbeTally { updated: 2, missing: 1, failed: 1 });
}

#[test]
fn job_identifiers() {
    let raw = "67e55044-10b1-426f-9247-bb680e5fe0c8";
    let n = job_number(raw);
    assert_eq!(n, Some(0x67e5504410b1426f9247bb680e5fe0c8));
    assert_eq!(job_number("nonsense"), None);
    assert_eq!(job_id(0x67e5504410b1426f9247bb680e5fe0c8), raw);
    for n in [0, 1, u128::MAX] {
        assert_eq!(job_number(&job_id(n)), Some(n));
    }
    assert_eq!(job_answer(None, true), JobAnswer::BadId);
    assert_eq!(job_answer(n, false), JobAnswer::NotFound);
    assert_eq!(job_answer(n, true), JobAnswer::Found);
}
