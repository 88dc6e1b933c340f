//! Watching library folders: which libraries a batch of changes concerns, and
//! when the batch is complete.

use vstd::prelude::*;
use vstd::string::*;

use crate::text::{
    copy_texts, lemma_position_bounds, lemma_split_push, same, split, split_at_char, texts,
};

verus! {

// ---------------------------------------------------------------------------
// Paths

/// Whether a path starts at the root of the file system.
pub open spec fn absolute(path: Seq<char>) -> bool {
    path.len() > 0 && path[0] == '/'
}

/// Whether piece `i` of a path counts: an empty piece does not, and neither
/// does a dot, except in front of a relative path.
pub open spec fn counts(pieces: Seq<Seq<char>>, i: int) -> bool {
    pieces[i].len() > 0 && (pieces[i] != "."@ || i == 0)
}

/// The pieces that count among the first `n`.
pub open spec fn components_until(pieces: Seq<Seq<char>>, n: int) -> Seq<Seq<char>>
    decreases n,
{
    if n <= 0 {
        Seq::empty()
    } else if counts(pieces, n - 1) {
        components_until(pieces, n - 1).push(pieces[n - 1])
    } else {
        components_until(pieces, n - 1)
    }
}

/// The components of a path.
pub open spec fn components_of(path: Seq<char>) -> Seq<Seq<char>> {
    components_until(split(path, '/'), split(path, '/').len() as int)
}

/// Whether a path lies at or below a folder, component by component.
pub open spec fn lies_in(path: Seq<char>, folder: Seq<char>) -> bool {
    absolute(path) == absolute(folder) && components_of(folder).is_prefix_of(components_of(path))
}

fn components(path: &str) -> (r: Vec<String>)
    ensures
        texts(r@) == components_of(path@),
{
    let pieces = split_at_char(path, '/');
    let ghost all = split(path@, '/');
    let mut out: Vec<String> = Vec::new();
    let mut i: usize = 0;
    assert(texts(out@) =~= Seq::empty());
    while i < pieces.len()
        invariant
            i <= pieces.len(),
            all == texts(pieces@),
            texts(out@) == components_until(all, i as int),
        decreases pieces.len() - i,
    {
        let ghost before = texts(out@);
        assert(all[i as int] == pieces@[i as int]@);
        if !pieces[i].as_str().is_empty() && (!same(pieces[i].as_str(), ".") || i == 0) {
            out.push(pieces[i].clone());
            assert(texts(out@) =~= before.push(all[i as int]));
        }
        i = i + 1;
    }
    out
}

fn is_prefix(a: &Vec<String>, b: &Vec<String>) -> (r: bool)
    ensures
        r == texts(a@).is_prefix_of(texts(b@)),
{
    let ghost x = texts(a@);
    let ghost y = texts(b@);
    if a.len() > b.len() {
        return false;
    }
    let mut i: usize = 0;
    while i < a.len()
        invariant
            i <= a.len() <= b.len(),
            x == texts(a@),
            y == texts(b@),
            forall|k: int| 0 <= k < i ==> #[trigger] x[k] == y[k],
        decreases a.len() - i,
    {
        assert(x[i as int] == a@[i as int]@ && y[i as int] == b@[i as int]@);
        if !same(a[i].as_str(), b[i].as_str()) {
            assert(y.subrange(0, x.len() as int)[i as int] == y[i as int]);
            return false;
        }
        i = i + 1;
    }
    assert(y.subrange(0, x.len() as int) =~= x);
    true
}

/// Whether a path lies at or below a folder.
pub fn path_in(path: &str, folder: &str) -> (r: bool)
    ensures
        r == lies_in(path@, folder@),
{
    let x = is_absolute(path);
    let y = is_absolute(folder);
    if x != y {
        return false;
    }
    let a = components(folder);
    let b = components(path);
    is_prefix(&a, &b)
}

fn is_absolute(path: &str) -> (r: bool)
    ensures
        r == absolute(path@),
{
    !path.is_empty() && path.get_char(0) == '/'
}

// ---------------------------------------------------------------------------
// Roots

/// How deep a folder lies.
pub open spec fn depth(folder: Seq<char>) -> nat {
    components_of(folder).len()
}

/// Whether `root` is the innermost of `roots` that a path lies in.
pub open spec fn innermost(path: Seq<char>, root: Seq<char>, roots: Seq<Seq<char>>) -> bool {
    lies_in(path, root) && forall|k: int|
        0 <= k < roots.len() && lies_in(path, #[trigger] roots[k]) ==> depth(roots[k]) <= depth(root)
}

/// Whether one of the changed paths has `root` as its innermost root.
pub open spec fn hit(root: Seq<char>, pending: Seq<Seq<char>>, roots: Seq<Seq<char>>) -> bool {
    exists|i: int| 0 <= i < pending.len() && #[trigger] innermost(pending[i], root, roots)
}

/// The roots that a batch of changes concerns, in the order in which they are
/// watched: each change concerns the innermost root that it lies in.
pub open spec fn hits_of(pending: Seq<Seq<char>>, roots: Seq<Seq<char>>) -> Seq<Seq<char>> {
    roots.filter(|root: Seq<char>| hit(root, pending, roots))
}

fn is_innermost(path: &str, root: &str, roots: &Vec<String>) -> (r: bool)
    ensures
        r == innermost(path@, root@, texts(roots@)),
{
    let ghost all = texts(roots@);
    if !path_in(path, root) {
        return false;
    }
    let d = components(root);
    let mut i: usize = 0;
    while i < roots.len()
        invariant
            i <= roots.len(),
            all == texts(roots@),
            d@.len() == depth(root@),
            forall|k: int|
                0 <= k < i && lies_in(path@, #[trigger] all[k]) ==> depth(all[k]) <= depth(root@),
        decreases roots.len() - i,
    {
        assert(all[i as int] == roots@[i as int]@);
        if path_in(path, roots[i].as_str()) {
            let other = components(roots[i].as_str());
            assert(other@.len() == depth(all[i as int]));
            if other.len() > d.len() {
                return false;
            }
        }
        i = i + 1;
    }
    true
}

fn is_hit(root: &str, pending: &Vec<String>, roots: &Vec<String>) -> (r: bool)
    ensures
        r == hit(root@, texts(pending@), texts(roots@)),
{
    let ghost all = texts(pending@);
    let mut i: usize = 0;
    while i < pending.len()
        invariant
            i <= pending.len(),
            all == texts(pending@),
            forall|k: int| 0 <= k < i ==> !#[trigger] innermost(all[k], root@, texts(roots@)),
        decreases pending.len() - i,
    {
        assert(all[i as int] == pending@[i as int]@);
        if is_innermost(pending[i].as_str(), root, roots) {
            return true;
        }
        i = i + 1;
    }
    false
}

/// The roots that a batch of changes concerns.
pub fn match_roots(pending: &Vec<String>, roots: &Vec<String>) -> (r: Vec<String>)
    ensures
        texts(r@) == hits_of(texts(pending@), texts(roots@)),
{
    let ghost all = texts(roots@);
    let ghost p = |root: Seq<char>| hit(root, texts(pending@), all);
    let mut out: Vec<String> = Vec::new();
    let mut i: usize = 0;
    assert(texts(out@) =~= all.take(0).filter(p)) by {
        reveal(Seq::filter);
    }
    while i < roots.len()
        invariant
            i <= roots.len(),
            all == texts(roots@),
            p == (|root: Seq<char>| hit(root, texts(pending@), all)),
            texts(out@) == all.take(i as int).filter(p),
        decreases roots.len() - i,
    {
        let ghost before = texts(out@);
        proof {
            reveal(Seq::filter);
            assert(all.take(i + 1).drop_last() =~= all.take(i as int));
            assert(all.take(i + 1).last() == roots@[i as int]@);
        }
        if is_hit(roots[i].as_str(), pending, roots) {
            out.push(roots[i].clone());
            assert(texts(out@) =~= before.push(all[i as int]));
        }
        i = i + 1;
    }
    assert(all.take(all.len() as int) =~= all);
    out
}

/// The place of the innermost of the first `n` roots that a path lies in.
proof fn lemma_innermost_exists(path: Seq<char>, roots: Seq<Seq<char>>, n: int) -> (j: int)
    requires
        0 <= n <= roots.len(),
        exists|k: int| 0 <= k < n && lies_in(path, #[trigger] roots[k]),
    ensures
        0 <= j < n,
        lies_in(path, roots[j]),
        forall|k: int|
            0 <= k < n && lies_in(path, #[trigger] roots[k]) ==> depth(roots[k]) <= depth(roots[j]),
    decreases n,
{
    if exists|k: int| 0 <= k < n - 1 && lies_in(path, #[trigger] roots[k]) {
        let j = lemma_innermost_exists(path, roots, n - 1);
        if lies_in(path, roots[n - 1]) && depth(roots[n - 1]) > depth(roots[j]) {
            n - 1
        } else {
            j
        }
    } else {
        n - 1
    }
}

/// A change below a watched folder is never missed, and it is the innermost
/// watched folder that is scanned for it.
pub proof fn law_change_reaches_its_root(pending: Seq<Seq<char>>, roots: Seq<Seq<char>>, i: int, k: int)
    requires
        0 <= i < pending.len(),
        0 <= k < roots.len(),
        lies_in(pending[i], roots[k]),
    ensures
        exists|root: Seq<char>|
            #[trigger] hits_of(pending, roots).contains(root) && innermost(pending[i], root, roots),
{
    let j = lemma_innermost_exists(pending[i], roots, roots.len() as int);
    assert(innermost(pending[i], roots[j], roots));
    let p = |root: Seq<char>| hit(root, pending, roots);
    assert(p(roots[j]));
    roots.lemma_filter_contains(p, j);
    assert(hits_of(pending, roots).contains(roots[j]));
}

/// What is scanned is watched, and something below it has changed.
pub proof fn law_only_changed_roots(pending: Seq<Seq<char>>, roots: Seq<Seq<char>>, j: int)
    requires
        0 <= j < hits_of(pending, roots).len(),
    ensures
        roots.contains(hits_of(pending, roots)[j]),
        exists|i: int|
            0 <= i < pending.len() && lies_in(#[trigger] pending[i], hits_of(pending, roots)[j]),
{
    let p = |root: Seq<char>| hit(root, pending, roots);
    let root = hits_of(pending, roots)[j];
    roots.lemma_filter_pred(p, j);
    assert(p(root));
    let i = choose|i: int| 0 <= i < pending.len() && #[trigger] innermost(pending[i], root, roots);
    assert(lies_in(pending[i], root));
    roots.lemma_filter_contains_rev(p, root);
}

/// The folders to watch, out of those that are watched already and what resolving
/// each new one gave: each folder once, and each that could not be resolved with
/// the reason.
#[derive(Debug)]
pub struct WatchPlan {
    pub roots: Vec<String>,
    pub failed: Vec<(String, String)>,
}

/// What resolving a folder gave: its real path, or the reason why it has none.
#[derive(Debug)]
pub struct Resolved {
    pub given: String,
    pub result: Result<String, String>,
}

/// The watched folders and then the resolved ones, each at its first place.
pub open spec fn merged_roots(watched: Seq<Seq<char>>, list: Seq<Resolved>) -> Seq<Seq<char>>
    decreases list.len(),
{
    if list.len() == 0 {
        watched
    } else {
        let rest = merged_roots(watched, list.drop_last());
        match list.last().result {
            Ok(c) => if rest.contains(c@) {
                rest
            } else {
                rest.push(c@)
            },
            Err(_) => rest,
        }
    }
}

/// The folders that could not be resolved, with the reason.
pub open spec fn unresolved(list: Seq<Resolved>) -> Seq<(Seq<char>, Seq<char>)>
    decreases list.len(),
{
    if list.len() == 0 {
        Seq::empty()
    } else {
        let rest = unresolved(list.drop_last());
        match list.last().result {
            Ok(_) => rest,
            Err(e) => rest.push((list.last().given@, e@)),
        }
    }
}

/// Folders and reasons as text.
pub open spec fn reasons(v: Seq<(String, String)>) -> Seq<(Seq<char>, Seq<char>)> {
    v.map_values(|e: (String, String)| (e.0@, e.1@))
}

fn has_text(list: &Vec<String>, s: &str) -> (r: bool)
    ensures
        r == texts(list@).contains(s@),
{
    let ghost all = texts(list@);
    let mut i: usize = 0;
    while i < list.len()
        invariant
            i <= list.len(),
            all == texts(list@),
            forall|k: int| 0 <= k < i ==> #[trigger] all[k] != s@,
        decreases list.len() - i,
    {
        assert(all[i as int] == list@[i as int]@);
        if same(list[i].as_str(), s) {
            return true;
        }
        i = i + 1;
    }
    false
}

/// The folders to watch: starting anew keeps those that are watched already.
pub fn watch_plan(watched: &Vec<String>, list: &Vec<Resolved>) -> (r: WatchPlan)
    ensures
        texts(r.roots@) == merged_roots(texts(watched@), list@),
        reasons(r.failed@) == unresolved(list@),
{
    let mut roots: Vec<String> = copy_texts(watched);
    let mut failed: Vec<(String, String)> = Vec::new();
    let mut i: usize = 0;
    assert(reasons(failed@) =~= Seq::empty());
    while i < list.len()
        invariant
            i <= list.len(),
            texts(roots@) == merged_roots(texts(watched@), list@.take(i as int)),
            reasons(failed@) == unresolved(list@.take(i as int)),
        decreases list.len() - i,
    {
        let ghost before = texts(roots@);
        let ghost told = reasons(failed@);
        proof {
            assert(list@.take(i + 1).drop_last() =~= list@.take(i as int));
            assert(list@.take(i + 1).last() == list@[i as int]);
        }
        match &list[i].result {
            Ok(c) => {
                if !has_text(&roots, c.as_str()) {
                    roots.push(c.clone());
                    assert(texts(roots@) =~= before.push(c@));
                }
            },
            Err(e) => {
                failed.push((list[i].given.clone(), e.clone()));
                assert(reasons(failed@) =~= told.push((list@[i as int].given@, e@)));
            },
        }
        i = i + 1;
    }
    assert(list@.take(list@.len() as int) =~= list@);
    WatchPlan { roots, failed }
}

/// No folder is watched twice.
pub proof fn law_no_root_twice(watched: Seq<Seq<char>>, list: Seq<Resolved>)
    requires
        watched.no_duplicates(),
    ensures
        merged_roots(watched, list).no_duplicates(),
    decreases list.len(),
{
    if list.len() > 0 {
        law_no_root_twice(watched, list.drop_last());
    }
}

/// What is watched stays watched.
pub proof fn law_watched_roots_stay(watched: Seq<Seq<char>>, list: Seq<Resolved>)
    ensures
        watched.is_prefix_of(merged_roots(watched, list)),
    decreases list.len(),
{
    if list.len() > 0 {
        law_watched_roots_stay(watched, list.drop_last());
    }
}

// ---------------------------------------------------------------------------
// Batches

/// How long a batch waits for further changes, in seconds.
pub const DEBOUNCE_SECS: u64 = 5;

/// A batch of changes that is being gathered by one session of the watcher.
#[derive(Debug)]
pub struct Batch {
    /// The number of the session.
    pub session: u64,
    /// The changed paths so far, each once.
    pub pending: Vec<String>,
}

/// What happens to a batch.
#[derive(Debug)]
pub enum WatchEvent {
    /// A path has changed.
    Changed(String),
    /// The time to wait is over.
    Elapsed,
    /// No change will come any more. Those that came are still scanned.
    Closed,
}

/// What is to be done next.
#[derive(Debug)]
pub enum WatchAction {
    /// Wait for the full time again.
    Wait,
    /// Go on waiting.
    Continue,
    /// Scan these roots, then wait for the full time again.
    Scan(Vec<String>),
    /// End the session.
    Stop,
}

/// Whether an action and the paths left over are what an event calls for.
pub open spec fn watch_step(
    session: u64,
    pending: Seq<Seq<char>>,
    event: WatchEvent,
    generation: u64,
    roots: Seq<Seq<char>>,
    action: WatchAction,
    left: Seq<Seq<char>>,
) -> bool {
    if generation != session {
        action is Stop && left == pending
    } else {
        match event {
            WatchEvent::Changed(path) => action is Wait && left == if pending.contains(path@) {
                pending
            } else {
                pending.push(path@)
            },
            WatchEvent::Elapsed => if pending.len() == 0 {
                action is Continue && left == pending
            } else {
                action is Scan && texts(action->Scan_0@) == hits_of(pending, roots) && left
                    == Seq::<Seq<char>>::empty()
            },
            WatchEvent::Closed => left == pending && if pending.len() == 0 {
                action is Stop
            } else {
                action is Continue
            },
        }
    }
}

impl Batch {
    /// A batch without changes.
    pub fn new(session: u64) -> (r: Batch)
        ensures
            r.session == session,
            texts(r.pending@) == Seq::<Seq<char>>::empty(),
    {
        let r = Batch { session, pending: Vec::new() };
        assert(texts(r.pending@) =~= Seq::empty());
        r
    }

    /// Takes an event into account. `generation` is the number of the session
    /// that is current now: another one ends this session.
    pub fn step(&mut self, event: WatchEvent, generation: u64, roots: &Vec<String>) -> (r:
        WatchAction)
        ensures
            final(self).session == old(self).session,
            watch_step(
                old(self).session,
                texts(old(self).pending@),
                event,
                generation,
                texts(roots@),
                r,
                texts(final(self).pending@),
            ),
    {
        if generation != self.session {
            return WatchAction::Stop;
        }
        match event {
            WatchEvent::Changed(path) => {
                let ghost before = texts(self.pending@);
                if !has_text(&self.pending, path.as_str()) {
                    self.pending.push(path);
                    assert(texts(self.pending@) =~= before.push(path@));
                }
                WatchAction::Wait
            },
            WatchEvent::Elapsed => {
                if self.pending.len() == 0 {
                    return WatchAction::Continue;
                }
                let hits = match_roots(&self.pending, roots);
                self.pending.clear();
                assert(texts(self.pending@) =~= Seq::empty());
                WatchAction::Scan(hits)
            },
            WatchEvent::Closed => {
                if self.pending.len() == 0 {
                    WatchAction::Stop
                } else {
                    WatchAction::Continue
                }
            },
        }
    }
}

/// Once the watcher was stopped or started anew, a session of before scans
/// nothing any more.
pub proof fn law_stopped_session_never_scans(
    session: u64,
    pending: Seq<Seq<char>>,
    event: WatchEvent,
    generation: u64,
    roots: Seq<Seq<char>>,
    action: WatchAction,
    left: Seq<Seq<char>>,
)
    requires
        generation != session,
        watch_step(session, pending, event, generation, roots, action, left),
    ensures
        !(action is Scan),
{
}

/// Changes that come in within the time to wait are scanned together: what a
/// scan covers is every change since the last one.
pub proof fn law_scan_covers_batch(
    session: u64,
    before: Seq<Seq<char>>,
    path: String,
    roots: Seq<Seq<char>>,
    wait: WatchAction,
    gathered: Seq<Seq<char>>,
    scan: WatchAction,
    left: Seq<Seq<char>>,
)
    requires
        watch_step(
            session,
            before,
            WatchEvent::Changed(path),
            session,
            roots,
            wait,
            gathered,
        ),
        watch_step(session, gathered, WatchEvent::Elapsed, session, roots, scan, left),
    ensures
        scan is Scan,
        texts(scan->Scan_0@) == hits_of(gathered, roots),
        gathered.contains(path@),
        forall|p: Seq<char>| #[trigger] before.contains(p) ==> gathered.contains(p),
        left.len() == 0,
{
    if !before.contains(path@) {
        assert(gathered[gathered.len() - 1] == path@);
    }
    assert forall|p: Seq<char>| #[trigger] before.contains(p) implies gathered.contains(p) by {
        let i = choose|i: int| 0 <= i < before.len() && before[i] == p;
        assert(gathered[i] == p);
    }
}

// ---------------------------------------------------------------------------
// What is watched

proof fn lemma_components_grow(pieces: Seq<Seq<char>>, name: Seq<char>, n: int)
    requires
        0 <= n <= pieces.len(),
    ensures
        components_until(pieces.push(name), n) == components_until(pieces, n),
    decreases n,
{
    if n > 0 {
        lemma_components_grow(pieces, name, n - 1);
        assert(pieces.push(name)[n - 1] == pieces[n - 1]);
    }
}

proof fn lemma_child(folder: Seq<char>, name: Seq<char>)
    requires
        !name.contains('/'),
    ensures
        components_of(folder.push('/') + name) == if name.len() > 0 && name != "."@ {
            components_of(folder).push(name)
        } else {
            components_of(folder)
        },
        folder.len() > 0 ==> absolute(folder.push('/') + name) == absolute(folder),
{
    let pieces = split(folder, '/');
    let path = folder.push('/') + name;
    assert(path =~= folder + seq!['/'] + name);
    lemma_split_push(folder, name, '/');
    lemma_components_grow(pieces, name, pieces.len() as int);
    assert(pieces.push(name)[pieces.len() as int] == name);
    lemma_position_bounds(folder, '/');
    assert(pieces.len() > 0);
    if folder.len() > 0 {
        assert(path[0] == folder[0]);
    }
}

/// What stands in a folder lies in it, at whatever depth, and the folder lies in
/// itself.
pub proof fn law_children_lie_in_folder(path: Seq<char>, folder: Seq<char>, name: Seq<char>)
    requires
        path.len() > 0,
        lies_in(path, folder),
        !name.contains('/'),
    ensures
        lies_in(path.push('/') + name, folder),
        lies_in(folder, folder),
{
    lemma_child(path, name);
    let inner = components_of(path);
    let outer = components_of(folder);
    let deeper = components_of(path.push('/') + name);
    assert(outer.is_prefix_of(outer));
    assert forall|i: int| 0 <= i < outer.len() implies outer[i] == deeper[i] by {
        assert(outer[i] == inner[i]);
    }
    assert(outer =~= deeper.subrange(0, outer.len() as int));
}

/// Nothing in one folder lies in the folder beside it, however alike their names
/// begin, and a folder does not lie in what it holds.
pub proof fn law_neighbours_are_apart(base: Seq<char>, a: Seq<char>, b: Seq<char>)
    requires
        base.len() > 0,
        !a.contains('/') && a.len() > 0 && a != "."@,
        !b.contains('/') && b.len() > 0 && b != "."@,
        a != b,
    ensures
        !lies_in(base.push('/') + a, base.push('/') + b),
        !lies_in(base, base.push('/') + a),
{
    lemma_child(base, a);
    lemma_child(base, b);
    let x = components_of(base.push('/') + a);
    let y = components_of(base.push('/') + b);
    let n = components_of(base).len() as int;
    assert(x[n] == a && y[n] == b);
    if y.is_prefix_of(x) {
        assert(y == x.subrange(0, y.len() as int));
        assert(y[n] == x[n]);
    }
    if x.is_prefix_of(components_of(base)) {
        assert(x.len() <= n);
    }
}

/// The folders to watch are those that were watched and those that were found,
/// and no others; every folder that was not found is reported with its reason.
pub proof fn law_roots_to_watch(watched: Seq<Seq<char>>, list: Seq<Resolved>, root: Seq<char>)
    ensures
        merged_roots(watched, list).contains(root) <==> watched.contains(root) || exists|i: int|
            0 <= i < list.len() && ((#[trigger] list[i]).result matches Ok(c) && c@ == root),
    decreases list.len(),
{
    if list.len() > 0 {
        let rest = list.drop_last();
        let before = merged_roots(watched, rest);
        let all = merged_roots(watched, list);
        let last = list.last();
        law_roots_to_watch(watched, rest, root);
        assert(list[list.len() - 1] == last);
        assert(forall|i: int| 0 <= i < rest.len() ==> #[trigger] rest[i] == list[i]);
        if last.result is Ok && !before.contains(last.result->Ok_0@) {
            let c = last.result->Ok_0@;
            assert(all == before.push(c));
            assert(all[before.len() as int] == c);
            assert(forall|k: int| 0 <= k < before.len() ==> all[k] == #[trigger] before[k]);
        }
        if before.contains(root) {
            let k = choose|k: int| 0 <= k < before.len() && before[k] == root;
            assert(all[k] == root);
        }
        if all.contains(root) && !before.contains(root) {
            let k = choose|k: int| 0 <= k < all.len() && all[k] == root;
            if k < before.len() {
                assert(before[k] == root);
            }
        }
        if exists|i: int|
            0 <= i < list.len() && ((#[trigger] list[i]).result matches Ok(c) && c@ == root) {
            let i = choose|i: int|
                0 <= i < list.len() && ((#[trigger] list[i]).result matches Ok(c) && c@ == root);
            if i < rest.len() {
                assert(rest[i] == list[i]);
            }
        }
        if exists|i: int|
            0 <= i < rest.len() && ((#[trigger] rest[i]).result matches Ok(c) && c@ == root) {
            let i = choose|i: int|
                0 <= i < rest.len() && ((#[trigger] rest[i]).result matches Ok(c) && c@ == root);
            assert(list[i] == rest[i]);
        }
    }
}

/// A folder that was not found is reported under the name it was given by, and
/// one that was found is not reported.
pub proof fn law_missing_folders_are_reported(list: Seq<Resolved>, more: Resolved)
    ensures
        more.result matches Err(e) ==> unresolved(list.push(more)) == unresolved(list).push(
            (more.given@, e@),
        ),
        more.result is Ok ==> unresolved(list.push(more)) == unresolved(list),
{
    assert(list.push(more).drop_last() =~= list);
}

/// A change makes the batch wait and is not forgotten; time that elapses over an
/// empty batch changes nothing; and a batch that is closed ends only once all
/// its changes were scanned.
pub proof fn law_batch_waits(
    session: u64,
    pending: Seq<Seq<char>>,
    event: WatchEvent,
    roots: Seq<Seq<char>>,
    action: WatchAction,
    left: Seq<Seq<char>>,
)
    requires
        watch_step(session, pending, event, session, roots, action, left),
    ensures
        event matches WatchEvent::Changed(path) ==> action is Wait && left.contains(path@)
            && left.len() <= pending.len() + 1,
        event is Elapsed && pending.len() == 0 ==> action is Continue && left == pending,
        event is Elapsed && pending.len() > 0 ==> action is Scan && left.len() == 0,
        event is Closed && pending.len() > 0 ==> action is Continue && left == pending,
        event is Closed && pending.len() == 0 ==> action is Stop,
        action is Stop ==> pending.len() == 0,
{
    if let WatchEvent::Changed(path) = event {
        if !pending.contains(path@) {
            assert(left[pending.len() as int] == path@);
        }
    }
}

} // verus!
