//! The cache in two tiers, and the keys under which it keeps things.

use vstd::prelude::*;
use vstd::string::*;

use crate::number::{int_text, is_digit, lemma_int_text, lemma_nat_text, nat_text, push_i64};
use crate::text::{join2, opt, range_text, same, starts, starts_with, texts, to_chars};

verus! {

// ---------------------------------------------------------------------------
// Keys

/// The key of a token.
pub fn token_key(token_hash: &str) -> (r: String)
    ensures
        r@ == "auth:token:"@ + token_hash@,
{
    join2("auth:token:", token_hash)
}

/// The key of a user.
pub fn user_key(user_id: i64) -> (r: String)
    ensures
        r@ == "auth:user:"@ + int_text(user_id as int),
{
    numbered("auth:user:", user_id)
}

/// The key of an item.
pub fn item_key(item_id: i64) -> (r: String)
    ensures
        r@ == "item:"@ + int_text(item_id as int),
{
    numbered("item:", item_id)
}

/// The key of a session.
pub fn session_key(session_id: &str) -> (r: String)
    ensures
        r@ == "session:"@ + session_id@,
{
    join2("session:", session_id)
}

/// The key of the position of a user in an item.
pub fn resume_key(user_id: i64, item_id: i64) -> (r: String)
    ensures
        r@ == "resume:"@ + int_text(user_id as int) + ":"@ + int_text(item_id as int),
{
    let mut s = numbered("resume:", user_id).concat(":");
    push_i64(&mut s, item_id);
    s
}

/// The key of playback information of an item for a user and a device profile.
pub open spec fn info_key(item_id: int, user_id: int, profile_hash: Seq<char>) -> Seq<char> {
    "pbinfo:"@ + int_text(item_id) + ":"@ + int_text(user_id) + ":"@ + profile_hash
}

/// The pattern of the keys of all playback information of an item.
pub open spec fn info_pattern(item_id: int) -> Seq<char> {
    "pbinfo:"@ + int_text(item_id) + ":*"@
}

/// The key of playback information of an item for a user and a device profile.
pub fn playback_info_key(item_id: i64, user_id: i64, profile_hash: &str) -> (r: String)
    ensures
        r@ == info_key(item_id as int, user_id as int, profile_hash@),
{
    let mut s = numbered("pbinfo:", item_id).concat(":");
    push_i64(&mut s, user_id);
    s.concat(":").concat(profile_hash)
}

/// The pattern of the keys of all playback information of an item.
pub fn playback_info_pattern(item_id: i64) -> (r: String)
    ensures
        r@ == info_pattern(item_id as int),
{
    numbered("pbinfo:", item_id).concat(":*")
}

fn numbered(head: &str, n: i64) -> (r: String)
    ensures
        r@ == head@ + int_text(n as int),
{
    let mut s = head.to_owned();
    push_i64(&mut s, n);
    s
}

/// Whether a pattern is that of a key: a star at its end stands for anything.
pub open spec fn matches_pattern(key: Seq<char>, pattern: Seq<char>) -> bool {
    if pattern.len() > 0 && pattern.last() == '*' {
        starts(key, pattern.drop_last())
    } else {
        key == pattern
    }
}

/// Whether a pattern is that of a key.
pub fn key_matches(key: &str, pattern: &str) -> (r: bool)
    ensures
        r == matches_pattern(key@, pattern@),
{
    let cs = to_chars(pattern);
    let n: usize = cs.len();
    if n > 0 && cs[n - 1] == '*' {
        let head = range_text(cs.as_slice(), 0, n - 1);
        assert(head@ =~= pattern@.drop_last());
        starts_with(key, head.as_str())
    } else {
        same(key, pattern)
    }
}

/// The keys that a pattern is that of.
pub open spec fn matching(keys: Seq<Seq<char>>, pattern: Seq<char>) -> Seq<Seq<char>> {
    keys.filter(|key: Seq<char>| matches_pattern(key, pattern))
}

/// The keys that are to be deleted for a pattern, out of all that are known.
pub fn stale_keys(keys: &Vec<String>, pattern: &str) -> (r: Vec<String>)
    ensures
        texts(r@) == matching(texts(keys@), pattern@),
{
    let ghost all = texts(keys@);
    let ghost p = |key: Seq<char>| matches_pattern(key, pattern@);
    let mut out: Vec<String> = Vec::new();
    let mut i: usize = 0;
    assert(texts(out@) =~= all.take(0).filter(p)) by {
        reveal(Seq::filter);
    }
    while i < keys.len()
        invariant
            i <= keys.len(),
            all == texts(keys@),
            p == (|key: Seq<char>| matches_pattern(key, pattern@)),
            texts(out@) == all.take(i as int).filter(p),
        decreases keys.len() - i,
    {
        let ghost before = texts(out@);
        proof {
            reveal(Seq::filter);
            assert(all.take(i + 1).drop_last() =~= all.take(i as int));
            assert(all.take(i + 1).last() == keys@[i as int]@);
        }
        if key_matches(keys[i].as_str(), pattern) {
            out.push(keys[i].clone());
            assert(texts(out@) =~= before.push(all[i as int]));
        }
        i = i + 1;
    }
    assert(all.take(all.len() as int) =~= all);
    out
}

// ---------------------------------------------------------------------------
// Tiers

/// How long the near tier keeps what the far tier gave, in seconds.
pub const BACKFILL_SECS: u64 = 60;

/// What a read of the cache does next.
#[derive(Debug)]
pub enum TierStep {
    /// Ask the far tier.
    AskFar,
    /// Keep this in the near tier for a short time, and return it.
    Backfill(String),
    /// Return this.
    Return(Option<String>),
}

/// The content of a step.
pub enum TierStepView {
    AskFar,
    Backfill(Seq<char>),
    Return(Option<Seq<char>>),
}

impl View for TierStep {
    type V = TierStepView;

    open spec fn view(&self) -> TierStepView {
        match self {
            TierStep::AskFar => TierStepView::AskFar,
            TierStep::Backfill(v) => TierStepView::Backfill(v@),
            TierStep::Return(v) => TierStepView::Return(opt(*v)),
        }
    }
}

/// What a read does once the near tier has answered: what is there is returned,
/// and what is not is looked for in the far tier, if there is one.
pub open spec fn near_step(near: Option<Seq<char>>, has_far: bool) -> TierStepView {
    if near is None && has_far {
        TierStepView::AskFar
    } else {
        TierStepView::Return(near)
    }
}

/// What a read does once the near tier has answered.
pub fn after_near(near: Option<String>, has_far: bool) -> (r: TierStep)
    ensures
        r@ == near_step(opt(near), has_far),
{
    if near.is_none() && has_far {
        TierStep::AskFar
    } else {
        TierStep::Return(near)
    }
}

/// What a read does once the far tier has answered.
pub open spec fn far_step(far: Option<Seq<char>>) -> TierStepView {
    match far {
        Some(v) => TierStepView::Backfill(v),
        None => TierStepView::Return(None),
    }
}

/// What a read does once the far tier has answered.
pub fn after_far(far: Option<String>) -> (r: TierStep)
    ensures
        r@ == far_step(opt(far)),
{
    match far {
        Some(v) => TierStep::Backfill(v),
        None => TierStep::Return(None),
    }
}

/// The contents of the two tiers; the far one may not be there.
pub struct Tiers {
    pub near: Map<Seq<char>, Seq<char>>,
    pub far: Option<Map<Seq<char>, Seq<char>>>,
}

/// The value under a key.
pub open spec fn value_at(m: Map<Seq<char>, Seq<char>>, key: Seq<char>) -> Option<Seq<char>> {
    if m.contains_key(key) {
        Some(m[key])
    } else {
        None
    }
}

/// What a read of the cache returns.
pub open spec fn tier_get(t: Tiers, key: Seq<char>) -> Option<Seq<char>> {
    match value_at(t.near, key) {
        Some(v) => Some(v),
        None => match t.far {
            Some(far) => value_at(far, key),
            None => None,
        },
    }
}

/// The tiers after a read: the near tier has gained what the far one gave.
pub open spec fn tier_after_get(t: Tiers, key: Seq<char>) -> Tiers {
    match tier_get(t, key) {
        Some(v) => Tiers { near: t.near.insert(key, v), ..t },
        None => t,
    }
}

/// The tiers after a write: both have it.
pub open spec fn tier_set(t: Tiers, key: Seq<char>, value: Seq<char>) -> Tiers {
    Tiers {
        near: t.near.insert(key, value),
        far: match t.far {
            Some(far) => Some(far.insert(key, value)),
            None => None,
        },
    }
}

/// The tiers after a deletion: neither has it.
pub open spec fn tier_delete(t: Tiers, key: Seq<char>) -> Tiers {
    Tiers {
        near: t.near.remove(key),
        far: match t.far {
            Some(far) => Some(far.remove(key)),
            None => None,
        },
    }
}

/// What is left of a tier without the keys that a pattern is that of.
pub open spec fn cleared(m: Map<Seq<char>, Seq<char>>, pattern: Seq<char>) -> Map<
    Seq<char>,
    Seq<char>,
> {
    m.remove_keys(m.dom().filter(|key: Seq<char>| matches_pattern(key, pattern)))
}

/// The tiers after a deletion by pattern: neither has a key of that pattern.
pub open spec fn tier_clear(t: Tiers, pattern: Seq<char>) -> Tiers {
    Tiers {
        near: cleared(t.near, pattern),
        far: match t.far {
            Some(far) => Some(cleared(far, pattern)),
            None => None,
        },
    }
}

/// One of the tiers.
#[derive(Debug, Clone, Copy, PartialEq, Eq, Structural)]
pub enum Tier {
    Near,
    Far,
}

/// The tiers that a write or a deletion goes to, in this order.
pub open spec fn written_tiers(has_far: bool) -> Seq<Tier> {
    if has_far {
        seq![Tier::Near, Tier::Far]
    } else {
        seq![Tier::Near]
    }
}

/// The tiers that a write or a deletion goes to, in this order.
pub fn tiers_to_write(has_far: bool) -> (r: Vec<Tier>)
    ensures
        r@ == written_tiers(has_far),
{
    let r: Vec<Tier> = if has_far {
        vec![Tier::Near, Tier::Far]
    } else {
        vec![Tier::Near]
    };
    assert(r@ =~= written_tiers(has_far));
    r
}

/// The tiers after a change of one of them.
pub open spec fn changed(
    t: Tiers,
    tier: Tier,
    change: spec_fn(Map<Seq<char>, Seq<char>>) -> Map<Seq<char>, Seq<char>>,
) -> Tiers {
    match tier {
        Tier::Near => Tiers { near: change(t.near), ..t },
        Tier::Far => Tiers {
            far: match t.far {
                Some(far) => Some(change(far)),
                None => None,
            },
            ..t
        },
    }
}

/// The tiers after the same change of some of them, one after the other.
pub open spec fn changed_in(
    t: Tiers,
    list: Seq<Tier>,
    change: spec_fn(Map<Seq<char>, Seq<char>>) -> Map<Seq<char>, Seq<char>>,
) -> Tiers
    decreases list.len(),
{
    if list.len() == 0 {
        t
    } else {
        changed(changed_in(t, list.drop_last(), change), list.last(), change)
    }
}

/// Writing to the tiers that a write goes to, or deleting there, leaves the tiers
/// as after a write or a deletion.
pub proof fn law_changes_reach_the_tiers(
    t: Tiers,
    key: Seq<char>,
    value: Seq<char>,
    pattern: Seq<char>,
)
    ensures
        changed_in(
            t,
            written_tiers(t.far is Some),
            |m: Map<Seq<char>, Seq<char>>| m.insert(key, value),
        ) == tier_set(t, key, value),
        changed_in(
            t,
            written_tiers(t.far is Some),
            |m: Map<Seq<char>, Seq<char>>| m.remove(key),
        ) == tier_delete(t, key),
        changed_in(
            t,
            written_tiers(t.far is Some),
            |m: Map<Seq<char>, Seq<char>>| cleared(m, pattern),
        ) == tier_clear(t, pattern),
{
    reveal_with_fuel(changed_in, 3);
    assert(seq![Tier::Near, Tier::Far].drop_last() =~= seq![Tier::Near]);
    assert(seq![Tier::Near].drop_last() =~= Seq::<Tier>::empty());
}

/// What is left of a tier without some keys, deleted one by one.
pub open spec fn without_keys(m: Map<Seq<char>, Seq<char>>, keys: Seq<Seq<char>>) -> Map<
    Seq<char>,
    Seq<char>,
>
    decreases keys.len(),
{
    if keys.len() == 0 {
        m
    } else {
        without_keys(m, keys.drop_last()).remove(keys.last())
    }
}

proof fn lemma_without_keys(m: Map<Seq<char>, Seq<char>>, keys: Seq<Seq<char>>)
    ensures
        forall|k: Seq<char>| #[trigger]
            without_keys(m, keys).contains_key(k) <==> m.contains_key(k) && !keys.contains(k),
        forall|k: Seq<char>| #[trigger]
            without_keys(m, keys).contains_key(k) ==> without_keys(m, keys)[k] == m[k],
    decreases keys.len(),
{
    if keys.len() > 0 {
        let rest = keys.drop_last();
        lemma_without_keys(m, rest);
        assert forall|k: Seq<char>| #[trigger] without_keys(m, keys).contains_key(k) <==> m.contains_key(
            k,
        ) && !keys.contains(k) by {
            assert(without_keys(m, rest).contains_key(k) <==> m.contains_key(k) && !rest.contains(k));
            if rest.contains(k) {
                let i = choose|i: int| 0 <= i < rest.len() && rest[i] == k;
                assert(keys[i] == k);
            }
            if keys.contains(k) {
                let i = choose|i: int| 0 <= i < keys.len() && keys[i] == k;
                if i < rest.len() {
                    assert(rest[i] == k);
                }
            }
            assert(keys[keys.len() - 1] == keys.last());
        }
        assert forall|k: Seq<char>| #[trigger]
            without_keys(m, keys).contains_key(k) implies without_keys(m, keys)[k] == m[k] by {
            assert(without_keys(m, rest).contains_key(k));
        }
    }
}

/// Where all keys of a tier are known, deleting those that a pattern is that of,
/// one by one, clears the tier of the pattern.
pub proof fn law_stale_keys_clear(
    m: Map<Seq<char>, Seq<char>>,
    keys: Seq<Seq<char>>,
    pattern: Seq<char>,
)
    requires
        forall|k: Seq<char>| #[trigger] m.contains_key(k) ==> keys.contains(k),
    ensures
        without_keys(m, matching(keys, pattern)) == cleared(m, pattern),
{
    let p = |key: Seq<char>| matches_pattern(key, pattern);
    let stale = matching(keys, pattern);
    let a = without_keys(m, stale);
    let b = cleared(m, pattern);
    lemma_without_keys(m, stale);
    assert forall|k: Seq<char>| a.contains_key(k) <==> b.contains_key(k) by {
        assert(a.contains_key(k) <==> m.contains_key(k) && !stale.contains(k));
        if m.contains_key(k) {
            let i = choose|i: int| 0 <= i < keys.len() && keys[i] == k;
            if p(k) {
                keys.lemma_filter_contains(p, i);
            } else if stale.contains(k) {
                let j = choose|j: int| 0 <= j < stale.len() && stale[j] == k;
                keys.lemma_filter_pred(p, j);
            }
        }
    }
    assert forall|k: Seq<char>| a.contains_key(k) implies #[trigger] a[k] == b[k] by {}
    assert(a =~= b);
}

proof fn lemma_number_without_colon(n: int)
    ensures
        forall|i: int| 0 <= i < int_text(n).len() ==> #[trigger] int_text(n)[i] != ':',
{
    let t = int_text(n);
    if n < 0 {
        let d = nat_text((-n) as nat);
        lemma_nat_text((-n) as nat);
        assert forall|i: int| 0 <= i < t.len() implies #[trigger] t[i] != ':' by {
            if i > 0 {
                assert(t[i] == d[i - 1]);
                assert(is_digit(d[i - 1]));
            }
        }
    } else {
        lemma_nat_text(n as nat);
        assert forall|i: int| 0 <= i < t.len() implies #[trigger] t[i] != ':' by {
            assert(is_digit(nat_text(n as nat)[i]));
        }
    }
}

proof fn lemma_info_pattern(item: i64, other: i64, user: int, hash: Seq<char>)
    ensures
        matches_pattern(info_key(other as int, user, hash), info_pattern(item as int)) <==> item
            == other,
{
    reveal_strlit("pbinfo:");
    reveal_strlit(":");
    reveal_strlit(":*");
    let a = int_text(item as int);
    let b = int_text(other as int);
    let key = info_key(other as int, user, hash);
    let head = info_pattern(item as int).drop_last();
    assert(head =~= "pbinfo:"@ + a + ":"@);
    if item == other {
        assert(key.subrange(0, head.len() as int) =~= head);
    } else if starts(key, head) {
        lemma_number_without_colon(item as int);
        lemma_number_without_colon(other as int);
        let part = key.subrange(0, head.len() as int);
        assert(part == head);
        assert forall|i: int| 0 <= i < head.len() implies #[trigger] head[i] == key[i] by {
            assert(part[i] == key[i]);
        }
        assert(head[7int + a.len()] == ':');
        if a.len() < b.len() {
            assert(key[7int + a.len()] == b[a.len() as int]);
        } else if b.len() < a.len() {
            assert(key[7int + b.len()] == ':');
            assert(head[7int + b.len()] == a[b.len() as int]);
        }
        assert forall|i: int| 0 <= i < a.len() implies #[trigger] a[i] == b[i] by {
            assert(head[7 + i] == a[i]);
            assert(key[7 + i] == b[i]);
        }
        assert(a =~= b);
        lemma_int_text(item as int);
        lemma_int_text(other as int);
    }
}

/// Deleting the playback information of an item leaves none of it, for any user
/// or profile, and touches neither that of another item nor any other key.
pub proof fn law_playback_info_is_dropped(
    t: Tiers,
    item: i64,
    other: i64,
    user: int,
    hash: Seq<char>,
    key: Seq<char>,
)
    ensures
        ({
            let left = tier_clear(t, info_pattern(item as int));
            &&& tier_get(left, info_key(item as int, user, hash)) is None
            &&& other != item ==> tier_get(left, info_key(other as int, user, hash)) == tier_get(
                t,
                info_key(other as int, user, hash),
            )
            &&& !matches_pattern(key, info_pattern(item as int)) ==> tier_get(left, key) == tier_get(
                t,
                key,
            )
        }),
{
    lemma_info_pattern(item, item, user, hash);
    lemma_info_pattern(item, other, user, hash);
}

/// The steps of a read come to what the tiers hold under the key, and put into
/// the near tier what came from the far one.
pub proof fn law_steps_read_the_tiers(t: Tiers, key: Seq<char>)
    ensures
        match near_step(value_at(t.near, key), t.far is Some) {
            TierStepView::Return(v) => tier_get(t, key) == v,
            TierStepView::AskFar => t.far is Some && match far_step(value_at(t.far->0, key)) {
                TierStepView::Backfill(v) => tier_get(t, key) == Some(v) && tier_after_get(
                    t,
                    key,
                ).near == t.near.insert(key, v),
                TierStepView::Return(v) => tier_get(t, key) == v && v is None,
                TierStepView::AskFar => false,
            },
            TierStepView::Backfill(_) => false,
        },
{
}

/// A read gives back what was written, a read after a deletion gives nothing,
/// and other keys are not touched by either.
pub proof fn law_cache_reads_back(t: Tiers, key: Seq<char>, value: Seq<char>, other: Seq<char>)
    requires
        other != key,
    ensures
        tier_get(tier_set(t, key, value), key) == Some(value),
        tier_get(tier_delete(t, key), key) is None,
        tier_get(tier_set(t, key, value), other) == tier_get(t, other),
        tier_get(tier_delete(t, key), other) == tier_get(t, other),
{
}

/// Reading changes nothing that a later read could tell.
pub proof fn law_reading_changes_nothing(t: Tiers, key: Seq<char>, other: Seq<char>)
    ensures
        tier_get(tier_after_get(t, key), other) == tier_get(t, other),
{
}

/// Where there is a far tier, the near one may forget anything that was written
/// without a read going wrong.
pub proof fn law_near_tier_may_forget(t: Tiers, key: Seq<char>, value: Seq<char>)
    requires
        t.far is Some,
    ensures
        ({
            let written = tier_set(t, key, value);
            tier_get(Tiers { near: written.near.remove(key), ..written }, key) == Some(value)
        }),
{
}

// ---------------------------------------------------------------------------
// Backends

/// Where the cache is kept.
#[derive(Debug, Clone, Copy, PartialEq, Eq, Structural)]
pub enum CacheBackend {
    Memory,
    Redis,
    Valkey,
}

/// Why there is no cache.
#[derive(Debug)]
pub enum CacheError {
    Unavailable(String),
}

/// How the cache is set up.
#[derive(Debug)]
pub enum CachePlan {
    /// In memory.
    Memory,
    /// On a server of this kind at this address.
    Server(CacheBackend, String),
}

/// The name of a backend.
pub open spec fn backend_name(b: CacheBackend) -> Seq<char> {
    match b {
        CacheBackend::Memory => "Memory"@,
        CacheBackend::Redis => "Redis"@,
        CacheBackend::Valkey => "Valkey"@,
    }
}

/// How the cache is set up. A cache on a server needs an address.
pub fn cache_plan(backend: CacheBackend, url: Option<&str>) -> (r: Result<CachePlan, CacheError>)
    ensures
        match r {
            Ok(CachePlan::Memory) => backend is Memory,
            Ok(CachePlan::Server(b, u)) => !(backend is Memory) && b == backend && url is Some && u@
                == url->0@,
            Err(CacheError::Unavailable(text)) => !(backend is Memory) && url is None && text@
                == backend_name(backend) + " 后端必须配置 cache.url"@,
        },
{
    let name = match backend {
        CacheBackend::Memory => {
            return Ok(CachePlan::Memory);
        },
        CacheBackend::Redis => "Redis",
        CacheBackend::Valkey => "Valkey",
    };
    match url {
        Some(u) => Ok(CachePlan::Server(backend, u.to_owned())),
        None => Err(CacheError::Unavailable(join2(name, " 后端必须配置 cache.url"))),
    }
}

} // verus!
