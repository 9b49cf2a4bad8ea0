//! Texture accounting: a bounded LRU cache of textures, a queue of
//! textures to release, reference tracking, and periodic cleanup.

use vstd::prelude::*;
use std::collections::HashMap;
use std::sync::Arc;
use std::time::{Duration, Instant};
use lru::LruCache;
use crate::errors::BlitzSmithayError;
use crate::ids::{IdAllocator, TextureId, after};
use crate::texture::{BlitzTexture, instant_elapsed, instant_now};
use crate::durations::{duration_as_nanos, duration_from_secs, duration_nanos};

verus! {

broadcast use vstd::std_specs::hash::group_hash_axioms;

#[verifier::external_type_specification]
#[verifier::external_body]
#[verifier::reject_recursive_types(K)]
#[verifier::reject_recursive_types(V)]
#[verifier::reject_recursive_types(S)]
pub struct ExLruCache<K, V, S>(LruCache<K, V, S>);

#[verifier::external_type_specification]
#[verifier::external_body]
pub struct ExLruHasher(lru::DefaultHasher);

/// The keys of the texture cache, least recently used first.
pub uninterp spec fn lru_order(c: LruCache<u64, CachedTexture>) -> Seq<u64>;

/// The number of entries the texture cache was created to hold.
pub uninterp spec fn lru_capacity(c: LruCache<u64, CachedTexture>) -> nat;

/// `LruCache::new`: an empty cache that holds at most `cap` entries.
/// `cap` must be positive, as `NonZeroUsize` demands.
#[verifier::external_body]
fn new_texture_cache(cap: usize) -> (c: LruCache<u64, CachedTexture>)
    requires
        cap > 0,
    ensures
        lru_order(c) == Seq::<u64>::empty(),
        lru_capacity(c) == cap,
{
    LruCache::new(std::num::NonZeroUsize::new(cap).unwrap())
}

/// `LruCache::len`: the number of entries.
#[verifier::external_body]
fn texture_cache_len(c: &LruCache<u64, CachedTexture>) -> (n: usize)
    ensures
        n == lru_order(*c).len(),
{
    c.len()
}

/// `LruCache::pop_lru`: removes the least recently used entry and hands it
/// out, or hands out nothing when the cache is empty. What the value is
/// is not stated here.
#[verifier::external_body]
fn texture_cache_pop_lru(c: &mut LruCache<u64, CachedTexture>) -> (r: Option<(u64, CachedTexture)>)
    ensures
        lru_capacity(*final(c)) == lru_capacity(*old(c)),
        lru_order(*old(c)).len() == 0 ==> r is None && lru_order(*final(c)) == lru_order(*old(c)),
        lru_order(*old(c)).len() > 0 ==> (r matches Some(e) && e.0 == lru_order(*old(c))[0]
            && lru_order(*final(c)) == lru_order(*old(c)).drop_first()),
{
    c.pop_lru()
}

/// `LruCache::clear`: removes every entry.
#[verifier::external_body]
fn texture_cache_clear(c: &mut LruCache<u64, CachedTexture>)
    ensures
        lru_capacity(*final(c)) == lru_capacity(*old(c)),
        lru_order(*final(c)) == Seq::<u64>::empty(),
{
    c.clear()
}

/// `Arc::strong_count`: the number of strong pointers to the allocation.
/// Other threads may change it at any time, so nothing is stated of it.
#[verifier::external_body]
fn arc_strong_count<T>(a: &Arc<T>) -> usize {
    Arc::strong_count(a)
}

/// `Arc::weak_count`: the number of weak pointers to the allocation.
#[verifier::external_body]
fn arc_weak_count<T>(a: &Arc<T>) -> usize {
    Arc::weak_count(a)
}

/// A texture held in the cache, with its use statistics.
#[derive(Debug)]
pub struct CachedTexture {
    pub texture_id: TextureId,
    pub texture: Arc<BlitzTexture>,
    pub last_access: Instant,
    pub access_count: u64,
}

/// A texture waiting to be released.
#[derive(Debug)]
pub enum CleanupTask {
    Texture(Arc<BlitzTexture>),
    CachedTexture(CachedTexture),
}

/// What the tracker knows of one texture.
#[derive(Debug)]
struct TextureRefInfo {
    strong_refs: usize,
    weak_refs: usize,
    creation_time: Instant,
    last_access: Instant,
}

/// Reference counts and access times of the textures handed out.
#[derive(Debug)]
pub struct ReferenceTracker {
    texture_refs: HashMap<u64, TextureRefInfo>,
    last_access_times: HashMap<u64, Instant>,
}

impl ReferenceTracker {
    /// The strong reference count last seen for each tracked texture.
    pub closed spec fn strong_refs(&self) -> Map<u64, usize> {
        self.texture_refs@.map_values(|i: TextureRefInfo| i.strong_refs)
    }

    /// The textures whose last access time is known.
    pub closed spec fn accessed(&self) -> Set<u64> {
        self.last_access_times@.dom()
    }

    fn new() -> (t: Self)
        ensures
            t.strong_refs() == Map::<u64, usize>::empty(),
            t.accessed() == Set::<u64>::empty(),
    {
        let t = ReferenceTracker { texture_refs: HashMap::new(), last_access_times: HashMap::new() };
        assert(t.strong_refs() =~= Map::<u64, usize>::empty());
        t
    }

    /// Starts tracking `texture` with its current reference counts.
    fn track_texture_simple(&mut self, texture: &Arc<BlitzTexture>)
        ensures
            final(self).strong_refs().dom() == old(self).strong_refs().dom().insert(texture.spec_id()@),
            forall|k: u64| k != texture.spec_id()@ && #[trigger] old(self).strong_refs().contains_key(k)
                ==> final(self).strong_refs()[k] == old(self).strong_refs()[k],
            final(self).accessed() == old(self).accessed().insert(texture.spec_id()@),
    {
        let key = texture.id().raw();
        let info = TextureRefInfo {
            strong_refs: arc_strong_count(texture),
            weak_refs: arc_weak_count(texture),
            creation_time: instant_now(),
            last_access: instant_now(),
        };
        self.texture_refs.insert(key, info);
        self.last_access_times.insert(key, instant_now());
        assert(self.strong_refs() =~= old(self).strong_refs().insert(key, info.strong_refs));
    }

    /// Records an access to `texture` and refreshes its strong count, if it
    /// is tracked; its access time is recorded in any case.
    #[allow(dead_code)]
    fn touch_texture(&mut self, texture: &Arc<BlitzTexture>)
        ensures
            final(self).strong_refs().dom() == old(self).strong_refs().dom(),
            forall|k: u64| k != texture.spec_id()@ && #[trigger] old(self).strong_refs().contains_key(k)
                ==> final(self).strong_refs()[k] == old(self).strong_refs()[k],
            final(self).accessed() == old(self).accessed().insert(texture.spec_id()@),
    {
        let key = texture.id().raw();
        match self.texture_refs.remove(&key) {
            Some(info) => {
                let updated = TextureRefInfo {
                    strong_refs: arc_strong_count(texture),
                    weak_refs: info.weak_refs,
                    creation_time: info.creation_time,
                    last_access: instant_now(),
                };
                self.texture_refs.insert(key, updated);
                assert(self.strong_refs() =~= old(self).strong_refs().insert(key, updated.strong_refs));
            },
            None => {
                assert(self.strong_refs() =~= old(self).strong_refs());
            },
        }
        self.last_access_times.insert(key, instant_now());
    }

    /// The time since each tracked texture was last accessed, in
    /// nanoseconds, each tracked texture once, in no particular order. The
    /// times come from the clock.
    fn access_ages(&self) -> (ages: Vec<(u64, u128)>)
        ensures
            age_keys(ages@).no_duplicates(),
            age_keys(ages@).to_set() == self.strong_refs().dom(),
    {
        let mut out: Vec<(u64, u128)> = Vec::new();
        let ghost m = self.texture_refs@;
        for entry in it: self.texture_refs.iter()
            invariant
                m == self.texture_refs@,
                it.seq().no_duplicates(),
                forall|i: int| 0 <= i < it.seq().len() ==> m.contains_key(*it.seq()[i].0) && m[*it.seq()[i].0] == *it.seq()[i].1,
                out@.len() == it.index(),
                forall|i: int| 0 <= i < it.index() ==> #[trigger] out@[i].0 == *it.seq()[i].0,
                age_keys(out@).no_duplicates(),
                forall|i: int| 0 <= i < out@.len() ==> m.contains_key(#[trigger] out@[i].0),
                forall|k: u64| #[trigger] m.contains_key(k) ==> age_keys(out@).contains(k)
                    || exists|j: int| it.index() <= j < it.seq().len() && *it.seq()[j].0 == k,
        {
            let (key, info) = entry;
            let age = duration_as_nanos(&instant_elapsed(&info.last_access));
            let ghost idx = it.index();
            let ghost prev = out@;
            proof {
                assert forall|i: int| 0 <= i < prev.len() implies prev[i].0 != *key by {
                    if prev[i].0 == *key {
                        assert(m[*it.seq()[i].0] == *it.seq()[i].1);
                        assert(m[*it.seq()[idx].0] == *it.seq()[idx].1);
                        assert(it.seq()[i] == it.seq()[idx]);
                    }
                }
            }
            out.push((*key, age));
            proof {
                assert(age_keys(out@) =~= age_keys(prev).push(*key));
                assert(out@[idx].0 == *key);
                assert forall|q: u64| #[trigger] m.contains_key(q) implies age_keys(out@).contains(q)
                    || exists|j: int| idx + 1 <= j < it.seq().len() && *it.seq()[j].0 == q by {
                    if age_keys(prev).contains(q) {
                        let w = choose|w: int| 0 <= w < prev.len() && age_keys(prev)[w] == q;
                        assert(age_keys(out@)[w] == q);
                    } else {
                        let j = choose|j: int| idx <= j < it.seq().len() && *it.seq()[j].0 == q;
                        if j == idx {
                            assert(age_keys(out@)[idx as int] == q);
                        }
                    }
                }
            }
        }
        proof {
            assert forall|k: u64| age_keys(out@).to_set().contains(k) <==> self.strong_refs().dom().contains(k) by {
                if m.contains_key(k) {
                    assert(age_keys(out@).contains(k));
                }
                if age_keys(out@).to_set().contains(k) {
                    let j = choose|j: int| 0 <= j < out@.len() && age_keys(out@)[j] == k;
                    assert(m.contains_key(out@[j].0));
                }
            }
            assert(age_keys(out@).to_set() =~= self.strong_refs().dom());
        }
        out
    }

    /// The textures among `ages` that only the tracker's owner still holds
    /// and whose time since last access exceeds `limit`, in the order of
    /// `ages`.
    fn select_unused(&self, ages: &Vec<(u64, u128)>, limit: u128) -> (v: Vec<TextureId>)
        ensures
            ids_view(v@) == unused_keys(ages@, limit, self.strong_refs()),
    {
        let mut out: Vec<TextureId> = Vec::new();
        let mut i: usize = 0;
        while i < ages.len()
            invariant
                i <= ages@.len(),
                ids_view(out@) == unused_keys(ages@.subrange(0, i as int), limit, self.strong_refs()),
            decreases ages@.len() - i,
        {
            let (key, age) = ages[i];
            proof {
                assert(ages@.subrange(0, i + 1).drop_last() =~= ages@.subrange(0, i as int));
            }
            match self.texture_refs.get(&key) {
                Some(info) => {
                    if info.strong_refs <= 1 && age > limit {
                        out.push(TextureId::from_raw(key));
                        assert(ids_view(out@) =~= unused_keys(ages@.subrange(0, i + 1), limit, self.strong_refs()));
                    }
                },
                None => {},
            }
            i += 1;
        }
        assert(ages@.subrange(0, ages@.len() as int) =~= ages@);
        out
    }

    /// Tracked textures that only the tracker's owner still holds and that
    /// were last accessed longer ago than `max_age`: those of
    /// `unused_keys` over the access times that the clock gave, one time
    /// for each tracked texture.
    #[allow(dead_code)]
    fn find_unused_textures(&self, max_age: Duration) -> (v: Vec<TextureId>)
        ensures
            exists|ages: Seq<(u64, u128)>| {
                &&& age_keys(ages).no_duplicates()
                &&& #[trigger] age_keys(ages).to_set() == self.strong_refs().dom()
                &&& ids_view(v@) == unused_keys(ages, duration_nanos(max_age), self.strong_refs())
            },
            forall|i: int| 0 <= i < v@.len() ==> #[trigger] self.strong_refs().contains_key(v@[i]@)
                && self.strong_refs()[v@[i]@] <= 1,
            ids_view(v@).no_duplicates(),
    {
        let limit = duration_as_nanos(&max_age);
        let ages = self.access_ages();
        let v = self.select_unused(&ages, limit);
        proof {
            lemma_unused_keys_props(ages@, limit, self.strong_refs());
            assert forall|i: int| 0 <= i < v@.len() implies #[trigger] self.strong_refs().contains_key(v@[i]@)
                && self.strong_refs()[v@[i]@] <= 1 by {
                assert(ids_view(v@)[i] == v@[i]@);
            }
        }
        v
    }
}

/// The keys of a list of access times, in order.
pub open spec fn age_keys(ages: Seq<(u64, u128)>) -> Seq<u64> {
    ages.map_values(|p: (u64, u128)| p.0)
}

/// The numbers of a list of texture identifiers, in order.
pub open spec fn ids_view(v: Seq<TextureId>) -> Seq<u64> {
    v.map_values(|t: TextureId| t@)
}

/// The keys among `ages` that `refs` tracks with at most one strong
/// reference and whose time exceeds `limit`, in order.
pub open spec fn unused_keys(ages: Seq<(u64, u128)>, limit: u128, refs: Map<u64, usize>) -> Seq<u64>
    decreases ages.len(),
{
    if ages.len() == 0 {
        Seq::empty()
    } else {
        let prev = unused_keys(ages.drop_last(), limit, refs);
        let (k, a) = ages.last();
        if refs.contains_key(k) && refs[k] <= 1 && a > limit { prev.push(k) } else { prev }
    }
}

/// Each selected key is tracked with at most one strong reference and
/// comes from `ages`; with distinct keys in `ages`, no key is selected twice.
pub proof fn lemma_unused_keys_props(ages: Seq<(u64, u128)>, limit: u128, refs: Map<u64, usize>)
    ensures
        forall|i: int| 0 <= i < unused_keys(ages, limit, refs).len()
            ==> refs.contains_key(#[trigger] unused_keys(ages, limit, refs)[i])
                && refs[unused_keys(ages, limit, refs)[i]] <= 1
                && age_keys(ages).contains(unused_keys(ages, limit, refs)[i]),
        age_keys(ages).no_duplicates() ==> unused_keys(ages, limit, refs).no_duplicates(),
    decreases ages.len(),
{
    if ages.len() > 0 {
        let t = ages.drop_last();
        lemma_unused_keys_props(t, limit, refs);
        let prev = unused_keys(t, limit, refs);
        let r = unused_keys(ages, limit, refs);
        assert forall|i: int| 0 <= i < r.len() implies refs.contains_key(#[trigger] r[i]) && refs[r[i]] <= 1
            && age_keys(ages).contains(r[i]) by {
            if i < prev.len() {
                assert(r[i] == prev[i]);
                let w = choose|w: int| 0 <= w < age_keys(t).len() && age_keys(t)[w] == prev[i];
                assert(age_keys(ages)[w] == prev[i]);
            } else {
                assert(age_keys(ages)[ages.len() - 1] == r[i]);
            }
        }
        if age_keys(ages).no_duplicates() {
            assert(age_keys(t).no_duplicates()) by {
                assert forall|i: int, j: int| 0 <= i < j < age_keys(t).len() implies age_keys(t)[i] != age_keys(t)[j] by {
                    assert(age_keys(t)[i] == age_keys(ages)[i]);
                    assert(age_keys(t)[j] == age_keys(ages)[j]);
                }
            }
            if r.len() > prev.len() {
                assert forall|i: int| 0 <= i < prev.len() implies prev[i] != ages.last().0 by {
                    let w = choose|w: int| 0 <= w < age_keys(t).len() && age_keys(t)[w] == prev[i];
                    assert(age_keys(ages)[w] == prev[i]);
                    assert(age_keys(ages)[ages.len() - 1] == ages.last().0);
                }
                assert forall|i: int, j: int| 0 <= i < j < r.len() implies r[i] != r[j] by {
                    if j < prev.len() {
                        assert(r[i] == prev[i] && r[j] == prev[j]);
                    } else {
                        assert(r[i] == prev[i]);
                    }
                }
            }
        }
    }
}

/// Memory in use and in total, in bytes, as the system reports it.
#[derive(Debug, Clone, Copy, PartialEq, Eq, Structural)]
pub struct MemoryUsage {
    pub used: u64,
    pub total: u64,
}

/// Whether the memory in use exceeds `percent` percent of the total; an
/// unknown reading never does.
pub open spec fn over_threshold(memory: Option<MemoryUsage>, percent: u32) -> bool {
    match memory {
        Some(m) => m.used * 100 > m.total * percent,
        None => false,
    }
}

/// Watches memory use: at most once per check interval it compares the
/// memory in use with a share of the total.
#[derive(Debug)]
pub struct MemoryPressureMonitor {
    memory_threshold_percent: u32,
    last_check: Instant,
    check_interval: Duration,
}

impl MemoryPressureMonitor {
    /// The share of the total memory, in percent, above which memory is short.
    pub closed spec fn threshold_percent(&self) -> u32 {
        self.memory_threshold_percent
    }

    /// The least time between two checks.
    pub closed spec fn interval(&self) -> Duration {
        self.check_interval
    }

    /// A monitor with an 85 percent threshold that checks at most once a
    /// second.
    pub fn new() -> (m: Self)
        ensures
            m.threshold_percent() == 85,
            duration_nanos(m.interval()) == 1_000_000_000,
    {
        MemoryPressureMonitor {
            memory_threshold_percent: 85,
            last_check: instant_now(),
            check_interval: duration_from_secs(1),
        }
    }

    /// Whether memory is short, given the time since the last check and the
    /// current reading: no before the check interval has passed; after it,
    /// the check starts a new interval and memory is short when the reading
    /// exceeds the threshold.
    pub fn check_pressure(&mut self, elapsed: Duration, memory: Option<MemoryUsage>) -> (b: bool)
        ensures
            b == (duration_nanos(elapsed) >= duration_nanos(old(self).interval())
                && over_threshold(memory, old(self).threshold_percent())),
            final(self).threshold_percent() == old(self).threshold_percent(),
            final(self).interval() == old(self).interval(),
    {
        if duration_as_nanos(&elapsed) < duration_as_nanos(&self.check_interval) {
            return false;
        }
        self.last_check = instant_now();
        match memory {
            Some(m) => {
                let total = m.total as u128;
                let percent = self.memory_threshold_percent as u128;
                assert(total * percent <= u64::MAX * u32::MAX) by (nonlinear_arith)
                    requires total <= u64::MAX, percent <= u32::MAX;
                (m.used as u128) * 100 > total * percent
            },
            None => false,
        }
    }

    /// Whether memory is short, given the current reading; the time since
    /// the last check comes from the clock, so a reading over the threshold
    /// may still find no pressure when the interval has not passed.
    pub fn is_under_pressure(&mut self, memory: Option<MemoryUsage>) -> (b: bool)
        ensures
            b ==> over_threshold(memory, old(self).threshold_percent()),
            final(self).threshold_percent() == old(self).threshold_percent(),
            final(self).interval() == old(self).interval(),
    {
        let elapsed = instant_elapsed(&self.last_check);
        self.check_pressure(elapsed, memory)
    }
}

/// The cache order after evicting down to `max` entries, oldest first.
pub open spec fn evicted_to(order: Seq<u64>, max: int) -> Seq<u64> {
    if order.len() > max { order.subrange(order.len() - max, order.len() as int) } else { order }
}

/// Creates textures, caches them, and releases those no longer needed.
#[derive(Debug)]
pub struct ResourceManager {
    texture_cache: LruCache<u64, CachedTexture>,
    cleanup_queue: Vec<CleanupTask>,
    reference_tracker: ReferenceTracker,
    memory_pressure_monitor: MemoryPressureMonitor,
    max_cache_size: usize,
    cleanup_interval: Duration,
    last_cleanup: Instant,
    texture_ids: IdAllocator,
}

impl ResourceManager {
    /// The keys of the texture cache, least recently used first.
    pub closed spec fn cache_order(&self) -> Seq<u64> {
        lru_order(self.texture_cache)
    }

    /// How many entries periodic cleanup keeps in the cache.
    pub closed spec fn max_cached(&self) -> usize {
        self.max_cache_size
    }

    /// Textures waiting to be released.
    pub closed spec fn pending_cleanup(&self) -> Seq<CleanupTask> {
        self.cleanup_queue@
    }

    /// The reference tracker.
    pub closed spec fn tracker(&self) -> ReferenceTracker {
        self.reference_tracker
    }

    /// How long after a cleanup the next periodic one is due.
    pub closed spec fn cleanup_interval(&self) -> Duration {
        self.cleanup_interval
    }

    /// The share of the total memory, in percent, above which creating a
    /// texture empties the cache first.
    pub closed spec fn pressure_threshold(&self) -> u32 {
        self.memory_pressure_monitor.threshold_percent()
    }

    /// The identifier the next created texture gets.
    pub closed spec fn next_texture_id(&self) -> u64 {
        self.texture_ids.next_value()
    }

    /// A manager with an empty cache of capacity 100, cleaning up every five
    /// seconds.
    pub fn new() -> (m: Self)
        ensures
            m.cache_order() == Seq::<u64>::empty(),
            m.max_cached() == 100,
            m.pressure_threshold() == 85,
            m.pending_cleanup().len() == 0,
            m.tracker().strong_refs() == Map::<u64, usize>::empty(),
            m.next_texture_id() == 1,
    {
        ResourceManager {
            texture_cache: new_texture_cache(100),
            cleanup_queue: Vec::new(),
            reference_tracker: ReferenceTracker::new(),
            memory_pressure_monitor: MemoryPressureMonitor::new(),
            max_cache_size: 100,
            cleanup_interval: duration_from_secs(5),
            last_cleanup: instant_now(),
            texture_ids: IdAllocator::new(),
        }
    }

    /// A new texture of the given size and format, tracked from now on.
    /// When the monitor finds memory short for the reading `memory`, the
    /// cache is emptied first; whether it looks depends on the clock.
    pub fn create_texture(&mut self, width: u32, height: u32, format: String, memory: Option<MemoryUsage>)
        -> (res: Result<Arc<BlitzTexture>, BlitzSmithayError>)
        ensures
            res matches Ok(t) && {
                &&& t.spec_id()@ == old(self).next_texture_id()
                &&& t.spec_width() == width
                &&& t.spec_height() == height
                &&& t.spec_format() == format@
                &&& t.spec_dmabuf() is None
                &&& final(self).tracker().strong_refs().dom() == old(self).tracker().strong_refs().dom().insert(t.spec_id()@)
            },
            final(self).next_texture_id() == after(old(self).next_texture_id()),
            final(self).max_cached() == old(self).max_cached(),
            final(self).cleanup_interval() == old(self).cleanup_interval(),
            final(self).pressure_threshold() == old(self).pressure_threshold(),
            !over_threshold(memory, old(self).pressure_threshold()) ==> {
                &&& final(self).cache_order() == old(self).cache_order()
                &&& final(self).pending_cleanup() == old(self).pending_cleanup()
            },
            over_threshold(memory, old(self).pressure_threshold()) ==> {
                ||| final(self).cache_order() == old(self).cache_order()
                    && final(self).pending_cleanup() == old(self).pending_cleanup()
                ||| final(self).cache_order() == Seq::<u64>::empty()
                    && final(self).pending_cleanup().len() == 0
            },
    {
        let mut monitor = MemoryPressureMonitor::new();
        std::mem::swap(&mut monitor, &mut self.memory_pressure_monitor);
        let under_pressure = monitor.is_under_pressure(memory);
        self.memory_pressure_monitor = monitor;
        self.create_texture_under(width, height, format, under_pressure)
    }

    /// A new texture of the given size and format, tracked from now on;
    /// when `under_pressure`, the cache is emptied and cleaned up first.
    pub fn create_texture_under(&mut self, width: u32, height: u32, format: String, under_pressure: bool)
        -> (res: Result<Arc<BlitzTexture>, BlitzSmithayError>)
        ensures
            res matches Ok(t) && {
                &&& t.spec_id()@ == old(self).next_texture_id()
                &&& t.spec_width() == width
                &&& t.spec_height() == height
                &&& t.spec_format() == format@
                &&& t.spec_dmabuf() is None
                &&& final(self).tracker().strong_refs().dom() == old(self).tracker().strong_refs().dom().insert(t.spec_id()@)
            },
            final(self).next_texture_id() == after(old(self).next_texture_id()),
            final(self).max_cached() == old(self).max_cached(),
            final(self).cleanup_interval() == old(self).cleanup_interval(),
            final(self).pressure_threshold() == old(self).pressure_threshold(),
            under_pressure ==> final(self).cache_order() == Seq::<u64>::empty() && final(self).pending_cleanup().len() == 0,
            !under_pressure ==> final(self).cache_order() == old(self).cache_order()
                && final(self).pending_cleanup() == old(self).pending_cleanup(),
    {
        if under_pressure {
            self.emergency_cleanup();
        }
        let texture = Arc::new(BlitzTexture::new(width, height, format, &mut self.texture_ids));
        self.reference_tracker.track_texture_simple(&texture);
        Ok(texture)
    }

    /// Runs a cleanup if the cleanup interval has passed since the last one;
    /// whether it has depends on the clock, so either outcome may come.
    pub fn maybe_cleanup(&mut self)
        ensures
            final(self).max_cached() == old(self).max_cached(),
            final(self).cleanup_interval() == old(self).cleanup_interval(),
            final(self).tracker() == old(self).tracker(),
            final(self).next_texture_id() == old(self).next_texture_id(),
            ({
                ||| final(self).cache_order() == old(self).cache_order()
                    && final(self).pending_cleanup() == old(self).pending_cleanup()
                ||| final(self).cache_order() == evicted_to(old(self).cache_order(), old(self).max_cached() as int)
                    && final(self).pending_cleanup().len() == 0
            }),
    {
        let elapsed = instant_elapsed(&self.last_cleanup);
        self.cleanup_if_due(elapsed);
    }

    /// Runs a cleanup, and starts the next interval, when `elapsed` (the
    /// time since the last cleanup) exceeds the cleanup interval; otherwise
    /// changes nothing.
    pub fn cleanup_if_due(&mut self, elapsed: Duration)
        ensures
            final(self).max_cached() == old(self).max_cached(),
            final(self).cleanup_interval() == old(self).cleanup_interval(),
            final(self).tracker() == old(self).tracker(),
            final(self).next_texture_id() == old(self).next_texture_id(),
            duration_nanos(elapsed) > duration_nanos(old(self).cleanup_interval()) ==> {
                &&& final(self).cache_order() == evicted_to(old(self).cache_order(), old(self).max_cached() as int)
                &&& final(self).pending_cleanup().len() == 0
            },
            duration_nanos(elapsed) <= duration_nanos(old(self).cleanup_interval()) ==> {
                &&& final(self).cache_order() == old(self).cache_order()
                &&& final(self).pending_cleanup() == old(self).pending_cleanup()
            },
    {
        if duration_as_nanos(&elapsed) > duration_as_nanos(&self.cleanup_interval) {
            self.cleanup_unused_resources();
            self.last_cleanup = instant_now();
        }
    }

    /// Evicts least recently used textures until at most the maximum number
    /// is cached, then releases everything waiting in the cleanup queue.
    pub fn cleanup_unused_resources(&mut self)
        ensures
            final(self).cache_order() == evicted_to(old(self).cache_order(), old(self).max_cached() as int),
            final(self).pending_cleanup().len() == 0,
            final(self).max_cached() == old(self).max_cached(),
            final(self).cleanup_interval() == old(self).cleanup_interval(),
            final(self).pressure_threshold() == old(self).pressure_threshold(),
            final(self).tracker() == old(self).tracker(),
            final(self).next_texture_id() == old(self).next_texture_id(),
    {
        let ghost start = lru_order(self.texture_cache);
        let max = self.max_cache_size;
        while texture_cache_len(&self.texture_cache) > max
            invariant
                max == self.max_cache_size,
                max == old(self).max_cache_size,
                self.reference_tracker == old(self).reference_tracker,
                self.texture_ids == old(self).texture_ids,
                self.cleanup_interval == old(self).cleanup_interval,
                self.memory_pressure_monitor == old(self).memory_pressure_monitor,
                start == lru_order(old(self).texture_cache),
                lru_order(self.texture_cache).len() <= start.len(),
                lru_order(self.texture_cache) == start.subrange(start.len() - lru_order(self.texture_cache).len(), start.len() as int),
                start.len() > max ==> lru_order(self.texture_cache).len() >= max,
                start.len() <= max ==> lru_order(self.texture_cache) == start,
            decreases lru_order(self.texture_cache).len(),
        {
            let ghost before = lru_order(self.texture_cache);
            match texture_cache_pop_lru(&mut self.texture_cache) {
                Some((_, cached)) => {
                    self.cleanup_queue.push(CleanupTask::CachedTexture(cached));
                },
                None => {},
            }
            assert(lru_order(self.texture_cache) =~= start.subrange(start.len() - lru_order(self.texture_cache).len(), start.len() as int));
        }
        self.process_cleanup_queue();
        assert(lru_order(self.texture_cache) =~= evicted_to(start, max as int));
    }

    /// Empties the cache, then cleans up.
    pub fn emergency_cleanup(&mut self)
        ensures
            final(self).cache_order() == Seq::<u64>::empty(),
            final(self).pending_cleanup().len() == 0,
            final(self).max_cached() == old(self).max_cached(),
            final(self).cleanup_interval() == old(self).cleanup_interval(),
            final(self).pressure_threshold() == old(self).pressure_threshold(),
            final(self).tracker() == old(self).tracker(),
            final(self).next_texture_id() == old(self).next_texture_id(),
    {
        texture_cache_clear(&mut self.texture_cache);
        self.cleanup_unused_resources();
    }

    #[allow(dead_code)]
    fn create_texture_internal(&mut self, width: u32, height: u32, format: &str) -> (res: Result<BlitzTexture, BlitzSmithayError>)
        ensures
            res matches Ok(t) && t.spec_id()@ == old(self).next_texture_id() && t.spec_width() == width
                && t.spec_height() == height && t.spec_format() == format@,
            final(self).next_texture_id() == after(old(self).next_texture_id()),
    {
        Ok(BlitzTexture::new(width, height, String::from_str(format), &mut self.texture_ids))
    }

    fn process_cleanup_queue(&mut self)
        ensures
            final(self).pending_cleanup().len() == 0,
            final(self).texture_cache == old(self).texture_cache,
            final(self).max_cache_size == old(self).max_cache_size,
            final(self).cleanup_interval == old(self).cleanup_interval,
            final(self).memory_pressure_monitor == old(self).memory_pressure_monitor,
            final(self).reference_tracker == old(self).reference_tracker,
            final(self).texture_ids == old(self).texture_ids,
    {
        self.cleanup_queue.clear();
    }
}

/// Law: after a cleanup the cache holds at most the maximum number of
/// textures, and those it holds are the most recently used ones, in their
/// order.
pub proof fn law_cleanup_keeps_most_recent(order: Seq<u64>, max: nat)
    ensures
        evicted_to(order, max as int).len() <= max,
        evicted_to(order, max as int).len() == if order.len() <= max { order.len() } else { max },
        forall|i: int| 0 <= i < evicted_to(order, max as int).len()
            ==> #[trigger] evicted_to(order, max as int)[i] == order[order.len() - evicted_to(order, max as int).len() + i],
{
}

} // verus!
