//! A cache of recently seen tags, with a time to live per entry and a
//! ceiling on the number of entries.
use vstd::prelude::*;
use crate::support::str_equal;
use crate::finder::views_of;

verus! {

/// How long a seen tag keeps later sightings from being fetched: 30 minutes.
pub const DEDUP_TTL_SECS: i64 = 1800;

/// Most entries the cache holds.
pub const DEDUP_CAPACITY: usize = 500000;

/// Entries as (tag, time it was recorded), oldest first.
pub type EntryLog = Seq<(Seq<char>, i64)>;

/// The time at which `name` was last recorded, per the log.
pub open spec fn recorded_at(log: EntryLog, name: Seq<char>) -> Option<i64>
    decreases log.len(),
{
    if log.len() == 0 {
        None
    } else if log.last().0 == name {
        Some(log.last().1)
    } else {
        recorded_at(log.drop_last(), name)
    }
}

pub open spec fn entry_live(e: (Seq<char>, i64), now: i64, ttl: i64) -> bool {
    now - e.1 < ttl
}

/// The entries of `log` that are still live at `now`, in order.
pub open spec fn live_entries(log: EntryLog, now: i64, ttl: i64) -> EntryLog
    decreases log.len(),
{
    if log.len() == 0 {
        Seq::empty()
    } else if entry_live(log.last(), now, ttl) {
        live_entries(log.drop_last(), now, ttl).push(log.last())
    } else {
        live_entries(log.drop_last(), now, ttl)
    }
}

/// The log after making room: expired entries go, and if the cache is still
/// full, the oldest entry goes too.
pub open spec fn evicted(log: EntryLog, now: i64, ttl: i64, capacity: nat) -> EntryLog {
    let kept = live_entries(log, now, ttl);
    if kept.len() >= capacity {
        kept.drop_first()
    } else {
        kept
    }
}

/// Whether `name` counts as seen at `now`.
pub open spec fn is_live_in(log: EntryLog, name: Seq<char>, now: i64, ttl: i64) -> bool {
    match recorded_at(log, name) {
        Some(t) => now - t < ttl,
        None => false,
    }
}

/// What observing `name` at `now` returns, and the log after it.
pub open spec fn observe_spec(log: EntryLog, name: Seq<char>, now: i64, ttl: i64, capacity: nat) -> (
    bool,
    EntryLog,
) {
    if is_live_in(log, name, now, ttl) {
        (false, log)
    } else {
        let base = if log.len() >= capacity {
            evicted(log, now, ttl, capacity)
        } else {
            log
        };
        (true, base.push((name, now)))
    }
}

/// The tags of `names` that survive deduplication, and the log after it.
pub open spec fn dedup_spec(log: EntryLog, names: Seq<Seq<char>>, now: i64, ttl: i64, capacity: nat) -> (
    Seq<Seq<char>>,
    EntryLog,
)
    decreases names.len(),
{
    if names.len() == 0 {
        (Seq::empty(), log)
    } else {
        let (kept, mid) = dedup_spec(log, names.drop_last(), now, ttl, capacity);
        let (fresh, after) = observe_spec(mid, names.last(), now, ttl, capacity);
        (
            if fresh {
                kept.push(names.last())
            } else {
                kept
            },
            after,
        )
    }
}

/// Recently seen tags.
#[derive(Clone, Debug)]
pub struct RecentTags {
    entries: Vec<(String, i64)>,
    ttl_secs: i64,
    capacity: usize,
}

impl RecentTags {
    pub closed spec fn log(&self) -> EntryLog {
        self.entries@.map_values(|e: (String, i64)| (e.0@, e.1))
    }

    pub closed spec fn ttl(&self) -> i64 {
        self.ttl_secs
    }

    pub closed spec fn capacity(&self) -> nat {
        self.capacity as nat
    }

    pub open spec fn wf(&self) -> bool {
        &&& self.capacity() > 0
        &&& self.log().len() <= self.capacity()
    }

    /// Whether `name` counts as seen at `now`.
    pub open spec fn is_live(&self, name: Seq<char>, now: i64) -> bool {
        is_live_in(self.log(), name, now, self.ttl())
    }

    /// An empty cache whose entries live `ttl_secs` seconds, holding at most
    /// `capacity` of them.
    pub fn new(ttl_secs: i64, capacity: usize) -> (r: RecentTags)
        requires
            capacity > 0,
        ensures
            r.wf(),
            r.log() == Seq::<(Seq<char>, i64)>::empty(),
            r.ttl() == ttl_secs,
            r.capacity() == capacity,
    {
        let r = RecentTags { entries: Vec::new(), ttl_secs, capacity };
        assert(r.log() =~= Seq::<(Seq<char>, i64)>::empty());
        r
    }

    /// A cache with the standard time to live and capacity.
    pub fn standard() -> (r: RecentTags)
        ensures
            r.wf(),
            r.log() == Seq::<(Seq<char>, i64)>::empty(),
            r.ttl() == DEDUP_TTL_SECS,
            r.capacity() == DEDUP_CAPACITY,
    {
        RecentTags::new(DEDUP_TTL_SECS, DEDUP_CAPACITY)
    }

    /// Number of entries held.
    pub fn len(&self) -> (r: usize)
        ensures
            r == self.log().len(),
    {
        self.entries.len()
    }

    fn live_check(&self, name: &str, now: i64) -> (r: bool)
        ensures
            r == self.is_live(name@, now),
    {
        let mut i = self.entries.len();
        assert(self.log().take(i as int) =~= self.log());
        while i > 0
            invariant
                i <= self.entries@.len(),
                recorded_at(self.log(), name@) == recorded_at(self.log().take(i as int), name@),
            decreases i,
        {
            assert(self.log().take(i as int).drop_last() =~= self.log().take(i - 1));
            let e = &self.entries[i - 1];
            if str_equal(e.0.as_str(), name) {
                return (now as i128) - (e.1 as i128) < self.ttl_secs as i128;
            }
            i = i - 1;
        }
        false
    }

    fn make_room(&mut self, now: i64)
        requires
            old(self).wf(),
        ensures
            final(self).log() == evicted(old(self).log(), now, old(self).ttl(), old(self).capacity()),
            final(self).log().len() < final(self).capacity(),
            final(self).ttl() == old(self).ttl(),
            final(self).capacity() == old(self).capacity(),
    {
        let ghost old_log = self.log();
        let mut kept: Vec<(String, i64)> = Vec::new();
        let mut i: usize = 0;
        while i < self.entries.len()
            invariant
                i <= self.entries@.len(),
                old_log == self.log(),
                kept@.map_values(|e: (String, i64)| (e.0@, e.1)) == live_entries(
                    old_log.take(i as int),
                    now,
                    self.ttl_secs,
                ),
                kept@.len() <= i,
            decreases self.entries@.len() - i,
        {
            assert(old_log.take(i + 1).drop_last() =~= old_log.take(i as int));
            assert(old_log.take(i + 1).last() == old_log[i as int]);
            let ghost before = kept@;
            let e = &self.entries[i];
            if (now as i128) - (e.1 as i128) < self.ttl_secs as i128 {
                kept.push((e.0.clone(), e.1));
                assert(kept@.map_values(|e: (String, i64)| (e.0@, e.1)) =~= before.map_values(
                    |e: (String, i64)| (e.0@, e.1),
                ).push(old_log[i as int]));
            }
            i = i + 1;
        }
        assert(old_log.take(old_log.len() as int) =~= old_log);
        if kept.len() >= self.capacity {
            let ghost full = kept@;
            let mut rest: Vec<(String, i64)> = Vec::new();
            let mut j: usize = 1;
            while j < kept.len()
                invariant
                    1 <= j <= kept@.len(),
                    kept@ == full,
                    rest@ =~= full.subrange(1, j as int),
                decreases kept@.len() - j,
            {
                rest.push((kept[j].0.clone(), kept[j].1));
                j = j + 1;
            }
            assert(rest@.map_values(|e: (String, i64)| (e.0@, e.1)) =~= full.map_values(
                |e: (String, i64)| (e.0@, e.1),
            ).drop_first());
            self.entries = rest;
        } else {
            self.entries = kept;
        }
    }

    /// Observes `name` seen at `now`: returns false, changing nothing, when the
    /// tag was recorded less than the time to live before `now`; otherwise
    /// records it as recorded at `now` and returns true. When the cache is
    /// full it first drops the expired entries, and if it is still full, the
    /// oldest one.
    pub fn observe(&mut self, name: &str, now: i64) -> (r: bool)
        requires
            old(self).wf(),
        ensures
            final(self).wf(),
            (r, final(self).log()) == observe_spec(
                old(self).log(),
                name@,
                now,
                old(self).ttl(),
                old(self).capacity(),
            ),
            final(self).ttl() == old(self).ttl(),
            final(self).capacity() == old(self).capacity(),
    {
        if self.live_check(name, now) {
            return false;
        }
        if self.entries.len() >= self.capacity {
            self.make_room(now);
        }
        let ghost before = self.log();
        self.entries.push((name.to_owned(), now));
        assert(self.log() =~= before.push((name@, now)));
        true
    }

    /// Drops from `batch` every tag that counts as seen, observing the others;
    /// the second sighting of a tag within one batch is dropped too.
    pub fn dedup_batch(&mut self, batch: &Vec<String>, now: i64) -> (r: Vec<String>)
        requires
            old(self).wf(),
        ensures
            final(self).wf(),
            (views_of(r@), final(self).log()) == dedup_spec(
                old(self).log(),
                views_of(batch@),
                now,
                old(self).ttl(),
                old(self).capacity(),
            ),
            final(self).ttl() == old(self).ttl(),
            final(self).capacity() == old(self).capacity(),
    {
        let ghost names = views_of(batch@);
        let mut kept: Vec<String> = Vec::new();
        let mut i: usize = 0;
        while i < batch.len()
            invariant
                self.wf(),
                i <= batch@.len(),
                names == views_of(batch@),
                self.ttl() == old(self).ttl(),
                self.capacity() == old(self).capacity(),
                (views_of(kept@), self.log()) == dedup_spec(
                    old(self).log(),
                    names.take(i as int),
                    now,
                    old(self).ttl(),
                    old(self).capacity(),
                ),
            decreases batch@.len() - i,
        {
            assert(names.take(i + 1).drop_last() =~= names.take(i as int));
            assert(names.take(i + 1).last() == batch@[i as int]@);
            let ghost before = kept@;
            if self.observe(batch[i].as_str(), now) {
                kept.push(batch[i].clone());
                assert(views_of(kept@) =~= views_of(before).push(batch@[i as int]@));
            }
            i = i + 1;
        }
        assert(names.take(names.len() as int) =~= names);
        kept
    }
}

/// A tag that is not live when seen at `t1` is recorded then, and seen again
/// at any `t2` from `t1` until the time to live has passed, it is dropped:
/// two sightings within the window lead to one fetch.
pub proof fn lemma_second_sighting_dropped(
    log: EntryLog,
    name: Seq<char>,
    t1: i64,
    t2: i64,
    ttl: i64,
    capacity: nat,
)
    requires
        !is_live_in(log, name, t1, ttl),
        t1 <= t2,
        t2 - t1 < ttl,
    ensures
        observe_spec(log, name, t1, ttl, capacity).0,
        !observe_spec(observe_spec(log, name, t1, ttl, capacity).1, name, t2, ttl, capacity).0,
{
    let after = observe_spec(log, name, t1, ttl, capacity).1;
    assert(after.drop_last() =~= after.subrange(0, after.len() - 1));
    assert(recorded_at(after, name) == Some(t1));
}

/// Of two sightings of a tag within its time to live, at most one is recorded.
pub proof fn lemma_at_most_one_fetch(
    log: EntryLog,
    name: Seq<char>,
    t1: i64,
    t2: i64,
    ttl: i64,
    capacity: nat,
)
    requires
        t1 <= t2,
        t2 - t1 < ttl,
    ensures
        !(observe_spec(log, name, t1, ttl, capacity).0 && observe_spec(
            observe_spec(log, name, t1, ttl, capacity).1,
            name,
            t2,
            ttl,
            capacity,
        ).0),
{
    if !is_live_in(log, name, t1, ttl) {
        lemma_second_sighting_dropped(log, name, t1, t2, ttl, capacity);
    }
}

proof fn lemma_recorded_push(log: EntryLog, e: (Seq<char>, i64), n: Seq<char>)
    ensures
        recorded_at(log.push(e), n) == if e.0 == n {
            Some(e.1)
        } else {
            recorded_at(log, n)
        },
{
    assert(log.push(e).drop_last() =~= log);
}

/// Without eviction, deduplicating `names` leaves a log at most
/// `names.len()` entries longer.
proof fn lemma_dedup_len(log: EntryLog, names: Seq<Seq<char>>, now: i64, ttl: i64, capacity: nat)
    requires
        log.len() + names.len() < capacity,
    ensures
        dedup_spec(log, names, now, ttl, capacity).1.len() <= log.len() + names.len(),
    decreases names.len(),
{
    if names.len() > 0 {
        lemma_dedup_len(log, names.drop_last(), now, ttl, capacity);
    }
}

/// Without eviction, a tag absent from `names` keeps its record and is not fresh.
proof fn lemma_dedup_untouched(
    log: EntryLog,
    names: Seq<Seq<char>>,
    now: i64,
    ttl: i64,
    capacity: nat,
    n: Seq<char>,
)
    requires
        log.len() + names.len() < capacity,
        !names.contains(n),
    ensures
        recorded_at(dedup_spec(log, names, now, ttl, capacity).1, n) == recorded_at(log, n),
        !dedup_spec(log, names, now, ttl, capacity).0.contains(n),
    decreases names.len(),
{
    if names.len() > 0 {
        let prefix = names.drop_last();
        assert(!prefix.contains(n)) by {
            if prefix.contains(n) {
                let i = choose|i: int| 0 <= i < prefix.len() && prefix[i] == n;
                assert(names[i] == n);
            }
        }
        assert(names.last() == names[names.len() - 1]);
        lemma_dedup_untouched(log, prefix, now, ttl, capacity, n);
        lemma_dedup_len(log, prefix, now, ttl, capacity);
        let (kept, mid) = dedup_spec(log, prefix, now, ttl, capacity);
        lemma_recorded_push(mid, (names.last(), now), n);
        if !is_live_in(mid, names.last(), now, ttl) {
            assert(!kept.push(names.last()).contains(n)) by {
                if kept.push(names.last()).contains(n) {
                    let i = choose|i: int| 0 <= i < kept.len() + 1 && kept.push(names.last())[i] == n;
                    if i < kept.len() {
                        assert(kept[i] == n);
                    }
                }
            }
        }
    }
}

/// Without eviction, a tag live at `now` keeps its record and is not fresh.
proof fn lemma_dedup_keeps_live(
    log: EntryLog,
    names: Seq<Seq<char>>,
    now: i64,
    ttl: i64,
    capacity: nat,
    n: Seq<char>,
    t: i64,
)
    requires
        log.len() + names.len() < capacity,
        recorded_at(log, n) == Some(t),
        now - t < ttl,
    ensures
        recorded_at(dedup_spec(log, names, now, ttl, capacity).1, n) == Some(t),
        !dedup_spec(log, names, now, ttl, capacity).0.contains(n),
    decreases names.len(),
{
    if names.len() > 0 {
        let prefix = names.drop_last();
        lemma_dedup_keeps_live(log, prefix, now, ttl, capacity, n, t);
        lemma_dedup_len(log, prefix, now, ttl, capacity);
        let (kept, mid) = dedup_spec(log, prefix, now, ttl, capacity);
        lemma_recorded_push(mid, (names.last(), now), n);
        if !is_live_in(mid, names.last(), now, ttl) {
            assert(names.last() != n);
            assert(!kept.push(names.last()).contains(n)) by {
                if kept.push(names.last()).contains(n) {
                    let i = choose|i: int| 0 <= i < kept.len() + 1 && kept.push(names.last())[i] == n;
                    if i < kept.len() {
                        assert(kept[i] == n);
                    }
                }
            }
        }
    }
}

/// Without eviction, a tag of `names` not live at `now` becomes fresh and is
/// recorded at `now`.
proof fn lemma_dedup_records_new(
    log: EntryLog,
    names: Seq<Seq<char>>,
    now: i64,
    ttl: i64,
    capacity: nat,
    n: Seq<char>,
)
    requires
        log.len() + names.len() < capacity,
        !is_live_in(log, n, now, ttl),
        names.contains(n),
        ttl > 0,
    ensures
        recorded_at(dedup_spec(log, names, now, ttl, capacity).1, n) == Some(now),
        dedup_spec(log, names, now, ttl, capacity).0.contains(n),
    decreases names.len(),
{
    let prefix = names.drop_last();
    let x = names.last();
    lemma_dedup_len(log, prefix, now, ttl, capacity);
    let (kept, mid) = dedup_spec(log, prefix, now, ttl, capacity);
    lemma_recorded_push(mid, (x, now), n);
    if prefix.contains(n) {
        lemma_dedup_records_new(log, prefix, now, ttl, capacity, n);
        let i = choose|i: int| 0 <= i < kept.len() && kept[i] == n;
        if !is_live_in(mid, x, now, ttl) {
            assert(kept.push(x)[i] == n);
        }
    } else {
        let i = choose|i: int| 0 <= i < names.len() && names[i] == n;
        if i < names.len() - 1 {
            assert(prefix[i] == n);
        }
        assert(x == n);
        lemma_dedup_untouched(log, prefix, now, ttl, capacity, n);
        assert(kept.push(x)[kept.len() as int] == n);
    }
}

/// Without eviction, no tag is fresh twice in one batch, and every fresh tag
/// is recorded at `now`.
proof fn lemma_dedup_distinct(log: EntryLog, names: Seq<Seq<char>>, now: i64, ttl: i64, capacity: nat)
    requires
        log.len() + names.len() < capacity,
        ttl > 0,
    ensures
        forall|i: int, j: int|
            0 <= i < j < dedup_spec(log, names, now, ttl, capacity).0.len() ==> dedup_spec(
                log,
                names,
                now,
                ttl,
                capacity,
            ).0[i] != dedup_spec(log, names, now, ttl, capacity).0[j],
        forall|i: int|
            0 <= i < dedup_spec(log, names, now, ttl, capacity).0.len() ==> recorded_at(
                dedup_spec(log, names, now, ttl, capacity).1,
                #[trigger] dedup_spec(log, names, now, ttl, capacity).0[i],
            ) == Some(now),
    decreases names.len(),
{
    if names.len() > 0 {
        let prefix = names.drop_last();
        let x = names.last();
        lemma_dedup_distinct(log, prefix, now, ttl, capacity);
        lemma_dedup_len(log, prefix, now, ttl, capacity);
        let (kept, mid) = dedup_spec(log, prefix, now, ttl, capacity);
        if !is_live_in(mid, x, now, ttl) {
            let f = kept.push(x);
            let after = mid.push((x, now));
            assert forall|i: int| 0 <= i < f.len() implies recorded_at(after, #[trigger] f[i]) == Some(
                now,
            ) by {
                lemma_recorded_push(mid, (x, now), f[i]);
                if i < kept.len() {
                    assert(f[i] == kept[i]);
                }
            }
            assert forall|i: int, j: int| 0 <= i < j < f.len() implies f[i] != f[j] by {
                if j == kept.len() {
                    assert(f[i] == kept[i]);
                    assert(recorded_at(mid, kept[i]) == Some(now));
                } else {
                    assert(f[i] == kept[i] && f[j] == kept[j]);
                }
            }
        }
    }
}

/// A tag that is new to the worker's cache and comes in a batch observed at
/// `t1` is fresh exactly once in that batch; coming again in a batch observed
/// at `t2`, before its time to live has passed, it is not fresh there. So the
/// worker plans its lookups once. This holds while the cache has room for
/// both batches, so that no entry is evicted.
pub proof fn lemma_batches_plan_tag_once(
    log: EntryLog,
    first: Seq<Seq<char>>,
    second: Seq<Seq<char>>,
    t1: i64,
    t2: i64,
    ttl: i64,
    capacity: nat,
    n: Seq<char>,
)
    requires
        !is_live_in(log, n, t1, ttl),
        first.contains(n),
        t1 <= t2,
        t2 - t1 < ttl,
        log.len() + first.len() + second.len() < capacity,
    ensures
        dedup_spec(log, first, t1, ttl, capacity).0.contains(n),
        forall|i: int, j: int|
            0 <= i < j < dedup_spec(log, first, t1, ttl, capacity).0.len() ==> dedup_spec(
                log,
                first,
                t1,
                ttl,
                capacity,
            ).0[i] != dedup_spec(log, first, t1, ttl, capacity).0[j],
        !dedup_spec(dedup_spec(log, first, t1, ttl, capacity).1, second, t2, ttl, capacity).0.contains(
            n,
        ),
{
    lemma_dedup_records_new(log, first, t1, ttl, capacity, n);
    lemma_dedup_distinct(log, first, t1, ttl, capacity);
    lemma_dedup_len(log, first, t1, ttl, capacity);
    let after = dedup_spec(log, first, t1, ttl, capacity).1;
    lemma_dedup_keeps_live(after, second, t2, ttl, capacity, n, t1);
}

} // verus!
