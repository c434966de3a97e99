//! The decisions of the background worker that fills in missing tag
//! relations: which tags of a batch to look up, in which groups, and how the
//! outcome of each lookup changes the relation store.
//!
//! The worker drains a queue of tag batches. For each batch it drops the tags
//! seen recently ([`SyncWorker::plan_batch`]), splits the rest into
//! sub-batches, and finds for each which tags need an alias lookup and which
//! an implication lookup. The caller runs those lookups, at most
//! [`POOL_CONCURRENCY`] at a time per kind, and hands the outcomes of a pool to
//! [`complete_pool`].
use vstd::prelude::*;
use crate::dedup::{RecentTags, dedup_spec, EntryLog};
use crate::finder::{find_missing, alias_gaps, implication_gaps, views_of, recently_empty, lemma_negative_cache, NEGATIVE_COOLDOWN_SECS, MissingRelations};
use crate::retry::FetchError;
use crate::store::{RelationStore, RelationEdge, RelationKind, active_only, is_active, latest_probe};

verus! {

/// Most tags handed to the gap finder at once.
pub const SUB_BATCH: usize = 500;

/// Most lookups of one kind running at the same time.
pub const POOL_CONCURRENCY: usize = 10;

/// Most batches waiting in the worker's queue; more are dropped.
pub const QUEUE_CAPACITY: usize = 10000;

/// `s` cut into consecutive pieces of `size` items, the last one shorter.
pub open spec fn chunked<T>(s: Seq<T>, size: nat) -> Seq<Seq<T>>
    recommends
        size > 0,
    decreases s.len(),
{
    if s.len() == 0 || size == 0 {
        Seq::empty()
    } else if s.len() <= size {
        seq![s]
    } else {
        seq![s.take(size as int)] + chunked(s.skip(size as int), size)
    }
}

/// Cuts `items` into consecutive sub-batches of `size` names; only the last
/// one may be shorter.
pub fn sub_batches(items: &Vec<String>, size: usize) -> (r: Vec<Vec<String>>)
    requires
        size > 0,
    ensures
        r@.len() == chunked(items@, size as nat).len(),
        forall|i: int| 0 <= i < r@.len() ==> #[trigger] r@[i]@ == chunked(items@, size as nat)[i],
{
    let mut out: Vec<Vec<String>> = Vec::new();
    let n = items.len();
    let mut start: usize = 0;
    assert(items@.skip(0) =~= items@);
    while start < n
        invariant
            n == items@.len(),
            start <= n,
            size > 0,
            out@.len() + chunked(items@.skip(start as int), size as nat).len() == chunked(
                items@,
                size as nat,
            ).len(),
            forall|i: int| 0 <= i < out@.len() ==> #[trigger] out@[i]@ == chunked(items@, size as nat)[i],
            forall|i: int|
                0 <= i < chunked(items@.skip(start as int), size as nat).len() ==> #[trigger] chunked(
                    items@.skip(start as int),
                    size as nat,
                )[i] == chunked(items@, size as nat)[out@.len() + i],
        decreases n - start,
    {
        let end: usize = if n - start > size {
            start + size
        } else {
            n
        };
        let mut piece: Vec<String> = Vec::new();
        let mut k: usize = start;
        while k < end
            invariant
                start <= k <= end <= n,
                n == items@.len(),
                piece@ =~= items@.subrange(start as int, k as int),
            decreases end - k,
        {
            piece.push(items[k].clone());
            k = k + 1;
        }
        let ghost rest = items@.skip(start as int);
        let ghost old_len = out@.len();
        assert(rest.len() > 0);
        if n - start > size {
            assert(rest.take(size as int) =~= piece@);
            assert(rest.skip(size as int) =~= items@.skip(end as int));
            assert(chunked(rest, size as nat) == seq![rest.take(size as int)] + chunked(
                rest.skip(size as int),
                size as nat,
            ));
            assert forall|i: int|
                0 <= i < chunked(items@.skip(end as int), size as nat).len() implies #[trigger] chunked(
                items@.skip(end as int),
                size as nat,
            )[i] == chunked(items@, size as nat)[old_len + 1 + i] by {
                assert(chunked(rest, size as nat)[i + 1] == chunked(items@.skip(end as int), size as nat)[i]);
            }
        } else {
            assert(rest =~= piece@);
            assert(items@.skip(end as int).len() == 0);
        }
        assert(chunked(rest, size as nat)[0] == piece@);
        out.push(piece);
        start = end;
    }
    assert(items@.skip(n as int).len() == 0);
    out
}

/// The outcome of looking up the relations of one kind of one tag.
#[derive(Debug)]
pub struct TagLookup {
    pub tag: String,
    pub result: Result<Vec<RelationEdge>, FetchError>,
}

/// The edges of every successful lookup of `lookups`, in order.
pub open spec fn pool_edges(lookups: Seq<TagLookup>) -> Seq<RelationEdge>
    decreases lookups.len(),
{
    if lookups.len() == 0 {
        Seq::empty()
    } else {
        match lookups.last().result {
            Ok(edges) => pool_edges(lookups.drop_last()) + edges@,
            Err(_) => pool_edges(lookups.drop_last()),
        }
    }
}

/// The latest probe of `name` for `k` once the probes of a pool of `kind`
/// lookups are written at `now`, `before` being the one before the pool: a
/// successful lookup of the tag records how many active edges it found, a
/// failed one records nothing.
pub open spec fn pool_probe(
    lookups: Seq<TagLookup>,
    name: Seq<char>,
    k: RelationKind,
    kind: RelationKind,
    now: i64,
    before: Option<(u64, i64)>,
) -> Option<(u64, i64)>
    decreases lookups.len(),
{
    if lookups.len() == 0 {
        before
    } else {
        let l = lookups.last();
        match l.result {
            Ok(edges) if k == kind && l.tag@ == name => Some(
                (active_only(edges@).len() as u64, now),
            ),
            _ => pool_probe(lookups.drop_last(), name, k, kind, now, before),
        }
    }
}

/// Number of active edges among `edges`.
pub fn count_active(edges: &Vec<RelationEdge>) -> (r: u64)
    ensures
        r == active_only(edges@).len(),
{
    let mut count: u64 = 0;
    let mut i: usize = 0;
    while i < edges.len()
        invariant
            i <= edges@.len(),
            count == active_only(edges@.take(i as int)).len(),
            count <= i,
        decreases edges@.len() - i,
    {
        assert(edges@.take(i + 1).drop_last() =~= edges@.take(i as int));
        assert(edges@.take(i + 1).last() == edges@[i as int]);
        if is_active(&edges[i]) {
            count = count + 1;
        }
        i = i + 1;
    }
    assert(edges@.take(edges@.len() as int) =~= edges@);
    count
}

/// Writes the outcomes of a pool of `kind` lookups to the store: the active
/// edges of all successful lookups in one upsert, then for each successful
/// lookup a probe at `now` with the number of active edges it found, zero
/// included. A failed lookup changes nothing, so its tag is found missing
/// again by the next gap check.
pub fn complete_pool(
    store: &mut RelationStore,
    kind: RelationKind,
    lookups: &Vec<TagLookup>,
    now: i64,
)
    ensures
        kind == RelationKind::Alias ==> final(store).alias_log() == old(store).alias_log()
            + active_only(pool_edges(lookups@)) && final(store).implication_log() == old(
            store,
        ).implication_log(),
        kind == RelationKind::Implication ==> final(store).implication_log() == old(
            store,
        ).implication_log() + active_only(pool_edges(lookups@)) && final(store).alias_log() == old(
            store,
        ).alias_log(),
        forall|n: Seq<char>, k: RelationKind|
            #[trigger] crate::store::latest_probe(final(store).probe_log(), n, k) == pool_probe(
                lookups@,
                n,
                k,
                kind,
                now,
                crate::store::latest_probe(old(store).probe_log(), n, k),
            ),
{
    let mut all: Vec<RelationEdge> = Vec::new();
    let mut i: usize = 0;
    while i < lookups.len()
        invariant
            i <= lookups@.len(),
            all@ == pool_edges(lookups@.take(i as int)),
        decreases lookups@.len() - i,
    {
        assert(lookups@.take(i + 1).drop_last() =~= lookups@.take(i as int));
        assert(lookups@.take(i + 1).last() == lookups@[i as int]);
        match &lookups[i].result {
            Ok(edges) => {
                let ghost before = all@;
                let mut j: usize = 0;
                while j < edges.len()
                    invariant
                        j <= edges@.len(),
                        all@ == before + edges@.take(j as int),
                    decreases edges@.len() - j,
                {
                    all.push(edges[j].copied());
                    assert(edges@.take(j + 1) =~= edges@.take(j as int).push(edges@[j as int]));
                    assert(all@ =~= before + edges@.take(j + 1));
                    j = j + 1;
                }
                assert(edges@.take(edges@.len() as int) =~= edges@);
            },
            Err(_) => {},
        }
        i = i + 1;
    }
    assert(lookups@.take(lookups@.len() as int) =~= lookups@);
    match kind {
        RelationKind::Alias => store.upsert_aliases(&all),
        RelationKind::Implication => store.upsert_implications(&all),
    }
    let ghost logs_a = store.alias_log();
    let ghost logs_m = store.implication_log();
    let ghost start_probes = old(store).probe_log();
    let mut i: usize = 0;
    while i < lookups.len()
        invariant
            i <= lookups@.len(),
            store.alias_log() == logs_a,
            store.implication_log() == logs_m,
            forall|n: Seq<char>, k: RelationKind|
                #[trigger] crate::store::latest_probe(store.probe_log(), n, k) == pool_probe(
                    lookups@.take(i as int),
                    n,
                    k,
                    kind,
                    now,
                    crate::store::latest_probe(start_probes, n, k),
                ),
        decreases lookups@.len() - i,
    {
        assert(lookups@.take(i + 1).drop_last() =~= lookups@.take(i as int));
        assert(lookups@.take(i + 1).last() == lookups@[i as int]);
        let l = &lookups[i];
        match &l.result {
            Ok(edges) => {
                let count = count_active(edges);
                store.record_probe(l.tag.as_str(), kind, count, now);
            },
            Err(_) => {},
        }
        i = i + 1;
    }
}

/// What to look up for one batch of observed tags.
#[derive(Clone, Debug)]
pub struct BatchPlan {
    /// The tags of the batch not seen recently, in batch order.
    pub fresh: Vec<String>,
    /// For each sub-batch of `fresh`, the tags that need each kind of lookup.
    pub lookups: Vec<MissingRelations>,
}

/// The state of the relation synchroniser between batches: the recently
/// seen tags and its tuning.
#[derive(Clone, Debug)]
pub struct SyncWorker {
    recent: RecentTags,
    sub_batch: usize,
    cooldown_secs: i64,
}

impl SyncWorker {
    pub closed spec fn recent_log(&self) -> EntryLog {
        self.recent.log()
    }

    pub closed spec fn ttl(&self) -> i64 {
        self.recent.ttl()
    }

    pub closed spec fn capacity(&self) -> nat {
        self.recent.capacity()
    }

    pub closed spec fn sub_batch_size(&self) -> nat {
        self.sub_batch as nat
    }

    pub closed spec fn cooldown(&self) -> i64 {
        self.cooldown_secs
    }

    pub closed spec fn wf(&self) -> bool {
        self.recent.wf() && self.sub_batch > 0
    }

    /// A worker that remembers tags for `ttl_secs` seconds, at most
    /// `capacity` of them, checks gaps `sub_batch` tags at a time, and skips
    /// tags whose last check found nothing less than `cooldown_secs` ago.
    pub fn new(ttl_secs: i64, capacity: usize, sub_batch: usize, cooldown_secs: i64) -> (r: SyncWorker)
        requires
            capacity > 0,
            sub_batch > 0,
        ensures
            r.wf(),
            r.recent_log() == Seq::<(Seq<char>, i64)>::empty(),
            r.ttl() == ttl_secs,
            r.capacity() == capacity,
            r.sub_batch_size() == sub_batch,
            r.cooldown() == cooldown_secs,
    {
        SyncWorker { recent: RecentTags::new(ttl_secs, capacity), sub_batch, cooldown_secs }
    }

    /// A worker with the standard tuning: 30 minutes, 500000 tags, sub-batches
    /// of 500, a 30-day negative cache.
    pub fn standard() -> (r: SyncWorker)
        ensures
            r.wf(),
            r.recent_log() == Seq::<(Seq<char>, i64)>::empty(),
            r.ttl() == crate::dedup::DEDUP_TTL_SECS,
            r.capacity() == crate::dedup::DEDUP_CAPACITY,
            r.sub_batch_size() == SUB_BATCH,
            r.cooldown() == NEGATIVE_COOLDOWN_SECS,
    {
        SyncWorker::new(
            crate::dedup::DEDUP_TTL_SECS,
            crate::dedup::DEDUP_CAPACITY,
            SUB_BATCH,
            NEGATIVE_COOLDOWN_SECS,
        )
    }

    /// Takes in a batch observed at `now`: drops the tags seen recently,
    /// remembers the others, cuts them into sub-batches and finds, for each
    /// sub-batch, the tags that need an alias lookup and those that need an
    /// implication lookup.
    pub fn plan_batch(&mut self, store: &RelationStore, batch: &Vec<String>, now: i64) -> (r: BatchPlan)
        requires
            old(self).wf(),
        ensures
            final(self).wf(),
            (views_of(r.fresh@), final(self).recent_log()) == dedup_spec(
                old(self).recent_log(),
                views_of(batch@),
                now,
                old(self).ttl(),
                old(self).capacity(),
            ),
            r.lookups@.len() == chunked(r.fresh@, old(self).sub_batch_size()).len(),
            forall|i: int|
                0 <= i < r.lookups@.len() ==> {
                    &&& (#[trigger] r.lookups@[i]).need_alias@ == alias_gaps(
                        *store,
                        chunked(r.fresh@, old(self).sub_batch_size())[i],
                        now,
                        old(self).cooldown(),
                    )
                    &&& r.lookups@[i].need_implication@ == implication_gaps(
                        *store,
                        chunked(r.fresh@, old(self).sub_batch_size())[i],
                        now,
                        old(self).cooldown(),
                    )
                },
            final(self).ttl() == old(self).ttl(),
            final(self).capacity() == old(self).capacity(),
            final(self).sub_batch_size() == old(self).sub_batch_size(),
            final(self).cooldown() == old(self).cooldown(),
    {
        let fresh = self.recent.dedup_batch(batch, now);
        let pieces = sub_batches(&fresh, self.sub_batch);
        let mut lookups: Vec<MissingRelations> = Vec::new();
        let mut i: usize = 0;
        while i < pieces.len()
            invariant
                i <= pieces@.len(),
                pieces@.len() == chunked(fresh@, self.sub_batch as nat).len(),
                forall|j: int|
                    0 <= j < pieces@.len() ==> #[trigger] pieces@[j]@ == chunked(
                        fresh@,
                        self.sub_batch as nat,
                    )[j],
                lookups@.len() == i,
                forall|j: int|
                    0 <= j < i ==> {
                        &&& (#[trigger] lookups@[j]).need_alias@ == alias_gaps(
                            *store,
                            chunked(fresh@, self.sub_batch as nat)[j],
                            now,
                            self.cooldown_secs,
                        )
                        &&& lookups@[j].need_implication@ == implication_gaps(
                            *store,
                            chunked(fresh@, self.sub_batch as nat)[j],
                            now,
                            self.cooldown_secs,
                        )
                    },
            decreases pieces@.len() - i,
        {
            lookups.push(find_missing(store, &pieces[i], now, self.cooldown_secs));
            i = i + 1;
        }
        BatchPlan { fresh, lookups }
    }
}

proof fn lemma_pool_probe_of_last_lookup(
    lookups: Seq<TagLookup>,
    i: int,
    kind: RelationKind,
    now: i64,
    before: Option<(u64, i64)>,
)
    requires
        0 <= i < lookups.len(),
        lookups[i].result is Ok,
        forall|j: int| i < j < lookups.len() ==> #[trigger] lookups[j].tag@ != lookups[i].tag@,
    ensures
        pool_probe(lookups, lookups[i].tag@, kind, kind, now, before) == Some(
            (active_only(lookups[i].result->Ok_0@).len() as u64, now),
        ),
    decreases lookups.len(),
{
    if i < lookups.len() - 1 {
        let prefix = lookups.drop_last();
        assert(prefix[i] == lookups[i]);
        assert forall|j: int| i < j < prefix.len() implies #[trigger] prefix[j].tag@ != prefix[i].tag@ by {
            assert(prefix[j] == lookups[j]);
        }
        assert(lookups.last().tag@ != lookups[i].tag@);
        lemma_pool_probe_of_last_lookup(prefix, i, kind, now, before);
    }
}

/// Once a pool's outcomes are written, a tag whose last lookup in the pool
/// succeeded but found no active edge is left out of the list of that kind
/// by every gap check made from then until `cooldown` seconds have passed.
pub proof fn lemma_empty_lookup_suppresses_recheck(
    before: RelationStore,
    after: RelationStore,
    kind: RelationKind,
    lookups: Seq<TagLookup>,
    i: int,
    now: i64,
    later: i64,
    cooldown: i64,
    tags: Seq<String>,
)
    requires
        forall|n: Seq<char>, k: RelationKind|
            #[trigger] latest_probe(after.probe_log(), n, k) == pool_probe(
                lookups,
                n,
                k,
                kind,
                now,
                latest_probe(before.probe_log(), n, k),
            ),
        0 <= i < lookups.len(),
        lookups[i].result is Ok,
        active_only(lookups[i].result->Ok_0@).len() == 0,
        forall|j: int| i < j < lookups.len() ==> #[trigger] lookups[j].tag@ != lookups[i].tag@,
        now <= later,
        later - now < cooldown,
    ensures
        kind == RelationKind::Alias ==> !views_of(alias_gaps(after, tags, later, cooldown)).contains(
            lookups[i].tag@,
        ),
        kind == RelationKind::Implication ==> !views_of(
            implication_gaps(after, tags, later, cooldown),
        ).contains(lookups[i].tag@),
{
    let t = lookups[i].tag@;
    lemma_pool_probe_of_last_lookup(lookups, i, kind, now, latest_probe(before.probe_log(), t, kind));
    assert(latest_probe(after.probe_log(), t, kind) == Some((0u64, now)));
    lemma_negative_cache(after, tags, later, cooldown, t);
}

} // verus!
