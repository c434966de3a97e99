//! Which tags still need an alias lookup, and which an implication lookup.
use vstd::prelude::*;
use crate::store::{RelationStore, RelationProbe};

verus! {

/// Most tags looked up in the store in one bulk query.
pub const PROBE_BATCH: usize = 800;

/// Seconds in a day.
pub const SECONDS_PER_DAY: i64 = 86400;

/// How long a check that found nothing keeps a tag from being checked again:
/// thirty days, in seconds.
pub const NEGATIVE_COOLDOWN_SECS: i64 = 2592000;

/// Tags to look up upstream, per relation kind, in input order.
#[derive(Clone, Debug)]
pub struct MissingRelations {
    pub need_alias: Vec<String>,
    pub need_implication: Vec<String>,
}

/// A check at `last_checked` found `count` edges, and lies less than
/// `cooldown` seconds before `now`.
pub open spec fn recently_empty(last_checked: Option<i64>, count: u64, now: i64, cooldown: i64) -> bool {
    match last_checked {
        Some(at) => count == 0 && now - at < cooldown,
        None => false,
    }
}

/// A tag needs an alias lookup unless it has an active alias edge or a
/// recent alias check found none.
pub open spec fn needs_alias_spec(store: RelationStore, name: Seq<char>, now: i64, cooldown: i64) -> bool {
    let p: RelationProbe = store.probe_of(name);
    store.alias_of(name) is None && !recently_empty(
        p.aliases_last_checked,
        p.aliases_count,
        now,
        cooldown,
    )
}

/// The same rule for implications.
pub open spec fn needs_implication_spec(
    store: RelationStore,
    name: Seq<char>,
    now: i64,
    cooldown: i64,
) -> bool {
    let p: RelationProbe = store.probe_of(name);
    !store.has_implication_spec(name) && !recently_empty(
        p.implications_last_checked,
        p.implications_count,
        now,
        cooldown,
    )
}

/// The names of `names` that need an alias lookup, in order.
pub open spec fn alias_gaps(store: RelationStore, names: Seq<String>, now: i64, cooldown: i64) -> Seq<
    String,
>
    decreases names.len(),
{
    if names.len() == 0 {
        Seq::empty()
    } else {
        let prev = alias_gaps(store, names.drop_last(), now, cooldown);
        if needs_alias_spec(store, names.last()@, now, cooldown) {
            prev.push(names.last())
        } else {
            prev
        }
    }
}

/// The names of `names` that need an implication lookup, in order.
pub open spec fn implication_gaps(
    store: RelationStore,
    names: Seq<String>,
    now: i64,
    cooldown: i64,
) -> Seq<String>
    decreases names.len(),
{
    if names.len() == 0 {
        Seq::empty()
    } else {
        let prev = implication_gaps(store, names.drop_last(), now, cooldown);
        if needs_implication_spec(store, names.last()@, now, cooldown) {
            prev.push(names.last())
        } else {
            prev
        }
    }
}

/// The character sequences of a list of strings.
pub open spec fn views_of(s: Seq<String>) -> Seq<Seq<char>> {
    s.map_values(|x: String| x@)
}

fn is_recently_empty(last_checked: Option<i64>, count: u64, now: i64, cooldown: i64) -> (r: bool)
    ensures
        r == recently_empty(last_checked, count, now, cooldown),
{
    match last_checked {
        Some(at) => count == 0 && (now as i128) - (at as i128) < cooldown as i128,
        None => false,
    }
}

/// Splits `tags` into chunks of at most [`PROBE_BATCH`] names, reads their
/// probe records one chunk at a time, and lists the tags that still need an
/// alias lookup and those that still need an implication lookup. A tag is
/// skipped for a kind when the store has an active edge of that kind for it,
/// or when its last check of that kind found nothing less than `cooldown`
/// seconds before `now`. The store is not changed.
pub fn find_missing(store: &RelationStore, tags: &Vec<String>, now: i64, cooldown: i64) -> (r:
    MissingRelations)
    ensures
        r.need_alias@ == alias_gaps(*store, tags@, now, cooldown),
        r.need_implication@ == implication_gaps(*store, tags@, now, cooldown),
{
    let mut need_alias: Vec<String> = Vec::new();
    let mut need_implication: Vec<String> = Vec::new();
    let n = tags.len();
    let mut start: usize = 0;
    while start < n
        invariant
            n == tags@.len(),
            start <= n,
            need_alias@ == alias_gaps(*store, tags@.take(start as int), now, cooldown),
            need_implication@ == implication_gaps(*store, tags@.take(start as int), now, cooldown),
        decreases n - start,
    {
        let end: usize = if n - start > PROBE_BATCH {
            start + PROBE_BATCH
        } else {
            n
        };
        let mut chunk: Vec<String> = Vec::new();
        let mut k: usize = start;
        while k < end
            invariant
                start <= k <= end <= n,
                n == tags@.len(),
                chunk@ =~= tags@.subrange(start as int, k as int),
            decreases end - k,
        {
            chunk.push(tags[k].clone());
            k = k + 1;
        }
        let probes = store.get_probes(chunk.as_slice());
        let mut j: usize = 0;
        while j < chunk.len()
            invariant
                start <= end <= n,
                n == tags@.len(),
                chunk@ == tags@.subrange(start as int, end as int),
                probes@.len() == chunk@.len(),
                forall|i: int| 0 <= i < chunk@.len() ==> probes@[i] == store.probe_of(#[trigger] chunk@[i]@),
                j <= chunk@.len(),
                need_alias@ == alias_gaps(*store, tags@.take(start + j), now, cooldown),
                need_implication@ == implication_gaps(*store, tags@.take(start + j), now, cooldown),
            decreases chunk@.len() - j,
        {
            let name = &chunk[j];
            let p = probes[j];
            assert(tags@.take(start + j + 1).drop_last() =~= tags@.take(start + j));
            assert(tags@.take(start + j + 1).last() == chunk@[j as int]);
            if !store.has_active_alias(name.as_str()) && !is_recently_empty(
                p.aliases_last_checked,
                p.aliases_count,
                now,
                cooldown,
            ) {
                need_alias.push(name.clone());
            }
            if !store.has_active_implication(name.as_str()) && !is_recently_empty(
                p.implications_last_checked,
                p.implications_count,
                now,
                cooldown,
            ) {
                need_implication.push(name.clone());
            }
            j = j + 1;
        }
        start = end;
    }
    assert(tags@.take(n as int) =~= tags@);
    MissingRelations { need_alias, need_implication }
}

proof fn lemma_alias_gaps_skip(store: RelationStore, names: Seq<String>, now: i64, cooldown: i64, t: Seq<char>)
    requires
        !needs_alias_spec(store, t, now, cooldown),
    ensures
        !views_of(alias_gaps(store, names, now, cooldown)).contains(t),
    decreases names.len(),
{
    if names.len() > 0 {
        lemma_alias_gaps_skip(store, names.drop_last(), now, cooldown, t);
        let prev = alias_gaps(store, names.drop_last(), now, cooldown);
        if needs_alias_spec(store, names.last()@, now, cooldown) {
            assert(views_of(prev.push(names.last())) =~= views_of(prev).push(names.last()@));
        }
    }
}

proof fn lemma_implication_gaps_skip(
    store: RelationStore,
    names: Seq<String>,
    now: i64,
    cooldown: i64,
    t: Seq<char>,
)
    requires
        !needs_implication_spec(store, t, now, cooldown),
    ensures
        !views_of(implication_gaps(store, names, now, cooldown)).contains(t),
    decreases names.len(),
{
    if names.len() > 0 {
        lemma_implication_gaps_skip(store, names.drop_last(), now, cooldown, t);
        let prev = implication_gaps(store, names.drop_last(), now, cooldown);
        if needs_implication_spec(store, names.last()@, now, cooldown) {
            assert(views_of(prev.push(names.last())) =~= views_of(prev).push(names.last()@));
        }
    }
}

/// Negative cache: a tag whose last alias check found no edge, less than
/// `cooldown` seconds before `now`, is left out of the alias list; one whose
/// last implication check found none in that window is left out of the
/// implication list. This holds whether or not the store has edges for it.
pub proof fn lemma_negative_cache(
    store: RelationStore,
    tags: Seq<String>,
    now: i64,
    cooldown: i64,
    t: Seq<char>,
)
    ensures
        recently_empty(
            store.probe_of(t).aliases_last_checked,
            store.probe_of(t).aliases_count,
            now,
            cooldown,
        ) ==> !views_of(alias_gaps(store, tags, now, cooldown)).contains(t),
        recently_empty(
            store.probe_of(t).implications_last_checked,
            store.probe_of(t).implications_count,
            now,
            cooldown,
        ) ==> !views_of(implication_gaps(store, tags, now, cooldown)).contains(t),
{
    if !needs_alias_spec(store, t, now, cooldown) {
        lemma_alias_gaps_skip(store, tags, now, cooldown, t);
    }
    if !needs_implication_spec(store, t, now, cooldown) {
        lemma_implication_gaps_skip(store, tags, now, cooldown, t);
    }
}

/// Positive short-circuit: a tag with an active alias edge is never in the
/// alias list, whatever its probe record says; likewise a tag with an active
/// implication edge is never in the implication list.
pub proof fn lemma_known_relations_skipped(
    store: RelationStore,
    tags: Seq<String>,
    now: i64,
    cooldown: i64,
    t: Seq<char>,
)
    ensures
        store.alias_of(t) is Some ==> !views_of(alias_gaps(store, tags, now, cooldown)).contains(t),
        store.has_implication_spec(t) ==> !views_of(
            implication_gaps(store, tags, now, cooldown),
        ).contains(t),
{
    lemma_negative_cache(store, tags, now, cooldown, t);
    if !needs_alias_spec(store, t, now, cooldown) {
        lemma_alias_gaps_skip(store, tags, now, cooldown, t);
    }
    if !needs_implication_spec(store, t, now, cooldown) {
        lemma_implication_gaps_skip(store, tags, now, cooldown, t);
    }
}

/// Every tag of the input that needs a lookup of a kind is listed for it.
pub proof fn lemma_gaps_complete(
    store: RelationStore,
    tags: Seq<String>,
    now: i64,
    cooldown: i64,
    i: int,
)
    requires
        0 <= i < tags.len(),
    ensures
        needs_alias_spec(store, tags[i]@, now, cooldown) ==> views_of(
            alias_gaps(store, tags, now, cooldown),
        ).contains(tags[i]@),
        needs_implication_spec(store, tags[i]@, now, cooldown) ==> views_of(
            implication_gaps(store, tags, now, cooldown),
        ).contains(tags[i]@),
    decreases tags.len(),
{
    let prev_a = alias_gaps(store, tags.drop_last(), now, cooldown);
    let prev_m = implication_gaps(store, tags.drop_last(), now, cooldown);
    if i < tags.len() - 1 {
        lemma_gaps_complete(store, tags.drop_last(), now, cooldown, i);
        assert(tags.drop_last()[i] == tags[i]);
    }
    if needs_alias_spec(store, tags.last()@, now, cooldown) {
        assert(views_of(prev_a.push(tags.last())) =~= views_of(prev_a).push(tags.last()@));
        if i < tags.len() - 1 && needs_alias_spec(store, tags[i]@, now, cooldown) {
            let w = choose|k: int| 0 <= k < views_of(prev_a).len() && views_of(prev_a)[k] == tags[i]@;
            assert(views_of(prev_a.push(tags.last()))[w] == tags[i]@);
        }
        assert(views_of(prev_a.push(tags.last()))[prev_a.len() as int] == tags.last()@);
    }
    if needs_implication_spec(store, tags.last()@, now, cooldown) {
        assert(views_of(prev_m.push(tags.last())) =~= views_of(prev_m).push(tags.last()@));
        if i < tags.len() - 1 && needs_implication_spec(store, tags[i]@, now, cooldown) {
            let w = choose|k: int| 0 <= k < views_of(prev_m).len() && views_of(prev_m)[k] == tags[i]@;
            assert(views_of(prev_m.push(tags.last()))[w] == tags[i]@);
        }
        assert(views_of(prev_m.push(tags.last()))[prev_m.len() as int] == tags.last()@);
    }
}

} // verus!
