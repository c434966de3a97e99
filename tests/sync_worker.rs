use tag_sync::dedup::{RecentTags, DEDUP_TTL_SECS};
use tag_sync::finder::SECONDS_PER_DAY;
use tag_sync::retry::{FetchError, LastFailure};
use tag_sync::store::{RelationEdge, RelationKind, RelationStore};
use tag_sync::sync::{complete_pool, count_active, sub_batches, SyncWorker, TagLookup};

const NOW: i64 = 1_700_000_000;

fn names(v: &[&str]) -> Vec<String> {
    v.iter().map(|s| s.to_string()).collect()
}

fn edge(a: &str, c: &str, status: &str) -> RelationEdge {
    RelationEdge { antecedent: a.to_string(), consequent: c.to_string(), status: status.to_string() }
}

#[test]
fn same_tag_twice_within_ttl_is_planned_once() {
    let store = RelationStore::new();
    let mut worker = SyncWorker::standard();
    let first = worker.plan_batch(&store, &names(&["fox"]), NOW);
    assert_eq!(first.fresh, names(&["fox"]));
    assert_eq!(first.lookups.len(), 1);
    assert_eq!(first.lookups[0].need_alias, names(&["fox"]));
    let second = worker.plan_batch(&store, &names(&["fox"]), NOW + 60);
    assert!(second.fresh.is_empty());
    assert!(second.lookups.is_empty());
}

#[test]
fn duplicate_within_one_batch_is_dropped() {
    let store = RelationStore::new();
    let mut worker = SyncWorker::standard();
    let plan = worker.plan_batch(&store, &names(&["fox", "wolf", "fox"]), NOW);
    assert_eq!(plan.fresh, names(&["fox", "wolf"]));
}

#[test]
fn tag_is_fresh_again_after_ttl() {
    let mut cache = RecentTags::standard();
    assert!(cache.observe("fox", NOW));
    assert!(!cache.observe("fox", NOW + DEDUP_TTL_SECS - 1));
    assert!(cache.observe("fox", NOW + DEDUP_TTL_SECS));
}

#[test]
fn full_cache_evicts_oldest_live_entry() {
    let mut cache = RecentTags::new(3600, 2);
    assert!(cache.observe("a", NOW));
    assert!(cache.observe("b", NOW + 1));
    assert!(cache.observe("c", NOW + 2));
    assert_eq!(cache.len(), 2);
    assert!(!cache.observe("c", NOW + 3));
    assert!(!cache.observe("b", NOW + 3));
    assert!(cache.observe("a", NOW + 3));
}

#[test]
fn full_cache_drops_expired_entries_first() {
    let mut cache = RecentTags::new(10, 2);
    assert!(cache.observe("a", NOW));
    assert!(cache.observe("b", NOW + 5));
    assert!(cache.observe("c", NOW + 12));
    assert_eq!(cache.len(), 2);
    assert!(!cache.observe("b", NOW + 13));
}

#[test]
fn sub_batches_split_evenly_with_short_tail() {
    let items: Vec<String> = (0..1201).map(|i| i.to_string()).collect();
    let parts = sub_batches(&items, 500);
    assert_eq!(parts.iter().map(|p| p.len()).collect::<Vec<_>>(), vec![500, 500, 201]);
    assert_eq!(parts.concat(), items);
    assert!(sub_batches(&Vec::new(), 500).is_empty());
}

#[test]
fn plan_batch_uses_sub_batches() {
    let store = RelationStore::new();
    let mut worker = SyncWorker::new(60, 10_000, 2, 30 * SECONDS_PER_DAY);
    let plan = worker.plan_batch(&store, &names(&["a", "b", "c"]), NOW);
    assert_eq!(plan.lookups.len(), 2);
    assert_eq!(plan.lookups[0].need_alias, names(&["a", "b"]));
    assert_eq!(plan.lookups[1].need_implication, names(&["c"]));
}

#[test]
fn successful_empty_lookup_writes_probe_and_enables_negative_cache() {
    let mut store = RelationStore::new();
    let lookups = vec![TagLookup { tag: "ych".to_string(), result: Ok(Vec::new()) }];
    complete_pool(&mut store, RelationKind::Alias, &lookups, NOW);
    let p = store.get_probe("ych");
    assert_eq!(p.aliases_last_checked, Some(NOW));
    assert_eq!(p.aliases_count, 0);
    let mut worker = SyncWorker::standard();
    let plan = worker.plan_batch(&store, &names(&["ych"]), NOW + 3600);
    assert!(plan.lookups[0].need_alias.is_empty());
    assert_eq!(plan.lookups[0].need_implication, names(&["ych"]));
}

#[test]
fn failed_lookup_changes_nothing() {
    let mut store = RelationStore::new();
    let lookups = vec![TagLookup {
        tag: "fox".to_string(),
        result: Err(FetchError::Exhausted { attempts: 4, last: LastFailure::Status(503) }),
    }];
    complete_pool(&mut store, RelationKind::Implication, &lookups, NOW);
    assert_eq!(store.get_probe("fox").implications_last_checked, None);
    assert!(!store.has_active_implication("fox"));
}

#[test]
fn pool_upserts_active_edges_and_counts_them() {
    let mut store = RelationStore::new();
    let lookups = vec![
        TagLookup {
            tag: "kitty".to_string(),
            result: Ok(vec![edge("kitty", "cat", "active"), edge("kitty", "kitten", "deleted")]),
        },
        TagLookup { tag: "dog".to_string(), result: Err(FetchError::Rejected(404)) },
    ];
    complete_pool(&mut store, RelationKind::Alias, &lookups, NOW);
    assert_eq!(store.alias_target("kitty"), Some("cat".to_string()));
    assert_eq!(store.get_probe("kitty").aliases_count, 1);
    assert_eq!(store.get_probe("dog").aliases_last_checked, None);
    assert!(!store.has_active_implication("kitty"));
}

#[test]
fn count_active_ignores_other_statuses() {
    let edges = vec![edge("a", "b", "active"), edge("a", "c", "pending"), edge("a", "d", "active")];
    assert_eq!(count_active(&edges), 2);
}
