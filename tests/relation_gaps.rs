use tag_sync::finder::{find_missing, NEGATIVE_COOLDOWN_SECS, SECONDS_PER_DAY};
use tag_sync::store::{RelationEdge, RelationKind, RelationStore};

const NOW: i64 = 1_700_000_000;

fn edge(a: &str, c: &str, status: &str) -> RelationEdge {
    RelationEdge { antecedent: a.to_string(), consequent: c.to_string(), status: status.to_string() }
}

fn names(v: &[&str]) -> Vec<String> {
    v.iter().map(|s| s.to_string()).collect()
}

#[test]
fn recent_empty_probe_skips_alias_lookup() {
    let mut store = RelationStore::new();
    store.record_alias_probe("ych", 0, NOW - 10 * SECONDS_PER_DAY);
    let r = find_missing(&store, &names(&["ych"]), NOW, 30 * SECONDS_PER_DAY);
    assert!(r.need_alias.is_empty());
    // no implication check was recorded, so that lookup is still owed
    assert_eq!(r.need_implication, names(&["ych"]));
}

#[test]
fn stale_empty_probe_needs_alias_lookup() {
    let mut store = RelationStore::new();
    store.record_alias_probe("ych", 0, NOW - 10 * SECONDS_PER_DAY);
    let r = find_missing(&store, &names(&["ych"]), NOW, 5 * SECONDS_PER_DAY);
    assert_eq!(r.need_alias, names(&["ych"]));
}

#[test]
fn negative_cache_applies_to_implications() {
    let mut store = RelationStore::new();
    store.record_implication_probe("fox", 0, NOW - SECONDS_PER_DAY);
    let r = find_missing(&store, &names(&["fox", "wolf"]), NOW, NEGATIVE_COOLDOWN_SECS);
    assert_eq!(r.need_implication, names(&["wolf"]));
    assert_eq!(r.need_alias, names(&["fox", "wolf"]));
}

#[test]
fn probe_with_results_does_not_suppress_lookup() {
    let mut store = RelationStore::new();
    store.record_alias_probe("fox", 2, NOW - SECONDS_PER_DAY);
    let r = find_missing(&store, &names(&["fox"]), NOW, NEGATIVE_COOLDOWN_SECS);
    assert_eq!(r.need_alias, names(&["fox"]));
}

#[test]
fn active_alias_short_circuits_regardless_of_probe() {
    let mut store = RelationStore::new();
    store.upsert_aliases(&vec![edge("kitty", "cat", "active")]);
    store.record_alias_probe("kitty", 1, NOW - 400 * SECONDS_PER_DAY);
    let r = find_missing(&store, &names(&["kitty", "dog"]), NOW, NEGATIVE_COOLDOWN_SECS);
    assert_eq!(r.need_alias, names(&["dog"]));
}

#[test]
fn inactive_edges_are_not_stored() {
    let mut store = RelationStore::new();
    store.upsert_aliases(&vec![edge("kitty", "cat", "deleted")]);
    store.upsert_implications(&vec![edge("kitty", "feline", "pending")]);
    assert!(!store.has_active_alias("kitty"));
    assert!(!store.has_active_implication("kitty"));
    let r = find_missing(&store, &names(&["kitty"]), NOW, NEGATIVE_COOLDOWN_SECS);
    assert_eq!(r.need_alias, names(&["kitty"]));
    assert_eq!(r.need_implication, names(&["kitty"]));
}

#[test]
fn find_missing_spans_several_chunks() {
    let store = RelationStore::new();
    let tags: Vec<String> = (0..1700).map(|i| format!("tag_{i}")).collect();
    let r = find_missing(&store, &tags, NOW, NEGATIVE_COOLDOWN_SECS);
    assert_eq!(r.need_alias, tags);
    assert_eq!(r.need_implication, tags);
}

#[test]
fn find_missing_on_empty_input() {
    let store = RelationStore::new();
    let r = find_missing(&store, &Vec::new(), NOW, NEGATIVE_COOLDOWN_SECS);
    assert!(r.need_alias.is_empty());
    assert!(r.need_implication.is_empty());
}

#[test]
fn alias_upsert_last_write_wins() {
    let mut store = RelationStore::new();
    store.upsert_aliases(&vec![edge("kitty", "cat", "active")]);
    store.upsert_aliases(&vec![edge("kitty", "domestic_cat", "active")]);
    assert_eq!(store.alias_target("kitty"), Some("domestic_cat".to_string()));
    assert_eq!(store.canonical_name("kitty"), "domestic_cat");
    assert_eq!(store.canonical_name("dog"), "dog");
    assert_eq!(store.alias_target("dog"), None);
}

#[test]
fn implications_are_many_to_many() {
    let mut store = RelationStore::new();
    store.upsert_implications(&vec![
        edge("fox", "canine", "active"),
        edge("fox", "mammal", "active"),
        edge("fox", "canine", "active"),
        edge("wolf", "canine", "active"),
    ]);
    let mut implied = store.implied_tags("fox");
    implied.sort();
    assert_eq!(implied, names(&["canine", "mammal"]));
    assert!(store.has_active_implication("wolf"));
    assert!(store.implied_tags("cat").is_empty());
}

#[test]
fn probes_keep_kinds_apart() {
    let mut store = RelationStore::new();
    store.record_alias_probe("fox", 3, 100);
    store.record_implication_probe("fox", 0, 200);
    store.record_alias_probe("fox", 1, 300);
    let p = store.get_probe("fox");
    assert_eq!(p.aliases_last_checked, Some(300));
    assert_eq!(p.aliases_count, 1);
    assert_eq!(p.implications_last_checked, Some(200));
    assert_eq!(p.implications_count, 0);
    let q = store.get_probe("wolf");
    assert_eq!(q.aliases_last_checked, None);
    assert_eq!(store.get_probes(&names(&["fox", "wolf"])), vec![p, q]);
    assert_eq!(store.latest_check("fox", RelationKind::Implication), Some((0, 200)));
}
