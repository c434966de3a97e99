use tag_sync::config::default_path;
use tag_sync::cors::{is_allowed_origin, Cors};
use tag_sync::post::{lowercase_all, normalize_tag, Group, Rating, Tags};
use tag_sync::profile::{candidate_keys, profile_entries, TagCount};
use tag_sync::store::{RelationEdge, RelationKind, RelationStore};
use tag_sync::url::{build_url, lookup_url};

fn names(v: &[&str]) -> Vec<String> {
    v.iter().map(|s| s.to_string()).collect()
}

fn empty_tags() -> Tags {
    Tags {
        general: vec![],
        artist: vec![],
        copyright: vec![],
        character: vec![],
        species: vec![],
        invalid: vec![],
        meta: vec![],
        lore: vec![],
        contributor: vec![],
    }
}

#[test]
fn url_without_params() {
    assert_eq!(build_url("posts.json", &vec![]), "https://e621.net/posts.json");
}

#[test]
fn url_values_are_percent_encoded() {
    let params = vec![
        ("tags".to_string(), "-gore -young rating:s".to_string()),
        ("page".to_string(), "2".to_string()),
    ];
    assert_eq!(
        build_url("posts.json", &params),
        "https://e621.net/posts.json?tags=-gore%20-young%20rating%3As&page=2"
    );
}

#[test]
fn lookup_urls() {
    assert_eq!(
        lookup_url(RelationKind::Alias, "ych"),
        "https://e621.net/tag_aliases.json?search[antecedent_name]=ych&search[status]=active&limit=320"
    );
    assert_eq!(
        lookup_url(RelationKind::Implication, "a&b"),
        "https://e621.net/tag_implications.json?search[antecedent_name]=a%26b&search[status]=active&limit=320"
    );
}

#[test]
fn allowed_origins() {
    assert!(is_allowed_origin("http://localhost:8080"));
    assert!(is_allowed_origin("https://e621scraper.duckdns.org"));
    assert!(!is_allowed_origin("http://localhost:8081"));
    assert!(!is_allowed_origin(""));
}

#[test]
fn cors_headers() {
    let h = Cors.headers_for(Some("http://127.0.0.1:8080"), None, true);
    assert_eq!(h.allow_origin.as_deref(), Some("http://127.0.0.1:8080"));
    assert_eq!(h.allow_headers, "Authorization, Accept, Content-Type");
    assert_eq!(h.allow_methods, "GET, POST, PUT, PATCH, DELETE, OPTIONS, HEAD");
    assert_eq!(h.max_age_secs, "86400");
    assert!(h.no_content);
    let h = Cors.headers_for(Some("https://evil.example"), Some("X-Custom"), false);
    assert_eq!(h.allow_origin, None);
    assert_eq!(h.allow_headers, "X-Custom");
    assert!(!h.no_content);
}

#[test]
fn config_default_path() {
    assert_eq!(default_path(), "config.toml");
}

#[test]
fn group_names_round_trip() {
    for g in [
        Group::Artist,
        Group::Character,
        Group::Contributor,
        Group::Copyright,
        Group::General,
        Group::Invalid,
        Group::Lore,
        Group::Meta,
        Group::Species,
    ] {
        assert_eq!(Group::from_name(&g.name()), Some(g));
    }
    assert_eq!(Group::Species.name(), "species");
    assert_eq!(Group::from_name("Species"), None);
}

#[test]
fn rating_text() {
    assert_eq!(Rating::S.as_text(), "s");
    assert_eq!(Rating::E.as_text(), "e");
    assert_eq!(Rating::from_text("q"), Some(Rating::Q));
    assert_eq!(Rating::from_text("x"), None);
}

#[test]
fn tag_normalisation() {
    assert_eq!(normalize_tag("  Gore \n"), "gore");
    assert_eq!(normalize_tag("ÉCLAIR"), "éclair");
    assert_eq!(normalize_tag("\u{3000}Fox\u{a0}\u{2009}"), "fox");
    assert_eq!(normalize_tag("a b"), "a b");
    assert_eq!(lowercase_all(&names(&["Scat", "LOLI"])), names(&["scat", "loli"]));
}

#[test]
fn blacklisted_tags_are_stripped() {
    let mut tags = empty_tags();
    tags.general = names(&["Gore ", "blue", "scat"]);
    tags.species = names(&["fox"]);
    tags.invalid = names(&["gore"]);
    tags.contributor = names(&["scat", "gore"]);
    tags.strip_blacklisted(&names(&["gore", "scat"]));
    assert_eq!(tags.general, names(&["blue"]));
    assert_eq!(tags.species, names(&["fox"]));
    assert_eq!(tags.invalid, names(&["gore"]));
    assert_eq!(tags.contributor, names(&["scat", "gore"]));
}

#[test]
fn candidate_keys_are_distinct_and_canonical() {
    let mut store = RelationStore::new();
    store.upsert_aliases(&vec![RelationEdge {
        antecedent: "vulpine".to_string(),
        consequent: "fox".to_string(),
        status: "active".to_string(),
    }]);
    let mut tags = empty_tags();
    tags.species = names(&["Fox", "vulpine", "fox"]);
    tags.general = names(&["red", ""]);
    let keys = candidate_keys(&store, &tags);
    let pairs: Vec<(String, String)> = keys.into_iter().map(|k| (k.name, k.group)).collect();
    assert_eq!(
        pairs,
        vec![
            ("red".to_string(), "general".to_string()),
            ("fox".to_string(), "species".to_string()),
        ]
    );
}

#[test]
fn profile_keeps_positive_counts() {
    let store = RelationStore::new();
    let counts = vec![
        TagCount { name: "Fox".to_string(), group_type: "species".to_string(), count: 10 },
        TagCount { name: "blue".to_string(), group_type: "general".to_string(), count: 5 },
        TagCount { name: "gone".to_string(), group_type: "general".to_string(), count: 0 },
    ];
    let entries = profile_entries(&store, &counts);
    let got: Vec<(String, String, i64)> =
        entries.into_iter().map(|e| (e.key.name, e.key.group, e.count)).collect();
    assert_eq!(
        got,
        vec![
            ("fox".to_string(), "species".to_string(), 10),
            ("blue".to_string(), "general".to_string(), 5),
        ]
    );
    assert!(profile_entries(&store, &Vec::new()).is_empty());
}

#[test]
fn observed_batch_normalises_and_filters() {
    let raw = names(&["Fox", "  ", "GORE", "blue_sky "]);
    let blacklist = lowercase_all(&names(&["Gore"]));
    assert_eq!(tag_sync::post::observed_batch(&raw, &blacklist), names(&["fox", "blue_sky"]));
}
