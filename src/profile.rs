//! The supports of the two sparse vectors that ranking compares: the keys of
//! an item's tags and the entries of a user's tag-frequency profile, both
//! canonicalised through the alias edges of the relation store.
use vstd::prelude::*;
use crate::post::{Tags, Group, group_name, lowercase, lowercase_of};
use crate::store::{RelationStore, canonical_of};

verus! {

/// How often a user's saved items carry a tag of a group.
#[derive(Clone, Debug)]
pub struct TagCount {
    pub name: String,
    pub group_type: String,
    pub count: i64,
}

/// A key of the sparse vectors: a canonical tag name and a group name.
#[derive(Clone, Debug)]
pub struct TagKey {
    pub name: String,
    pub group: String,
}

/// A key of the user's vector with the count behind it.
#[derive(Clone, Debug)]
pub struct ProfileEntry {
    pub key: TagKey,
    pub count: i64,
}

pub open spec fn key_view(k: TagKey) -> (Seq<char>, Seq<char>) {
    (k.name@, k.group@)
}

/// The key of tag `name` of group `group`: the canonical form of its
/// lowercase name, and the group.
pub open spec fn tag_key(store: RelationStore, name: Seq<char>, group: Seq<char>) -> (
    Seq<char>,
    Seq<char>,
) {
    (canonical_of(store, lowercase_of(name)), group)
}

/// Whether `k` is the key of one of `keys`.
pub open spec fn has_key(keys: Seq<TagKey>, k: (Seq<char>, Seq<char>)) -> bool {
    exists|m: int| 0 <= m < keys.len() && #[trigger] key_view(keys[m]) == k
}

/// No key occurs twice.
pub open spec fn distinct_keys(keys: Seq<TagKey>) -> bool {
    forall|a: int, b: int| 0 <= a < b < keys.len() ==> key_view(keys[a]) != key_view(keys[b])
}

/// The keys of the non-empty tags of `names`, all of group `group`.
pub open spec fn group_keys(store: RelationStore, names: Seq<String>, group: Seq<char>) -> Set<
    (Seq<char>, Seq<char>),
> {
    Set::new(
        |k: (Seq<char>, Seq<char>)|
            exists|i: int|
                0 <= i < names.len() && names[i]@.len() > 0 && k == tag_key(
                    store,
                    #[trigger] names[i]@,
                    group,
                ),
    )
}

/// The keys of all non-empty tags of an item.
pub open spec fn candidate_key_set(store: RelationStore, tags: Tags) -> Set<(Seq<char>, Seq<char>)> {
    group_keys(store, tags.artist@, group_name(Group::Artist)) + group_keys(
        store,
        tags.character@,
        group_name(Group::Character),
    ) + group_keys(store, tags.contributor@, group_name(Group::Contributor)) + group_keys(
        store,
        tags.copyright@,
        group_name(Group::Copyright),
    ) + group_keys(store, tags.general@, group_name(Group::General)) + group_keys(
        store,
        tags.invalid@,
        group_name(Group::Invalid),
    ) + group_keys(store, tags.lore@, group_name(Group::Lore)) + group_keys(
        store,
        tags.meta@,
        group_name(Group::Meta),
    ) + group_keys(store, tags.species@, group_name(Group::Species))
}

fn key_present(keys: &Vec<TagKey>, name: &String, group: &String) -> (r: bool)
    ensures
        r == has_key(keys@, (name@, group@)),
{
    let mut i: usize = 0;
    while i < keys.len()
        invariant
            i <= keys@.len(),
            forall|m: int| 0 <= m < i ==> key_view(#[trigger] keys@[m]) != (name@, group@),
        decreases keys@.len() - i,
    {
        if keys[i].name == *name && keys[i].group == *group {
            assert(key_view(keys@[i as int]) == (name@, group@));
            return true;
        }
        i = i + 1;
    }
    false
}

fn push_key_once(keys: &mut Vec<TagKey>, name: String, group: String)
    requires
        distinct_keys(old(keys)@),
    ensures
        distinct_keys(final(keys)@),
        forall|k: (Seq<char>, Seq<char>)| #[trigger] has_key(final(keys)@, k) <==> (has_key(
            old(keys)@,
            k,
        ) || k == (name@, group@)),
{
    if key_present(keys, &name, &group) {
        return;
    }
    let ghost before = keys@;
    let ghost nk = (name@, group@);
    keys.push(TagKey { name, group });
    assert(key_view(keys@[before.len() as int]) == nk);
    assert forall|k: (Seq<char>, Seq<char>)| #[trigger] has_key(keys@, k) <==> (has_key(before, k)
        || k == nk) by {
        if has_key(before, k) {
            let m = choose|m: int| 0 <= m < before.len() && #[trigger] key_view(before[m]) == k;
            assert(keys@[m] == before[m]);
        }
        if has_key(keys@, k) {
            let m = choose|m: int| 0 <= m < keys@.len() && #[trigger] key_view(keys@[m]) == k;
            if m < before.len() {
                assert(keys@[m] == before[m]);
            }
        }
    }
    assert forall|a: int, b: int| 0 <= a < b < keys@.len() implies key_view(keys@[a]) != key_view(
        keys@[b],
    ) by {
        if b == before.len() {
            assert(keys@[a] == before[a]);
            assert(has_key(before, key_view(before[a])));
        } else {
            assert(keys@[a] == before[a]);
            assert(keys@[b] == before[b]);
        }
    }
}

fn add_group_keys(keys: &mut Vec<TagKey>, store: &RelationStore, names: &Vec<String>, g: Group)
    requires
        distinct_keys(old(keys)@),
    ensures
        distinct_keys(final(keys)@),
        forall|k: (Seq<char>, Seq<char>)| #[trigger] has_key(final(keys)@, k) <==> (has_key(
            old(keys)@,
            k,
        ) || group_keys(*store, names@, group_name(g)).contains(k)),
{
    let gname = g.name();
    let ghost start = keys@;
    let mut i: usize = 0;
    while i < names.len()
        invariant
            i <= names@.len(),
            gname@ == group_name(g),
            distinct_keys(keys@),
            forall|k: (Seq<char>, Seq<char>)| #[trigger] has_key(keys@, k) <==> (has_key(start, k)
                || group_keys(*store, names@.take(i as int), gname@).contains(k)),
        decreases names@.len() - i,
    {
        let ghost prefix = names@.take(i as int);
        let ghost next = names@.take(i + 1);
        let t = &names[i];
        assert forall|k: (Seq<char>, Seq<char>)| #[trigger] group_keys(*store, next, gname@).contains(k)
            <==> (group_keys(*store, prefix, gname@).contains(k) || (t@.len() > 0 && k == tag_key(
            *store,
            t@,
            gname@,
        ))) by {
            if group_keys(*store, prefix, gname@).contains(k) {
                let w = choose|w: int|
                    0 <= w < prefix.len() && prefix[w]@.len() > 0 && k == tag_key(
                        *store,
                        #[trigger] prefix[w]@,
                        gname@,
                    );
                assert(next[w] == prefix[w]);
            }
            if t@.len() > 0 && k == tag_key(*store, t@, gname@) {
                assert(next[i as int] == *t);
            }
            if group_keys(*store, next, gname@).contains(k) {
                let w = choose|w: int|
                    0 <= w < next.len() && next[w]@.len() > 0 && k == tag_key(
                        *store,
                        #[trigger] next[w]@,
                        gname@,
                    );
                if w < i {
                    assert(prefix[w] == next[w]);
                }
            }
        }
        if !t.as_str().is_empty() {
            let lower = lowercase(t.as_str());
            let canon = store.canonical_name(lower.as_str());
            push_key_once(keys, canon, gname.clone());
        }
        i = i + 1;
    }
    assert(names@.take(names@.len() as int) =~= names@);
}

/// The distinct keys of an item's non-empty tags, group by group: each tag
/// name lowercased and replaced by its alias target when it has one.
pub fn candidate_keys(store: &RelationStore, tags: &Tags) -> (r: Vec<TagKey>)
    ensures
        distinct_keys(r@),
        forall|k: (Seq<char>, Seq<char>)| #[trigger] has_key(r@, k) <==> candidate_key_set(
            *store,
            *tags,
        ).contains(k),
{
    let mut keys: Vec<TagKey> = Vec::new();
    add_group_keys(&mut keys, store, &tags.artist, Group::Artist);
    add_group_keys(&mut keys, store, &tags.character, Group::Character);
    add_group_keys(&mut keys, store, &tags.contributor, Group::Contributor);
    add_group_keys(&mut keys, store, &tags.copyright, Group::Copyright);
    add_group_keys(&mut keys, store, &tags.general, Group::General);
    add_group_keys(&mut keys, store, &tags.invalid, Group::Invalid);
    add_group_keys(&mut keys, store, &tags.lore, Group::Lore);
    add_group_keys(&mut keys, store, &tags.meta, Group::Meta);
    add_group_keys(&mut keys, store, &tags.species, Group::Species);
    keys
}

/// The entries of a profile that feed the user's vector, in order: those
/// with a positive count, keyed like the item's tags.
pub open spec fn profile_spec(store: RelationStore, counts: Seq<TagCount>) -> Seq<
    ((Seq<char>, Seq<char>), i64),
>
    decreases counts.len(),
{
    if counts.len() == 0 {
        Seq::empty()
    } else {
        let prev = profile_spec(store, counts.drop_last());
        let c = counts.last();
        if c.count > 0 {
            prev.push((tag_key(store, c.name@, c.group_type@), c.count))
        } else {
            prev
        }
    }
}

pub open spec fn entry_view(e: ProfileEntry) -> ((Seq<char>, Seq<char>), i64) {
    (key_view(e.key), e.count)
}

/// The entries of `counts` with a positive count, each keyed by its
/// canonical lowercase name and its group; entries that share a key are
/// kept apart, for the caller to add up their weights.
pub fn profile_entries(store: &RelationStore, counts: &Vec<TagCount>) -> (r: Vec<ProfileEntry>)
    ensures
        r@.map_values(|e: ProfileEntry| entry_view(e)) == profile_spec(*store, counts@),
{
    let mut out: Vec<ProfileEntry> = Vec::new();
    let mut i: usize = 0;
    while i < counts.len()
        invariant
            i <= counts@.len(),
            out@.map_values(|e: ProfileEntry| entry_view(e)) == profile_spec(
                *store,
                counts@.take(i as int),
            ),
        decreases counts@.len() - i,
    {
        assert(counts@.take(i + 1).drop_last() =~= counts@.take(i as int));
        assert(counts@.take(i + 1).last() == counts@[i as int]);
        let c = &counts[i];
        if c.count > 0 {
            let ghost before = out@;
            let lower = lowercase(c.name.as_str());
            let name = store.canonical_name(lower.as_str());
            out.push(ProfileEntry { key: TagKey { name, group: c.group_type.clone() }, count: c.count });
            assert(out@.map_values(|e: ProfileEntry| entry_view(e)) =~= before.map_values(
                |e: ProfileEntry| entry_view(e),
            ).push((tag_key(*store, c.name@, c.group_type@), c.count)));
        }
        i = i + 1;
    }
    assert(counts@.take(counts@.len() as int) =~= counts@);
    out
}

} // verus!
