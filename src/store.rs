//! An in-memory relation store: alias and implication edges, and per-tag
//! probe records, kept as append-only logs in which the latest entry wins.
use vstd::prelude::*;
use crate::support::str_equal;
use crate::post::listed;

verus! {

/// An edge between two tag names, as the catalog reports it.
#[derive(Clone, Debug)]
pub struct RelationEdge {
    pub antecedent: String,
    pub consequent: String,
    pub status: String,
}

/// Which kind of relation a lookup or a probe is about.
#[derive(Clone, Copy, Debug, PartialEq, Eq, Structural)]
pub enum RelationKind {
    Alias,
    Implication,
}

/// One check of a tag against the catalog, and how many active edges it found.
#[derive(Clone, Debug)]
pub struct ProbeEvent {
    pub tag: String,
    pub kind: RelationKind,
    pub count: u64,
    pub checked_at: i64,
}

/// What is known of the last checks of one tag, per relation kind.
#[derive(Clone, Copy, Debug, PartialEq, Eq, Structural)]
pub struct RelationProbe {
    pub aliases_last_checked: Option<i64>,
    pub aliases_count: u64,
    pub implications_last_checked: Option<i64>,
    pub implications_count: u64,
}

/// Alias edges, implication edges and probe records.
#[derive(Clone, Debug)]
pub struct RelationStore {
    aliases: Vec<RelationEdge>,
    implications: Vec<RelationEdge>,
    probes: Vec<ProbeEvent>,
}

pub open spec fn is_active_spec(e: RelationEdge) -> bool {
    e.status@ == "active"@
}

/// The consequent of the latest edge of `log` whose antecedent is `name`.
pub open spec fn latest_target(log: Seq<RelationEdge>, name: Seq<char>) -> Option<Seq<char>>
    decreases log.len(),
{
    if log.len() == 0 {
        None
    } else if log.last().antecedent@ == name {
        Some(log.last().consequent@)
    } else {
        latest_target(log.drop_last(), name)
    }
}

/// The consequents of all edges of `log` whose antecedent is `name`.
pub open spec fn targets(log: Seq<RelationEdge>, name: Seq<char>) -> Set<Seq<char>> {
    Set::new(
        |c: Seq<char>|
            exists|i: int|
                0 <= i < log.len() && #[trigger] log[i].antecedent@ == name && log[i].consequent@
                    == c,
    )
}

/// The latest probe event of `log` about `name` and `kind`: its count and time.
pub open spec fn latest_probe(log: Seq<ProbeEvent>, name: Seq<char>, kind: RelationKind) -> Option<
    (u64, i64),
>
    decreases log.len(),
{
    if log.len() == 0 {
        None
    } else if log.last().tag@ == name && log.last().kind == kind {
        Some((log.last().count, log.last().checked_at))
    } else {
        latest_probe(log.drop_last(), name, kind)
    }
}

pub open spec fn probe_from(alias: Option<(u64, i64)>, implication: Option<(u64, i64)>) -> RelationProbe {
    RelationProbe {
        aliases_last_checked: match alias {
            Some(p) => Some(p.1),
            None => None,
        },
        aliases_count: match alias {
            Some(p) => p.0,
            None => 0,
        },
        implications_last_checked: match implication {
            Some(p) => Some(p.1),
            None => None,
        },
        implications_count: match implication {
            Some(p) => p.0,
            None => 0,
        },
    }
}

/// The active edges of `edges`, in order.
pub open spec fn active_only(edges: Seq<RelationEdge>) -> Seq<RelationEdge>
    decreases edges.len(),
{
    if edges.len() == 0 {
        Seq::empty()
    } else if is_active_spec(edges.last()) {
        active_only(edges.drop_last()).push(edges.last())
    } else {
        active_only(edges.drop_last())
    }
}

impl RelationEdge {
    /// A field-by-field copy.
    pub fn copied(&self) -> (r: RelationEdge)
        ensures
            r == *self,
    {
        RelationEdge {
            antecedent: self.antecedent.clone(),
            consequent: self.consequent.clone(),
            status: self.status.clone(),
        }
    }
}

/// Whether an edge has status `active`; only those are kept.
pub fn is_active(e: &RelationEdge) -> (r: bool)
    ensures
        r == is_active_spec(*e),
{
    str_equal(e.status.as_str(), "active")
}

/// The canonical name of `name` in `store`.
pub open spec fn canonical_of(store: RelationStore, name: Seq<char>) -> Seq<char> {
    match store.alias_of(name) {
        Some(t) => t,
        None => name,
    }
}

impl RelationStore {
    pub closed spec fn alias_log(&self) -> Seq<RelationEdge> {
        self.aliases@
    }

    pub closed spec fn implication_log(&self) -> Seq<RelationEdge> {
        self.implications@
    }

    pub closed spec fn probe_log(&self) -> Seq<ProbeEvent> {
        self.probes@
    }

    /// The active alias target of `name`, if any.
    pub open spec fn alias_of(&self, name: Seq<char>) -> Option<Seq<char>> {
        latest_target(self.alias_log(), name)
    }

    /// The tags that `name` implies.
    pub open spec fn implied_by(&self, name: Seq<char>) -> Set<Seq<char>> {
        targets(self.implication_log(), name)
    }

    pub open spec fn has_implication_spec(&self, name: Seq<char>) -> bool {
        exists|i: int|
            0 <= i < self.implication_log().len() && #[trigger] self.implication_log()[i].antecedent@
                == name
    }

    /// The probe record of `name`.
    pub open spec fn probe_of(&self, name: Seq<char>) -> RelationProbe {
        probe_from(
            latest_probe(self.probe_log(), name, RelationKind::Alias),
            latest_probe(self.probe_log(), name, RelationKind::Implication),
        )
    }

    /// An empty store.
    pub fn new() -> (r: RelationStore)
        ensures
            r.alias_log().len() == 0,
            r.implication_log().len() == 0,
            r.probe_log().len() == 0,
            forall|n: Seq<char>| r.alias_of(n) is None,
            forall|n: Seq<char>| !r.has_implication_spec(n),
    {
        RelationStore { aliases: Vec::new(), implications: Vec::new(), probes: Vec::new() }
    }

    /// The active alias target of `name`, if any: the latest one stored.
    pub fn alias_target(&self, name: &str) -> (r: Option<String>)
        ensures
            match r {
                Some(t) => self.alias_of(name@) == Some(t@),
                None => self.alias_of(name@) is None,
            },
    {
        let mut i = self.aliases.len();
        assert(self.aliases@.take(i as int) =~= self.aliases@);
        while i > 0
            invariant
                i <= self.aliases@.len(),
                latest_target(self.aliases@, name@) == latest_target(self.aliases@.take(i as int), name@),
            decreases i,
        {
            let e = &self.aliases[i - 1];
            assert(self.aliases@.take(i as int).drop_last() =~= self.aliases@.take(i - 1));
            if str_equal(e.antecedent.as_str(), name) {
                return Some(e.consequent.clone());
            }
            i = i - 1;
        }
        None
    }

    /// Whether `name` has an active alias edge.
    pub fn has_active_alias(&self, name: &str) -> (r: bool)
        ensures
            r == self.alias_of(name@) is Some,
    {
        self.alias_target(name).is_some()
    }

    /// Whether `name` has at least one active implication edge.
    pub fn has_active_implication(&self, name: &str) -> (r: bool)
        ensures
            r == self.has_implication_spec(name@),
    {
        let mut i: usize = 0;
        while i < self.implications.len()
            invariant
                i <= self.implications@.len(),
                forall|j: int| 0 <= j < i ==> #[trigger] self.implications@[j].antecedent@ != name@,
            decreases self.implications@.len() - i,
        {
            if str_equal(self.implications[i].antecedent.as_str(), name) {
                assert(self.implication_log()[i as int].antecedent@ == name@);
                return true;
            }
            i = i + 1;
        }
        false
    }

    /// The latest probe of `name` for `kind`: the count it found and when.
    pub fn latest_check(&self, name: &str, kind: RelationKind) -> (r: Option<(u64, i64)>)
        ensures
            r == latest_probe(self.probe_log(), name@, kind),
    {
        let mut i = self.probes.len();
        assert(self.probes@.take(i as int) =~= self.probes@);
        while i > 0
            invariant
                i <= self.probes@.len(),
                latest_probe(self.probes@, name@, kind) == latest_probe(
                    self.probes@.take(i as int),
                    name@,
                    kind,
                ),
            decreases i,
        {
            let e = &self.probes[i - 1];
            assert(self.probes@.take(i as int).drop_last() =~= self.probes@.take(i - 1));
            if e.kind == kind && str_equal(e.tag.as_str(), name) {
                return Some((e.count, e.checked_at));
            }
            i = i - 1;
        }
        None
    }

    /// The probe record of `name`.
    pub fn get_probe(&self, name: &str) -> (r: RelationProbe)
        ensures
            r == self.probe_of(name@),
    {
        let a = self.latest_check(name, RelationKind::Alias);
        let m = self.latest_check(name, RelationKind::Implication);
        RelationProbe {
            aliases_last_checked: match a {
                Some(p) => Some(p.1),
                None => None,
            },
            aliases_count: match a {
                Some(p) => p.0,
                None => 0,
            },
            implications_last_checked: match m {
                Some(p) => Some(p.1),
                None => None,
            },
            implications_count: match m {
                Some(p) => p.0,
                None => 0,
            },
        }
    }

    /// The probe records of `names`, in the same order.
    pub fn get_probes(&self, names: &[String]) -> (r: Vec<RelationProbe>)
        ensures
            r@.len() == names@.len(),
            forall|i: int| 0 <= i < names@.len() ==> r@[i] == self.probe_of(#[trigger] names@[i]@),
    {
        let mut out: Vec<RelationProbe> = Vec::new();
        let mut i: usize = 0;
        while i < names.len()
            invariant
                i <= names@.len(),
                out@.len() == i,
                forall|j: int| 0 <= j < i ==> out@[j] == self.probe_of(#[trigger] names@[j]@),
            decreases names@.len() - i,
        {
            out.push(self.get_probe(names[i].as_str()));
            i = i + 1;
        }
        out
    }

    /// Stores the active edges among `edges` as alias edges; for each
    /// antecedent the latest one wins.
    pub fn upsert_aliases(&mut self, edges: &Vec<RelationEdge>)
        ensures
            final(self).alias_log() == old(self).alias_log() + active_only(edges@),
            final(self).implication_log() == old(self).implication_log(),
            final(self).probe_log() == old(self).probe_log(),
    {
        let ghost start = self.aliases@;
        let mut i: usize = 0;
        while i < edges.len()
            invariant
                i <= edges@.len(),
                self.aliases@ == start + active_only(edges@.take(i as int)),
                self.implications@ == old(self).implications@,
                self.probes@ == old(self).probes@,
            decreases edges@.len() - i,
        {
            let ghost before = self.aliases@;
            assert(edges@.take(i + 1).drop_last() =~= edges@.take(i as int));
            assert(edges@.take(i + 1).last() == edges@[i as int]);
            if is_active(&edges[i]) {
                self.aliases.push(edges[i].copied());
                assert(self.aliases@ =~= before.push(edges@[i as int]));
            }
            assert(self.aliases@ =~= start + active_only(edges@.take(i + 1)));
            i = i + 1;
        }
        assert(edges@.take(edges@.len() as int) =~= edges@);
    }

    /// Stores the active edges among `edges` as implication edges.
    pub fn upsert_implications(&mut self, edges: &Vec<RelationEdge>)
        ensures
            final(self).implication_log() == old(self).implication_log() + active_only(edges@),
            final(self).alias_log() == old(self).alias_log(),
            final(self).probe_log() == old(self).probe_log(),
    {
        let ghost start = self.implications@;
        let mut i: usize = 0;
        while i < edges.len()
            invariant
                i <= edges@.len(),
                self.implications@ == start + active_only(edges@.take(i as int)),
                self.aliases@ == old(self).aliases@,
                self.probes@ == old(self).probes@,
            decreases edges@.len() - i,
        {
            let ghost before = self.implications@;
            assert(edges@.take(i + 1).drop_last() =~= edges@.take(i as int));
            assert(edges@.take(i + 1).last() == edges@[i as int]);
            if is_active(&edges[i]) {
                self.implications.push(edges[i].copied());
                assert(self.implications@ =~= before.push(edges@[i as int]));
            }
            assert(self.implications@ =~= start + active_only(edges@.take(i + 1)));
            i = i + 1;
        }
        assert(edges@.take(edges@.len() as int) =~= edges@);
    }

    /// Records that `name` was checked for `kind` at `now` and `count` active
    /// edges were found.
    pub fn record_probe(&mut self, name: &str, kind: RelationKind, count: u64, now: i64)
        ensures
            final(self).alias_log() == old(self).alias_log(),
            final(self).implication_log() == old(self).implication_log(),
            latest_probe(final(self).probe_log(), name@, kind) == Some((count, now)),
            forall|n: Seq<char>, k: RelationKind|
                !(n == name@ && k == kind) ==> #[trigger] latest_probe(final(self).probe_log(), n, k)
                    == latest_probe(old(self).probe_log(), n, k),
    {
        self.probes.push(ProbeEvent { tag: name.to_owned(), kind, count, checked_at: now });
        assert(self.probes@.drop_last() =~= old(self).probes@);
    }

    /// Records an alias check of `name`.
    pub fn record_alias_probe(&mut self, name: &str, count: u64, now: i64)
        ensures
            final(self).alias_log() == old(self).alias_log(),
            final(self).implication_log() == old(self).implication_log(),
            final(self).probe_of(name@) == (RelationProbe {
                aliases_last_checked: Some(now),
                aliases_count: count,
                ..old(self).probe_of(name@)
            }),
            forall|n: Seq<char>| n != name@ ==> #[trigger] final(self).probe_of(n) == old(self).probe_of(n),
    {
        self.record_probe(name, RelationKind::Alias, count, now);
    }

    /// Records an implication check of `name`.
    pub fn record_implication_probe(&mut self, name: &str, count: u64, now: i64)
        ensures
            final(self).alias_log() == old(self).alias_log(),
            final(self).implication_log() == old(self).implication_log(),
            final(self).probe_of(name@) == (RelationProbe {
                implications_last_checked: Some(now),
                implications_count: count,
                ..old(self).probe_of(name@)
            }),
            forall|n: Seq<char>| n != name@ ==> #[trigger] final(self).probe_of(n) == old(self).probe_of(n),
    {
        self.record_probe(name, RelationKind::Implication, count, now);
    }

    /// The canonical name of `name`: its active alias target, or `name`
    /// itself when it has none.
    pub fn canonical_name(&self, name: &str) -> (r: String)
        ensures
            r@ == canonical_of(*self, name@),
    {
        match self.alias_target(name) {
            Some(t) => t,
            None => name.to_owned(),
        }
    }

    /// The tags that `name` implies, each once.
    pub fn implied_tags(&self, name: &str) -> (r: Vec<String>)
        ensures
            forall|c: Seq<char>| #[trigger] self.implied_by(name@).contains(c) <==> listed(r@, c),
            forall|i: int, j: int| 0 <= i < j < r@.len() ==> r@[i]@ != r@[j]@,
    {
        let mut out: Vec<String> = Vec::new();
        let mut i: usize = 0;
        while i < self.implications.len()
            invariant
                i <= self.implications@.len(),
                forall|c: Seq<char>|
                    #[trigger] targets(self.implications@.take(i as int), name@).contains(c)
                        <==> listed(out@, c),
                forall|a: int, b: int| 0 <= a < b < out@.len() ==> out@[a]@ != out@[b]@,
            decreases self.implications@.len() - i,
        {
            let e = &self.implications[i];
            let ghost prefix = self.implications@.take(i as int);
            let ghost next = self.implications@.take(i + 1);
            assert forall|c: Seq<char>| #[trigger] targets(next, name@).contains(c) <==> (targets(
                prefix,
                name@,
            ).contains(c) || (e.antecedent@ == name@ && e.consequent@ == c)) by {
                if targets(prefix, name@).contains(c) {
                    let w = choose|w: int|
                        0 <= w < prefix.len() && #[trigger] prefix[w].antecedent@ == name@
                            && prefix[w].consequent@ == c;
                    assert(next[w] == prefix[w]);
                }
                if e.antecedent@ == name@ && e.consequent@ == c {
                    assert(next[i as int] == *e);
                }
                if targets(next, name@).contains(c) {
                    let w = choose|w: int|
                        0 <= w < next.len() && #[trigger] next[w].antecedent@ == name@
                            && next[w].consequent@ == c;
                    if w < i {
                        assert(prefix[w] == next[w]);
                    }
                }
            }
            if str_equal(e.antecedent.as_str(), name) {
                let mut seen = false;
                let mut k: usize = 0;
                while k < out.len()
                    invariant
                        k <= out@.len(),
                        seen == listed(out@.take(k as int), e.consequent@),
                    decreases out@.len() - k,
                {
                    proof {
                        let p = out@.take(k as int);
                        let q = out@.take(k + 1);
                        if listed(p, e.consequent@) {
                            let m = choose|m: int| 0 <= m < p.len() && #[trigger] p[m]@ == e.consequent@;
                            assert(q[m] == p[m]);
                        }
                        if listed(q, e.consequent@) {
                            let m = choose|m: int| 0 <= m < q.len() && #[trigger] q[m]@ == e.consequent@;
                            if m < k {
                                assert(q[m] == p[m]);
                            }
                        }
                    }
                    if out[k] == e.consequent {
                        seen = true;
                        assert(out@.take(k + 1)[k as int] == out@[k as int]);
                    }
                    k = k + 1;
                }
                assert(out@.take(out@.len() as int) =~= out@);
                if !seen {
                    let ghost before = out@;
                    out.push(e.consequent.clone());
                    assert forall|c: Seq<char>| #[trigger] listed(out@, c) <==> (listed(before, c) || c
                        == e.consequent@) by {
                        if c == e.consequent@ {
                            assert(out@[before.len() as int]@ == c);
                        }
                        if listed(before, c) {
                            let m = choose|m: int| 0 <= m < before.len() && #[trigger] before[m]@ == c;
                            assert(out@[m] == before[m]);
                        }
                        if listed(out@, c) {
                            let m = choose|m: int| 0 <= m < out@.len() && #[trigger] out@[m]@ == c;
                            if m < before.len() {
                                assert(out@[m] == before[m]);
                            }
                        }
                    }
                }
            }
            i = i + 1;
        }
        assert(self.implications@.take(self.implications@.len() as int) =~= self.implications@);
        out
    }
}

} // verus!
