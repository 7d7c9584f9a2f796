//! Configured types waiting to be registered: each is taken out when its name
//! is first referenced, and whatever is left is registered at the end, in
//! configuration order.
use vstd::prelude::*;
use indexmap::IndexMap;

use crate::maps::{lookup, upsert};
use crate::models::{AttributeClass, EntityType, LinkType};

verus! {

/// A configured entity type, link type or attribute class.
#[derive(Debug)]
pub enum TypeCfg {
    Entity(EntityType),
    Link(LinkType),
    Class(AttributeClass),
}

/// The name a configured type was given.
pub open spec fn cfg_name(c: TypeCfg) -> Seq<char> {
    match c {
        TypeCfg::Entity(t) => t.name@,
        TypeCfg::Link(t) => t.name@,
        TypeCfg::Class(t) => t.name@,
    }
}

/// The entries of a table of configured types, in insertion order.
pub uninterp spec fn pending_entries(m: IndexMap<String, TypeCfg>) -> Seq<(Seq<char>, TypeCfg)>;

/// The entries without the one under `k`, the others in their order.
pub open spec fn without(e: Seq<(Seq<char>, TypeCfg)>, k: Seq<char>) -> Seq<(Seq<char>, TypeCfg)>
    decreases e.len(),
{
    if e.len() == 0 {
        e
    } else if e[0].0 == k {
        without(e.drop_first(), k)
    } else {
        seq![e[0]] + without(e.drop_first(), k)
    }
}

/// Each entry of `w` is an entry of `e` whose key is not `k`.
pub open spec fn kept_from(w: Seq<(Seq<char>, TypeCfg)>, e: Seq<(Seq<char>, TypeCfg)>, k: Seq<char>) -> bool {
    forall|i: int| 0 <= i < w.len() ==> exists|m: int| 0 <= m < e.len() && #[trigger] e[m] == #[trigger] w[i] && w[i].0 != k
}

proof fn lemma_without(e: Seq<(Seq<char>, TypeCfg)>, k: Seq<char>)
    ensures
        kept_from(without(e, k), e, k),
        distinct_keys(e) ==> distinct_keys(without(e, k)),
        filed_by_name(e) ==> filed_by_name(without(e, k)),
    decreases e.len(),
{
    if e.len() > 0 {
        let t = e.drop_first();
        lemma_without(t, k);
        let wt = without(t, k);
        assert(distinct_keys(e) ==> distinct_keys(t)) by {
            if distinct_keys(e) {
                assert forall|i: int, j: int| 0 <= i < j < t.len() implies t[i].0 != t[j].0 by {
                    assert(t[i] == e[i + 1] && t[j] == e[j + 1]);
                }
            }
        }
        assert(filed_by_name(e) ==> filed_by_name(t)) by {
            if filed_by_name(e) {
                assert forall|i: int| 0 <= i < t.len() implies #[trigger] cfg_name(t[i].1) == t[i].0 by {
                    assert(t[i] == e[i + 1]);
                }
            }
        }
        assert forall|i: int| 0 <= i < wt.len() implies exists|m: int| 0 <= m < e.len() && #[trigger] e[m] == #[trigger] wt[i] && wt[i].0 != k by {
            let m = choose|m: int| 0 <= m < t.len() && #[trigger] t[m] == #[trigger] wt[i] && wt[i].0 != k;
            assert(e[m + 1] == wt[i]);
        }
        if e[0].0 != k {
            let w = seq![e[0]] + wt;
            assert(w == without(e, k));
            assert forall|i: int| 0 <= i < w.len() implies exists|m: int| 0 <= m < e.len() && #[trigger] e[m] == #[trigger] w[i] && w[i].0 != k by {
                if i == 0 {
                    assert(e[0] == w[0]);
                } else {
                    assert(w[i] == wt[i - 1]);
                }
            }
            if distinct_keys(e) {
                assert forall|i: int, j: int| 0 <= i < j < w.len() implies w[i].0 != w[j].0 by {
                    if i == 0 {
                        assert(w[j] == wt[j - 1]);
                        let m = choose|m: int| 0 <= m < e.len() && #[trigger] e[m] == #[trigger] wt[j - 1] && wt[j - 1].0 != k;
                        if m == 0 {
                            let q = choose|q: int| 0 <= q < t.len() && #[trigger] t[q] == #[trigger] wt[j - 1] && wt[j - 1].0 != k;
                            assert(e[q + 1] == e[0]);
                        }
                    } else {
                        assert(w[i] == wt[i - 1] && w[j] == wt[j - 1]);
                    }
                }
            }
            if filed_by_name(e) {
                assert forall|i: int| 0 <= i < w.len() implies #[trigger] cfg_name(w[i].1) == w[i].0 by {
                    if i > 0 {
                        assert(w[i] == wt[i - 1]);
                    }
                }
            }
        }
    }
}

/// Calls `IndexMap::new`.
#[verifier::external_body]
fn table_new() -> (m: IndexMap<String, TypeCfg>)
    ensures
        pending_entries(m) == Seq::<(Seq<char>, TypeCfg)>::empty(),
{
    IndexMap::new()
}

/// Calls `IndexMap::insert`: an existing key keeps its place and takes the
/// new value; a new key goes last.
#[verifier::external_body]
fn table_insert(m: &mut IndexMap<String, TypeCfg>, k: String, v: TypeCfg)
    ensures
        pending_entries(*final(m)) == upsert(pending_entries(*old(m)), k@, v),
{
    m.insert(k, v);
}

/// Calls `IndexMap::shift_remove`: the value under `k`, taken out; the
/// others keep their order.
#[verifier::external_body]
fn table_remove(m: &mut IndexMap<String, TypeCfg>, k: &str) -> (r: Option<TypeCfg>)
    ensures
        r == lookup(pending_entries(*old(m)), k@),
        pending_entries(*final(m)) == without(pending_entries(*old(m)), k@),
{
    m.shift_remove(k)
}

/// Calls `IndexMap::shift_remove_index` at 0: the first entry, taken out.
#[verifier::external_body]
fn table_pop_first(m: &mut IndexMap<String, TypeCfg>) -> (r: Option<(String, TypeCfg)>)
    ensures
        match r {
            Some((k, v)) => pending_entries(*old(m)).len() > 0 && (k@, v) == pending_entries(*old(m))[0]
                && pending_entries(*final(m)) == pending_entries(*old(m)).drop_first(),
            None => pending_entries(*old(m)).len() == 0 && pending_entries(*final(m)) == pending_entries(*old(m)),
        },
{
    m.shift_remove_index(0)
}

/// No key occurs twice.
pub open spec fn distinct_keys(e: Seq<(Seq<char>, TypeCfg)>) -> bool {
    forall|i: int, j: int| 0 <= i < j < e.len() ==> e[i].0 != e[j].0
}

/// Each configuration is filed under its own name.
pub open spec fn filed_by_name(e: Seq<(Seq<char>, TypeCfg)>) -> bool {
    forall|i: int| 0 <= i < e.len() ==> #[trigger] cfg_name(e[i].1) == e[i].0
}

proof fn lemma_upsert_keeps(e: Seq<(Seq<char>, TypeCfg)>, k: Seq<char>, v: TypeCfg)
    requires
        distinct_keys(e),
        filed_by_name(e),
        cfg_name(v) == k,
    ensures
        distinct_keys(upsert(e, k, v)),
        filed_by_name(upsert(e, k, v)),
        forall|x: Seq<char>| #[trigger] lookup(upsert(e, k, v), x) is Some <==> (x == k || lookup(e, x) is Some),
    decreases e.len(),
{
    crate::maps::lemma_lookup_upsert(e, k, v, k);
    if e.len() == 0 {
        assert forall|x: Seq<char>| #[trigger] lookup(upsert(e, k, v), x) is Some <==> (x == k || lookup(e, x) is Some) by {
            crate::maps::lemma_lookup_upsert(e, k, v, x);
        }
    } else if e[0].0 == k {
        let u = e.update(0, (k, v));
        assert forall|i: int, j: int| 0 <= i < j < u.len() implies u[i].0 != u[j].0 by {
            assert(u[i].0 == e[i].0 && u[j].0 == e[j].0);
        }
        assert forall|x: Seq<char>| #[trigger] lookup(upsert(e, k, v), x) is Some <==> (x == k || lookup(e, x) is Some) by {
            crate::maps::lemma_lookup_upsert(e, k, v, x);
        }
    } else {
        let t = e.drop_first();
        assert(distinct_keys(t)) by {
            assert forall|i: int, j: int| 0 <= i < j < t.len() implies t[i].0 != t[j].0 by {
                assert(t[i] == e[i + 1] && t[j] == e[j + 1]);
            }
        }
        assert(filed_by_name(t)) by {
            assert forall|i: int| 0 <= i < t.len() implies #[trigger] cfg_name(t[i].1) == t[i].0 by {
                assert(t[i] == e[i + 1]);
            }
        }
        lemma_upsert_keeps(t, k, v);
        let u = seq![e[0]] + upsert(t, k, v);
        assert(u == upsert(e, k, v));
        assert forall|i: int, j: int| 0 <= i < j < u.len() implies u[i].0 != u[j].0 by {
            if i == 0 {
                let ut = upsert(t, k, v);
                assert(u[j] == ut[j - 1]);
                if ut[j - 1].0 == e[0].0 {
                    assert(lookup(ut, e[0].0) is Some) by {
                        lemma_lookup_at(ut, j - 1);
                    }
                    if e[0].0 != k {
                        assert(lookup(t, e[0].0) is Some);
                        lemma_lookup_index(t, e[0].0);
                        let m = choose|m: int| 0 <= m < t.len() && t[m].0 == e[0].0;
                        assert(e[m + 1].0 == e[0].0);
                    }
                }
            } else {
                assert(u[i] == upsert(t, k, v)[i - 1] && u[j] == upsert(t, k, v)[j - 1]);
            }
        }
        assert forall|i: int| 0 <= i < u.len() implies #[trigger] cfg_name(u[i].1) == u[i].0 by {
            if i > 0 {
                assert(u[i] == upsert(t, k, v)[i - 1]);
            }
        }
        assert forall|x: Seq<char>| #[trigger] lookup(upsert(e, k, v), x) is Some <==> (x == k || lookup(e, x) is Some) by {
            crate::maps::lemma_lookup_upsert(e, k, v, x);
        }
    }
}

/// The entry at a position is found by its key, when keys are distinct up
/// to it.
pub proof fn lemma_lookup_at(e: Seq<(Seq<char>, TypeCfg)>, i: int)
    requires
        0 <= i < e.len(),
    ensures
        lookup(e, e[i].0) is Some,
    decreases i,
{
    if i > 0 && e[0].0 != e[i].0 {
        lemma_lookup_at(e.drop_first(), i - 1);
    }
}

/// A key that is found is held by some entry.
pub proof fn lemma_lookup_index(e: Seq<(Seq<char>, TypeCfg)>, k: Seq<char>)
    requires
        lookup(e, k) is Some,
    ensures
        exists|m: int| 0 <= m < e.len() && e[m].0 == k,
    decreases e.len(),
{
    if e[0].0 != k {
        lemma_lookup_index(e.drop_first(), k);
        let m = choose|m: int| 0 <= m < e.len() - 1 && e.drop_first()[m].0 == k;
        assert(e[m + 1].0 == k);
    }
}

/// A table of configured types waiting for their first reference.
pub struct Pending {
    table: IndexMap<String, TypeCfg>,
}

impl Pending {
    /// The waiting configurations, each under its name, in configuration order.
    pub closed spec fn entries(&self) -> Seq<(Seq<char>, TypeCfg)> {
        pending_entries(self.table)
    }

    /// Names are distinct and each configuration is filed under its name.
    pub open spec fn wf(&self) -> bool {
        distinct_keys(self.entries()) && filed_by_name(self.entries())
    }

    pub fn new() -> (p: Self)
        ensures
            p.wf(),
            p.entries() == Seq::<(Seq<char>, TypeCfg)>::empty(),
    {
        Pending { table: table_new() }
    }

    /// File a configuration under its name; a later one with the same name
    /// replaces the earlier in its place.
    pub fn put(&mut self, name: String, c: TypeCfg)
        requires
            old(self).wf(),
            cfg_name(c) == name@,
        ensures
            final(self).wf(),
            final(self).entries() == upsert(old(self).entries(), name@, c),
            forall|x: Seq<char>| #[trigger] lookup(final(self).entries(), x) is Some <==> (x == name@ || lookup(old(self).entries(), x) is Some),
    {
        proof {
            lemma_upsert_keeps(self.entries(), name@, c);
        }
        table_insert(&mut self.table, name, c);
    }

    /// Take out the configuration filed under `name`, if any.
    pub fn take(&mut self, name: &str) -> (r: Option<TypeCfg>)
        requires
            old(self).wf(),
        ensures
            final(self).wf(),
            r == lookup(old(self).entries(), name@),
            final(self).entries() == without(old(self).entries(), name@),
            kept_from(final(self).entries(), old(self).entries(), name@),
            forall|x: Seq<char>| #[trigger] lookup(final(self).entries(), x) is Some ==> lookup(old(self).entries(), x) is Some && x != name@,
    {
        let ghost e = self.entries();
        let r = table_remove(&mut self.table, name);
        proof {
            lemma_without(e, name@);
            let w = without(e, name@);
            assert forall|x: Seq<char>| #[trigger] lookup(w, x) is Some implies lookup(e, x) is Some && x != name@ by {
                lemma_lookup_index(w, x);
                let m = choose|m: int| 0 <= m < w.len() && w[m].0 == x;
                let q = choose|q: int| 0 <= q < e.len() && #[trigger] e[q] == #[trigger] w[m] && w[m].0 != name@;
                lemma_lookup_at(e, q);
            }
        }
        r
    }

    /// Take out the first waiting configuration, if any.
    pub fn take_first(&mut self) -> (r: Option<(String, TypeCfg)>)
        requires
            old(self).wf(),
        ensures
            final(self).wf(),
            match r {
                Some((k, c)) => old(self).entries().len() > 0 && (k@, c) == old(self).entries()[0]
                    && final(self).entries() == old(self).entries().drop_first(),
                None => old(self).entries().len() == 0 && final(self).entries() == old(self).entries(),
            },
    {
        let ghost e = self.entries();
        let r = table_pop_first(&mut self.table);
        proof {
            if e.len() > 0 {
                let t = e.drop_first();
                assert forall|i: int, j: int| 0 <= i < j < t.len() implies t[i].0 != t[j].0 by {
                    assert(t[i] == e[i + 1] && t[j] == e[j + 1]);
                }
                assert forall|i: int| 0 <= i < t.len() implies #[trigger] cfg_name(t[i].1) == t[i].0 by {
                    assert(t[i] == e[i + 1]);
                }
            }
        }
        r
    }

    /// The number of waiting configurations.
    pub fn count(&self) -> (n: usize)
        ensures
            n == self.entries().len(),
    {
        table_len(&self.table)
    }

    /// How many configurations wait.
    pub fn is_empty(&self) -> (b: bool)
        requires
            self.wf(),
        ensures
            b == (self.entries().len() == 0),
    {
        table_len(&self.table) == 0
    }
}

/// Calls `IndexMap::len`.
#[verifier::external_body]
fn table_len(m: &IndexMap<String, TypeCfg>) -> (n: usize)
    ensures
        n == pending_entries(*m).len(),
{
    m.len()
}

} // verus!
