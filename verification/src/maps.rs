//! The insertion-ordered maps of the data model (`indexmap::IndexMap`), read
//! through trusted accessors. Each map's contents are named as the sequence
//! of its `(key, value)` entries in insertion order; keys never repeat.
use vstd::prelude::*;
use indexmap::{IndexMap, IndexSet};

use crate::models::CategoricalStyleCfg;
use crate::number::F64Bits;
use crate::value::AttrValue;

verus! {

#[verifier::external_type_specification]
#[verifier::external_body]
#[verifier::reject_recursive_types(K)]
#[verifier::reject_recursive_types(V)]
#[verifier::reject_recursive_types(S)]
pub struct ExIndexMap<K, V, S>(IndexMap<K, V, S>);

#[verifier::external_type_specification]
#[verifier::external_body]
#[verifier::reject_recursive_types(T)]
#[verifier::reject_recursive_types(S)]
pub struct ExIndexSet<T, S>(IndexSet<T, S>);

/// The members of a set of strings, in insertion order.
pub uninterp spec fn string_set_entries(s: IndexSet<String>) -> Seq<Seq<char>>;

/// The entries of an attribute map, in insertion order.
pub uninterp spec fn attr_entries(m: IndexMap<String, AttrValue>) -> Seq<(Seq<char>, AttrValue)>;

/// The entries of a name-to-name mapping, in insertion order.
pub uninterp spec fn mapping_entries(m: IndexMap<String, String>) -> Seq<(Seq<char>, Seq<char>)>;

/// The entries of a categorical style table, in insertion order.
pub uninterp spec fn style_entries(m: IndexMap<String, CategoricalStyleCfg>) -> Seq<
    (Seq<char>, CategoricalStyleCfg),
>;

/// The entries of a geo data table, in insertion order.
pub uninterp spec fn geo_entries(m: IndexMap<String, Vec<F64Bits>>) -> Seq<(Seq<char>, Seq<F64Bits>)>;

/// The entries of a table of link groups, keyed by (from, to) id pair, in
/// insertion order.
pub uninterp spec fn pair_group_entries(m: IndexMap<(String, String), Vec<usize>>) -> Seq<
    ((Seq<char>, Seq<char>), Seq<usize>),
>;

/// No two entries share a key.
pub open spec fn pair_keys_distinct(e: Seq<((Seq<char>, Seq<char>), Seq<usize>)>) -> bool {
    forall|p: int, q: int| 0 <= p < q < e.len() ==> e[p].0 != e[q].0
}

/// Calls `IndexMap::new`: an empty table of link groups.
#[verifier::external_body]
pub fn pair_groups_new() -> (m: IndexMap<(String, String), Vec<usize>>)
    ensures
        pair_group_entries(m) == Seq::<((Seq<char>, Seq<char>), Seq<usize>)>::empty(),
{
    IndexMap::new()
}

/// Calls `IndexMap::len` on a table of link groups.
#[verifier::external_body]
pub fn pair_group_count(m: &IndexMap<(String, String), Vec<usize>>) -> (n: usize)
    ensures
        n == pair_group_entries(*m).len(),
{
    m.len()
}

/// Calls `IndexMap::get_index_of`: the position of the entry keyed by
/// `(from, to)`, if there is one.
#[verifier::external_body]
pub fn pair_group_index(m: &IndexMap<(String, String), Vec<usize>>, from: &str, to: &str) -> (r: Option<usize>)
    ensures
        r matches Some(p) ==> p < pair_group_entries(*m).len() && pair_group_entries(*m)[p as int].0 == (from@, to@),
        r is None ==> forall|p: int|
            0 <= p < pair_group_entries(*m).len() ==> #[trigger] pair_group_entries(*m)[p].0 != (from@, to@),
{
    m.get_index_of(&(from.to_string(), to.to_string()))
}

/// Calls `IndexMap::get_index`: the entry at position `p`.
#[verifier::external_body]
pub fn pair_group_at(m: &IndexMap<(String, String), Vec<usize>>, p: usize) -> (r: &Vec<usize>)
    requires
        p < pair_group_entries(*m).len(),
    ensures
        r@ == pair_group_entries(*m)[p as int].1,
{
    m.get_index(p).unwrap().1
}

/// Calls `IndexMap::insert` on a table of link groups: an entry already
/// keyed by `(from, to)` keeps its place and takes `v`; otherwise the new
/// entry goes last.
#[verifier::external_body]
pub fn pair_group_insert(m: &mut IndexMap<(String, String), Vec<usize>>, from: String, to: String, v: Vec<usize>)
    requires
        pair_keys_distinct(pair_group_entries(*old(m))),
    ensures
        forall|p: int|
            0 <= p < pair_group_entries(*old(m)).len() && pair_group_entries(*old(m))[p].0 == (from@, to@)
                ==> pair_group_entries(*final(m)) == #[trigger] pair_group_entries(*old(m)).update(p, ((from@, to@), v@)),
        (forall|p: int|
            0 <= p < pair_group_entries(*old(m)).len() ==> #[trigger] pair_group_entries(*old(m))[p].0 != (from@, to@))
            ==> pair_group_entries(*final(m)) == pair_group_entries(*old(m)).push(((from@, to@), v@)),
{
    m.insert((from, to), v);
}

/// Calls `IndexMap::len`: the number of entries.
#[verifier::external_body]
pub fn attr_count(m: &IndexMap<String, AttrValue>) -> (n: usize)
    ensures
        n == attr_entries(*m).len(),
{
    m.len()
}

/// Calls `IndexMap::get_index`: the entry at position `i`.
#[verifier::external_body]
pub fn attr_at(m: &IndexMap<String, AttrValue>, i: usize) -> (r: (&String, &AttrValue))
    requires
        i < attr_entries(*m).len(),
    ensures
        r.0@ == attr_entries(*m)[i as int].0,
        *r.1 == attr_entries(*m)[i as int].1,
{
    let (k, v) = m.get_index(i).unwrap();
    (k, v)
}

/// Calls `IndexMap::len` on a name mapping.
#[verifier::external_body]
pub fn mapping_count(m: &IndexMap<String, String>) -> (n: usize)
    ensures
        n == mapping_entries(*m).len(),
{
    m.len()
}

/// Calls `IndexMap::get_index` on a name mapping.
#[verifier::external_body]
pub fn mapping_at(m: &IndexMap<String, String>, i: usize) -> (r: (&String, &String))
    requires
        i < mapping_entries(*m).len(),
    ensures
        r.0@ == mapping_entries(*m)[i as int].0,
        r.1@ == mapping_entries(*m)[i as int].1,
{
    let (k, v) = m.get_index(i).unwrap();
    (k, v)
}

/// Calls `IndexMap::len` on a categorical style table.
#[verifier::external_body]
pub fn style_count(m: &IndexMap<String, CategoricalStyleCfg>) -> (n: usize)
    ensures
        n == style_entries(*m).len(),
{
    m.len()
}

/// Calls `IndexMap::get_index` on a categorical style table.
#[verifier::external_body]
pub fn style_at(m: &IndexMap<String, CategoricalStyleCfg>, i: usize) -> (r: (
    &String,
    &CategoricalStyleCfg,
))
    requires
        i < style_entries(*m).len(),
    ensures
        r.0@ == style_entries(*m)[i as int].0,
        *r.1 == style_entries(*m)[i as int].1,
{
    let (k, v) = m.get_index(i).unwrap();
    (k, v)
}

/// Calls `IndexMap::len` on a geo data table.
#[verifier::external_body]
pub fn geo_count(m: &IndexMap<String, Vec<F64Bits>>) -> (n: usize)
    ensures
        n == geo_entries(*m).len(),
{
    m.len()
}

/// Calls `IndexMap::get_index` on a geo data table.
#[verifier::external_body]
pub fn geo_at(m: &IndexMap<String, Vec<F64Bits>>, i: usize) -> (r: (&String, &Vec<F64Bits>))
    requires
        i < geo_entries(*m).len(),
    ensures
        r.0@ == geo_entries(*m)[i as int].0,
        r.1@ == geo_entries(*m)[i as int].1,
{
    let (k, v) = m.get_index(i).unwrap();
    (k, v)
}

/// The value stored under `key`, if any.
pub open spec fn lookup<V>(e: Seq<(Seq<char>, V)>, key: Seq<char>) -> Option<V>
    decreases e.len(),
{
    if e.len() == 0 {
        None
    } else if e[0].0 == key {
        Some(e[0].1)
    } else {
        lookup(e.drop_first(), key)
    }
}

/// Whether some entry has `key`.
pub open spec fn has_key<V>(e: Seq<(Seq<char>, V)>, key: Seq<char>) -> bool {
    exists|i: int| 0 <= i < e.len() && e[i].0 == key
}

/// The attribute stored under `key`, if any (a linear scan of the entries).
pub fn attr_get<'a>(m: &'a IndexMap<String, AttrValue>, key: &str) -> (r: Option<&'a AttrValue>)
    ensures
        r matches Some(v) ==> lookup(attr_entries(*m), key@) == Some(*v),
        r is None ==> lookup(attr_entries(*m), key@) is None,
        r is Some == has_key(attr_entries(*m), key@),
{
    let n = attr_count(m);
    let ghost e = attr_entries(*m);
    let mut i: usize = 0;
    assert(e.skip(0) =~= e);
    while i < n
        invariant
            n == e.len(),
            e == attr_entries(*m),
            i <= n,
            lookup(e, key@) == lookup(e.skip(i as int), key@),
            forall|k: int| 0 <= k < i ==> e[k].0 != key@,
        decreases n - i,
    {
        let (k, v) = attr_at(m, i);
        assert(e.skip(i as int)[0] == e[i as int]);
        assert(e.skip(i as int).drop_first() =~= e.skip(i + 1));
        if crate::text::str_eq(k.as_str(), key) {
            return Some(v);
        }
        i = i + 1;
    }
    proof {
        lemma_lookup_none(e.skip(n as int), key@);
    }
    None
}

proof fn lemma_lookup_none<V>(e: Seq<(Seq<char>, V)>, key: Seq<char>)
    requires
        e.len() == 0,
    ensures
        lookup(e, key) is None,
{
}


/// The entries after inserting `(key, value)`: an existing key keeps its place
/// and takes the new value; a new key goes last.
pub open spec fn upsert<V>(e: Seq<(Seq<char>, V)>, key: Seq<char>, value: V) -> Seq<(Seq<char>, V)>
    decreases e.len(),
{
    if e.len() == 0 {
        seq![(key, value)]
    } else if e[0].0 == key {
        e.update(0, (key, value))
    } else {
        seq![e[0]] + upsert(e.drop_first(), key, value)
    }
}

/// [`upsert`] for each entry of `kvs` in turn.
pub open spec fn upsert_all<V>(e: Seq<(Seq<char>, V)>, kvs: Seq<(Seq<char>, V)>) -> Seq<
    (Seq<char>, V),
>
    decreases kvs.len(),
{
    if kvs.len() == 0 {
        e
    } else {
        upsert(upsert_all(e, kvs.drop_last()), kvs.last().0, kvs.last().1)
    }
}

/// A member added to an insertion-ordered set: kept out when already there,
/// otherwise last.
pub open spec fn set_add(s: Seq<Seq<char>>, x: Seq<char>) -> Seq<Seq<char>> {
    if s.contains(x) {
        s
    } else {
        s.push(x)
    }
}

/// [`set_add`] for each member of `xs` in turn.
pub open spec fn set_add_all(s: Seq<Seq<char>>, xs: Seq<Seq<char>>) -> Seq<Seq<char>>
    decreases xs.len(),
{
    if xs.len() == 0 {
        s
    } else {
        set_add(set_add_all(s, xs.drop_last()), xs.last())
    }
}

/// After an upsert, the key reads back the value written; other keys read
/// what they read before.
pub proof fn lemma_lookup_upsert<V>(e: Seq<(Seq<char>, V)>, key: Seq<char>, value: V, k: Seq<char>)
    ensures
        lookup(upsert(e, key, value), k) == if k == key {
            Some(value)
        } else {
            lookup(e, k)
        },
    decreases e.len(),
{
    if e.len() == 0 {
        let one = seq![(key, value)];
        assert(one.drop_first() =~= Seq::<(Seq<char>, V)>::empty());
        assert(one[0] == (key, value));
        assert(upsert(e, key, value) == one);
        assert(lookup(one.drop_first(), k) is None);
        assert(lookup(upsert(e, key, value), k) == if k == key { Some(value) } else { lookup(e, k) });
    } else if e[0].0 != key {
        lemma_lookup_upsert(e.drop_first(), key, value, k);
        let u = seq![e[0]] + upsert(e.drop_first(), key, value);
        assert(u[0] == e[0]);
        assert(u.drop_first() =~= upsert(e.drop_first(), key, value));
        assert(lookup(upsert(e, key, value), k) == if k == key { Some(value) } else { lookup(e, k) });
    } else {
        assert(e.update(0, (key, value)).drop_first() =~= e.drop_first());
        assert(e.update(0, (key, value))[0] == (key, value));
        assert(lookup(upsert(e, key, value), k) == if k == key { Some(value) } else { lookup(e, k) });
    }
}

/// Calls `IndexMap::new`: an empty name mapping.
#[verifier::external_body]
pub fn mapping_new() -> (m: IndexMap<String, String>)
    ensures
        mapping_entries(m) == Seq::<(Seq<char>, Seq<char>)>::empty(),
{
    IndexMap::new()
}

/// Calls `IndexMap::insert` on a name mapping: an existing key keeps its place
/// and takes the new value, a new key goes last.
#[verifier::external_body]
pub fn mapping_insert(m: &mut IndexMap<String, String>, key: String, value: String)
    ensures
        mapping_entries(*final(m)) == upsert(mapping_entries(*old(m)), key@, value@),
{
    m.insert(key, value);
}

/// Calls `IndexMap::get` on a name mapping: the value stored under `key`.
#[verifier::external_body]
pub fn mapping_get<'a>(m: &'a IndexMap<String, String>, key: &str) -> (r: Option<&'a String>)
    ensures
        r matches Some(v) ==> lookup(mapping_entries(*m), key@) == Some(v@),
        r is None ==> lookup(mapping_entries(*m), key@) is None,
{
    m.get(key)
}

/// Calls `IndexSet::new`: an empty set of strings.
#[verifier::external_body]
pub fn string_set_new() -> (s: IndexSet<String>)
    ensures
        string_set_entries(s) == Seq::<Seq<char>>::empty(),
{
    IndexSet::new()
}

/// Calls `IndexSet::insert`: a member already there stays where it is, a new
/// one goes last; the result says whether it was new.
#[verifier::external_body]
pub fn string_set_insert(s: &mut IndexSet<String>, x: String) -> (added: bool)
    ensures
        string_set_entries(*final(s)) == set_add(string_set_entries(*old(s)), x@),
        added == !string_set_entries(*old(s)).contains(x@),
{
    s.insert(x)
}

/// Calls `IndexSet::len`.
#[verifier::external_body]
pub fn string_set_len(s: &IndexSet<String>) -> (n: usize)
    ensures
        n == string_set_entries(*s).len(),
{
    s.len()
}

/// Calls `IndexSet::get_index`: the member at position `i`.
#[verifier::external_body]
pub fn string_set_at(s: &IndexSet<String>, i: usize) -> (r: &String)
    requires
        i < string_set_entries(*s).len(),
    ensures
        r@ == string_set_entries(*s)[i as int],
{
    s.get_index(i).unwrap()
}


/// Calls `IndexMap::new`: an empty attribute map.
#[verifier::external_body]
pub fn attr_map_new() -> (m: IndexMap<String, AttrValue>)
    ensures
        attr_entries(m) == Seq::<(Seq<char>, AttrValue)>::empty(),
{
    IndexMap::new()
}

/// Calls `IndexMap::insert` on an attribute map: an existing name keeps its
/// place and takes the new value, a new name goes last.
#[verifier::external_body]
pub fn attr_insert(m: &mut IndexMap<String, AttrValue>, key: String, value: AttrValue)
    ensures
        attr_entries(*final(m)) == upsert(attr_entries(*old(m)), key@, value),
{
    m.insert(key, value);
}

} // verus!
