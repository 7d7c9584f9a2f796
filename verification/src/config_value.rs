//! Configuration documents as trees of values: the shape a JSON or YAML
//! config layer has before it is read into a typed configuration, and the
//! tree operations layering is made of (deep merge, leaf paths, setting a
//! leaf by its dotted path).
use vstd::prelude::*;

use crate::number::F64Bits;
use crate::text::{push_char, split_chars, split_seq, str_eq};

verus! {

/// A JSON-like configuration value. Objects keep their entries in order;
/// setting a key replaces its entry in place or appends a new one.
pub enum ConfigValue {
    Null,
    Bool(bool),
    /// A non-negative integer.
    UInt(u64),
    /// A negative integer.
    Int(i64),
    /// A floating-point number, as its bit pattern.
    Num(F64Bits),
    Str(String),
    List(Vec<ConfigValue>),
    Object(Vec<(String, ConfigValue)>),
}

/// The mathematical value of a [`ConfigValue`].
pub enum Json {
    Null,
    Bool(bool),
    UInt(u64),
    Int(i64),
    Num(u64),
    Str(Seq<char>),
    List(Seq<Json>),
    Object(Seq<(Seq<char>, Json)>),
}

/// The entries of an object value.
pub type Entries = Seq<(Seq<char>, Json)>;

pub open spec fn jv(v: ConfigValue) -> Json
    decreases v,
{
    match v {
        ConfigValue::Null => Json::Null,
        ConfigValue::Bool(b) => Json::Bool(b),
        ConfigValue::UInt(n) => Json::UInt(n),
        ConfigValue::Int(n) => Json::Int(n),
        ConfigValue::Num(f) => Json::Num(f.bits),
        ConfigValue::Str(s) => Json::Str(s@),
        ConfigValue::List(x) => Json::List(
            Seq::new(
                x@.len(),
                |i: int|
                    {
                        if 0 <= i < x@.len() {
                            proof {
                                assert(decreases_to!(v => v->List_0));
                                assert(decreases_to!(x => x@));
                            }
                            jv(x@[i])
                        } else {
                            Json::Null
                        }
                    },
            ),
        ),
        ConfigValue::Object(m) => Json::Object(
            Seq::new(
                m@.len(),
                |i: int|
                    {
                        if 0 <= i < m@.len() {
                            proof {
                                assert(decreases_to!(v => v->Object_0));
                                assert(decreases_to!(m => m@));
                                assert(decreases_to!(m@[i] => m@[i].1));
                            }
                            (m@[i].0@, jv(m@[i].1))
                        } else {
                            (Seq::empty(), Json::Null)
                        }
                    },
            ),
        ),
    }
}

/// The mathematical entries of object entries.
pub open spec fn ents(m: Seq<(String, ConfigValue)>) -> Entries {
    Seq::new(m.len(), |i: int| (m[i].0@, jv(m[i].1)))
}

pub proof fn lemma_jv_object(m: Vec<(String, ConfigValue)>)
    ensures
        jv(ConfigValue::Object(m)) == Json::Object(ents(m@)),
{
    assert(jv(ConfigValue::Object(m))->Object_0 =~= ents(m@));
}

pub proof fn lemma_jv_list(x: Vec<ConfigValue>)
    ensures
        jv(ConfigValue::List(x)) == Json::List(x@.map_values(|c: ConfigValue| jv(c))),
{
    assert(jv(ConfigValue::List(x))->List_0 =~= x@.map_values(|c: ConfigValue| jv(c)));
}

impl View for ConfigValue {
    type V = Json;

    open spec fn view(&self) -> Json {
        jv(*self)
    }
}

/// A copy of a value.
pub fn copy_value(v: &ConfigValue) -> (r: ConfigValue)
    ensures
        jv(r) == jv(*v),
    decreases v,
{
    match v {
        ConfigValue::Null => ConfigValue::Null,
        ConfigValue::Bool(b) => ConfigValue::Bool(*b),
        ConfigValue::UInt(n) => ConfigValue::UInt(*n),
        ConfigValue::Int(n) => ConfigValue::Int(*n),
        ConfigValue::Num(f) => ConfigValue::Num(F64Bits { bits: f.bits }),
        ConfigValue::Str(s) => ConfigValue::Str(s.clone()),
        ConfigValue::List(x) => {
            let mut out: Vec<ConfigValue> = Vec::new();
            for i in 0..x.len()
                invariant
                    *v == ConfigValue::List(*x),
                    out@.len() == i,
                    forall|j: int| 0 <= j < i ==> jv(#[trigger] out@[j]) == jv(x@[j]),
            {
                proof {
                    assert(decreases_to!(*v => (*v)->List_0));
                    assert(decreases_to!(*x => x@));
                    assert(decreases_to!(x@ => x@[i as int]));
                }
                out.push(copy_value(&x[i]));
            }
            let r = ConfigValue::List(out);
            assert(jv(r)->List_0 =~= jv(*v)->List_0);
            r
        },
        ConfigValue::Object(m) => {
            let mut out: Vec<(String, ConfigValue)> = Vec::new();
            for i in 0..m.len()
                invariant
                    *v == ConfigValue::Object(*m),
                    out@.len() == i,
                    forall|j: int|
                        0 <= j < i ==> (#[trigger] out@[j]).0@ == m@[j].0@ && jv(out@[j].1) == jv(
                            m@[j].1,
                        ),
            {
                proof {
                    assert(decreases_to!(*v => (*v)->Object_0));
                    assert(decreases_to!(*m => m@));
                    assert(decreases_to!(m@ => m@[i as int]));
                    assert(decreases_to!(m@[i as int] => m@[i as int].1));
                }
                let c = copy_value(&m[i].1);
                out.push((m[i].0.clone(), c));
            }
            let r = ConfigValue::Object(out);
            assert(jv(r)->Object_0 =~= jv(*v)->Object_0);
            r
        },
    }
}

/// Whether two values are equal (objects compare entry by entry, in order).
pub fn same_value(a: &ConfigValue, b: &ConfigValue) -> (r: bool)
    ensures
        r == (jv(*a) == jv(*b)),
    decreases a,
{
    match (a, b) {
        (ConfigValue::Null, ConfigValue::Null) => true,
        (ConfigValue::Bool(x), ConfigValue::Bool(y)) => *x == *y,
        (ConfigValue::UInt(x), ConfigValue::UInt(y)) => *x == *y,
        (ConfigValue::Int(x), ConfigValue::Int(y)) => *x == *y,
        (ConfigValue::Num(x), ConfigValue::Num(y)) => x.bits == y.bits,
        (ConfigValue::Str(x), ConfigValue::Str(y)) => str_eq(x.as_str(), y.as_str()),
        (ConfigValue::List(x), ConfigValue::List(y)) => {
            proof {
                lemma_jv_list(*x);
                lemma_jv_list(*y);
            }
            if x.len() != y.len() {
                assert(jv(*a)->List_0.len() != jv(*b)->List_0.len());
                return false;
            }
            for i in 0..x.len()
                invariant
                    *a == ConfigValue::List(*x),
                    *b == ConfigValue::List(*y),
                    jv(*a) == Json::List(x@.map_values(|c: ConfigValue| jv(c))),
                    jv(*b) == Json::List(y@.map_values(|c: ConfigValue| jv(c))),
                    x@.len() == y@.len(),
                    forall|j: int| 0 <= j < i ==> jv(#[trigger] x@[j]) == jv(y@[j]),
            {
                proof {
                    assert(decreases_to!(*a => (*a)->List_0));
                    assert(decreases_to!(*x => x@));
                    assert(decreases_to!(x@ => x@[i as int]));
                }
                if !same_value(&x[i], &y[i]) {
                    assert(jv(*a)->List_0[i as int] != jv(*b)->List_0[i as int]);
                    return false;
                }
            }
            assert(jv(*a)->List_0 =~= jv(*b)->List_0);
            true
        },
        (ConfigValue::Object(x), ConfigValue::Object(y)) => {
            proof {
                lemma_jv_object(*x);
                lemma_jv_object(*y);
            }
            if x.len() != y.len() {
                assert(jv(*a)->Object_0.len() != jv(*b)->Object_0.len());
                return false;
            }
            for i in 0..x.len()
                invariant
                    *a == ConfigValue::Object(*x),
                    *b == ConfigValue::Object(*y),
                    jv(*a) == Json::Object(ents(x@)),
                    jv(*b) == Json::Object(ents(y@)),
                    x@.len() == y@.len(),
                    forall|j: int|
                        0 <= j < i ==> (#[trigger] x@[j]).0@ == y@[j].0@ && jv(x@[j].1) == jv(
                            y@[j].1,
                        ),
            {
                proof {
                    assert(decreases_to!(*a => (*a)->Object_0));
                    assert(decreases_to!(*x => x@));
                    assert(decreases_to!(x@ => x@[i as int]));
                    assert(decreases_to!(x@[i as int] => x@[i as int].1));
                }
                if !str_eq(x[i].0.as_str(), y[i].0.as_str()) {
                    assert(ents(x@)[i as int] != ents(y@)[i as int]);
                    assert(jv(*a)->Object_0 != jv(*b)->Object_0);
                    return false;
                }
                if !same_value(&x[i].1, &y[i].1) {
                    assert(ents(x@)[i as int] != ents(y@)[i as int]);
                    assert(jv(*a)->Object_0 != jv(*b)->Object_0);
                    return false;
                }
            }
            assert(ents(x@) =~= ents(y@));
            true
        },
        _ => false,
    }
}

/// Whether a value is an object.
pub fn is_object(v: &ConfigValue) -> (r: bool)
    ensures
        r == (jv(*v) is Object),
{
    match v {
        ConfigValue::Object(_) => true,
        _ => false,
    }
}

// ── Object entries ──────────────────────────────────────────────────────────

/// The position of the first entry at or after `j` keyed `k`.
pub open spec fn key_from(m: Entries, k: Seq<char>, j: int) -> Option<int>
    decreases m.len() - j,
{
    if j < 0 || j >= m.len() {
        None
    } else if m[j].0 == k {
        Some(j)
    } else {
        key_from(m, k, j + 1)
    }
}

/// The position of the entry keyed `k`.
pub open spec fn key_pos(m: Entries, k: Seq<char>) -> Option<int> {
    key_from(m, k, 0)
}

pub proof fn lemma_key_from_bounds(m: Entries, k: Seq<char>, j: int)
    ensures
        key_from(m, k, j) matches Some(p) ==> 0 <= j <= p < m.len() && m[p].0 == k,
    decreases m.len() - j,
{
    if 0 <= j < m.len() && m[j].0 != k {
        lemma_key_from_bounds(m, k, j + 1);
    }
}

/// The entries with `k` set to `v`: replaced in place, or appended.
pub open spec fn put(m: Entries, k: Seq<char>, v: Json) -> Entries {
    match key_pos(m, k) {
        Some(j) => m.update(j, (k, v)),
        None => m.push((k, v)),
    }
}

/// The value under `k`, if any.
pub open spec fn value_at(m: Entries, k: Seq<char>) -> Option<Json> {
    match key_pos(m, k) {
        Some(j) => Some(m[j].1),
        None => None,
    }
}

/// The entries without the one keyed `k`.
pub open spec fn without_key(m: Entries, k: Seq<char>) -> Entries {
    match key_pos(m, k) {
        Some(j) => m.remove(j),
        None => m,
    }
}

proof fn lemma_key_from_min(m: Entries, k: Seq<char>, i: int, j: int)
    requires
        0 <= i,
        key_from(m, k, i) == Some(j),
    ensures
        forall|p: int| i <= p < j ==> m[p].0 != k,
    decreases m.len() - i,
{
    if i < m.len() && m[i].0 != k {
        lemma_key_from_min(m, k, i + 1, j);
    }
}

proof fn lemma_key_from_none(m: Entries, k: Seq<char>, i: int)
    requires
        0 <= i,
        key_from(m, k, i) is None,
    ensures
        forall|p: int| i <= p < m.len() ==> m[p].0 != k,
    decreases m.len() - i,
{
    if i < m.len() {
        lemma_key_from_none(m, k, i + 1);
    }
}

proof fn lemma_key_from_at(m: Entries, k: Seq<char>, i: int, j: int)
    requires
        0 <= i <= j < m.len(),
        m[j].0 == k,
        forall|p: int| i <= p < j ==> m[p].0 != k,
    ensures
        key_from(m, k, i) == Some(j),
    decreases j - i,
{
    if i < j {
        lemma_key_from_at(m, k, i + 1, j);
    }
}

/// Setting a key keeps its position, or places it last.
pub proof fn put_position(m: Entries, k: Seq<char>, v: Json)
    ensures
        key_pos(put(m, k, v), k) == Some(
            match key_pos(m, k) {
                Some(j) => j,
                None => m.len() as int,
            },
        ),
        put(m, k, v).len() == m.len() + if key_pos(m, k) is Some { 0int } else { 1int },
{
    let r = put(m, k, v);
    match key_pos(m, k) {
        Some(j) => {
            lemma_key_from_bounds(m, k, 0);
            lemma_key_from_min(m, k, 0, j);
            assert forall|p: int| 0 <= p < j implies r[p].0 != k by {
                assert(r[p] == m[p]);
            }
            lemma_key_from_at(r, k, 0, j);
        },
        None => {
            lemma_key_from_none(m, k, 0);
            assert forall|p: int| 0 <= p < m.len() implies r[p].0 != k by {
                assert(r[p] == m[p]);
            }
            lemma_key_from_at(r, k, 0, m.len() as int);
        },
    }
}

/// After a key is set, looking it up gives the value set.
pub proof fn put_then_value(m: Entries, k: Seq<char>, v: Json)
    ensures
        value_at(put(m, k, v), k) == Some(v),
{
    put_position(m, k, v);
    lemma_key_from_bounds(m, k, 0);
}

/// Setting a key and then removing it is removing it.
pub proof fn put_then_without(m: Entries, k: Seq<char>, v: Json)
    ensures
        without_key(put(m, k, v), k) == without_key(m, k),
{
    put_position(m, k, v);
    lemma_key_from_bounds(m, k, 0);
    match key_pos(m, k) {
        Some(j) => {
            assert(put(m, k, v).remove(j) =~= m.remove(j));
        },
        None => {
            assert(put(m, k, v).remove(m.len() as int) =~= m);
        },
    }
}

/// Find the entry keyed `k`.
pub fn find_key(m: &Vec<(String, ConfigValue)>, k: &str) -> (r: Option<usize>)
    ensures
        match r {
            Some(j) => key_pos(ents(m@), k@) == Some(j as int) && j < m@.len(),
            None => key_pos(ents(m@), k@) is None,
        },
{
    let ghost e = ents(m@);
    let mut j: usize = 0;
    while j < m.len()
        invariant
            e == ents(m@),
            j <= m@.len(),
            key_pos(e, k@) == key_from(e, k@, j as int),
        decreases m@.len() - j,
    {
        if str_eq(m[j].0.as_str(), k) {
            return Some(j);
        }
        j = j + 1;
    }
    None
}

/// Set `k` to `v` in object entries.
pub fn put_entry(m: &mut Vec<(String, ConfigValue)>, k: String, v: ConfigValue)
    ensures
        ents(final(m)@) == put(ents(old(m)@), k@, jv(v)),
{
    let ghost before = ents(m@);
    match find_key(m, k.as_str()) {
        Some(j) => {
            m.set(j, (k, v));
            assert(ents(m@) =~= before.update(j as int, (k@, jv(v))));
        },
        None => {
            m.push((k, v));
            assert(ents(m@) =~= before.push((k@, jv(v))));
        },
    }
}

/// Remove the entry keyed `k`, if any.
pub fn remove_entry(m: &mut Vec<(String, ConfigValue)>, k: &str)
    ensures
        ents(final(m)@) == without_key(ents(old(m)@), k@),
{
    let ghost before = ents(m@);
    match find_key(m, k) {
        Some(j) => {
            m.remove(j);
            assert(ents(m@) =~= before.remove(j as int));
        },
        None => {},
    }
}


// ── Deep merge ──────────────────────────────────────────────────────────────

/// The number of entries of an object (0 for any other value).
pub open spec fn obj_len(v: Json) -> nat {
    match v {
        Json::Object(m) => m.len(),
        _ => 0,
    }
}

/// `inc` deep-merged onto `base`: when both are objects, each entry of `inc`
/// in turn merges recursively onto an object under the same key, or else
/// sets that key; otherwise `inc` replaces `base`.
pub open spec fn deep_merged(base: Json, inc: Json) -> Json
    decreases inc, obj_len(inc) + 1,
{
    match base {
        Json::Object(b) => match inc {
            Json::Object(_) => Json::Object(merged_entries(b, inc, 0)),
            _ => inc,
        },
        _ => inc,
    }
}

/// Entries `k..` of the object `inc` merged onto the entries `b`.
pub open spec fn merged_entries(b: Entries, inc: Json, k: int) -> Entries
    decreases inc, obj_len(inc) - k,
{
    match inc {
        Json::Object(i) => if 0 <= k < i.len() {
            let key = i[k].0;
            let v = i[k].1;
            let b1 = match key_pos(b, key) {
                Some(j) => if b[j].1 is Object && v is Object {
                    proof {
                        assert(decreases_to!(inc => inc->Object_0));
                        assert(decreases_to!(i => i[k]));
                        assert(decreases_to!(i[k] => i[k].1));
                    }
                    b.update(j, (key, deep_merged(b[j].1, v)))
                } else {
                    put(b, key, v)
                },
                None => put(b, key, v),
            };
            merged_entries(b1, inc, k + 1)
        } else {
            b
        },
        _ => b,
    }
}

/// Deep-merge `inc` onto `base`.
pub fn deep_merge(base: ConfigValue, inc: &ConfigValue) -> (r: ConfigValue)
    ensures
        jv(r) == deep_merged(jv(base), jv(*inc)),
    decreases inc,
{
    let i = match inc {
        ConfigValue::Object(i) => i,
        _ => {
            return copy_value(inc);
        },
    };
    let mut b = match base {
        ConfigValue::Object(b) => b,
        _ => {
            return copy_value(inc);
        },
    };
    proof {
        lemma_jv_object(*i);
        lemma_jv_object(b);
    }
    let ghost incj = jv(*inc);
    let ghost goal = merged_entries(ents(b@), incj, 0);
    let n = i.len();
    let mut k: usize = 0;
    while k < n
        invariant
            *inc == ConfigValue::Object(*i),
            incj == jv(*inc),
            incj == Json::Object(ents(i@)),
            n == i@.len(),
            k <= n,
            merged_entries(ents(b@), incj, k as int) == goal,
        decreases n - k,
    {
        let ghost eb = ents(b@);
        let ghost key = i@[k as int].0@;
        let ghost v = jv(i@[k as int].1);
        proof {
            assert(ents(i@)[k as int] == (key, v));
        }
        match find_key(&b, i[k].0.as_str()) {
            Some(j) => {
                proof {
                    lemma_key_from_bounds(eb, key, 0);
                }
                if is_object(&b[j].1) && is_object(&i[k].1) {
                    proof {
                        assert(decreases_to!(*inc => (*inc)->Object_0));
                        assert(decreases_to!(*i => i@));
                        assert(decreases_to!(i@ => i@[k as int]));
                        assert(decreases_to!(i@[k as int] => i@[k as int].1));
                    }
                    let (bk, bv) = b.remove(j);
                    let mv = deep_merge(bv, &i[k].1);
                    b.insert(j, (bk, mv));
                    assert(ents(b@) =~= eb.update(j as int, (key, deep_merged(eb[j as int].1, v))));
                } else {
                    let c = copy_value(&i[k].1);
                    b.set(j, (i[k].0.clone(), c));
                    assert(ents(b@) =~= put(eb, key, v));
                }
            },
            None => {
                let c = copy_value(&i[k].1);
                b.push((i[k].0.clone(), c));
                assert(ents(b@) =~= put(eb, key, v));
            },
        }
        k = k + 1;
    }
    let r = ConfigValue::Object(b);
    proof {
        lemma_jv_object(b);
    }
    r
}

// ── Leaves ──────────────────────────────────────────────────────────────────

/// A dotted path extended by one key.
pub open spec fn joined(prefix: Seq<char>, k: Seq<char>) -> Seq<char> {
    if prefix.len() == 0 {
        k
    } else {
        prefix + seq!['.'] + k
    }
}

/// The leaves of a value under `prefix`, in order: objects recurse, every
/// other value (arrays included) is a leaf at its dotted path.
pub open spec fn leaves(v: Json, prefix: Seq<char>) -> Entries
    decreases v, obj_len(v) + 1,
{
    match v {
        Json::Object(_) => leaves_from(v, prefix, 0),
        _ => seq![(prefix, v)],
    }
}

/// The leaves of entries `k..` of the object `v`.
pub open spec fn leaves_from(v: Json, prefix: Seq<char>, k: int) -> Entries
    decreases v, obj_len(v) - k,
{
    match v {
        Json::Object(m) => if 0 <= k < m.len() {
            proof {
                assert(decreases_to!(v => v->Object_0));
                assert(decreases_to!(m => m[k]));
                assert(decreases_to!(m[k] => m[k].1));
            }
            leaves(m[k].1, joined(prefix, m[k].0)) + leaves_from(v, prefix, k + 1)
        } else {
            seq![]
        },
        _ => seq![],
    }
}

fn joined_key(prefix: &Vec<char>, k: &str) -> (r: Vec<char>)
    ensures
        r@ == joined(prefix@, k@),
{
    let kv = crate::text::chars_of(k);
    if prefix.len() == 0 {
        return kv;
    }
    let mut r: Vec<char> = Vec::new();
    r.extend_from_slice(prefix.as_slice());
    r.push('.');
    r.extend_from_slice(kv.as_slice());
    assert(r@ =~= prefix@ + seq!['.'] + k@);
    r
}

/// The leaves of a value under `prefix`.
pub fn walk_leaves(v: &ConfigValue, prefix: &Vec<char>) -> (r: Vec<(String, ConfigValue)>)
    ensures
        ents(r@) == leaves(jv(*v), prefix@),
    decreases v,
{
    let m = match v {
        ConfigValue::Object(m) => m,
        _ => {
            let mut r: Vec<(String, ConfigValue)> = Vec::new();
            r.push((crate::text::string_of(prefix), copy_value(v)));
            assert(ents(r@) =~= seq![(prefix@, jv(*v))]);
            return r;
        },
    };
    proof {
        lemma_jv_object(*m);
    }
    let ghost vj = jv(*v);
    let mut out: Vec<(String, ConfigValue)> = Vec::new();
    let n = m.len();
    let mut k: usize = 0;
    while k < n
        invariant
            *v == ConfigValue::Object(*m),
            vj == jv(*v),
            vj == Json::Object(ents(m@)),
            n == m@.len(),
            k <= n,
            ents(out@) + leaves_from(vj, prefix@, k as int) == leaves(vj, prefix@),
        decreases n - k,
    {
        proof {
            assert(decreases_to!(*v => (*v)->Object_0));
            assert(decreases_to!(*m => m@));
            assert(decreases_to!(m@ => m@[k as int]));
            assert(decreases_to!(m@[k as int] => m@[k as int].1));
        }
        let p = joined_key(prefix, m[k].0.as_str());
        let mut sub = walk_leaves(&m[k].1, &p);
        let ghost before = ents(out@);
        let ghost subj = ents(sub@);
        assert(ents(m@)[k as int] == (m@[k as int].0@, jv(m@[k as int].1)));
        out.append(&mut sub);
        assert(ents(out@) =~= before + subj);
        assert(leaves_from(vj, prefix@, k as int) == subj + leaves_from(vj, prefix@, k + 1));
        assert(ents(out@) + leaves_from(vj, prefix@, k + 1) =~= before + leaves_from(vj, prefix@, k as int));
        k = k + 1;
    }
    assert(leaves_from(vj, prefix@, n as int) =~= seq![]);
    assert(ents(out@) =~= ents(out@) + leaves_from(vj, prefix@, n as int));
    out
}

// ── Setting a leaf ──────────────────────────────────────────────────────────

/// `v` with the leaf at the path `parts` set to `val`: missing or non-object
/// intermediate steps become objects; a last step on a non-object sets
/// nothing.
pub open spec fn set_path(v: Json, parts: Seq<Seq<char>>, val: Json) -> Json
    decreases parts.len(),
{
    if parts.len() == 0 {
        v
    } else if parts.len() == 1 {
        match v {
            Json::Object(m) => Json::Object(put(m, parts[0], val)),
            _ => v,
        }
    } else {
        let m = match v {
            Json::Object(m) => m,
            _ => Seq::empty(),
        };
        let child = match key_pos(m, parts[0]) {
            Some(j) => m[j].1,
            None => Json::Object(Seq::empty()),
        };
        Json::Object(put(m, parts[0], set_path(child, parts.drop_first(), val)))
    }
}

/// `v` with the leaf at the dotted path `dotted` set to `val`.
pub open spec fn set_leaf_at(v: Json, dotted: Seq<char>, val: Json) -> Json {
    set_path(v, split_seq(dotted, '.'), val)
}

pub open spec fn part_views(parts: Seq<Vec<char>>) -> Seq<Seq<char>> {
    parts.map_values(|p: Vec<char>| p@)
}

fn set_path_value(v: ConfigValue, parts: &Vec<Vec<char>>, i: usize, val: ConfigValue) -> (r: ConfigValue)
    requires
        i <= parts@.len(),
    ensures
        jv(r) == set_path(jv(v), part_views(parts@).skip(i as int), jv(val)),
    decreases parts@.len() - i,
{
    let ghost ps = part_views(parts@).skip(i as int);
    if i == parts.len() {
        return v;
    }
    assert(ps[0] == parts@[i as int]@);
    let key = crate::text::string_of(&parts[i]);
    if i + 1 == parts.len() {
        match v {
            ConfigValue::Object(mut m) => {
                proof {
                    lemma_jv_object(m);
                }
                put_entry(&mut m, key, val);
                proof {
                    lemma_jv_object(m);
                }
                return ConfigValue::Object(m);
            },
            _ => {
                return v;
            },
        }
    }
    let mut m = match v {
        ConfigValue::Object(m) => m,
        _ => {
            let e: Vec<(String, ConfigValue)> = Vec::new();
            assert(ents(e@) =~= Seq::<(Seq<char>, Json)>::empty());
            e
        },
    };
    proof {
        lemma_jv_object(m);
    }
    let ghost em = ents(m@);
    assert(ps.drop_first() =~= part_views(parts@).skip(i + 1));
    match find_key(&m, key.as_str()) {
        Some(j) => {
            proof {
                lemma_key_from_bounds(em, key@, 0);
            }
            let (k, c) = m.remove(j);
            let nc = set_path_value(c, parts, i + 1, val);
            m.insert(j, (k, nc));
            assert(ents(m@) =~= put(em, key@, jv(nc)));
        },
        None => {
            let empty: Vec<(String, ConfigValue)> = Vec::new();
            proof {
                lemma_jv_object(empty);
                assert(ents(empty@) =~= Seq::<(Seq<char>, Json)>::empty());
            }
            let nc = set_path_value(ConfigValue::Object(empty), parts, i + 1, val);
            m.push((key, nc));
            assert(ents(m@) =~= put(em, key@, jv(nc)));
        },
    }
    proof {
        lemma_jv_object(m);
    }
    ConfigValue::Object(m)
}

/// Set the leaf at the dotted path `dotted` inside `v`.
pub fn set_leaf(v: ConfigValue, dotted: &str, val: ConfigValue) -> (r: ConfigValue)
    ensures
        jv(r) == set_leaf_at(jv(v), dotted@, jv(val)),
{
    let d = crate::text::chars_of(dotted);
    let parts = split_chars(&d, '.');
    assert(part_views(parts@).skip(0) =~= split_seq(dotted@, '.'));
    set_path_value(v, &parts, 0, val)
}

} // verus!
