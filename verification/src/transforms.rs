//! Data transforms applied while a chart is resolved: arc offsets for
//! parallel links, grade references, comparison keys, icon-rule precedence,
//! display-source metadata and the display `kind` filter.
use vstd::prelude::*;

use indexmap::IndexMap;

use crate::entities::{ref_common, EntityRef};
use crate::maps::{
    pair_group_at, pair_group_count, pair_group_entries, pair_group_index, pair_group_insert, pair_groups_new,
    pair_keys_distinct,
    attr_at, attr_count, attr_entries, attr_get, lookup, mapping_at, mapping_count,
    mapping_entries, mapping_get, mapping_insert, mapping_new, style_at, style_count,
    style_entries, upsert,
};
use crate::models::{
    CategoricalCfg, CategoricalStyleCfg, DisplaySource, GradeCollection, GradeRef, IconMapCfg,
    IconRule, Link,
};
use crate::value::{rendered, AttrValue};
use crate::text::{chars_of, first_index, is_empty_str, lowercase, parse_i64, parse_i64_chars, position_str, str_eq, string_of, to_lowercase_chars, trim, trim_chars, trimmed, slice_chars};

verus! {

// ── Parallel link offsets ───────────────────────────────────────────────────

/// `s / 2` rounded toward zero, as Rust's integer division rounds.
pub open spec fn half_toward_zero(s: int) -> int {
    if s >= 0 {
        s / 2
    } else {
        -((-s) / 2)
    }
}

/// The `k`-th of `n` symmetric offsets: for odd `n` the sequence is
/// `0, +s, -s, +2s, -2s, …`; for even `n` it is `+h, -h, +(h+s), -(h+s), …`
/// with `h = s/2`; one link or none sits on the straight line.
pub open spec fn sym_offset(n: int, s: int, k: int) -> int {
    if n <= 1 {
        0
    } else if n % 2 == 0 {
        let m = half_toward_zero(s) + (k / 2) * s;
        if k % 2 == 0 {
            m
        } else {
            -m
        }
    } else if k == 0 {
        0
    } else {
        let m = ((k + 1) / 2) * s;
        if k % 2 == 1 {
            m
        } else {
            -m
        }
    }
}

/// A bound under which every offset fits in an `i64`.
pub open spec fn offsets_fit(n: int, s: int) -> bool {
    n * (if s >= 0 {
        s
    } else {
        -s
    }) <= i64::MAX
}

proof fn lemma_offset_bounds(n: int, s: int, k: int)
    requires
        0 <= k < n,
        offsets_fit(n, s),
    ensures
        n % 2 == 0 && n > 1 ==> -i64::MAX <= half_toward_zero(s) + (k / 2) * s <= i64::MAX,
        n % 2 == 1 && n > 1 ==> -i64::MAX <= ((k + 1) / 2) * s <= i64::MAX,
{
    let a = if s >= 0 {
        s
    } else {
        -s
    };
    let h = half_toward_zero(s);
    assert(-a <= h <= a);
    let q = k / 2;
    let r = (k + 1) / 2;
    assert(0 <= q && q + 1 <= n);
    assert(0 <= r <= n);
    assert(-(n * a) <= h + q * s <= n * a) by (nonlinear_arith)
        requires
            0 <= q,
            q + 1 <= n,
            a >= 0,
            s == a || s == -a,
            -a <= h <= a,
    ;
    assert(-(n * a) <= r * s <= n * a) by (nonlinear_arith)
        requires
            0 <= r <= n,
            a >= 0,
            s == a || s == -a,
    ;
}

/// The `k`-th symmetric offset of `n` links `spacing` apart.
fn sym_at(n: usize, spacing: i64, k: usize) -> (r: i64)
    requires
        k < n,
        offsets_fit(n as int, spacing as int),
    ensures
        r == sym_offset(n as int, spacing as int, k as int),
{
    proof {
        lemma_offset_bounds(n as int, spacing as int, k as int);
    }
    if n <= 1 {
        0
    } else if n % 2 == 0 {
        let half: i64 = if spacing >= 0 {
            spacing / 2
        } else {
            -((-(spacing as i128)) / 2) as i64
        };
        let m: i128 = half as i128 + (k / 2) as i128 * spacing as i128;
        if k % 2 == 0 {
            m as i64
        } else {
            (-m) as i64
        }
    } else if k == 0 {
        0
    } else {
        let m: i128 = ((k + 1) / 2) as i128 * spacing as i128;
        if k % 2 == 1 {
            m as i64
        } else {
            (-m) as i64
        }
    }
}

/// Symmetric arc offsets for `n` parallel links `spacing` apart.
pub fn symmetric_offsets(n: usize, spacing: i64) -> (v: Vec<i64>)
    requires
        offsets_fit(n as int, spacing as int),
    ensures
        v@.len() == n,
        forall|k: int| 0 <= k < n ==> v@[k] == sym_offset(n as int, spacing as int, k),
{
    let mut v: Vec<i64> = Vec::new();
    for k in 0..n
        invariant
            offsets_fit(n as int, spacing as int),
            v@.len() == k,
            forall|j: int| 0 <= j < k ==> v@[j] == sym_offset(n as int, spacing as int, j),
    {
        v.push(sym_at(n, spacing, k));
    }
    v
}

/// A link that gets an arc offset: both ends set and distinct.
pub open spec fn fanned(l: Link) -> bool {
    l.from_id@.len() > 0 && l.to_id@.len() > 0 && l.from_id@ != l.to_id@
}

/// Two links in the same direction between the same two entities.
pub open spec fn same_direction(a: Link, b: Link) -> bool {
    a.from_id@ == b.from_id@ && a.to_id@ == b.to_id@
}

/// How many of the links before `n` are fanned and run like link `i`.
pub open spec fn parallel_count(ls: Seq<Link>, i: int, n: int) -> int
    decreases n,
{
    if n <= 0 {
        0
    } else {
        parallel_count(ls, i, n - 1) + (if fanned(ls[n - 1]) && same_direction(ls[n - 1], ls[i]) {
            1int
        } else {
            0
        })
    }
}

/// The arc offset of link `i`: its rank among the fanned links that run like
/// it, mapped through the symmetric offsets of their count.
pub open spec fn link_offset(ls: Seq<Link>, spacing: int, i: int) -> int {
    if fanned(ls[i]) {
        sym_offset(parallel_count(ls, i, ls.len() as int), spacing, parallel_count(ls, i, i))
    } else {
        0
    }
}

proof fn lemma_parallel_count_bounds(ls: Seq<Link>, i: int, n: int, m: int)
    requires
        0 <= n <= m <= ls.len(),
    ensures
        0 <= parallel_count(ls, i, n) <= parallel_count(ls, i, m) <= m,
        parallel_count(ls, i, n) <= n,
    decreases m,
{
    if m > n {
        lemma_parallel_count_bounds(ls, i, n, m - 1);
    } else if n > 0 {
        lemma_parallel_count_bounds(ls, i, n - 1, n - 1);
    }
}

fn is_fanned(l: &Link) -> (r: bool)
    ensures
        r == fanned(*l),
{
    !crate::text::is_empty_str(l.from_id.as_str()) && !crate::text::is_empty_str(l.to_id.as_str())
        && !str_eq(l.from_id.as_str(), l.to_id.as_str())
}

/// The direction a link runs: its (from, to) id pair.
pub open spec fn link_key(l: Link) -> (Seq<char>, Seq<char>) {
    (l.from_id@, l.to_id@)
}

/// The positions of the fanned links before `n` that run along `k`, in
/// order.
pub open spec fn members(ls: Seq<Link>, k: (Seq<char>, Seq<char>), n: int) -> Seq<usize>
    decreases n,
{
    if n <= 0 {
        seq![]
    } else {
        members(ls, k, n - 1) + (if fanned(ls[n - 1]) && link_key(ls[n - 1]) == k {
            seq![(n - 1) as usize]
        } else {
            seq![]
        })
    }
}

proof fn lemma_members_len(ls: Seq<Link>, i: int, n: int)
    requires
        0 <= i < ls.len(),
        0 <= n <= ls.len(),
    ensures
        members(ls, link_key(ls[i]), n).len() == parallel_count(ls, i, n),
    decreases n,
{
    if n > 0 {
        lemma_members_len(ls, i, n - 1);
    }
}

/// Each member is a fanned link along `k`, ranked by its position.
proof fn lemma_members_at(ls: Seq<Link>, k: (Seq<char>, Seq<char>), n: int, j: int)
    requires
        0 <= n <= ls.len() <= usize::MAX,
        0 <= j < members(ls, k, n).len(),
    ensures
        ({
            let x = members(ls, k, n)[j] as int;
            &&& 0 <= x < n
            &&& fanned(ls[x])
            &&& link_key(ls[x]) == k
            &&& parallel_count(ls, x, x) == j
        }),
    decreases n,
{
    if n > 0 {
        let prev = members(ls, k, n - 1);
        if j < prev.len() {
            lemma_members_at(ls, k, n - 1, j);
            assert(members(ls, k, n)[j] == prev[j]);
        } else {
            lemma_members_len(ls, n - 1, n - 1);
        }
    }
}

/// The members before `m` come first among those before `n`.
proof fn lemma_members_prefix(ls: Seq<Link>, k: (Seq<char>, Seq<char>), m: int, n: int)
    requires
        0 <= m <= n <= ls.len(),
    ensures
        members(ls, k, m).len() <= members(ls, k, n).len(),
        members(ls, k, n).subrange(0, members(ls, k, m).len() as int) == members(ls, k, m),
    decreases n,
{
    if n > m {
        lemma_members_prefix(ls, k, m, n - 1);
        let a = members(ls, k, n - 1);
        assert(members(ls, k, n).subrange(0, a.len() as int) =~= a);
        assert(members(ls, k, n).subrange(0, members(ls, k, m).len() as int) =~= a.subrange(
            0,
            members(ls, k, m).len() as int,
        ));
    } else {
        assert(members(ls, k, n).subrange(0, members(ls, k, m).len() as int) =~= members(ls, k, m));
    }
}

/// A fanned link sits among the members along its direction at its rank.
proof fn lemma_member_found(ls: Seq<Link>, i: int, n: int)
    requires
        0 <= i < n <= ls.len() <= usize::MAX,
        fanned(ls[i]),
    ensures
        parallel_count(ls, i, i) < members(ls, link_key(ls[i]), n).len(),
        members(ls, link_key(ls[i]), n)[parallel_count(ls, i, i)] as int == i,
{
    let k = link_key(ls[i]);
    lemma_members_len(ls, i, i);
    lemma_members_prefix(ls, k, i + 1, n);
    assert(members(ls, k, i + 1)[members(ls, k, i).len() as int] == i as usize);
    assert(members(ls, k, n)[parallel_count(ls, i, i)] == members(ls, k, n).subrange(
        0,
        members(ls, k, i + 1).len() as int,
    )[parallel_count(ls, i, i)]);
}

/// Copy a list of positions and add `i` at its end.
fn pushed(v: &Vec<usize>, i: usize) -> (r: Vec<usize>)
    ensures
        r@ == v@.push(i),
{
    let mut r: Vec<usize> = Vec::new();
    for t in 0..v.len()
        invariant
            r@ == v@.subrange(0, t as int),
    {
        r.push(v[t]);
        assert(r@ =~= v@.subrange(0, t + 1));
    }
    r.push(i);
    assert(r@ =~= v@.push(i));
    r
}

/// Group the fanned links by direction, in the order each direction is
/// first seen: each group lists its links' positions in order.
fn group_links(links: &Vec<Link>) -> (m: IndexMap<(String, String), Vec<usize>>)
    ensures
        pair_keys_distinct(pair_group_entries(m)),
        forall|p: int|
            0 <= p < pair_group_entries(m).len() ==> #[trigger] pair_group_entries(m)[p].1 == members(
                links@,
                pair_group_entries(m)[p].0,
                links@.len() as int,
            ),
        forall|x: int|
            0 <= x < links@.len() && fanned(#[trigger] links@[x]) ==> exists|p: int|
                0 <= p < pair_group_entries(m).len() && pair_group_entries(m)[p].0 == link_key(links@[x]),
{
    let mut m = pair_groups_new();
    let n = links.len();
    for i in 0..n
        invariant
            n == links@.len(),
            pair_keys_distinct(pair_group_entries(m)),
            forall|p: int|
                0 <= p < pair_group_entries(m).len() ==> #[trigger] pair_group_entries(m)[p].1 == members(
                    links@,
                    pair_group_entries(m)[p].0,
                    i as int,
                ),
            forall|x: int|
                0 <= x < i && fanned(#[trigger] links@[x]) ==> exists|p: int|
                    0 <= p < pair_group_entries(m).len() && pair_group_entries(m)[p].0 == link_key(links@[x]),
    {
        let l = &links[i];
        let ghost e0 = pair_group_entries(m);
        let ghost k = link_key(links@[i as int]);
        if is_fanned(l) {
            match pair_group_index(&m, l.from_id.as_str(), l.to_id.as_str()) {
                Some(p) => {
                    let v = pushed(pair_group_at(&m, p), i);
                    pair_group_insert(&mut m, l.from_id.clone(), l.to_id.clone(), v);
                    assert(pair_group_entries(m) == e0.update(p as int, (k, v@)));
                    assert forall|q: int| 0 <= q < pair_group_entries(m).len() implies #[trigger] pair_group_entries(
                        m,
                    )[q].1 == members(links@, pair_group_entries(m)[q].0, i + 1) by {
                        if q != p {
                            assert(e0[q].0 != e0[p as int].0);
                        }
                    }
                    assert forall|x: int| 0 <= x < i + 1 && fanned(#[trigger] links@[x]) implies exists|q: int|
                        0 <= q < pair_group_entries(m).len() && pair_group_entries(m)[q].0 == link_key(links@[x]) by {
                        if x < i {
                            let q0 = choose|q: int| 0 <= q < e0.len() && e0[q].0 == link_key(links@[x]);
                            assert(pair_group_entries(m)[q0].0 == e0[q0].0);
                        } else {
                            assert(pair_group_entries(m)[p as int].0 == k);
                        }
                    }
                },
                None => {
                    let mut v: Vec<usize> = Vec::new();
                    v.push(i);
                    proof {
                        if members(links@, k, i as int).len() > 0 {
                            lemma_members_at(links@, k, i as int, 0);
                            let x = members(links@, k, i as int)[0] as int;
                            assert(fanned(links@[x]));
                        }
                        assert(members(links@, k, i as int) =~= Seq::<usize>::empty());
                        assert(members(links@, k, i + 1) =~= seq![i]);
                    }
                    pair_group_insert(&mut m, l.from_id.clone(), l.to_id.clone(), v);
                    assert(pair_group_entries(m) == e0.push((k, v@)));
                    assert forall|q: int| 0 <= q < pair_group_entries(m).len() implies #[trigger] pair_group_entries(
                        m,
                    )[q].1 == members(links@, pair_group_entries(m)[q].0, i + 1) by {
                        if q < e0.len() {
                            assert(e0[q].0 != k);
                        }
                    }
                    assert forall|x: int| 0 <= x < i + 1 && fanned(#[trigger] links@[x]) implies exists|q: int|
                        0 <= q < pair_group_entries(m).len() && pair_group_entries(m)[q].0 == link_key(links@[x]) by {
                        if x < i {
                            let q0 = choose|q: int| 0 <= q < e0.len() && e0[q].0 == link_key(links@[x]);
                            assert(pair_group_entries(m)[q0].0 == e0[q0].0);
                        } else {
                            assert(pair_group_entries(m)[e0.len() as int].0 == k);
                        }
                    }
                },
            }
        } else {
            assert forall|q: int| 0 <= q < pair_group_entries(m).len() implies #[trigger] pair_group_entries(m)[q].1
                == members(links@, pair_group_entries(m)[q].0, i + 1) by {}
        }
    }
    m
}

/// Arc offsets per link: links running the same way between the same two
/// entities are fanned out symmetrically so they do not overlap; any other
/// link gets 0.
pub fn compute_link_offsets(links: &Vec<Link>, spacing: i64) -> (v: Vec<i64>)
    requires
        offsets_fit(links@.len() as int, spacing as int),
    ensures
        v@.len() == links@.len(),
        forall|i: int| 0 <= i < links@.len() ==> v@[i] == link_offset(links@, spacing as int, i),
{
    let groups = group_links(links);
    let ghost e = pair_group_entries(groups);
    let n = links.len();
    let mut v: Vec<i64> = Vec::new();
    for i in 0..n
        invariant
            v@.len() == i,
            forall|x: int| 0 <= x < i ==> v@[x] == 0,
    {
        v.push(0);
    }
    let ng = pair_group_count(&groups);
    for p in 0..ng
        invariant
            n == links@.len(),
            ng == e.len(),
            e == pair_group_entries(groups),
            offsets_fit(n as int, spacing as int),
            pair_keys_distinct(e),
            forall|q: int| 0 <= q < e.len() ==> #[trigger] e[q].1 == members(links@, e[q].0, n as int),
            v@.len() == n,
            forall|x: int|
                0 <= x < n ==> #[trigger] v@[x] == if fanned(links@[x]) && exists|q: int|
                    0 <= q < p && e[q].0 == link_key(links@[x]) {
                    link_offset(links@, spacing as int, x)
                } else {
                    0
                },
    {
        let g = pair_group_at(&groups, p);
        let ghost k = e[p as int].0;
        let total = g.len();
        proof {
            assert forall|x: int| 0 <= x < n implies parallel_count(links@, x, x) >= 0 by {
                lemma_parallel_count_bounds(links@, x, x, x);
            }
        }
        for j in 0..total
            invariant
                n == links@.len(),
                g@ == members(links@, k, n as int),
                total == g@.len(),
                k == e[p as int].0,
                0 <= p < e.len(),
                offsets_fit(n as int, spacing as int),
                pair_keys_distinct(e),
                v@.len() == n,
                forall|x: int|
                    0 <= x < n ==> #[trigger] v@[x] == if fanned(links@[x]) && ((exists|q: int|
                        0 <= q < p && e[q].0 == link_key(links@[x])) || (link_key(links@[x]) == k
                        && parallel_count(links@, x, x) < j)) {
                        link_offset(links@, spacing as int, x)
                    } else {
                        0
                    },
        {
            let idx = g[j];
            proof {
                lemma_members_at(links@, k, n as int, j as int);
                lemma_members_len(links@, idx as int, n as int);
                lemma_parallel_count_bounds(links@, idx as int, idx as int, n as int);
                lemma_parallel_count_bounds(links@, idx as int, idx as int + 1, n as int);
                let a = if spacing >= 0 {
                    spacing as int
                } else {
                    -(spacing as int)
                };
                assert(total as int * a <= n as int * a) by (nonlinear_arith)
                    requires
                        total <= n,
                        a >= 0,
                ;
            }
            let off = sym_at(total, spacing, j);
            let ghost before = v@;
            v.set(idx, off);
            proof {
                assert forall|x: int| 0 <= x < n implies #[trigger] v@[x] == if fanned(links@[x]) && ((exists|q: int|
                    0 <= q < p && e[q].0 == link_key(links@[x])) || (link_key(links@[x]) == k
                    && parallel_count(links@, x, x) < j + 1)) {
                    link_offset(links@, spacing as int, x)
                } else {
                    0
                } by {
                    if x == idx as int {
                        assert forall|q: int| 0 <= q < p implies e[q].0 != link_key(links@[x]) by {
                            assert(e[q].0 != e[p as int].0);
                        }
                    } else if fanned(links@[x]) && link_key(links@[x]) == k && parallel_count(links@, x, x) == j {
                        lemma_member_found(links@, x, n as int);
                    }
                }
            }
        }
        proof {
            assert forall|x: int| 0 <= x < n implies #[trigger] v@[x] == if fanned(links@[x]) && exists|q: int|
                0 <= q < p + 1 && e[q].0 == link_key(links@[x]) {
                link_offset(links@, spacing as int, x)
            } else {
                0
            } by {
                if fanned(links@[x]) && link_key(links@[x]) == k {
                    lemma_member_found(links@, x, n as int);
                    lemma_members_len(links@, x, n as int);
                }
            }
        }
    }
    proof {
        assert forall|x: int| 0 <= x < n implies v@[x] == link_offset(links@, spacing as int, x) by {
            if fanned(links@[x]) {
                let q0 = choose|q: int| 0 <= q < e.len() && e[q].0 == link_key(links@[x]);
                assert(0 <= q0 < ng);
            }
        }
    }
    v
}

// ── Grades ──────────────────────────────────────────────────────────────────

/// The names as character sequences.
pub open spec fn name_views(names: Seq<String>) -> Seq<Seq<char>> {
    names.map_values(|n: String| n@)
}

/// A grade reference as an index: an index passes through, a name that
/// parses as an integer (after trimming) is that integer, another non-empty
/// name is its position among `names`.
pub open spec fn grade_index(val: Option<GradeRef>, names: Seq<String>) -> Option<int> {
    match val {
        None => None,
        Some(GradeRef::Index(i)) => Some(i as int),
        Some(GradeRef::Name(s)) => {
            let t = trim(s@);
            match parse_i64(t) {
                Some(i) => Some(i),
                None => if t.len() == 0 {
                    None
                } else {
                    match first_index(name_views(names), t) {
                        Some(p) => Some(p as int),
                        None => None,
                    }
                },
            }
        },
    }
}

/// Resolve a grade reference to an index: an int passes through, a digit
/// string parses, a name is looked up in `names`, anything else is `None`.
pub fn resolve_grade(val: Option<&GradeRef>, names: &Vec<String>) -> (r: Option<i64>)
    ensures
        r == (match grade_index(
            match val {
                Some(g) => Some(*g),
                None => None,
            },
            names@,
        ) {
            Some(i) => Some(i as i64),
            None => None,
        }),
{
    match val {
        None => None,
        Some(GradeRef::Index(i)) => Some(*i),
        Some(GradeRef::Name(s)) => {
            let t = trimmed(s.as_str());
            if let Some(i) = parse_i64_chars(&t) {
                return Some(i);
            }
            if t.len() == 0 {
                return None;
            }
            let ts = string_of(&t);
            match position_str(names, ts.as_str()) {
                Some(p) => {
                    proof {
                        assert(names@.map_values(|x: String| x@) =~= name_views(names@));
                    }
                    Some(p as i64)
                },
                None => {
                    proof {
                        assert(names@.map_values(|x: String| x@) =~= name_views(names@));
                    }
                    None
                },
            }
        },
    }
}

/// The position of a collection's default grade among its names.
pub open spec fn default_grade(gc: GradeCollection) -> Option<int> {
    match gc.default {
        Some(d) => match first_index(name_views(gc.items@), d@) {
            Some(p) => Some(p as int),
            None => None,
        },
        None => None,
    }
}

/// The default grade index for a collection: the position of its `default`
/// name, or `None` if unset or unknown.
pub fn grade_default_index(gc: &GradeCollection) -> (r: Option<i64>)
    ensures
        r == (match default_grade(*gc) {
            Some(i) => Some(i as i64),
            None => None,
        }),
{
    match &gc.default {
        Some(d) => match position_str(&gc.items, d.as_str()) {
            Some(p) => {
                proof {
                    assert(gc.items@.map_values(|x: String| x@) =~= name_views(gc.items@));
                }
                Some(p as i64)
            },
            None => {
                proof {
                    assert(gc.items@.map_values(|x: String| x@) =~= name_views(gc.items@));
                }
                None
            },
        },
        None => None,
    }
}

/// Resolve a grade with the collection's default as the fallback.
pub fn resolve_grade_with_default(val: Option<&GradeRef>, gc: &GradeCollection) -> (r: Option<i64>)
    ensures
        r == (match grade_index(
            match val {
                Some(g) => Some(*g),
                None => None,
            },
            gc.items@,
        ) {
            Some(i) => Some(i as i64),
            None => match default_grade(*gc) {
                Some(i) => Some(i as i64),
                None => None,
            },
        }),
{
    match resolve_grade(val, &gc.items) {
        Some(i) => Some(i),
        None => grade_default_index(gc),
    }
}

// ── Keys and filters ────────────────────────────────────────────────────────

/// The comparison key of a text: trimmed, and lowercased when `case` is set.
pub open spec fn folded(s: Seq<char>, case: bool) -> Seq<char> {
    if case {
        lowercase(trim(s))
    } else {
        trim(s)
    }
}

/// Canonical comparison key: trim, optionally case-fold.
pub fn fold_key(s: &str, case: bool) -> (r: String)
    ensures
        r@ == folded(s@, case),
{
    let t = trimmed(s);
    if case {
        string_of(&to_lowercase_chars(&t))
    } else {
        string_of(&t)
    }
}

/// A geo lookup key: trimmed and lowercased.
pub fn norm_geo_key(s: &str) -> (r: String)
    ensures
        r@ == lowercase(trim(s@)),
{
    fold_key(s, true)
}

/// The precedence tier of an icon rule: `id` rules (2) over typed attribute
/// rules (1) over untyped ones (0).
pub open spec fn rule_tier(r: IconRule) -> int {
    let m = lowercase(
        match r.match_ {
            Some(m) => m@,
            None => "attribute"@,
        },
    );
    if m == "id"@ {
        2
    } else if r.type_ is Some {
        1
    } else {
        0
    }
}

pub fn icon_rule_tier(rule: &IconRule) -> (t: i32)
    ensures
        t == rule_tier(*rule),
{
    let m = match &rule.match_ {
        Some(m) => chars_of(m.as_str()),
        None => chars_of("attribute"),
    };
    let l = to_lowercase_chars(&m);
    let ls = string_of(&l);
    if str_eq(ls.as_str(), "id") {
        2
    } else if rule.type_.is_some() {
        1
    } else {
        0
    }
}

/// Whether a display `kind` filter applies to an item: unset means `both`;
/// a link is excluded only by `entity`, an entity only by `link`.
pub open spec fn kind_applies(kind: Option<Seq<char>>, is_link: bool) -> bool {
    let k = match kind {
        Some(k) => k,
        None => "both"@,
    };
    if is_link {
        k != "entity"@
    } else {
        k != "link"@
    }
}

pub fn display_kind_matches(kind: Option<&str>, is_link: bool) -> (r: bool)
    ensures
        r == kind_applies(
            match kind {
                Some(k) => Some(k@),
                None => None,
            },
            is_link,
        ),
{
    let k = match kind {
        Some(k) => k,
        None => "both",
    };
    if is_link {
        !str_eq(k, "entity")
    } else {
        !str_eq(k, "link")
    }
}

// ── Display sources ─────────────────────────────────────────────────────────

/// A resolved display source: which attribute feeds which template key, and
/// what to do when it is missing.
pub struct DisplaySourceMeta {
    pub attribute: String,
    pub alias: String,
    pub missing: String,
    pub placeholder: String,
}

/// The meta of a source that names an attribute: the alias defaults to the
/// attribute, the missing policy to `skip`, the placeholder to empty.
pub open spec fn meta_of(s: DisplaySource) -> Option<(Seq<char>, Seq<char>, Seq<char>, Seq<char>)> {
    match s.attribute {
        None => None,
        Some(a) => Some(
            (
                a@,
                match s.alias {
                    Some(x) => x@,
                    None => a@,
                },
                match s.missing {
                    Some(x) => x@,
                    None => "skip"@,
                },
                match s.placeholder {
                    Some(x) => x@,
                    None => seq![],
                },
            ),
        ),
    }
}

/// The metas of the first `n` sources, skipping those without an attribute.
pub open spec fn metas_of(ss: Seq<DisplaySource>, n: int) -> Seq<(Seq<char>, Seq<char>, Seq<char>, Seq<char>)>
    decreases n,
{
    if n <= 0 {
        seq![]
    } else {
        metas_of(ss, n - 1) + match meta_of(ss[n - 1]) {
            Some(m) => seq![m],
            None => seq![],
        }
    }
}

pub open spec fn meta_view(m: DisplaySourceMeta) -> (Seq<char>, Seq<char>, Seq<char>, Seq<char>) {
    (m.attribute@, m.alias@, m.missing@, m.placeholder@)
}

/// Flatten display sources into render metas, skipping sources with no
/// attribute.
pub fn source_metas(sources: &Vec<DisplaySource>) -> (v: Vec<DisplaySourceMeta>)
    ensures
        v@.map_values(|m: DisplaySourceMeta| meta_view(m)) == metas_of(sources@, sources@.len() as int),
{
    let mut v: Vec<DisplaySourceMeta> = Vec::new();
    let n = sources.len();
    for i in 0..n
        invariant
            n == sources@.len(),
            v@.map_values(|m: DisplaySourceMeta| meta_view(m)) == metas_of(sources@, i as int),
    {
        let s = &sources[i];
        let ghost before = v@;
        if let Some(a) = &s.attribute {
            let alias = match &s.alias {
                Some(x) => x.clone(),
                None => a.clone(),
            };
            let missing = match &s.missing {
                Some(x) => x.clone(),
                None => "skip".to_owned(),
            };
            let placeholder = match &s.placeholder {
                Some(x) => x.clone(),
                None => String::new(),
            };
            let m = DisplaySourceMeta { attribute: a.clone(), alias, missing, placeholder };
            v.push(m);
            assert(v@.map_values(|m: DisplaySourceMeta| meta_view(m)) =~= before.map_values(
                |m: DisplaySourceMeta| meta_view(m),
            ).push(meta_of(sources@[i as int])->0));
        } else {
            assert(v@.map_values(|m: DisplaySourceMeta| meta_view(m)) =~= before.map_values(
                |m: DisplaySourceMeta| meta_view(m),
            ));
        }
    }
    v
}

/// Parallel links fan out in opposite pairs around the straight line: for
/// an even count, offsets `2j` and `2j+1` are each other's negation; for an
/// odd count the first link stays straight and offsets `2j+1` and `2j+2` are
/// each other's negation.
pub proof fn offsets_come_in_opposite_pairs(n: int, s: int, j: int)
    requires
        n >= 2,
        j >= 0,
    ensures
        n % 2 == 0 && 2 * j + 1 < n ==> sym_offset(n, s, 2 * j) == -sym_offset(n, s, 2 * j + 1),
        n % 2 == 1 ==> sym_offset(n, s, 0) == 0,
        n % 2 == 1 && 2 * j + 2 < n ==> sym_offset(n, s, 2 * j + 1) == -sym_offset(
            n,
            s,
            2 * j + 2,
        ),
{
    assert((2 * j) / 2 == j && (2 * j + 1) / 2 == j);
    assert((2 * j + 2) / 2 == j + 1 && (2 * j + 3) / 2 == j + 1);
    assert((2 * j) % 2 == 0 && (2 * j + 1) % 2 == 1 && (2 * j + 2) % 2 == 0);
}

// ── Categorical link styling ────────────────────────────────────────────────

/// The first style whose folded key equals `key`.
pub open spec fn style_for_key(e: Seq<(Seq<char>, CategoricalStyleCfg)>, key: Seq<char>, fold_case: bool) -> Option<
    CategoricalStyleCfg,
>
    decreases e.len(),
{
    if e.len() == 0 {
        None
    } else if folded(e[0].0, fold_case) == key {
        Some(e[0].1)
    } else {
        style_for_key(e.drop_first(), key, fold_case)
    }
}

/// The categorical style a link's attributes select: none without a keyed
/// attribute or with no styles; else the style whose key matches the
/// attribute's rendered value (trimmed, and case-folded unless the table is
/// case-sensitive), falling back to the table's default.
pub open spec fn categorical_choice(attrs: Seq<(Seq<char>, AttrValue)>, c: CategoricalCfg) -> Option<
    CategoricalStyleCfg,
> {
    match c.attribute {
        None => None,
        Some(a) => if style_entries(c.styles).len() == 0 {
            None
        } else {
            let fold_case = !(c.case_sensitive == Some(true));
            match lookup(attrs, a@) {
                None => c.default,
                Some(v) => match style_for_key(
                    style_entries(c.styles),
                    folded(rendered(v), fold_case),
                    fold_case,
                ) {
                    Some(st) => Some(st),
                    None => c.default,
                },
            }
        },
    }
}

/// Choose the categorical style for a link by its attribute value, falling
/// back to the configured `default`.
#[verifier::loop_isolation(false)]
pub fn categorical_style<'a>(attrs: &IndexMap<String, AttrValue>, ccfg: &'a CategoricalCfg) -> (r: Option<
    &'a CategoricalStyleCfg,
>)
    ensures
        match r {
            Some(st) => categorical_choice(attr_entries(*attrs), *ccfg) == Some(*st),
            None => categorical_choice(attr_entries(*attrs), *ccfg) is None,
        },
{
    let attr = match &ccfg.attribute {
        Some(a) => a,
        None => return None,
    };
    let n = style_count(&ccfg.styles);
    if n == 0 {
        return None;
    }
    let fold_case = match ccfg.case_sensitive {
        Some(cs) => !cs,
        None => true,
    };
    let raw = attr_get(attrs, attr.as_str());
    match raw {
        None => ccfg.default.as_ref(),
        Some(v) => {
            let key = fold_key(v.render().as_str(), fold_case);
            let ghost e = style_entries(ccfg.styles);
            let mut i: usize = 0;
            assert(e.skip(0) =~= e);
            while i < n
                invariant
                    e == style_entries(ccfg.styles),
                    n == e.len(),
                    i <= n,
                    style_for_key(e, key@, fold_case) == style_for_key(e.skip(i as int), key@, fold_case),
                decreases n - i,
            {
                let (k, st) = style_at(&ccfg.styles, i);
                assert(e.skip(i as int)[0] == e[i as int]);
                assert(e.skip(i as int).drop_first() =~= e.skip(i + 1));
                let fk = fold_key(k.as_str(), fold_case);
                if str_eq(fk.as_str(), key.as_str()) {
                    assert(style_for_key(e.skip(i as int), key@, fold_case) == Some(e[i as int].1));
                    return Some(st);
                }
                i = i + 1;
            }
            assert(e.skip(i as int).len() == 0);
            ccfg.default.as_ref()
        },
    }
}

// ── Icon map ────────────────────────────────────────────────────────────────

/// Whether an entity's representation carries an icon (icon, theme line,
/// event frame).
pub open spec fn has_icon(e: EntityRef) -> bool {
    e is Icon || e is ThemeLine || e is EventFrame
}

fn supports_icon(e: EntityRef) -> (r: bool)
    ensures
        r == has_icon(e),
{
    match e {
        EntityRef::Icon(_) | EntityRef::ThemeLine(_) | EntityRef::EventFrame(_) => true,
        _ => false,
    }
}

/// The value of the first attribute whose folded name equals `norm`.
pub open spec fn attr_by_folded(e: Seq<(Seq<char>, AttrValue)>, norm: Seq<char>) -> Option<AttrValue>
    decreases e.len(),
{
    if e.len() == 0 {
        None
    } else if folded(e[0].0, true) == norm {
        Some(e[0].1)
    } else {
        attr_by_folded(e.drop_first(), norm)
    }
}

/// The icon of the first mapping entry whose folded key equals `key`.
pub open spec fn mapping_by_folded(e: Seq<(Seq<char>, Seq<char>)>, key: Seq<char>, fold_case: bool) -> Option<
    Seq<char>,
>
    decreases e.len(),
{
    if e.len() == 0 {
        None
    } else if folded(e[0].0, fold_case) == key {
        Some(e[0].1)
    } else {
        mapping_by_folded(e.drop_first(), key, fold_case)
    }
}

pub open spec fn ostring(o: Option<String>) -> Option<Seq<char>> {
    match o {
        Some(s) => Some(s@),
        None => None,
    }
}

/// The icon one rule gives an entity. An `id` rule looks the entity id up in
/// its mapping. An attribute rule needs an attribute name and, when it names a
/// type, the entity's type; it reads the first attribute whose trimmed,
/// lowercased name matches (none: the rule's `default_when_absent`) and maps
/// the rendered value, trimmed and (unless `strict_match`) lowercased, through
/// the mapping keys folded the same way, falling back to `default`.
pub open spec fn icon_rule_result(
    r: IconRule,
    eid: Seq<char>,
    etype: Seq<char>,
    attrs: Seq<(Seq<char>, AttrValue)>,
) -> Option<Seq<char>> {
    let m = lowercase(
        match r.match_ {
            Some(m) => m@,
            None => "attribute"@,
        },
    );
    if m == "id"@ {
        lookup(mapping_entries(r.mapping), eid)
    } else {
        match r.attribute_name {
            None => None,
            Some(an) => if r.type_ is Some && r.type_.unwrap()@ != etype {
                None
            } else {
                let fold = !(r.strict_match == Some(true));
                match attr_by_folded(attrs, folded(an@, true)) {
                    None => ostring(r.default_when_absent),
                    Some(v) => match mapping_by_folded(
                        mapping_entries(r.mapping),
                        folded(rendered(v), fold),
                        fold,
                    ) {
                        Some(icon) => Some(icon),
                        None => ostring(r.default),
                    },
                }
            },
        }
    }
}

fn copy_opt_string(o: &Option<String>) -> (r: Option<String>)
    ensures
        ostring(r) == ostring(*o),
{
    match o {
        Some(s) => Some(s.clone()),
        None => None,
    }
}

/// The value of the first attribute whose trimmed, lowercased name is `norm`.
fn find_attr_folded<'a>(attrs: &'a IndexMap<String, AttrValue>, norm: &str) -> (r: Option<&'a AttrValue>)
    ensures
        match r {
            Some(v) => attr_by_folded(attr_entries(*attrs), norm@) == Some(*v),
            None => attr_by_folded(attr_entries(*attrs), norm@) is None,
        },
{
    let ghost ae = attr_entries(*attrs);
    let na = attr_count(attrs);
    let mut i: usize = 0;
    assert(ae.skip(0) =~= ae);
    while i < na
        invariant
            ae == attr_entries(*attrs),
            na == ae.len(),
            i <= na,
            attr_by_folded(ae, norm@) == attr_by_folded(ae.skip(i as int), norm@),
        decreases na - i,
    {
        let (k, v) = attr_at(attrs, i);
        assert(ae.skip(i as int)[0] == ae[i as int]);
        assert(ae.skip(i as int).drop_first() =~= ae.skip(i + 1));
        let fk = fold_key(k.as_str(), true);
        if str_eq(fk.as_str(), norm) {
            return Some(v);
        }
        i = i + 1;
    }
    assert(ae.skip(i as int).len() == 0);
    None
}

#[verifier::loop_isolation(false)]
fn eval_icon_rule(rule: &IconRule, eid: &str, etype: &str, attrs: &IndexMap<String, AttrValue>) -> (r: Option<
    String,
>)
    ensures
        ostring(r) == icon_rule_result(*rule, eid@, etype@, attr_entries(*attrs)),
{
    let m = match &rule.match_ {
        Some(m) => chars_of(m.as_str()),
        None => chars_of("attribute"),
    };
    let ml = string_of(&to_lowercase_chars(&m));
    if str_eq(ml.as_str(), "id") {
        return match mapping_get(&rule.mapping, eid) {
            Some(v) => Some(v.clone()),
            None => None,
        };
    }
    let attr_name = match &rule.attribute_name {
        Some(a) => a,
        None => return None,
    };
    if let Some(t) = &rule.type_ {
        if !str_eq(t.as_str(), etype) {
            return None;
        }
    }
    let strict = match rule.strict_match {
        Some(st) => st,
        None => false,
    };
    let attr_norm = fold_key(attr_name.as_str(), true);
    let value = find_attr_folded(attrs, attr_norm.as_str());
    let value = match value {
        Some(v) => v,
        None => return copy_opt_string(&rule.default_when_absent),
    };
    let key = fold_key(value.render().as_str(), !strict);
    let ghost me = mapping_entries(rule.mapping);
    let nm = mapping_count(&rule.mapping);
    let mut j: usize = 0;
    assert(me.skip(0) =~= me);
    while j < nm
        invariant
            me == mapping_entries(rule.mapping),
            nm == me.len(),
            j <= nm,
            mapping_by_folded(me, key@, !strict) == mapping_by_folded(me.skip(j as int), key@, !strict),
        decreases nm - j,
    {
        let (k, v) = mapping_at(&rule.mapping, j);
        assert(me.skip(j as int)[0] == me[j as int]);
        assert(me.skip(j as int).drop_first() =~= me.skip(j + 1));
        let fk = fold_key(k.as_str(), !strict);
        if str_eq(fk.as_str(), key.as_str()) {
            assert(mapping_by_folded(me.skip(j as int), key@, !strict) == Some(me[j as int].1));
            let r = v.clone();
            assert(r@ == me[j as int].1);
            return Some(r);
        }
        j = j + 1;
    }
    assert(me.skip(j as int).len() == 0);
    copy_opt_string(&rule.default)
}

/// The winning icon over the first `k` rules: a rule of a lower tier than the
/// best so far is passed over; otherwise a rule that gives an icon takes over
/// (so the highest tier wins, and the last rule within it).
pub open spec fn best_icon(rules: Seq<IconRule>, e: EntityRef, k: int) -> (int, Option<Seq<char>>)
    decreases k,
{
    if k <= 0 {
        (-1, None)
    } else {
        let (bt, bi) = best_icon(rules, e, k - 1);
        let t = rule_tier(rules[k - 1]);
        if t < bt {
            (bt, bi)
        } else {
            match icon_rule_result(
                rules[k - 1],
                ref_common(e).id@,
                ref_common(e).type_@,
                attr_entries(ref_common(e).attributes),
            ) {
                Some(icon) => (t, Some(icon)),
                None => (bt, bi),
            }
        }
    }
}

/// The icon the map gives an entity, if any: only icon-bearing
/// representations with a non-empty id are considered.
pub open spec fn icon_for(rules: Seq<IconRule>, e: EntityRef) -> Option<Seq<char>> {
    if !has_icon(e) || ref_common(e).id@.len() == 0 {
        None
    } else {
        best_icon(rules, e, rules.len() as int).1
    }
}

/// The entity-id to icon entries of an icon map over `ents`, in entity order
/// (a later entity with the same id overwrites the icon in place).
pub open spec fn icon_overrides(rules: Seq<IconRule>, ents: Seq<EntityRef>) -> Seq<(Seq<char>, Seq<char>)>
    decreases ents.len(),
{
    if ents.len() == 0 || rules.len() == 0 {
        seq![]
    } else {
        let prev = icon_overrides(rules, ents.drop_last());
        match icon_for(rules, ents.last()) {
            Some(icon) => upsert(prev, ref_common(ents.last()).id@, icon),
            None => prev,
        }
    }
}

/// Compute per-entity icon overrides from `extra_cfg.icon_map` rules: entity
/// id to icon name. Precedence by tier (id over typed attribute over untyped
/// attribute), last wins within a tier; only icon-bearing representations are
/// considered. The explicit-icon-wins rule is the caller's.
pub fn apply_icon_map(entities: &[EntityRef], icon_map: &IconMapCfg) -> (out: IndexMap<String, String>)
    ensures
        mapping_entries(out) == icon_overrides(icon_map.rules@, entities@),
{
    let mut out = mapping_new();
    let ghost rules = icon_map.rules@;
    if icon_map.rules.len() == 0 {
        proof {
            lemma_icon_overrides_no_rules(rules, entities@);
        }
        return out;
    }
    let n = entities.len();
    for i in 0..n
        invariant
            n == entities@.len(),
            rules == icon_map.rules@,
            rules.len() > 0,
            mapping_entries(out) == icon_overrides(rules, entities@.take(i as int)),
    {
        let e = entities[i];
        assert(entities@.take(i + 1).drop_last() =~= entities@.take(i as int));
        assert(entities@.take(i + 1).last() == e);
        let c = e.common();
        if supports_icon(e) && !is_empty_str(c.id.as_str()) {
        let mut best_tier: i32 = -1;
        let mut best: Option<String> = None;
        let nr = icon_map.rules.len();
        for k in 0..nr
            invariant
                nr == rules.len(),
                rules == icon_map.rules@,
                *c == ref_common(e),
                (best_tier as int, ostring(best)) == best_icon(rules, e, k as int),
        {
            let rule = &icon_map.rules[k];
            let tier = icon_rule_tier(rule);
            if tier >= best_tier {
                if let Some(icon) = eval_icon_rule(rule, c.id.as_str(), c.type_.as_str(), &c.attributes) {
                    best_tier = tier;
                    best = Some(icon);
                }
            }
        }
        if let Some(icon) = best {
            mapping_insert(&mut out, c.id.clone(), icon);
        }
        }
    }
    assert(entities@.take(n as int) =~= entities@);
    out
}

proof fn lemma_icon_overrides_no_rules(rules: Seq<IconRule>, ents: Seq<EntityRef>)
    requires
        rules.len() == 0,
    ensures
        icon_overrides(rules, ents) == Seq::<(Seq<char>, Seq<char>)>::empty(),
{
}

// ── Display templates ───────────────────────────────────────────────────────

/// The values a display template is filled from: for each source in turn,
/// the looked-up attribute value under its alias; a missing attribute gives
/// the placeholder, unless its policy is `skip` or `error`, which skips the
/// item (none).
pub open spec fn display_fields(
    lk: Seq<(Seq<char>, Seq<char>)>,
    ms: Seq<(Seq<char>, Seq<char>, Seq<char>, Seq<char>)>,
    k: int,
) -> Option<Seq<(Seq<char>, Seq<char>)>>
    decreases k,
{
    if k <= 0 {
        Some(seq![])
    } else {
        match display_fields(lk, ms, k - 1) {
            None => None,
            Some(f) => {
                let m = ms[k - 1];
                match lookup(lk, m.0) {
                    None => if m.2 == "skip"@ || m.2 == "error"@ {
                        None
                    } else {
                        Some(upsert(f, m.1, m.3))
                    },
                    Some(v) => Some(upsert(f, m.1, v)),
                }
            },
        }
    }
}

proof fn lemma_fields_none_stays(
    lk: Seq<(Seq<char>, Seq<char>)>,
    ms: Seq<(Seq<char>, Seq<char>, Seq<char>, Seq<char>)>,
    i: int,
    k: int,
)
    requires
        0 < i <= k,
        display_fields(lk, ms, i) is None,
    ensures
        display_fields(lk, ms, k) is None,
    decreases k - i,
{
    if i < k {
        lemma_fields_none_stays(lk, ms, i, k - 1);
    }
}

/// The template values of one item: alias to value, or none when a `skip`
/// or `error` source is missing.
pub fn display_values(attr_lookup: &IndexMap<String, String>, sources: &Vec<DisplaySourceMeta>) -> (r: Option<
    IndexMap<String, String>,
>)
    ensures
        match r {
            Some(m) => display_fields(
                mapping_entries(*attr_lookup),
                sources@.map_values(|m: DisplaySourceMeta| meta_view(m)),
                sources@.len() as int,
            ) == Some(mapping_entries(m)),
            None => display_fields(
                mapping_entries(*attr_lookup),
                sources@.map_values(|m: DisplaySourceMeta| meta_view(m)),
                sources@.len() as int,
            ) is None,
        },
{
    let ghost lk = mapping_entries(*attr_lookup);
    let ghost ms = sources@.map_values(|m: DisplaySourceMeta| meta_view(m));
    let mut fmt = mapping_new();
    for i in 0..sources.len()
        invariant
            lk == mapping_entries(*attr_lookup),
            ms == sources@.map_values(|m: DisplaySourceMeta| meta_view(m)),
            display_fields(lk, ms, i as int) == Some(mapping_entries(fmt)),
    {
        let s = &sources[i];
        assert(ms[i as int] == meta_view(*s));
        match mapping_get(attr_lookup, s.attribute.as_str()) {
            None => {
                if str_eq(s.missing.as_str(), "skip") || str_eq(s.missing.as_str(), "error") {
                    proof {
                        lemma_fields_none_stays(lk, ms, i + 1, ms.len() as int);
                    }
                    return None;
                }
                mapping_insert(&mut fmt, s.alias.clone(), s.placeholder.clone());
            },
            Some(v) => {
                mapping_insert(&mut fmt, s.alias.clone(), v.clone());
            },
        }
    }
    Some(fmt)
}

/// A piece of a display template: a literal character, or a `{key:spec}`
/// field (the key trimmed, the spec as written).
pub enum TemplatePart {
    Literal(char),
    Field(String, String),
}

/// A template piece as plain values.
pub enum Piece {
    Lit(char),
    Fld(Seq<char>, Seq<char>),
}

proof fn lemma_pieces_push(o: Seq<TemplatePart>, p: TemplatePart)
    ensures
        pieces_of(o.push(p)) == pieces_of(o).push(piece_of(p)),
{
    assert(pieces_of(o.push(p)) =~= pieces_of(o).push(piece_of(p)));
}

/// Template parts as plain pieces.
pub open spec fn pieces_of(v: Seq<TemplatePart>) -> Seq<Piece> {
    v.map_values(|p: TemplatePart| piece_of(p))
}

pub open spec fn piece_of(p: TemplatePart) -> Piece {
    match p {
        TemplatePart::Literal(c) => Piece::Lit(c),
        TemplatePart::Field(k, sp) => Piece::Fld(k@, sp@),
    }
}

/// The length of a field's text: up to the first `}`, or to the end.
pub open spec fn field_len(s: Seq<char>) -> int
    decreases s.len(),
{
    if s.len() == 0 {
        0
    } else if s[0] == '}' {
        0
    } else {
        1 + field_len(s.skip(1))
    }
}

/// The position of the first `:` of a field, if any.
pub open spec fn colon_at(s: Seq<char>) -> Option<int>
    decreases s.len(),
{
    if s.len() == 0 {
        None
    } else if s[0] == ':' {
        Some(0)
    } else {
        match colon_at(s.skip(1)) {
            Some(i) => Some(i + 1),
            None => None,
        }
    }
}

/// A field's key (trimmed, before the first `:`) and format spec (after it).
pub open spec fn key_and_spec(f: Seq<char>) -> (Seq<char>, Seq<char>) {
    match colon_at(f) {
        Some(i) => (trim(f.take(i)), f.skip(i + 1)),
        None => (trim(f), seq![]),
    }
}

/// The first piece of a non-empty template: `{{` and `}}` are literal
/// braces, `{…}` is a field running to the next `}` (or the end), any other
/// character stands for itself.
pub open spec fn first_piece(s: Seq<char>) -> Piece {
    if s[0] == '{' && s.len() > 1 && s[1] == '{' {
        Piece::Lit('{')
    } else if s[0] == '}' && s.len() > 1 && s[1] == '}' {
        Piece::Lit('}')
    } else if s[0] == '{' {
        let ks = key_and_spec(s.skip(1).take(field_len(s.skip(1))));
        Piece::Fld(ks.0, ks.1)
    } else {
        Piece::Lit(s[0])
    }
}

/// How many characters the first piece takes.
pub open spec fn piece_len(s: Seq<char>) -> int {
    if s[0] == '{' && s.len() > 1 && s[1] == '{' {
        2
    } else if s[0] == '}' && s.len() > 1 && s[1] == '}' {
        2
    } else if s[0] == '{' {
        let n = field_len(s.skip(1));
        if n < s.len() - 1 {
            n + 2
        } else {
            n + 1
        }
    } else {
        1
    }
}

/// The pieces of a template, in order.
pub open spec fn template_pieces(s: Seq<char>) -> Seq<Piece>
    decreases s.len(),
{
    if s.len() == 0 {
        seq![]
    } else {
        proof {
            lemma_field_len_bound(s.skip(1));
        }
        seq![first_piece(s)] + template_pieces(s.skip(piece_len(s)))
    }
}

pub proof fn lemma_field_len_bound(s: Seq<char>)
    ensures
        0 <= field_len(s) <= s.len(),
        field_len(s) < s.len() ==> s[field_len(s)] == '}',
        forall|j: int| 0 <= j < field_len(s) ==> s[j] != '}',
    decreases s.len(),
{
    if s.len() > 0 && s[0] != '}' {
        lemma_field_len_bound(s.skip(1));
        assert forall|j: int| 0 <= j < field_len(s) implies s[j] != '}' by {
            if j > 0 {
                assert(s.skip(1)[j - 1] == s[j]);
            }
        }
    }
}

fn find_close(v: &Vec<char>, start: usize) -> (e: usize)
    requires
        start <= v@.len(),
    ensures
        e == start + field_len(v@.skip(start as int)),
        start <= e <= v@.len(),
{
    let mut j = start;
    proof {
        lemma_field_len_bound(v@.skip(start as int));
    }
    while j < v.len()
        invariant
            start <= j <= v@.len(),
            start + field_len(v@.skip(start as int)) == j + field_len(v@.skip(j as int)),
        decreases v@.len() - j,
    {
        if v[j] == '}' {
            assert(v@.skip(j as int)[0] == '}');
            return j;
        }
        assert(v@.skip(j as int).skip(1) =~= v@.skip(j + 1));
        assert(v@.skip(j as int)[0] == v@[j as int]);
        j = j + 1;
    }
    assert(v@.skip(j as int).len() == 0);
    j
}

fn find_colon(f: &Vec<char>) -> (r: Option<usize>)
    ensures
        match r {
            Some(i) => colon_at(f@) == Some(i as int),
            None => colon_at(f@) is None,
        },
{
    let mut i: usize = 0;
    assert(f@.skip(0) =~= f@);
    while i < f.len()
        invariant
            i <= f@.len(),
            colon_at(f@) == match colon_at(f@.skip(i as int)) {
                Some(k) => Some(k + i),
                None => None,
            },
            forall|k: int| 0 <= k < i ==> f@[k] != ':',
        decreases f@.len() - i,
    {
        assert(f@.skip(i as int)[0] == f@[i as int]);
        if f[i] == ':' {
            return Some(i);
        }
        assert(f@.skip(i as int).skip(1) =~= f@.skip(i + 1));
        i = i + 1;
    }
    assert(f@.skip(i as int).len() == 0);
    None
}

proof fn lemma_colon_at_bound(s: Seq<char>)
    ensures
        colon_at(s) matches Some(i) ==> 0 <= i < s.len(),
    decreases s.len(),
{
    if s.len() > 0 && s[0] != ':' {
        lemma_colon_at_bound(s.skip(1));
    }
}

fn split_field(f: &Vec<char>) -> (r: (String, String))
    ensures
        (r.0@, r.1@) == key_and_spec(f@),
{
    proof {
        lemma_colon_at_bound(f@);
    }
    match find_colon(f) {
        Some(i) => {
            assert(i < f.len());
            let k = trim_chars(&slice_chars(f, 0, i));
            let sp = slice_chars(f, i + 1, f.len());
            assert(f@.subrange(0, i as int) =~= f@.take(i as int));
            assert(f@.subrange(i + 1, f@.len() as int) =~= f@.skip(i + 1));
            (string_of(&k), string_of(&sp))
        },
        None => {
            let k = trim_chars(f);
            let r = (string_of(&k), String::new());
            assert(r.1@ =~= seq![]);
            r
        },
    }
}

/// Split a display template into literal characters and `{key:spec}` fields.
pub fn template_parts(template: &str) -> (parts: Vec<TemplatePart>)
    ensures
        pieces_of(parts@) == template_pieces(template@),
{
    let v = chars_of(template);
    let n = v.len();
    let mut out: Vec<TemplatePart> = Vec::new();
    let mut i: usize = 0;
    assert(v@.skip(0) =~= v@);
    assert(pieces_of(out@) =~= seq![]);
    while i < n
        invariant
            n == v@.len(),
            v@ == template@,
            i <= n,
            template_pieces(v@) == pieces_of(out@) + template_pieces(
                v@.skip(i as int),
            ),
        decreases n - i,
    {
        let ghost before = pieces_of(out@);
        let ghost rest = v@.skip(i as int);
        assert(rest[0] == v@[i as int]);
        let c = v[i];
        let part: TemplatePart;
        let next: usize;
        proof {
            lemma_field_len_bound(rest.skip(1));
        }
        if c == '{' && i + 1 < n && v[i + 1] == '{' {
            assert(rest[1] == v@[i + 1]);
            part = TemplatePart::Literal('{');
            next = i + 2;
        } else if c == '}' && i + 1 < n && v[i + 1] == '}' {
            assert(rest[1] == v@[i + 1]);
            part = TemplatePart::Literal('}');
            next = i + 2;
        } else if c == '{' {
            let e = find_close(&v, i + 1);
            assert(rest.skip(1) =~= v@.skip(i + 1));
            let field = slice_chars(&v, i + 1, e);
            assert(field@ =~= rest.skip(1).take(field_len(rest.skip(1))));
            let (k, sp) = split_field(&field);
            next = if e < n {
                e + 1
            } else {
                e
            };
            part = TemplatePart::Field(k, sp);
        } else {
            part = TemplatePart::Literal(c);
            next = i + 1;
        }
        assert(piece_of(part) == first_piece(rest));
        assert(next == i + piece_len(rest));
        assert(rest.skip(piece_len(rest)) =~= v@.skip(next as int));
        let ghost pc = piece_of(part);
        let ghost gp = part;
        let ghost old_out = out@;
        proof {
            lemma_pieces_push(old_out, gp);
        }
        out.push(part);
        assert(out@ == old_out.push(gp));
        assert(before.push(pc) + template_pieces(v@.skip(next as int)) =~= before + (seq![pc]
            + template_pieces(v@.skip(next as int))));
        i = next;
    }
    assert(v@.skip(n as int) =~= Seq::<char>::empty());
    assert(pieces_of(out@) + template_pieces(v@.skip(n as int))
        =~= pieces_of(out@));
    out
}

/// Digits with `sep` inserted before every digit that starts a group of three
/// counted from the right (never before the first).
pub open spec fn grouped(d: Seq<char>, sep: Seq<char>, k: int) -> Seq<char>
    decreases k,
{
    if k <= 0 {
        seq![]
    } else {
        grouped(d, sep, k - 1) + (if k - 1 > 0 && (d.len() - (k - 1)) % 3 == 0 {
            sep
        } else {
            seq![]
        }) + seq![d[k - 1]]
    }
}

/// Insert a thousands separator into the integer part of a number.
pub fn group_thousands(int_part: &str, sep: &str) -> (r: String)
    ensures
        r@ == grouped(int_part@, sep@, int_part@.len() as int),
{
    let digits = chars_of(int_part);
    let n = digits.len();
    let mut out = String::new();
    assert(out@ =~= grouped(int_part@, sep@, 0));
    for i in 0..n
        invariant
            n == digits@.len(),
            digits@ == int_part@,
            out@ == grouped(int_part@, sep@, i as int),
    {
        if i > 0 && (n - i) % 3 == 0 {
            out.append(sep);
        }
        crate::text::push_char(&mut out, digits[i]);
    }
    out
}

} // verus!
