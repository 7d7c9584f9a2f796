//! Arrange-mode names: the canonical layout algorithm keys and the alias
//! table that maps every accepted spelling onto one of them.
//!
//! The geometric placements themselves compute with floating point and live
//! with the application.
use vstd::prelude::*;

use crate::text::{canonical_key, canonical_key_of, chars_of, seq_eq, str_eq, string_of};

verus! {

/// `(alias, canonical)` pairs; aliases are already canonical keys
/// (lowercase, `-` and spaces as `_`).
#[verifier::opaque]
pub open spec fn alias_table() -> Seq<(&'static str, &'static str)> {
    seq![
        ("fr", "fr"),
        ("fruchterman_reingold", "fr"),
        ("forceatlas2", "forceatlas2"),
        ("force_atlas_2", "forceatlas2"),
        ("force_atlas2", "forceatlas2"),
        ("fa2", "forceatlas2"),
        ("tree", "tree"),
        ("reingold_tilford", "tree"),
        ("tidy_tree", "tree"),
        ("radial", "radial"),
        ("circle", "circle"),
        ("grid", "grid"),
        ("random", "random"),
    ]
}

/// The canonical arrange algorithm keys, in table order.
#[verifier::opaque]
pub open spec fn algorithm_table() -> Seq<&'static str> {
    seq!["fr", "forceatlas2", "tree", "radial", "circle", "grid", "random"]
}

/// The arrange alias table: `(alias, canonical)`.
pub fn arrange_aliases() -> (t: Vec<(&'static str, &'static str)>)
    ensures
        t@ == alias_table(),
{
    let t = vec![
        ("fr", "fr"),
        ("fruchterman_reingold", "fr"),
        ("forceatlas2", "forceatlas2"),
        ("force_atlas_2", "forceatlas2"),
        ("force_atlas2", "forceatlas2"),
        ("fa2", "forceatlas2"),
        ("tree", "tree"),
        ("reingold_tilford", "tree"),
        ("tidy_tree", "tree"),
        ("radial", "radial"),
        ("circle", "circle"),
        ("grid", "grid"),
        ("random", "random"),
    ];
    reveal(alias_table);
    assert(t@ =~= alias_table());
    t
}

/// The canonical arrange algorithm keys.
pub fn arrange_algorithms() -> (t: Vec<&'static str>)
    ensures
        t@ == algorithm_table(),
{
    let t = vec!["fr", "forceatlas2", "tree", "radial", "circle", "grid", "random"];
    reveal(algorithm_table);
    assert(t@ =~= algorithm_table());
    t
}

/// The canonical name the first alias entry equal to `key` maps to.
pub open spec fn alias_lookup(t: Seq<(&'static str, &'static str)>, key: Seq<char>) -> Option<
    Seq<char>,
>
    decreases t.len(),
{
    if t.len() == 0 {
        None
    } else if t[0].0@ == key {
        Some(t[0].1@)
    } else {
        alias_lookup(t.drop_first(), key)
    }
}

/// What [`normalize_arrange`] returns: the canonical algorithm for a known
/// spelling, otherwise the input unchanged.
pub open spec fn normalized_arrange(mode: Seq<char>) -> Seq<char> {
    match alias_lookup(alias_table(), canonical_key(mode)) {
        Some(c) => c,
        None => mode,
    }
}

/// Canonicalize an arrange string (trimmed, lowercased, spaces and dashes as
/// underscores) and resolve it through the alias table. Unknown values pass
/// through unchanged.
pub fn normalize_arrange(mode: &str) -> (r: String)
    ensures
        r@ == normalized_arrange(mode@),
{
    let key = canonical_key_of(mode);
    let t = arrange_aliases();
    let n = t.len();
    let mut i: usize = 0;
    assert(t@.skip(0) =~= t@);
    while i < n
        invariant
            n == t@.len(),
            t@ == alias_table(),
            key@ == canonical_key(mode@),
            i <= n,
            alias_lookup(alias_table(), key@) == alias_lookup(t@.skip(i as int), key@),
        decreases n - i,
    {
        assert(t@.skip(i as int)[0] == t@[i as int]);
        assert(t@.skip(i as int).drop_first() =~= t@.skip(i + 1));
        let (alias, canonical) = t[i];
        let av = chars_of(alias);
        if seq_eq(&av, &key) {
            assert(alias_lookup(t@.skip(i as int), key@) == Some(t@[i as int].1@));
            let cv = chars_of(canonical);
            assert(canonical == t@[i as int].1);
            assert(cv@ == t@[i as int].1@);
            return string_of(&cv);
        }
        i = i + 1;
    }
    let mv = chars_of(mode);
    string_of(&mv)
}

proof fn alias_lookup_from_table(t: Seq<(&'static str, &'static str)>, key: Seq<char>)
    ensures
        alias_lookup(t, key) matches Some(c) ==> exists|i: int|
            0 <= i < t.len() && t[i].0@ == key && #[trigger] t[i].1@ == c,
    decreases t.len(),
{
    if t.len() > 0 && t[0].0@ != key {
        alias_lookup_from_table(t.drop_first(), key);
        if let Some(c) = alias_lookup(t, key) {
            let i = choose|i: int|
                0 <= i < t.len() - 1 && t.drop_first()[i].0@ == key && #[trigger] t.drop_first()[i].1@
                    == c;
            assert(t[i + 1].1@ == c);
        }
    } else if t.len() > 0 {
        assert(t[0].1@ == alias_lookup(t, key).unwrap());
    }
}

/// A canonical algorithm key is its own canonical spelling and the alias
/// table maps it to itself.
proof fn canonical_algorithm_is_fixed(c: &'static str)
    requires
        algorithm_table().contains(c),
    ensures
        canonical_key(c@) == c@,
        alias_lookup(alias_table(), c@) == Some(c@),
{
    reveal(alias_table);
    reveal(algorithm_table);
    reveal_with_fuel(alias_lookup, 14);
    reveal_strlit("fr");
    reveal_strlit("fruchterman_reingold");
    reveal_strlit("forceatlas2");
    reveal_strlit("force_atlas_2");
    reveal_strlit("force_atlas2");
    reveal_strlit("fa2");
    reveal_strlit("tree");
    reveal_strlit("reingold_tilford");
    reveal_strlit("tidy_tree");
    reveal_strlit("radial");
    reveal_strlit("circle");
    reveal_strlit("grid");
    reveal_strlit("random");
    let s = c@;
    assert(!crate::text::is_ws(s[0]));
    assert(!crate::text::is_ws(s.last()));
    assert(crate::text::trim_start(s) == s);
    assert(crate::text::trim(s) == s);
    assert(crate::text::all_ascii(s));
    assert(s.map_values(|ch: char| crate::text::ascii_lower(ch)) =~= s);
    assert(crate::text::dash_space_to_underscore(s) =~= s);
}

/// Every alias maps onto one of the canonical algorithm keys.
pub proof fn aliases_resolve_to_algorithms()
    ensures
        forall|i: int|
            0 <= i < alias_table().len() ==> algorithm_table().contains(
                #[trigger] alias_table()[i].1,
            ),
{
    reveal(alias_table);
    reveal(algorithm_table);
    assert forall|i: int| 0 <= i < alias_table().len() implies algorithm_table().contains(
        #[trigger] alias_table()[i].1,
    ) by {
        let c = alias_table()[i].1;
        let k: int = if c == "fr" {
            0
        } else if c == "forceatlas2" {
            1
        } else if c == "tree" {
            2
        } else if c == "radial" {
            3
        } else if c == "circle" {
            4
        } else if c == "grid" {
            5
        } else {
            6
        };
        assert(algorithm_table()[k] == c);
    }
}

/// Normalizing twice gives what normalizing once gives: a normalized arrange
/// mode is a fixed point.
pub proof fn normalize_arrange_idempotent(mode: Seq<char>)
    ensures
        normalized_arrange(normalized_arrange(mode)) == normalized_arrange(mode),
{
    alias_lookup_from_table(alias_table(), canonical_key(mode));
    if let Some(c) = alias_lookup(alias_table(), canonical_key(mode)) {
        let i = choose|i: int|
            0 <= i < alias_table().len() && alias_table()[i].0@ == canonical_key(mode)
                && #[trigger] alias_table()[i].1@ == c;
        aliases_resolve_to_algorithms();
        let cs = alias_table()[i].1;
        assert(algorithm_table().contains(cs));
        canonical_algorithm_is_fixed(cs);
    }
}


// ── Deterministic generator and edge indexing for the force layouts ─────────

/// The generator state a seed starts from: `seed·2862933555777941757 +
/// 3037000493`, modulo 2^64.
pub open spec fn lcg_seeded(seed: u64) -> u64 {
    ((seed as int * 2862933555777941757 + 3037000493) % 0x1_0000_0000_0000_0000) as u64
}

/// One generator step: `s·6364136223846793005 + 1442695040888963407`, modulo 2^64.
pub open spec fn lcg_step(s: u64) -> u64 {
    ((s as int * 6364136223846793005 + 1442695040888963407) % 0x1_0000_0000_0000_0000) as u64
}

/// Wrapping multiply-then-add on `u64` is the affine map modulo 2^64.
proof fn wrapping_affine(x: u64, a: u64, c: u64)
    ensures
        vstd::wrapping::u64_specs::wrapping_add(vstd::wrapping::u64_specs::wrapping_mul(x, a), c)
            == ((x as int * a as int + c as int) % 0x1_0000_0000_0000_0000) as u64,
{
    let m: int = 0x1_0000_0000_0000_0000;
    let p: int = x as int * a as int;
    assert(0 <= p) by (nonlinear_arith)
        requires
            p == x as int * a as int,
    ;
    let w = vstd::wrapping::u64_specs::wrapping_mul(x, a);
    assert(w as int == p % m);
    vstd::arithmetic::div_mod::lemma_add_mod_noop(p, c as int, m);
    vstd::arithmetic::div_mod::lemma_small_mod(c as nat, m as nat);
    if w as int + c as int >= m {
        vstd::arithmetic::div_mod::lemma_small_mod((w as int + c as int - m) as nat, m as nat);
        vstd::arithmetic::div_mod::lemma_mod_add_multiples_vanish(w as int + c as int - m, m);
    } else {
        vstd::arithmetic::div_mod::lemma_small_mod((w as int + c as int) as nat, m as nat);
    }
}

/// Small deterministic generator for layout initialisation: a 64-bit linear
/// congruential sequence, stable across runs and platforms.
pub struct Lcg(u64);

impl Lcg {
    /// The current state.
    pub closed spec fn state(&self) -> u64 {
        self.0
    }

    /// A generator started from `seed`.
    pub fn new(seed: u64) -> (g: Lcg)
        ensures
            g.state() == lcg_seeded(seed),
    {
        proof {
            wrapping_affine(seed, 2862933555777941757, 3037000493);
        }
        Lcg(seed.wrapping_mul(2862933555777941757).wrapping_add(3037000493))
    }

    /// Advance one step and return the new state.
    pub fn next_u64(&mut self) -> (r: u64)
        ensures
            r == lcg_step(old(self).state()),
            final(self).state() == r,
    {
        proof {
            wrapping_affine(self.0, 6364136223846793005, 1442695040888963407);
        }
        self.0 = self.0.wrapping_mul(6364136223846793005).wrapping_add(1442695040888963407);
        self.0
    }
}

/// The position of the last node named `name`, if any (a later duplicate
/// shadows an earlier one).
pub open spec fn last_node(nodes: Seq<Seq<char>>, name: Seq<char>) -> Option<int>
    decreases nodes.len(),
{
    if nodes.len() == 0 {
        None
    } else if nodes.last() == name {
        Some(nodes.len() - 1)
    } else {
        last_node(nodes.drop_last(), name)
    }
}

/// An index pair with the smaller index first.
pub open spec fn unordered(p: (int, int)) -> (int, int) {
    if p.0 < p.1 {
        p
    } else {
        (p.1, p.0)
    }
}

/// Whether some pair of `ps` joins the same two nodes as `p`, in either direction.
pub open spec fn joins_same(ps: Seq<(int, int)>, p: (int, int)) -> bool {
    exists|k: int| 0 <= k < ps.len() && unordered(ps[k]) == unordered(p)
}

/// The edges as index pairs into `nodes`, in edge order: a self-loop, or an
/// edge with an end that names no node, is dropped, and so is an edge joining
/// two nodes an earlier kept edge already joins (in either direction).
pub open spec fn edge_pairs(nodes: Seq<Seq<char>>, edges: Seq<(Seq<char>, Seq<char>)>) -> Seq<
    (int, int),
>
    decreases edges.len(),
{
    if edges.len() == 0 {
        seq![]
    } else {
        let prev = edge_pairs(nodes, edges.drop_last());
        let (a, b) = edges.last();
        if a == b {
            prev
        } else {
            match (last_node(nodes, a), last_node(nodes, b)) {
                (Some(ia), Some(ib)) => if joins_same(prev, (ia, ib)) {
                    prev
                } else {
                    prev.push((ia, ib))
                },
                _ => prev,
            }
        }
    }
}

pub(crate) fn find_last_node(nodes: &[String], name: &String) -> (r: Option<usize>)
    ensures
        r matches Some(i) ==> last_node(nodes@.map_values(|s: String| s@), name@) == Some(i as int),
        r is None ==> last_node(nodes@.map_values(|s: String| s@), name@) is None,
{
    let ghost ns = nodes@.map_values(|s: String| s@);
    let mut i: usize = nodes.len();
    assert(ns.take(i as int) =~= ns);
    while i > 0
        invariant
            i <= nodes@.len(),
            ns == nodes@.map_values(|s: String| s@),
            last_node(ns, name@) == last_node(ns.take(i as int), name@),
        decreases i,
    {
        let ghost pre = ns.take(i as int);
        assert(pre.drop_last() =~= ns.take(i - 1));
        if str_eq(nodes[i - 1].as_str(), name.as_str()) {
            return Some(i - 1);
        }
        i = i - 1;
    }
    None
}

fn joins_same_exec(ps: &Vec<(usize, usize)>, a: usize, b: usize) -> (r: bool)
    ensures
        r == joins_same(ps@.map_values(|p: (usize, usize)| (p.0 as int, p.1 as int)), (a as int, b as int)),
{
    let ghost v = ps@.map_values(|p: (usize, usize)| (p.0 as int, p.1 as int));
    let (ka, kb) = if a < b { (a, b) } else { (b, a) };
    let n = ps.len();
    for k in 0..n
        invariant
            n == ps@.len(),
            v == ps@.map_values(|p: (usize, usize)| (p.0 as int, p.1 as int)),
            (ka as int, kb as int) == unordered((a as int, b as int)),
            forall|j: int| 0 <= j < k ==> unordered(#[trigger] v[j]) != unordered((a as int, b as int)),
    {
        let (x, y) = ps[k];
        let (kx, ky) = if x < y { (x, y) } else { (y, x) };
        assert(v[k as int] == (x as int, y as int));
        if kx == ka && ky == kb {
            return true;
        }
    }
    false
}

/// Unique undirected edges as index pairs into `nodes` (self-loops dropped).
pub fn edge_index_pairs(nodes: &[String], edges: &[(String, String)]) -> (out: Vec<(usize, usize)>)
    ensures
        out@.map_values(|p: (usize, usize)| (p.0 as int, p.1 as int)) == edge_pairs(
            nodes@.map_values(|s: String| s@),
            edges@.map_values(|e: (String, String)| (e.0@, e.1@)),
        ),
{
    let ghost ns = nodes@.map_values(|s: String| s@);
    let ghost es = edges@.map_values(|e: (String, String)| (e.0@, e.1@));
    let mut out: Vec<(usize, usize)> = Vec::new();
    let n = edges.len();
    for j in 0..n
        invariant
            n == edges@.len(),
            ns == nodes@.map_values(|s: String| s@),
            es == edges@.map_values(|e: (String, String)| (e.0@, e.1@)),
            out@.map_values(|p: (usize, usize)| (p.0 as int, p.1 as int)) == edge_pairs(
                ns,
                es.take(j as int),
            ),
    {
        let ghost before = out@.map_values(|p: (usize, usize)| (p.0 as int, p.1 as int));
        assert(es.take(j + 1).drop_last() =~= es.take(j as int));
        assert(es.take(j + 1).last() == es[j as int]);
        let a = &edges[j].0;
        let b = &edges[j].1;
        if str_eq(a.as_str(), b.as_str()) {
        } else {
            let fa = find_last_node(nodes, a);
            let fb = find_last_node(nodes, b);
            if let (Some(ia), Some(ib)) = (fa, fb) {
                if !joins_same_exec(&out, ia, ib) {
                    out.push((ia, ib));
                    assert(out@.map_values(|p: (usize, usize)| (p.0 as int, p.1 as int)) =~= before.push(
                        (ia as int, ib as int),
                    ));
                }
            }
        }
    }
    assert(es.take(n as int) =~= es);
    out
}

} // verus!
