//! Layering config files: how one layer lands on another.
use vstd::prelude::*;

use crate::config_value::{
    copy_value, deep_merge, deep_merged, ents, find_key, is_object, jv, key_pos, lemma_jv_list,
    joined, key_from, leaves_from, lemma_jv_object, lemma_key_from_bounds, leaves, put, put_entry,
    put_then_value, put_then_without, remove_entry,
    same_value,
    set_leaf, set_leaf_at, value_at, walk_leaves, without_key, ConfigValue, Entries, Json,
};
use crate::error::{ErrorType, ValidationError};
use crate::input::Config;
use crate::report::{finding_of, findings, Finding};
use crate::text::str_eq;
use crate::validation::common::Named;

verus! {

/// How a layer lands on what came before it.
#[derive(Debug, Clone, Copy, PartialEq, Eq, Structural)]
pub enum CascadeMode {
    /// Deep-merge settings; upsert keyed sections by `name`; append list-only
    /// sections. The default when no cascade is set.
    Merge,
    /// Merge, but clear each mentioned section first.
    Wipe,
    /// Remove the named entries, or clear whole list-only sections.
    Delete,
    /// Merge, then freeze the leaves this layer declared.
    Lock,
}

/// The first item at or after `j` named `name`.
pub open spec fn first_named<T: Named>(v: Seq<T>, name: Seq<char>, j: int) -> Option<int>
    decreases v.len() - j,
{
    if j >= v.len() {
        None
    } else if v[j].name_view() == name {
        Some(j)
    } else {
        first_named(v, name, j + 1)
    }
}

/// One item landed on a list: it replaces the first item with its name, or
/// is appended when none has it.
pub open spec fn upsert_one<T: Named>(base: Seq<T>, item: T) -> Seq<T> {
    match first_named(base, item.name_view(), 0) {
        Some(j) => base.update(j, item),
        None => base.push(item),
    }
}

/// Items landed on a list one after another, in order.
pub open spec fn upsert_all<T: Named>(base: Seq<T>, incoming: Seq<T>) -> Seq<T>
    decreases incoming.len(),
{
    if incoming.len() == 0 {
        base
    } else {
        upsert_all(upsert_one(base, incoming[0]), incoming.drop_first())
    }
}

proof fn lemma_first_named_bounds<T: Named>(v: Seq<T>, name: Seq<char>, j: int)
    requires
        0 <= j,
    ensures
        first_named(v, name, j) matches Some(k) ==> j <= k < v.len() && v[k].name_view() == name,
    decreases v.len() - j,
{
    if j < v.len() && v[j].name_view() != name {
        lemma_first_named_bounds(v, name, j + 1);
    }
}

fn find_named<T: Named>(v: &Vec<T>, name: &str) -> (r: Option<usize>)
    ensures
        match r {
            Some(j) => first_named(v@, name@, 0) == Some(j as int) && j < v@.len(),
            None => first_named(v@, name@, 0) is None,
        },
{
    let mut j: usize = 0;
    while j < v.len()
        invariant
            j <= v@.len(),
            first_named(v@, name@, 0) == first_named(v@, name@, j as int),
        decreases v@.len() - j,
    {
        if str_eq(v[j].name_str(), name) {
            return Some(j);
        }
        j = j + 1;
    }
    None
}

/// Land each incoming item on `base` by name, in order: an item replaces
/// the first item with its name, or is appended.
pub fn upsert_by_name<T: Named>(base: &mut Vec<T>, incoming: Vec<T>)
    ensures
        final(base)@ == upsert_all(old(base)@, incoming@),
{
    let mut incoming = incoming;
    let ghost goal = upsert_all(old(base)@, incoming@);
    while incoming.len() > 0
        invariant
            upsert_all(base@, incoming@) == goal,
        decreases incoming@.len(),
    {
        let ghost rest = incoming@;
        let item = incoming.remove(0);
        assert(incoming@ =~= rest.drop_first());
        let ghost landed = upsert_one(base@, item);
        match find_named(base, item.name_str()) {
            Some(j) => {
                base.set(j, item);
            },
            None => {
                base.push(item);
            },
        }
        assert(base@ =~= landed);
    }
}

/// After an item lands on a list, looking its name up finds that item.
pub proof fn upsert_then_lookup<T: Named>(base: Seq<T>, item: T)
    ensures
        ({
            let r = upsert_one(base, item);
            first_named(r, item.name_view(), 0) matches Some(j) && r[j] == item
        }),
{
    let name = item.name_view();
    lemma_first_named_bounds(base, name, 0);
    let r = upsert_one(base, item);
    match first_named(base, name, 0) {
        Some(j) => {
            lemma_first_named_min(base, name, 0, j);
            assert forall|m: int| 0 <= m < j implies r[m].name_view() != name by {
                assert(r[m] == base[m]);
            }
            lemma_first_named_prefix(base, r, name, 0, j);
        },
        None => {
            lemma_first_named_none_all(base, name, 0);
            lemma_first_named_prefix(base, r, name, 0, base.len() as int);
        },
    }
}

proof fn lemma_first_named_min<T: Named>(v: Seq<T>, name: Seq<char>, i: int, j: int)
    requires
        0 <= i,
        first_named(v, name, i) == Some(j),
    ensures
        forall|m: int| i <= m < j ==> v[m].name_view() != name,
    decreases v.len() - i,
{
    if i < v.len() && v[i].name_view() != name {
        lemma_first_named_min(v, name, i + 1, j);
    }
}

proof fn lemma_first_named_none_all<T: Named>(v: Seq<T>, name: Seq<char>, j: int)
    requires
        0 <= j,
        first_named(v, name, j) is None,
    ensures
        forall|k: int| j <= k < v.len() ==> v[k].name_view() != name,
    decreases v.len() - j,
{
    if j < v.len() {
        lemma_first_named_none_all(v, name, j + 1);
    }
}

/// When `a` and `b` agree on the names before `k`, none of them is `name`,
/// and `b[k]` carries `name`, the search from `i` stops at `k` in `b`.
proof fn lemma_first_named_prefix<T: Named>(a: Seq<T>, b: Seq<T>, name: Seq<char>, i: int, k: int)
    requires
        0 <= i <= k < b.len(),
        b[k].name_view() == name,
        forall|m: int| i <= m < k ==> b[m].name_view() != name,
    ensures
        first_named(b, name, i) == Some(k),
    decreases k - i,
{
    if i < k {
        lemma_first_named_prefix(a, b, name, i + 1, k);
    }
}

/// The overlay of a later layer on this one: settings, strengths and grade
/// dimensions are replaced when the later layer sets them; named sections
/// upsert by name; list-only sections append.
pub open spec fn overlaid(base: Config, other: Config) -> Config {
    Config {
        settings: if other.settings is Some {
            other.settings
        } else {
            base.settings
        },
        entity_types: base.entity_types,
        link_types: base.link_types,
        attribute_classes: base.attribute_classes,
        datetime_formats: base.datetime_formats,
        strengths: if other.strengths is Some {
            other.strengths
        } else {
            base.strengths
        },
        grades_one: if other.grades_one is Some {
            other.grades_one
        } else {
            base.grades_one
        },
        grades_two: if other.grades_two is Some {
            other.grades_two
        } else {
            base.grades_two
        },
        grades_three: if other.grades_three is Some {
            other.grades_three
        } else {
            base.grades_three
        },
        ..base
    }
}

impl Config {
    /// Overlay another config layer on top of this one: keyed lists upsert by
    /// name, other lists append, settings and dimensions are last-wins.
    pub fn overlay(&mut self, other: Config)
        ensures
            final(self).settings == overlaid(*old(self), other).settings,
            final(self).strengths == overlaid(*old(self), other).strengths,
            final(self).grades_one == overlaid(*old(self), other).grades_one,
            final(self).grades_two == overlaid(*old(self), other).grades_two,
            final(self).grades_three == overlaid(*old(self), other).grades_three,
            final(self).entity_types@ == upsert_all(old(self).entity_types@, other.entity_types@),
            final(self).link_types@ == upsert_all(old(self).link_types@, other.link_types@),
            final(self).attribute_classes@ == upsert_all(
                old(self).attribute_classes@,
                other.attribute_classes@,
            ),
            final(self).datetime_formats@ == upsert_all(
                old(self).datetime_formats@,
                other.datetime_formats@,
            ),
            final(self).source_types@ == old(self).source_types@ + other.source_types@,
            final(self).legend_items@ == old(self).legend_items@ + other.legend_items@,
            final(self).palettes@ == old(self).palettes@ + other.palettes@,
            final(self).semantic_entities@ == old(self).semantic_entities@
                + other.semantic_entities@,
            final(self).semantic_links@ == old(self).semantic_links@ + other.semantic_links@,
            final(self).semantic_properties@ == old(self).semantic_properties@
                + other.semantic_properties@,
            final(self).validators@ == old(self).validators@ + other.validators@,
            final(self).custom_entity_icons@ == old(self).custom_entity_icons@,
            final(self).custom_attribute_icons@ == old(self).custom_attribute_icons@,
    {
        let mut other = other;
        if other.settings.is_some() {
            self.settings = other.settings;
        }
        upsert_by_name(&mut self.entity_types, other.entity_types);
        upsert_by_name(&mut self.link_types, other.link_types);
        upsert_by_name(&mut self.attribute_classes, other.attribute_classes);
        upsert_by_name(&mut self.datetime_formats, other.datetime_formats);
        if other.strengths.is_some() {
            self.strengths = other.strengths;
        }
        if other.grades_one.is_some() {
            self.grades_one = other.grades_one;
        }
        if other.grades_two.is_some() {
            self.grades_two = other.grades_two;
        }
        if other.grades_three.is_some() {
            self.grades_three = other.grades_three;
        }
        self.source_types.append(&mut other.source_types);
        self.legend_items.append(&mut other.legend_items);
        self.palettes.append(&mut other.palettes);
        self.semantic_entities.append(&mut other.semantic_entities);
        self.semantic_links.append(&mut other.semantic_links);
        self.semantic_properties.append(&mut other.semantic_properties);
        self.validators.append(&mut other.validators);
    }
}


// ── Layering config documents ───────────────────────────────────────────────

/// A frozen leaf: section, entry name, dotted leaf path, the locked value and
/// the `source` of the layer that locked it.
pub struct LockedLeaf {
    pub section: String,
    pub name: String,
    pub leaf: String,
    pub value: ConfigValue,
    pub source: Option<String>,
}

pub type LockView = (Seq<char>, Seq<char>, Seq<char>, Json, Option<Seq<char>>);

pub open spec fn ostr(o: Option<String>) -> Option<Seq<char>> {
    match o {
        Some(s) => Some(s@),
        None => None,
    }
}

pub open spec fn lock_view(l: LockedLeaf) -> LockView {
    (l.section@, l.name@, l.leaf@, jv(l.value), ostr(l.source))
}

/// Accumulates config layers into one merged config document.
pub struct ConfigStack {
    merged: Vec<(String, ConfigValue)>,
    locked: Vec<LockedLeaf>,
    conflicts: Vec<ValidationError>,
}

/// What a stack holds: the merged document's entries, the locked leaves
/// (one per section, name and leaf), and the conflicts recorded so far.
pub struct StackView {
    pub merged: Entries,
    pub locked: Seq<LockView>,
    pub conflicts: Seq<Finding>,
}

impl View for ConfigStack {
    type V = StackView;

    closed spec fn view(&self) -> StackView {
        StackView {
            merged: ents(self.merged@),
            locked: self.locked@.map_values(|l: LockedLeaf| lock_view(l)),
            conflicts: findings(self.conflicts@),
        }
    }
}

/// Sections whose entries merge by their `name`.
pub open spec fn is_keyed_section(k: Seq<char>) -> bool {
    k == "entity_types"@ || k == "link_types"@ || k == "attribute_classes"@ || k
        == "datetime_formats"@ || k == "semantic_entities"@ || k == "semantic_links"@ || k
        == "semantic_properties"@
}

/// Sections that are plain lists (`source_types` also drops repeats).
pub open spec fn is_list_section(k: Seq<char>) -> bool {
    k == "legend_items"@ || k == "palettes"@ || k == "validators"@ || k == "source_types"@
}

/// The mode a layer's own `cascade: { mode }` block selects (merge when it
/// has none, or an unknown one).
pub open spec fn embedded_mode(layer: Json) -> CascadeMode {
    match layer {
        Json::Object(m) => match value_at(m, "cascade"@) {
            Some(Json::Object(c)) => match value_at(c, "mode"@) {
                Some(Json::Str(s)) => if s == "wipe"@ {
                    CascadeMode::Wipe
                } else if s == "delete"@ {
                    CascadeMode::Delete
                } else if s == "lock"@ {
                    CascadeMode::Lock
                } else {
                    CascadeMode::Merge
                },
                _ => CascadeMode::Merge,
            },
            _ => CascadeMode::Merge,
        },
        _ => CascadeMode::Merge,
    }
}

/// The array under `k`, or none.
pub open spec fn list_of(m: Entries, k: Seq<char>) -> Seq<Json> {
    match value_at(m, k) {
        Some(Json::List(a)) => a,
        _ => Seq::empty(),
    }
}

/// The `name` string of a keyed entry.
pub open spec fn name_of(e: Json) -> Option<Seq<char>> {
    match e {
        Json::Object(m) => match value_at(m, "name"@) {
            Some(Json::Str(s)) => Some(s),
            _ => None,
        },
        _ => None,
    }
}

/// The first entry at or after `j` named `name`.
pub open spec fn name_from(a: Seq<Json>, name: Seq<char>, j: int) -> Option<int>
    decreases a.len() - j,
{
    if j < 0 || j >= a.len() {
        None
    } else if name_of(a[j]) == Some(name) {
        Some(j)
    } else {
        name_from(a, name, j + 1)
    }
}

/// The lock on `(section, name, leaf)`, if any.
pub open spec fn lock_from(l: Seq<LockView>, s: Seq<char>, n: Seq<char>, f: Seq<char>, j: int) -> Option<int>
    decreases l.len() - j,
{
    if j < 0 || j >= l.len() {
        None
    } else if l[j].0 == s && l[j].1 == n && l[j].2 == f {
        Some(j)
    } else {
        lock_from(l, s, n, f, j + 1)
    }
}

/// Locks recorded in order: a new lock replaces the one on the same leaf.
pub open spec fn add_locks(l: Seq<LockView>, new: Seq<LockView>) -> Seq<LockView>
    decreases new.len(),
{
    if new.len() == 0 {
        l
    } else {
        let e = new[0];
        let l1 = match lock_from(l, e.0, e.1, e.2, 0) {
            Some(j) => l.update(j, e),
            None => l.push(e),
        };
        add_locks(l1, new.drop_first())
    }
}

pub open spec fn dotted3(a: Seq<char>, b: Seq<char>, c: Seq<char>) -> Seq<char> {
    a + "."@ + b + "."@ + c
}

/// The conflict a refused change of a locked leaf records.
pub open spec fn lock_conflict(
    section: Seq<char>,
    name: Seq<char>,
    leaf: Seq<char>,
    src: Option<Seq<char>>,
    lock_src: Option<Seq<char>>,
) -> Finding {
    (
        ErrorType::LockedOverride,
        dotted3(section, name, leaf),
        "attempt to change locked '"@ + leaf + "' on '"@ + name + "'"@,
        src,
        lock_src,
        None,
    )
}

/// The conflict a delete entry with a non-null field records.
pub open spec fn delete_conflict(section: Seq<char>, name: Seq<char>, k: Seq<char>, src: Option<Seq<char>>) -> Finding {
    (
        ErrorType::DeleteContract,
        dotted3(section, name, k),
        "delete entries must set non-identity fields to null"@,
        src,
        None,
        None,
    )
}

/// The first `j` leaves of an entry landed on item `p`: a leaf locked to a
/// different value is refused with a conflict; any other is set (and, in
/// lock mode, locked).
pub open spec fn leaf_fold(
    a: Seq<Json>,
    p: int,
    ls: Entries,
    j: int,
    section: Seq<char>,
    name: Seq<char>,
    mode: CascadeMode,
    src: Option<Seq<char>>,
    locked: Seq<LockView>,
) -> (Seq<Json>, Seq<Finding>, Seq<LockView>)
    decreases j,
{
    if j <= 0 {
        (a, Seq::empty(), Seq::empty())
    } else {
        let (a1, c1, l1) = leaf_fold(a, p, ls, j - 1, section, name, mode, src, locked);
        let leaf = ls[j - 1].0;
        let lval = ls[j - 1].1;
        if leaf == "name"@ {
            (a1, c1, l1)
        } else {
            match lock_from(locked, section, name, leaf, 0) {
                Some(q) if locked[q].3 != lval => (
                    a1,
                    c1.push(lock_conflict(section, name, leaf, src, locked[q].4)),
                    l1,
                ),
                _ => (
                    a1.update(p, set_leaf_at(a1[p], leaf, lval)),
                    c1,
                    if mode == CascadeMode::Lock {
                        l1.push((section, name, leaf, lval, src))
                    } else {
                        l1
                    },
                ),
            }
        }
    }
}

/// The first `j` fields of a delete entry applied to item `p`: the name is
/// skipped, a non-null field records a conflict, a null one is removed.
pub open spec fn delete_fold(
    a: Seq<Json>,
    p: int,
    fields: Entries,
    j: int,
    section: Seq<char>,
    name: Seq<char>,
    src: Option<Seq<char>>,
) -> (Seq<Json>, Seq<Finding>)
    decreases j,
{
    if j <= 0 {
        (a, Seq::empty())
    } else {
        let (a1, c1) = delete_fold(a, p, fields, j - 1, section, name, src);
        let k = fields[j - 1].0;
        if k == "name"@ {
            (a1, c1)
        } else if fields[j - 1].1 != Json::Null {
            (a1, c1.push(delete_conflict(section, name, k, src)))
        } else {
            (
                a1.update(
                    p,
                    match a1[p] {
                        Json::Object(m) => Json::Object(without_key(m, k)),
                        o => o,
                    },
                ),
                c1,
            )
        }
    }
}

/// The fields of an entry.
pub open spec fn fields_of(e: Json) -> Entries {
    match e {
        Json::Object(m) => m,
        _ => Seq::empty(),
    }
}

/// Whether an entry has a field besides its name.
pub open spec fn has_other_field(f: Entries) -> bool {
    exists|i: int| 0 <= i < f.len() && f[i].0 != "name"@
}

/// One keyed entry landed on the section's items.
pub open spec fn entry_step(
    a: Seq<Json>,
    e: Json,
    section: Seq<char>,
    mode: CascadeMode,
    src: Option<Seq<char>>,
    locked: Seq<LockView>,
) -> (Seq<Json>, Seq<Finding>, Seq<LockView>) {
    match name_of(e) {
        None => (a.push(e), Seq::empty(), Seq::empty()),
        Some(name) => if mode == CascadeMode::Delete {
            match name_from(a, name, 0) {
                None => (a, Seq::empty(), Seq::empty()),
                Some(p) => if !has_other_field(fields_of(e)) {
                    (a.remove(p), Seq::empty(), Seq::empty())
                } else {
                    let (a1, c1) = delete_fold(a, p, fields_of(e), fields_of(e).len() as int, section, name, src);
                    (a1, c1, Seq::empty())
                },
            }
        } else {
            let (a1, p) = match name_from(a, name, 0) {
                Some(p) => (a, p),
                None => (a.push(Json::Object(seq![("name"@, Json::Str(name))])), a.len() as int),
            };
            let ls = leaves(e, Seq::empty());
            leaf_fold(a1, p, ls, ls.len() as int, section, name, mode, src, locked)
        },
    }
}

/// The first `i` incoming entries landed in order.
pub open spec fn entries_fold(
    a: Seq<Json>,
    inc: Seq<Json>,
    i: int,
    section: Seq<char>,
    mode: CascadeMode,
    src: Option<Seq<char>>,
    locked: Seq<LockView>,
) -> (Seq<Json>, Seq<Finding>, Seq<LockView>)
    decreases i,
{
    if i <= 0 {
        (a, Seq::empty(), Seq::empty())
    } else {
        let (a1, c1, l1) = entries_fold(a, inc, i - 1, section, mode, src, locked);
        let (a2, c2, l2) = entry_step(a1, inc[i - 1], section, mode, src, locked);
        (a2, c1 + c2, l1 + l2)
    }
}

/// A keyed section landed on the stack.
pub open spec fn keyed_step(st: StackView, section: Seq<char>, val: Json, mode: CascadeMode, src: Option<Seq<char>>) -> StackView {
    match val {
        Json::List(inc) => {
            let m0 = if mode == CascadeMode::Wipe {
                put(st.merged, section, Json::List(Seq::empty()))
            } else {
                st.merged
            };
            let (a, c, l) = entries_fold(list_of(m0, section), inc, inc.len() as int, section, mode, src, st.locked);
            StackView {
                merged: put(m0, section, Json::List(a)),
                locked: add_locks(st.locked, l),
                conflicts: st.conflicts + c,
            }
        },
        _ => st,
    }
}

/// The first `i` items of a list-only section appended (`source_types` skips
/// an item it already holds).
pub open spec fn list_fold(a: Seq<Json>, inc: Seq<Json>, i: int, dedup: bool) -> Seq<Json>
    decreases i,
{
    if i <= 0 {
        a
    } else {
        let a1 = list_fold(a, inc, i - 1, dedup);
        if dedup && a1.contains(inc[i - 1]) {
            a1
        } else {
            a1.push(inc[i - 1])
        }
    }
}

/// A list-only section landed: wipe clears it first, delete only clears it.
pub open spec fn list_step(m: Entries, section: Seq<char>, val: Json, mode: CascadeMode) -> Entries {
    match val {
        Json::List(inc) => {
            let m0 = if mode == CascadeMode::Wipe || mode == CascadeMode::Delete {
                put(m, section, Json::List(Seq::empty()))
            } else {
                m
            };
            if mode == CascadeMode::Delete {
                m0
            } else {
                put(m0, section, Json::List(list_fold(list_of(m0, section), inc, inc.len() as int, section == "source_types"@)))
            }
        },
        _ => m,
    }
}

/// The value under `k`, or `d`.
pub open spec fn value_or(m: Entries, k: Seq<char>, d: Json) -> Json {
    match value_at(m, k) {
        Some(v) => v,
        None => d,
    }
}

/// One top-level section of a layer landed on the stack.
pub open spec fn section_step(st: StackView, key: Seq<char>, val: Json, mode: CascadeMode, src: Option<Seq<char>>) -> StackView {
    if key == "settings"@ {
        StackView {
            merged: put(st.merged, key, deep_merged(value_or(st.merged, key, Json::Object(Seq::empty())), val)),
            ..st
        }
    } else if is_keyed_section(key) {
        keyed_step(st, key, val, mode, src)
    } else if is_list_section(key) {
        StackView { merged: list_step(st.merged, key, val, mode), ..st }
    } else if mode == CascadeMode::Delete {
        StackView { merged: without_key(st.merged, key), ..st }
    } else {
        StackView { merged: put(st.merged, key, deep_merged(value_or(st.merged, key, Json::Null), val)), ..st }
    }
}

/// The first `i` sections of a layer landed in order.
pub open spec fn sections_fold(st: StackView, m: Entries, i: int, mode: CascadeMode, src: Option<Seq<char>>) -> StackView
    decreases i,
{
    if i <= 0 {
        st
    } else {
        let st1 = sections_fold(st, m, i - 1, mode, src);
        section_step(st1, m[i - 1].0, m[i - 1].1, mode, src)
    }
}

/// One layer applied to a stack: its `cascade` block is dropped, the mode is
/// the given one or else the layer's own, and its sections land in order.
/// A layer that is no object changes nothing.
pub open spec fn stack_step(st: StackView, layer: Json, mode: Option<CascadeMode>, src: Option<Seq<char>>) -> StackView {
    let op = match mode {
        Some(m) => m,
        None => embedded_mode(layer),
    };
    match layer {
        Json::Object(m) => {
            let body = without_key(m, "cascade"@);
            sections_fold(st, body, body.len() as int, op, src)
        },
        _ => st,
    }
}

/// The empty stack.
pub open spec fn empty_stack() -> StackView {
    StackView { merged: Seq::empty(), locked: Seq::empty(), conflicts: Seq::empty() }
}

/// Layers applied one after another, each with its own cascade mode.
pub open spec fn stacked(layers: Seq<Json>, i: int) -> StackView
    decreases i,
{
    if i <= 0 {
        empty_stack()
    } else {
        stack_step(stacked(layers, i - 1), layers[i - 1], None, None)
    }
}


pub open spec fn jvs(x: Seq<ConfigValue>) -> Seq<Json> {
    x.map_values(|c: ConfigValue| jv(c))
}

pub open spec fn lock_views(l: Seq<LockedLeaf>) -> Seq<LockView> {
    l.map_values(|x: LockedLeaf| lock_view(x))
}

fn copy_ostr(o: &Option<String>) -> (r: Option<String>)
    ensures
        ostr(r) == ostr(*o),
{
    match o {
        Some(s) => Some(s.clone()),
        None => None,
    }
}

fn owned(s: &str) -> (r: String)
    ensures
        r@ == s@,
{
    crate::text::string_of(&crate::text::chars_of(s))
}

fn dotted_path(a: &str, b: &str, c: &str) -> (r: String)
    ensures
        r@ == dotted3(a@, b@, c@),
{
    let mut r = owned(a);
    r.append(".");
    r.append(b);
    r.append(".");
    r.append(c);
    r
}

/// The `name` string of a keyed entry.
fn entry_name(e: &ConfigValue) -> (r: Option<String>)
    ensures
        ostr(r) == name_of(jv(*e)),
{
    match e {
        ConfigValue::Object(m) => {
            proof {
                lemma_jv_object(*m);
                lemma_key_from_bounds(ents(m@), "name"@, 0);
            }
            match find_key(m, "name") {
                Some(j) => match &m[j].1 {
                    ConfigValue::Str(s) => Some(s.clone()),
                    _ => None,
                },
                None => None,
            }
        },
        _ => None,
    }
}

fn find_name(a: &Vec<ConfigValue>, name: &str) -> (r: Option<usize>)
    ensures
        match r {
            Some(j) => name_from(jvs(a@), name@, 0) == Some(j as int) && j < a@.len(),
            None => name_from(jvs(a@), name@, 0) is None,
        },
{
    let ghost e = jvs(a@);
    let mut j: usize = 0;
    while j < a.len()
        invariant
            e == jvs(a@),
            j <= a@.len(),
            name_from(e, name@, 0) == name_from(e, name@, j as int),
        decreases a@.len() - j,
    {
        match entry_name(&a[j]) {
            Some(n) => {
                if str_eq(n.as_str(), name) {
                    return Some(j);
                }
            },
            None => {},
        }
        j = j + 1;
    }
    None
}

fn find_lock(l: &Vec<LockedLeaf>, s: &str, n: &str, f: &str) -> (r: Option<usize>)
    ensures
        match r {
            Some(j) => lock_from(lock_views(l@), s@, n@, f@, 0) == Some(j as int) && j < l@.len(),
            None => lock_from(lock_views(l@), s@, n@, f@, 0) is None,
        },
{
    let ghost e = lock_views(l@);
    let mut j: usize = 0;
    while j < l.len()
        invariant
            e == lock_views(l@),
            j <= l@.len(),
            lock_from(e, s@, n@, f@, 0) == lock_from(e, s@, n@, f@, j as int),
        decreases l@.len() - j,
    {
        if str_eq(l[j].section.as_str(), s) && str_eq(l[j].name.as_str(), n) && str_eq(
            l[j].leaf.as_str(),
            f,
        ) {
            return Some(j);
        }
        j = j + 1;
    }
    None
}

/// A copy of the array under `k` (none when absent or no array).
fn list_at(m: &Vec<(String, ConfigValue)>, k: &str) -> (r: Vec<ConfigValue>)
    ensures
        jvs(r@) == list_of(ents(m@), k@),
{
    let mut out: Vec<ConfigValue> = Vec::new();
    match find_key(m, k) {
        Some(j) => {
            proof {
                lemma_key_from_bounds(ents(m@), k@, 0);
            }
            match &m[j].1 {
                ConfigValue::List(x) => {
                    proof {
                        lemma_jv_list(*x);
                    }
                    for i in 0..x.len()
                        invariant
                            jvs(out@) == jvs(x@).take(i as int),
                    {
                        let ghost before = jvs(out@);
                        out.push(copy_value(&x[i]));
                        assert(jvs(out@) =~= before.push(jv(x@[i as int])));
                        assert(jvs(x@).take(i + 1) =~= jvs(x@).take(i as int).push(jv(x@[i as int])));
                    }
                    assert(jvs(x@).take(x@.len() as int) =~= jvs(x@));
                },
                _ => {},
            }
        },
        None => {},
    }
    assert(jvs(out@) =~= list_of(ents(m@), k@));
    out
}

fn is_null(v: &ConfigValue) -> (r: bool)
    ensures
        r == (jv(*v) == Json::Null),
{
    match v {
        ConfigValue::Null => true,
        _ => false,
    }
}

/// One keyed entry landed on the section's items (see [`entry_step`]).
fn land_entry(
    arr: &mut Vec<ConfigValue>,
    confs: &mut Vec<ValidationError>,
    locks: &mut Vec<LockedLeaf>,
    e: &ConfigValue,
    section: &str,
    mode: CascadeMode,
    source: &Option<String>,
    locked: &Vec<LockedLeaf>,
)
    ensures
        ({
            let (a2, c2, l2) = entry_step(
                jvs(old(arr)@),
                jv(*e),
                section@,
                mode,
                ostr(*source),
                lock_views(locked@),
            );
            jvs(final(arr)@) == a2 && findings(final(confs)@) == findings(old(confs)@) + c2
                && lock_views(final(locks)@) == lock_views(old(locks)@) + l2
        }),
{
    let ghost a0 = jvs(arr@);
    let ghost c0 = findings(confs@);
    let ghost k0 = lock_views(locks@);
    let ghost src = ostr(*source);
    let ghost lk = lock_views(locked@);
    let name = match entry_name(e) {
        Some(n) => n,
        None => {
            arr.push(copy_value(e));
            assert(jvs(arr@) =~= a0.push(jv(*e)));
            assert(findings(confs@) =~= c0 + Seq::<Finding>::empty());
            assert(lock_views(locks@) =~= k0 + Seq::<LockView>::empty());
            return;
        },
    };
    let pos = find_name(arr, name.as_str());
    if mode == CascadeMode::Delete {
        assert(lock_views(locks@) =~= k0 + Seq::<LockView>::empty());
        let p = match pos {
            Some(p) => p,
            None => {
                assert(findings(confs@) =~= c0 + Seq::<Finding>::empty());
                return;
            },
        };
        let empty: Vec<(String, ConfigValue)> = Vec::new();
        let fields: &Vec<(String, ConfigValue)> = match e {
            ConfigValue::Object(m) => m,
            _ => &empty,
        };
        proof {
            if e is Object {
                lemma_jv_object(e->Object_0);
            }
            assert(ents(empty@) =~= Seq::<(Seq<char>, Json)>::empty());
        }
        let ghost f = ents(fields@);
        assert(f == crate::layering::fields_of(jv(*e)));
        let mut other = false;
        for j in 0..fields.len()
            invariant
                f == ents(fields@),
                other == exists|i: int| 0 <= i < j && f[i].0 != "name"@,
        {
            assert(f[j as int] == (fields@[j as int].0@, jv(fields@[j as int].1)));
            if !str_eq(fields[j].0.as_str(), "name") {
                other = true;
            }
        }
        if !other {
            arr.remove(p);
            assert(jvs(arr@) =~= a0.remove(p as int));
            assert(findings(confs@) =~= c0 + Seq::<Finding>::empty());
            return;
        }
        let n = fields.len();
        for j in 0..n
            invariant
                n == fields@.len(),
                f == ents(fields@),
                p < arr@.len(),
                src == ostr(*source),
                ({
                    let (a1, c1) = delete_fold(a0, p as int, f, j as int, section@, name@, src);
                    jvs(arr@) == a1 && findings(confs@) == c0 + c1
                }),
        {
            let ghost before_a = jvs(arr@);
            let ghost before_c = findings(confs@);
            assert(f[j as int] == (fields@[j as int].0@, jv(fields@[j as int].1)));
            if str_eq(fields[j].0.as_str(), "name") {
            } else if !is_null(&fields[j].1) {
                let loc = dotted_path(section, name.as_str(), fields[j].0.as_str());
                let mut err = ValidationError::new(
                    ErrorType::DeleteContract,
                    loc,
                    owned("delete entries must set non-identity fields to null"),
                );
                err.source = copy_ostr(source);
                confs.push(err);
                assert(findings(confs@) =~= before_c.push(
                    delete_conflict(section@, name@, f[j as int].0, src),
                ));
            } else {
                let item = copy_value(&arr[p]);
                match item {
                    ConfigValue::Object(mut m) => {
                        proof {
                            lemma_jv_object(m);
                        }
                        remove_entry(&mut m, fields[j].0.as_str());
                        proof {
                            lemma_jv_object(m);
                        }
                        arr.set(p, ConfigValue::Object(m));
                    },
                    other_item => {
                        arr.set(p, other_item);
                    },
                }
                assert(jvs(arr@) =~= before_a.update(
                    p as int,
                    match before_a[p as int] {
                        Json::Object(m) => Json::Object(without_key(m, f[j as int].0)),
                        o => o,
                    },
                ));
            }
        }
        return;
    }
    let p = match pos {
        Some(p) => p,
        None => {
            let mut stub: Vec<(String, ConfigValue)> = Vec::new();
            stub.push((owned("name"), ConfigValue::Str(name.clone())));
            proof {
                lemma_jv_object(stub);
            }
            assert(ents(stub@) =~= seq![("name"@, Json::Str(name@))]);
            arr.push(ConfigValue::Object(stub));
            assert(jvs(arr@) =~= a0.push(Json::Object(seq![("name"@, Json::Str(name@))])));
            arr.len() - 1
        },
    };
    let ghost a1 = jvs(arr@);
    let no_prefix: Vec<char> = Vec::new();
    let ls = walk_leaves(e, &no_prefix);
    let ghost lsj = ents(ls@);
    assert(no_prefix@ =~= Seq::<char>::empty());
    let n = ls.len();
    for j in 0..n
        invariant
            n == ls@.len(),
            lsj == ents(ls@),
            p < arr@.len(),
            lk == lock_views(locked@),
            src == ostr(*source),
            ({
                let (a2, c2, l2) = leaf_fold(a1, p as int, lsj, j as int, section@, name@, mode, src, lk);
                jvs(arr@) == a2 && findings(confs@) == c0 + c2 && lock_views(locks@) == k0 + l2
            }),
    {
        let ghost before_a = jvs(arr@);
        let ghost before_c = findings(confs@);
        let ghost before_l = lock_views(locks@);
        let leaf = ls[j].0.as_str();
        assert(lsj[j as int] == (ls@[j as int].0@, jv(ls@[j as int].1)));
        if !str_eq(leaf, "name") {
        let found = find_lock(locked, section, name.as_str(), leaf);
        let refused = match found {
            Some(q) => !same_value(&locked[q].value, &ls[j].1),
            None => false,
        };
        if refused {
            let q = found.unwrap();
            let loc = dotted_path(section, name.as_str(), leaf);
            let mut msg = owned("attempt to change locked '");
            msg.append(leaf);
            msg.append("' on '");
            msg.append(name.as_str());
            msg.append("'");
            let mut err = ValidationError::new(ErrorType::LockedOverride, loc, msg);
            err.source = copy_ostr(source);
            err.config_source = copy_ostr(&locked[q].source);
            confs.push(err);
            assert(lk[q as int] == lock_view(locked@[q as int]));
            assert(findings(confs@) =~= before_c.push(
                lock_conflict(section@, name@, lsj[j as int].0, src, lk[q as int].4),
            ));
        } else {
            let item = copy_value(&arr[p]);
            let updated = set_leaf(item, leaf, copy_value(&ls[j].1));
            arr.set(p, updated);
            assert(jvs(arr@) =~= before_a.update(
                p as int,
                set_leaf_at(before_a[p as int], lsj[j as int].0, lsj[j as int].1),
            ));
            if mode == CascadeMode::Lock {
                locks.push(
                    LockedLeaf {
                        section: owned(section),
                        name: name.clone(),
                        leaf: owned(leaf),
                        value: copy_value(&ls[j].1),
                        source: copy_ostr(source),
                    },
                );
                assert(lock_views(locks@) =~= before_l.push(
                    (section@, name@, lsj[j as int].0, lsj[j as int].1, src),
                ));
            }
        }
        }
    }
}


fn is_keyed_name(k: &str) -> (r: bool)
    ensures
        r == is_keyed_section(k@),
{
    str_eq(k, "entity_types") || str_eq(k, "link_types") || str_eq(k, "attribute_classes")
        || str_eq(k, "datetime_formats") || str_eq(k, "semantic_entities") || str_eq(
        k,
        "semantic_links",
    ) || str_eq(k, "semantic_properties")
}

fn is_list_name(k: &str) -> (r: bool)
    ensures
        r == is_list_section(k@),
{
    str_eq(k, "legend_items") || str_eq(k, "palettes") || str_eq(k, "validators") || str_eq(
        k,
        "source_types",
    )
}

/// The mode a layer's own `cascade` block selects.
fn cascade_mode_of(layer: &ConfigValue) -> (r: CascadeMode)
    ensures
        r == embedded_mode(jv(*layer)),
{
    let m = match layer {
        ConfigValue::Object(m) => m,
        _ => {
            return CascadeMode::Merge;
        },
    };
    proof {
        lemma_jv_object(*m);
        lemma_key_from_bounds(ents(m@), "cascade"@, 0);
    }
    let c = match find_key(m, "cascade") {
        Some(j) => match &m[j].1 {
            ConfigValue::Object(c) => c,
            _ => {
                return CascadeMode::Merge;
            },
        },
        None => {
            return CascadeMode::Merge;
        },
    };
    proof {
        lemma_jv_object(*c);
        lemma_key_from_bounds(ents(c@), "mode"@, 0);
    }
    match find_key(c, "mode") {
        Some(j) => match &c[j].1 {
            ConfigValue::Str(s) => if str_eq(s.as_str(), "wipe") {
                CascadeMode::Wipe
            } else if str_eq(s.as_str(), "delete") {
                CascadeMode::Delete
            } else if str_eq(s.as_str(), "lock") {
                CascadeMode::Lock
            } else {
                CascadeMode::Merge
            },
            _ => CascadeMode::Merge,
        },
        None => CascadeMode::Merge,
    }
}

impl ConfigStack {
    /// An empty stack.
    pub fn new() -> (r: Self)
        ensures
            r@ == empty_stack(),
    {
        let r = ConfigStack { merged: Vec::new(), locked: Vec::new(), conflicts: Vec::new() };
        assert(r@.merged =~= Seq::<(Seq<char>, Json)>::empty());
        assert(r@.locked =~= Seq::<LockView>::empty());
        assert(r@.conflicts =~= Seq::<Finding>::empty());
        r
    }

    fn apply_keyed(&mut self, section: &str, val: &ConfigValue, mode: CascadeMode, source: &Option<String>)
        ensures
            final(self)@ == keyed_step(old(self)@, section@, jv(*val), mode, ostr(*source)),
    {
        let inc = match val {
            ConfigValue::List(x) => x,
            _ => {
                return;
            },
        };
        proof {
            lemma_jv_list(*inc);
        }
        let ghost st = self@;
        let ghost src = ostr(*source);
        let ghost incj = jvs(inc@);
        if mode == CascadeMode::Wipe {
            let e: Vec<ConfigValue> = Vec::new();
            proof {
                lemma_jv_list(e);
            }
            assert(jv(ConfigValue::List(e))->List_0 =~= Seq::<Json>::empty());
            put_entry(&mut self.merged, owned(section), ConfigValue::List(e));
        }
        let ghost m0 = ents(self.merged@);
        let mut arr = list_at(&self.merged, section);
        let ghost arr0 = jvs(arr@);
        let mut confs: Vec<ValidationError> = Vec::new();
        let mut locks: Vec<LockedLeaf> = Vec::new();
        assert(findings(confs@) =~= Seq::<Finding>::empty());
        assert(lock_views(locks@) =~= Seq::<LockView>::empty());
        let n = inc.len();
        for i in 0..n
            invariant
                n == inc@.len(),
                incj == jvs(inc@),
                src == ostr(*source),
                lock_views(self.locked@) == st.locked,
                ({
                    let (a, c, l) = entries_fold(arr0, incj, i as int, section@, mode, src, st.locked);
                    jvs(arr@) == a && findings(confs@) == c && lock_views(locks@) == l
                }),
        {
            let ghost (pa, pc, pl) = entries_fold(arr0, incj, i as int, section@, mode, src, st.locked);
            land_entry(&mut arr, &mut confs, &mut locks, &inc[i], section, mode, source, &self.locked);
            let ghost (a2, c2, l2) = entry_step(pa, incj[i as int], section@, mode, src, st.locked);
            assert(findings(confs@) == pc + c2);
            assert(lock_views(locks@) == pl + l2);
        }
        let ghost (fa, fc, fl) = entries_fold(arr0, incj, n as int, section@, mode, src, st.locked);
        assert(incj.len() == n);
        proof {
            lemma_jv_list(arr);
        }
        put_entry(&mut self.merged, owned(section), ConfigValue::List(arr));
        let ghost c_before = self.conflicts@;
        self.conflicts.append(&mut confs);
        assert(findings(self.conflicts@) =~= findings(c_before) + fc);
        let ghost goal = add_locks(st.locked, fl);
        assert(findings(self.conflicts@) == st.conflicts + fc);
        assert(ents(self.merged@) == put(m0, section@, Json::List(fa)));
        while locks.len() > 0
            invariant
                add_locks(lock_views(self.locked@), lock_views(locks@)) == goal,
                findings(self.conflicts@) == st.conflicts + fc,
                ents(self.merged@) == put(m0, section@, Json::List(fa)),
            decreases locks@.len(),
        {
            let ghost rest = lock_views(locks@);
            let l = locks.remove(0);
            assert(lock_views(locks@) =~= rest.drop_first());
            let ghost cur = lock_views(self.locked@);
            match find_lock(&self.locked, l.section.as_str(), l.name.as_str(), l.leaf.as_str()) {
                Some(j) => {
                    self.locked.set(j, l);
                    assert(lock_views(self.locked@) =~= cur.update(j as int, rest[0]));
                },
                None => {
                    self.locked.push(l);
                    assert(lock_views(self.locked@) =~= cur.push(rest[0]));
                },
            }
        }
        assert(lock_views(locks@) =~= Seq::<LockView>::empty());
        assert(add_locks(lock_views(self.locked@), Seq::<LockView>::empty()) == lock_views(self.locked@));
        assert(self@.locked == add_locks(st.locked, fl));
        assert(self@.conflicts == st.conflicts + fc);
        assert(self@.merged == put(m0, section@, Json::List(fa)));
    }

    fn apply_list(&mut self, section: &str, val: &ConfigValue, mode: CascadeMode)
        ensures
            final(self)@ == (StackView { merged: list_step(old(self)@.merged, section@, jv(*val), mode), ..old(self)@ }),
    {
        let inc = match val {
            ConfigValue::List(x) => x,
            _ => {
                return;
            },
        };
        proof {
            lemma_jv_list(*inc);
        }
        let ghost incj = jvs(inc@);
        if mode == CascadeMode::Wipe || mode == CascadeMode::Delete {
            let e: Vec<ConfigValue> = Vec::new();
            proof {
                lemma_jv_list(e);
            }
            assert(jv(ConfigValue::List(e))->List_0 =~= Seq::<Json>::empty());
            put_entry(&mut self.merged, owned(section), ConfigValue::List(e));
            if mode == CascadeMode::Delete {
                return;
            }
        }
        let dedup = str_eq(section, "source_types");
        let mut arr = list_at(&self.merged, section);
        let ghost arr0 = jvs(arr@);
        let n = inc.len();
        for i in 0..n
            invariant
                n == inc@.len(),
                incj == jvs(inc@),
                dedup == (section@ == "source_types"@),
                jvs(arr@) == list_fold(arr0, incj, i as int, dedup),
        {
            let ghost before = jvs(arr@);
            let mut seen = false;
            if dedup {
                for j in 0..arr.len()
                    invariant
                        before == jvs(arr@),
                        n == inc@.len(),
                        i < n,
                        seen == exists|k: int| 0 <= k < j && before[k] == jv(inc@[i as int]),
                {
                    assert(before[j as int] == jv(arr@[j as int]));
                    if same_value(&arr[j], &inc[i]) {
                        seen = true;
                    }
                }
                assert(seen == before.contains(incj[i as int]));
            }
            if !seen {
                arr.push(copy_value(&inc[i]));
                assert(jvs(arr@) =~= before.push(incj[i as int]));
            }
        }
        proof {
            lemma_jv_list(arr);
        }
        put_entry(&mut self.merged, owned(section), ConfigValue::List(arr));
    }

    fn apply_section(&mut self, key: &str, val: &ConfigValue, mode: CascadeMode, source: &Option<String>)
        ensures
            final(self)@ == section_step(old(self)@, key@, jv(*val), mode, ostr(*source)),
    {
        if str_eq(key, "settings") || !(is_keyed_name(key) || is_list_name(key) || mode
            == CascadeMode::Delete) {
            let ghost m = ents(self.merged@);
            let base = match find_key(&self.merged, key) {
                Some(j) => {
                    proof {
                        lemma_key_from_bounds(m, key@, 0);
                    }
                    copy_value(&self.merged[j].1)
                },
                None => if str_eq(key, "settings") {
                    let e: Vec<(String, ConfigValue)> = Vec::new();
                    proof {
                        lemma_jv_object(e);
                    }
                    assert(ents(e@) =~= Seq::<(Seq<char>, Json)>::empty());
                    ConfigValue::Object(e)
                } else {
                    ConfigValue::Null
                },
            };
            let merged = deep_merge(base, val);
            put_entry(&mut self.merged, owned(key), merged);
        } else if is_keyed_name(key) {
            self.apply_keyed(key, val, mode, source);
        } else if is_list_name(key) {
            self.apply_list(key, val, mode);
        } else {
            remove_entry(&mut self.merged, key);
        }
    }

    /// Apply one config layer: `mode`, when given, overrides the layer's own
    /// `cascade.mode` (merge by default); `source` tags the conflicts this
    /// layer records and the leaves it locks. The layer's `cascade` block is
    /// always dropped.
    pub fn apply_with(&mut self, layer: ConfigValue, mode: Option<CascadeMode>, source: Option<String>)
        ensures
            final(self)@ == stack_step(old(self)@, jv(layer), mode, ostr(source)),
    {
        let embedded = cascade_mode_of(&layer);
        let op = match mode {
            Some(m) => m,
            None => embedded,
        };
        let mut m = match layer {
            ConfigValue::Object(m) => m,
            _ => {
                return;
            },
        };
        proof {
            lemma_jv_object(m);
        }
        remove_entry(&mut m, "cascade");
        let ghost body = ents(m@);
        let ghost st = self@;
        let n = m.len();
        for i in 0..n
            invariant
                n == m@.len(),
                body == ents(m@),
                self@ == sections_fold(st, body, i as int, op, ostr(source)),
        {
            assert(body[i as int] == (m@[i as int].0@, jv(m@[i as int].1)));
            self.apply_section(m[i].0.as_str(), &m[i].1, op, &source);
        }
    }

    /// Apply one config layer with its own `cascade` mode and no source tag.
    pub fn apply(&mut self, layer: ConfigValue)
        ensures
            final(self)@ == stack_step(old(self)@, jv(layer), None, None),
    {
        self.apply_with(layer, None, None);
    }

    /// The merged document and the conflicts recorded while layering.
    pub fn finish(self) -> (r: (ConfigValue, Vec<ValidationError>))
        ensures
            jv(r.0) == Json::Object(self@.merged),
            findings(r.1@) == self@.conflicts,
    {
        proof {
            lemma_jv_object(self.merged);
        }
        (ConfigValue::Object(self.merged), self.conflicts)
    }
}

/// Layer several config documents in order, each with its own `cascade`
/// mode, and give the merged document and the conflicts recorded.
pub fn merge_configs(layers: Vec<ConfigValue>) -> (r: (ConfigValue, Vec<ValidationError>))
    ensures
        jv(r.0) == Json::Object(stacked(jvs(layers@), layers@.len() as int).merged),
        findings(r.1@) == stacked(jvs(layers@), layers@.len() as int).conflicts,
{
    let ghost lj = jvs(layers@);
    let n0 = layers.len();
    let ghost n = n0 as nat;
    let mut stack = ConfigStack::new();
    let mut layers = layers;
    let mut i: usize = 0;
    while layers.len() > 0
        invariant
            lj.len() == n,
            n <= usize::MAX,
            i + layers@.len() == n,
            forall|k: int| 0 <= k < layers@.len() ==> jv(#[trigger] layers@[k]) == lj[i + k],
            stack@ == stacked(lj, i as int),
        decreases layers@.len(),
    {
        assert(jv(layers@[0]) == lj[i + 0]);
        let l = layers.remove(0);
        assert(jv(l) == lj[i as int]);
        stack.apply(l);
        i = i + 1;
    }
    stack.finish()
}


proof fn lemma_list_fold_plain(inc: Seq<Json>, i: int)
    requires
        0 <= i <= inc.len(),
    ensures
        list_fold(Seq::empty(), inc, i, false) == inc.take(i),
    decreases i,
{
    if i > 0 {
        lemma_list_fold_plain(inc, i - 1);
        assert(inc.take(i) =~= inc.take(i - 1).push(inc[i - 1]));
    }
}

/// A wipe layer leaves a list-only section holding exactly the layer's own
/// items (`source_types` aside, which also drops repeats).
pub proof fn wipe_replaces_list_section(m: Entries, k: Seq<char>, inc: Seq<Json>)
    requires
        k != "source_types"@,
    ensures
        list_of(list_step(m, k, Json::List(inc), CascadeMode::Wipe), k) == inc,
{
    let m0 = put(m, k, Json::List(Seq::empty()));
    put_then_value(m, k, Json::List(Seq::empty()));
    assert(list_of(m0, k) =~= Seq::<Json>::empty());
    lemma_list_fold_plain(inc, inc.len() as int);
    assert(inc.take(inc.len() as int) =~= inc);
    put_then_value(m0, k, Json::List(list_fold(list_of(m0, k), inc, inc.len() as int, false)));
}

/// A delete layer leaves a list-only section empty.
pub proof fn delete_empties_list_section(m: Entries, k: Seq<char>, inc: Seq<Json>)
    ensures
        list_of(list_step(m, k, Json::List(inc), CascadeMode::Delete), k) == Seq::<Json>::empty(),
{
    put_then_value(m, k, Json::List(Seq::empty()));
}


/// A later entry that tries to change a locked leaf is refused: the items
/// stay as they were, one conflict records the attempt with the layer's
/// source and the locking layer's source, and nothing new is locked.
pub proof fn locked_leaf_refuses_change(
    a: Seq<Json>,
    section: Seq<char>,
    name: Seq<char>,
    leaf: Seq<char>,
    v: Json,
    mode: CascadeMode,
    src: Option<Seq<char>>,
    locked: Seq<LockView>,
    q: int,
)
    requires
        mode != CascadeMode::Delete,
        name_from(a, name, 0) is Some,
        leaf != "name"@,
        !(v is Object),
        lock_from(locked, section, name, leaf, 0) == Some(q),
        locked[q].3 != v,
    ensures
        entry_step(
            a,
            Json::Object(seq![("name"@, Json::Str(name)), (leaf, v)]),
            section,
            mode,
            src,
            locked,
        ) == (a, seq![lock_conflict(section, name, leaf, src, locked[q].4)], Seq::<LockView>::empty()),
{
    let m = seq![("name"@, Json::Str(name)), (leaf, v)];
    let e = Json::Object(m);
    assert(key_from(m, "name"@, 0) == Some(0int));
    assert(name_of(e) == Some(name));
    let empty = Seq::<char>::empty();
    assert(joined(empty, "name"@) == "name"@);
    assert(joined(empty, leaf) == leaf);
    assert(leaves_from(e, empty, 2) =~= Seq::<(Seq<char>, Json)>::empty());
    assert(leaves(v, leaf) == seq![(leaf, v)]);
    assert(leaves(Json::Str(name), "name"@) == seq![("name"@, Json::Str(name))]);
    assert(leaves_from(e, empty, 1) =~= seq![(leaf, v)]);
    assert(leaves_from(e, empty, 0) =~= seq![("name"@, Json::Str(name)), (leaf, v)]);
    let ls = leaves(e, empty);
    assert(ls =~= seq![("name"@, Json::Str(name)), (leaf, v)]);
    let p = name_from(a, name, 0)->0;
    assert(leaf_fold(a, p, ls, 0, section, name, mode, src, locked) == (
        a,
        Seq::<Finding>::empty(),
        Seq::<LockView>::empty(),
    ));
    assert(ls[0].0 == "name"@);
    assert(leaf_fold(a, p, ls, 1, section, name, mode, src, locked) == (
        a,
        Seq::<Finding>::empty(),
        Seq::<LockView>::empty(),
    ));
    let r = leaf_fold(a, p, ls, 2, section, name, mode, src, locked);
    assert(r.1 =~= seq![lock_conflict(section, name, leaf, src, locked[q].4)]);
}


/// The word a layer's `cascade: { mode }` block uses for a mode.
pub open spec fn mode_word(m: CascadeMode) -> Seq<char> {
    match m {
        CascadeMode::Merge => "merge"@,
        CascadeMode::Wipe => "wipe"@,
        CascadeMode::Delete => "delete"@,
        CascadeMode::Lock => "lock"@,
    }
}

/// A layer object with its top-level `cascade` block set to `{mode: word}`.
pub open spec fn with_cascade(m: Entries, mode: CascadeMode) -> Entries {
    put(m, "cascade"@, Json::Object(seq![("mode"@, Json::Str(mode_word(mode)))]))
}

/// Passing a mode explicitly is the same as writing that mode into the
/// layer's own `cascade` block: both land the layer identically, and the
/// `cascade` block itself never reaches the merged document.
pub proof fn explicit_mode_equals_embedded(
    st: StackView,
    m: Entries,
    mode: CascadeMode,
    src: Option<Seq<char>>,
)
    ensures
        stack_step(st, Json::Object(m), Some(mode), src) == stack_step(
            st,
            Json::Object(with_cascade(m, mode)),
            None,
            src,
        ),
{
    let c = seq![("mode"@, Json::Str(mode_word(mode)))];
    put_then_value(m, "cascade"@, Json::Object(c));
    put_then_without(m, "cascade"@, Json::Object(c));
    assert(key_from(c, "mode"@, 0) == Some(0int));
    reveal_strlit("merge");
    reveal_strlit("wipe");
    reveal_strlit("delete");
    reveal_strlit("lock");
    assert(value_at(c, "mode"@) == Some(Json::Str(mode_word(mode))));
    assert("merge"@.len() == 5 && "wipe"@.len() == 4 && "delete"@.len() == 6 && "lock"@.len() == 4);
    assert("wipe"@[0] == 'w' && "lock"@[0] == 'l');
    match mode {
        CascadeMode::Lock => {
            assert(mode_word(mode) != "wipe"@ && mode_word(mode) != "delete"@);
        },
        CascadeMode::Merge => {
            assert(mode_word(mode) != "wipe"@ && mode_word(mode) != "delete"@ && mode_word(mode)
                != "lock"@);
        },
        _ => {},
    }
    assert(embedded_mode(Json::Object(with_cascade(m, mode))) == mode);
}

} // verus!
