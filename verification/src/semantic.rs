//! Semantic type resolution and the library catalogue.
//!
//! Custom semantic types (entities, links, properties) get deterministic
//! GUIDs (`entity:Name`, `link:Name`, `property:Name` keys). References on
//! entities, types and attribute classes resolve a name to its GUID; the
//! catalogue lists the referenced and defined types together with their
//! ancestors, each ancestor chain root first.
use vstd::prelude::*;
use indexmap::{IndexMap, IndexSet};

use crate::input::Config;
use crate::interop::{
    generate_guid, guid_of, GRID_REFERENCE_GUID, LATITUDE_GUID, LONGITUDE_GUID, ROOT_ABSTRACT_DT,
    ROOT_ABSTRACT_FLAG, ROOT_ABSTRACT_NUM, ROOT_ABSTRACT_TEXT, ROOT_ENTITY, ROOT_LINK,
};
use crate::maps::{
    lemma_lookup_upsert, lookup, mapping_count, mapping_entries, mapping_get, mapping_insert,
    mapping_new, mapping_at, set_add, set_add_all, string_set_at, string_set_entries,
    string_set_insert, string_set_len, string_set_new, upsert, upsert_all,
};
use crate::models::{SemanticEntity, SemanticLink, SemanticProperty};
use crate::report::cat2;
use crate::datetime::opt_view;
use crate::text::{has_prefix, is_empty_str, starts_with, str_eq};

verus! {

/// A resolved custom semantic type ready for catalogue emission.
#[derive(Debug)]
pub struct CatType {
    pub guid: String,
    pub parent_guid: Option<String>,
    pub abstract_: bool,
    pub name: String,
    pub synonyms: Vec<String>,
    pub description: Option<String>,
}

/// A custom semantic type as the resolver records it.
#[derive(Debug)]
pub struct Custom {
    pub guid: String,
    pub parent_guid: Option<String>,
    pub abstract_: bool,
    pub name: String,
    pub synonyms: Vec<String>,
    pub description: Option<String>,
}

/// A semantic type as plain values: GUID, parent GUID, abstract flag, name,
/// synonyms and description.
pub struct SemType {
    pub guid: Seq<char>,
    pub parent: Option<Seq<char>>,
    pub abstract_: bool,
    pub name: Seq<char>,
    pub synonyms: Seq<Seq<char>>,
    pub description: Option<Seq<char>>,
}

/// Strings as sequences.
pub open spec fn strs(v: Seq<String>) -> Seq<Seq<char>> {
    v.map_values(|s: String| s@)
}

/// An optional string as an optional sequence.
pub open spec fn ostr(o: Option<String>) -> Option<Seq<char>> {
    match o {
        Some(s) => Some(s@),
        None => None,
    }
}

pub open spec fn custom_view(c: Custom) -> SemType {
    SemType {
        guid: c.guid@,
        parent: ostr(c.parent_guid),
        abstract_: c.abstract_,
        name: c.name@,
        synonyms: strs(c.synonyms@),
        description: ostr(c.description),
    }
}

pub open spec fn cat_view(c: CatType) -> SemType {
    SemType {
        guid: c.guid@,
        parent: ostr(c.parent_guid),
        abstract_: c.abstract_,
        name: c.name@,
        synonyms: strs(c.synonyms@),
        description: ostr(c.description),
    }
}

// ── The custom-type tables ──────────────────────────────────────────────────

/// The entries of a name-to-custom-type table, in insertion order.
pub uninterp spec fn custom_entries(m: IndexMap<String, Custom>) -> Seq<(Seq<char>, Custom)>;

/// A custom-type table's entries as plain values.
pub open spec fn custom_table(e: Seq<(Seq<char>, Custom)>) -> Seq<(Seq<char>, SemType)> {
    e.map_values(|p: (Seq<char>, Custom)| (p.0, custom_view(p.1)))
}

/// Calls `IndexMap::new`: an empty custom-type table.
#[verifier::external_body]
fn custom_map_new() -> (m: IndexMap<String, Custom>)
    ensures
        custom_entries(m) == Seq::<(Seq<char>, Custom)>::empty(),
{
    IndexMap::new()
}

/// Calls `IndexMap::insert` on a custom-type table: an existing name keeps its
/// place and takes the new record, a new name goes last.
#[verifier::external_body]
fn custom_map_insert(m: &mut IndexMap<String, Custom>, key: String, c: Custom)
    ensures
        custom_entries(*final(m)) == upsert(custom_entries(*old(m)), key@, c),
{
    m.insert(key, c);
}

/// Calls `IndexMap::get` on a custom-type table.
#[verifier::external_body]
fn custom_map_get<'a>(m: &'a IndexMap<String, Custom>, key: &str) -> (r: Option<&'a Custom>)
    ensures
        r matches Some(c) ==> lookup(custom_entries(*m), key@) == Some(*c),
        r is None ==> lookup(custom_entries(*m), key@) is None,
{
    m.get(key)
}

/// Calls `IndexMap::len` on a custom-type table.
#[verifier::external_body]
fn custom_map_len(m: &IndexMap<String, Custom>) -> (n: usize)
    ensures
        n == custom_entries(*m).len(),
{
    m.len()
}

/// Calls `IndexMap::get_index` on a custom-type table: the name at position `i`.
#[verifier::external_body]
fn custom_map_key_at(m: &IndexMap<String, Custom>, i: usize) -> (k: &String)
    requires
        i < custom_entries(*m).len(),
    ensures
        k@ == custom_entries(*m)[i as int].0,
{
    m.get_index(i).unwrap().0
}

proof fn lemma_table_upsert(e: Seq<(Seq<char>, Custom)>, k: Seq<char>, c: Custom)
    ensures
        custom_table(upsert(e, k, c)) == upsert(custom_table(e), k, custom_view(c)),
    decreases e.len(),
{
    if e.len() == 0 {
        assert(custom_table(seq![(k, c)]) =~= seq![(k, custom_view(c))]);
    } else if e[0].0 == k {
        assert(custom_table(e.update(0, (k, c))) =~= custom_table(e).update(0, (k, custom_view(c))));
    } else {
        lemma_table_upsert(e.drop_first(), k, c);
        assert(custom_table(e).drop_first() =~= custom_table(e.drop_first()));
        assert(custom_table(seq![e[0]] + upsert(e.drop_first(), k, c)) =~= seq![custom_table(e)[0]]
            + custom_table(upsert(e.drop_first(), k, c)));
    }
}

proof fn lemma_lookup_table(e: Seq<(Seq<char>, Custom)>, k: Seq<char>)
    ensures
        lookup(custom_table(e), k) == match lookup(e, k) {
            Some(c) => Some(custom_view(c)),
            None => None,
        },
    decreases e.len(),
{
    if e.len() > 0 {
        assert(custom_table(e).drop_first() =~= custom_table(e.drop_first()));
        lemma_lookup_table(e.drop_first(), k);
    }
}

// ── Definitions in the configuration ────────────────────────────────────────

/// A semantic type definition of the configuration: an entity, link or
/// property type with its name, optional fixed GUID, parent reference,
/// abstract flag, synonyms and description.
pub trait SemanticDef {
    spec fn def_name(&self) -> Seq<char>;

    spec fn def_guid(&self) -> Option<Seq<char>>;

    /// The parent reference: a parent's name, a `guid…` literal, or empty.
    spec fn def_parent(&self) -> Seq<char>;

    spec fn def_abstract(&self) -> bool;

    /// The synonyms (none given reads as none).
    spec fn def_synonyms(&self) -> Seq<Seq<char>>;

    spec fn def_description(&self) -> Option<Seq<char>>;

    fn name_text(&self) -> (r: &str)
        ensures
            r@ == self.def_name(),
    ;

    fn fixed_guid(&self) -> (r: &Option<String>)
        ensures
            ostr(*r) == self.def_guid(),
    ;

    fn parent_text(&self) -> (r: &str)
        ensures
            r@ == self.def_parent(),
    ;

    fn is_abstract(&self) -> (r: bool)
        ensures
            r == self.def_abstract(),
    ;

    fn synonym_list(&self) -> (r: Vec<String>)
        ensures
            strs(r@) == self.def_synonyms(),
    ;

    fn description_text(&self) -> (r: Option<String>)
        ensures
            ostr(r) == self.def_description(),
    ;
}

fn copy_strings(v: &Vec<String>) -> (r: Vec<String>)
    ensures
        strs(r@) == strs(v@),
{
    let mut r: Vec<String> = Vec::new();
    for i in 0..v.len()
        invariant
            r@.len() == i,
            strs(r@) == strs(v@).take(i as int),
    {
        let c = v[i].clone();
        assert(c == v@[i as int]);
        r.push(c);
        assert(strs(r@) =~= strs(v@).take(i + 1));
    }
    assert(strs(v@).take(v@.len() as int) =~= strs(v@));
    r
}

fn copy_opt(o: &Option<String>) -> (r: Option<String>)
    ensures
        ostr(r) == ostr(*o),
{
    match o {
        Some(s) => Some(s.clone()),
        None => None,
    }
}

fn synonyms_or_none(o: &Option<Vec<String>>) -> (r: Vec<String>)
    ensures
        strs(r@) == match o {
            Some(v) => strs(v@),
            None => seq![],
        },
{
    match o {
        Some(v) => copy_strings(v),
        None => {
            let r: Vec<String> = Vec::new();
            assert(strs(r@) =~= seq![]);
            r
        },
    }
}

impl SemanticDef for SemanticEntity {
    open spec fn def_name(&self) -> Seq<char> {
        self.name@
    }

    open spec fn def_guid(&self) -> Option<Seq<char>> {
        ostr(self.guid)
    }

    open spec fn def_parent(&self) -> Seq<char> {
        self.kind_of@
    }

    open spec fn def_abstract(&self) -> bool {
        self.abstract_
    }

    open spec fn def_synonyms(&self) -> Seq<Seq<char>> {
        match self.synonyms {
            Some(v) => strs(v@),
            None => seq![],
        }
    }

    open spec fn def_description(&self) -> Option<Seq<char>> {
        ostr(self.description)
    }

    fn name_text(&self) -> (r: &str) {
        self.name.as_str()
    }

    fn fixed_guid(&self) -> (r: &Option<String>) {
        &self.guid
    }

    fn parent_text(&self) -> (r: &str) {
        self.kind_of.as_str()
    }

    fn is_abstract(&self) -> (r: bool) {
        self.abstract_
    }

    fn synonym_list(&self) -> (r: Vec<String>) {
        synonyms_or_none(&self.synonyms)
    }

    fn description_text(&self) -> (r: Option<String>) {
        copy_opt(&self.description)
    }
}

impl SemanticDef for SemanticLink {
    open spec fn def_name(&self) -> Seq<char> {
        self.name@
    }

    open spec fn def_guid(&self) -> Option<Seq<char>> {
        ostr(self.guid)
    }

    open spec fn def_parent(&self) -> Seq<char> {
        self.kind_of@
    }

    open spec fn def_abstract(&self) -> bool {
        self.abstract_
    }

    open spec fn def_synonyms(&self) -> Seq<Seq<char>> {
        match self.synonyms {
            Some(v) => strs(v@),
            None => seq![],
        }
    }

    open spec fn def_description(&self) -> Option<Seq<char>> {
        ostr(self.description)
    }

    fn name_text(&self) -> (r: &str) {
        self.name.as_str()
    }

    fn fixed_guid(&self) -> (r: &Option<String>) {
        &self.guid
    }

    fn parent_text(&self) -> (r: &str) {
        self.kind_of.as_str()
    }

    fn is_abstract(&self) -> (r: bool) {
        self.abstract_
    }

    fn synonym_list(&self) -> (r: Vec<String>) {
        synonyms_or_none(&self.synonyms)
    }

    fn description_text(&self) -> (r: Option<String>) {
        copy_opt(&self.description)
    }
}

impl SemanticDef for SemanticProperty {
    open spec fn def_name(&self) -> Seq<char> {
        self.name@
    }

    open spec fn def_guid(&self) -> Option<Seq<char>> {
        ostr(self.guid)
    }

    open spec fn def_parent(&self) -> Seq<char> {
        self.base_property@
    }

    open spec fn def_abstract(&self) -> bool {
        self.abstract_
    }

    open spec fn def_synonyms(&self) -> Seq<Seq<char>> {
        match self.synonyms {
            Some(v) => strs(v@),
            None => seq![],
        }
    }

    open spec fn def_description(&self) -> Option<Seq<char>> {
        ostr(self.description)
    }

    fn name_text(&self) -> (r: &str) {
        self.name.as_str()
    }

    fn fixed_guid(&self) -> (r: &Option<String>) {
        &self.guid
    }

    fn parent_text(&self) -> (r: &str) {
        self.base_property.as_str()
    }

    fn is_abstract(&self) -> (r: bool) {
        self.abstract_
    }

    fn synonym_list(&self) -> (r: Vec<String>) {
        synonyms_or_none(&self.synonyms)
    }

    fn description_text(&self) -> (r: Option<String>) {
        copy_opt(&self.description)
    }
}

// ── The roots ───────────────────────────────────────────────────────────────

/// The abstract roots: name and GUID, entity and link first, then the four
/// property roots.
pub open spec fn roots() -> Seq<(Seq<char>, Seq<char>)> {
    seq![
        ("Entity"@, ROOT_ENTITY@),
        ("Link"@, ROOT_LINK@),
        ("Abstract Text"@, ROOT_ABSTRACT_TEXT@),
        ("Abstract Number"@, ROOT_ABSTRACT_NUM@),
        ("Abstract Date & Time"@, ROOT_ABSTRACT_DT@),
        ("Abstract Flag"@, ROOT_ABSTRACT_FLAG@),
    ]
}

/// The abstract semantic roots, as (name, GUID) pairs.
pub fn root_names() -> (v: Vec<(&'static str, &'static str)>)
    ensures
        v@.map_values(|p: (&'static str, &'static str)| (p.0@, p.1@)) == roots(),
{
    let v = vec![
        ("Entity", ROOT_ENTITY),
        ("Link", ROOT_LINK),
        ("Abstract Text", ROOT_ABSTRACT_TEXT),
        ("Abstract Number", ROOT_ABSTRACT_NUM),
        ("Abstract Date & Time", ROOT_ABSTRACT_DT),
        ("Abstract Flag", ROOT_ABSTRACT_FLAG),
    ];
    assert(v@.map_values(|p: (&'static str, &'static str)| (p.0@, p.1@)) =~= roots());
    v
}

/// The GUID of the root with this name, or empty text for a name that is no
/// root.
pub open spec fn root_guid(name: Seq<char>) -> Seq<char> {
    match lookup(roots(), name) {
        Some(g) => g,
        None => seq![],
    }
}

/// The roots keyed by GUID.
pub open spec fn root_guid_names() -> Seq<(Seq<char>, Seq<char>)> {
    upsert_all(seq![], roots().map_values(|p: (Seq<char>, Seq<char>)| (p.1, p.0)))
}

// ── What construction records ───────────────────────────────────────────────

/// The GUID a definition gets: its fixed GUID, else the one derived from
/// `prefix` and its name.
pub open spec fn def_guid_of<T: SemanticDef>(prefix: Seq<char>, d: T) -> Seq<char> {
    match d.def_guid() {
        Some(g) => g,
        None => guid_of(prefix + d.def_name()),
    }
}

/// Name-to-GUID entries: `init`, then each definition's name and GUID (a later
/// definition of a name takes over its GUID).
pub open spec fn name_guids<T: SemanticDef>(
    init: Seq<(Seq<char>, Seq<char>)>,
    prefix: Seq<char>,
    defs: Seq<T>,
) -> Seq<(Seq<char>, Seq<char>)> {
    upsert_all(init, defs.map_values(|d: T| (d.def_name(), def_guid_of(prefix, d))))
}

/// The parent GUID a reference names: none for an empty reference, a `guid…`
/// literal as it stands, else the GUID recorded for that name (if any).
pub open spec fn parent_guid_of(kind: Seq<char>, names: Seq<(Seq<char>, Seq<char>)>) -> Option<
    Seq<char>,
> {
    if kind.len() == 0 {
        None
    } else if starts_with(kind, "guid"@) {
        Some(kind)
    } else {
        lookup(names, kind)
    }
}

/// The record a definition resolves to.
pub open spec fn custom_of<T: SemanticDef>(d: T, names: Seq<(Seq<char>, Seq<char>)>) -> SemType {
    SemType {
        guid: lookup(names, d.def_name()).unwrap(),
        parent: parent_guid_of(d.def_parent(), names),
        abstract_: d.def_abstract(),
        name: d.def_name(),
        synonyms: d.def_synonyms(),
        description: d.def_description(),
    }
}

/// The table of a kind's definitions, keyed by name.
pub open spec fn customs_of<T: SemanticDef>(defs: Seq<T>, names: Seq<(Seq<char>, Seq<char>)>) -> Seq<
    (Seq<char>, SemType),
> {
    upsert_all(seq![], defs.map_values(|d: T| (d.def_name(), custom_of(d, names))))
}

/// GUID-to-name pairs of a kind's definitions, in definition order.
pub open spec fn guid_pairs<T: SemanticDef>(defs: Seq<T>, names: Seq<(Seq<char>, Seq<char>)>) -> Seq<
    (Seq<char>, Seq<char>),
> {
    defs.map_values(|d: T| (lookup(names, d.def_name()).unwrap(), d.def_name()))
}

/// The resolver's state as plain values.
pub struct ResolverState {
    pub entities: Seq<(Seq<char>, SemType)>,
    pub links: Seq<(Seq<char>, SemType)>,
    pub properties: Seq<(Seq<char>, SemType)>,
    pub guid_to_name: Seq<(Seq<char>, Seq<char>)>,
    pub ref_types: Seq<Seq<char>>,
    pub ref_props: Seq<Seq<char>>,
}

/// Entity names and GUIDs of a configuration.
pub open spec fn entity_names(c: Config) -> Seq<(Seq<char>, Seq<char>)> {
    name_guids(seq![("Entity"@, ROOT_ENTITY@)], "entity:"@, c.semantic_entities@)
}

/// Link names and GUIDs of a configuration.
pub open spec fn link_names(c: Config) -> Seq<(Seq<char>, Seq<char>)> {
    name_guids(seq![("Link"@, ROOT_LINK@)], "link:"@, c.semantic_links@)
}

/// Property names and GUIDs of a configuration.
pub open spec fn property_names(c: Config) -> Seq<(Seq<char>, Seq<char>)> {
    name_guids(upsert_all(seq![], roots().subrange(2, 6)), "property:"@, c.semantic_properties@)
}

/// The state a configuration's definitions give: the three tables, the GUID
/// map (roots, then entity, link and property GUIDs), nothing referenced.
pub open spec fn initial_state(c: Config) -> ResolverState {
    ResolverState {
        entities: customs_of(c.semantic_entities@, entity_names(c)),
        links: customs_of(c.semantic_links@, link_names(c)),
        properties: customs_of(c.semantic_properties@, property_names(c)),
        guid_to_name: upsert_all(
            upsert_all(
                upsert_all(root_guid_names(), guid_pairs(c.semantic_entities@, entity_names(c))),
                guid_pairs(c.semantic_links@, link_names(c)),
            ),
            guid_pairs(c.semantic_properties@, property_names(c)),
        ),
        ref_types: seq![],
        ref_props: seq![],
    }
}

/// Every key put in by an upsert run reads back some value.
proof fn lemma_upsert_all_has<V>(init: Seq<(Seq<char>, V)>, kvs: Seq<(Seq<char>, V)>, j: int)
    requires
        0 <= j < kvs.len(),
    ensures
        lookup(upsert_all(init, kvs), kvs[j].0) is Some,
    decreases kvs.len(),
{
    let prev = upsert_all(init, kvs.drop_last());
    lemma_lookup_upsert(prev, kvs.last().0, kvs.last().1, kvs[j].0);
    if j < kvs.len() - 1 {
        lemma_upsert_all_has(init, kvs.drop_last(), j);
    }
}

// ── The resolver ────────────────────────────────────────────────────────────

/// Resolves semantic-type names to GUIDs and builds the catalogue.
#[derive(Debug)]
pub struct SemanticResolver {
    entities: IndexMap<String, Custom>,
    links: IndexMap<String, Custom>,
    properties: IndexMap<String, Custom>,
    guid_to_name: IndexMap<String, String>,
    referenced_type_guids: IndexSet<String>,
    referenced_property_guids: IndexSet<String>,
}

/// The outcome of resolving an entity or link type name: the GUID (or the
/// name itself when it names no custom type), and the referenced set after it.
pub open spec fn type_resolution(st: ResolverState, name: Option<Seq<char>>) -> (
    Option<Seq<char>>,
    Seq<Seq<char>>,
) {
    match name {
        None => (None, st.ref_types),
        Some(n) => if n.len() == 0 {
            (None, st.ref_types)
        } else if starts_with(n, "guid"@) {
            (Some(n), set_add(st.ref_types, n))
        } else {
            match lookup(st.entities, n) {
                Some(c) => (Some(c.guid), set_add(st.ref_types, c.guid)),
                None => match lookup(st.links, n) {
                    Some(c) => (Some(c.guid), set_add(st.ref_types, c.guid)),
                    None => (Some(n), st.ref_types),
                },
            }
        },
    }
}

/// The outcome of resolving a property type name.
pub open spec fn property_resolution(st: ResolverState, name: Option<Seq<char>>) -> (
    Option<Seq<char>>,
    Seq<Seq<char>>,
) {
    match name {
        None => (None, st.ref_props),
        Some(n) => if n.len() == 0 {
            (None, st.ref_props)
        } else if starts_with(n, "guid"@) {
            (Some(n), set_add(st.ref_props, n))
        } else {
            match lookup(st.properties, n) {
                Some(c) => (Some(c.guid), set_add(st.ref_props, c.guid)),
                None => (Some(n), st.ref_props),
            }
        },
    }
}

/// The geo property records: Grid Reference under Abstract Number, Latitude
/// and Longitude under Grid Reference.
pub open spec fn geo_record(name: Seq<char>, guid: Seq<char>, parent: Seq<char>) -> SemType {
    SemType {
        guid,
        parent: Some(parent),
        abstract_: false,
        name,
        synonyms: seq![],
        description: None,
    }
}

/// The state after registering the geo property hierarchy.
pub open spec fn with_geo(st: ResolverState) -> ResolverState {
    ResolverState {
        properties: upsert(
            upsert(
                upsert(
                    st.properties,
                    "Grid Reference"@,
                    geo_record("Grid Reference"@, GRID_REFERENCE_GUID@, ROOT_ABSTRACT_NUM@),
                ),
                "Latitude"@,
                geo_record("Latitude"@, LATITUDE_GUID@, GRID_REFERENCE_GUID@),
            ),
            "Longitude"@,
            geo_record("Longitude"@, LONGITUDE_GUID@, GRID_REFERENCE_GUID@),
        ),
        guid_to_name: upsert(
            upsert(
                upsert(st.guid_to_name, GRID_REFERENCE_GUID@, "Grid Reference"@),
                LATITUDE_GUID@,
                "Latitude"@,
            ),
            LONGITUDE_GUID@,
            "Longitude"@,
        ),
        ..st
    }
}

/// The parent GUID recorded for a name: among entity then link types, or
/// among property types.
pub open spec fn parent_of_name(st: ResolverState, name: Seq<char>, props: bool) -> Option<Seq<char>> {
    if props {
        match lookup(st.properties, name) {
            Some(c) => c.parent,
            None => None,
        }
    } else {
        match lookup(st.entities, name) {
            Some(c) => c.parent,
            None => match lookup(st.links, name) {
                Some(c) => c.parent,
                None => None,
            },
        }
    }
}

/// Walk from `cur` up through parents, collecting names in walk order and
/// stopping at a name with no known parent or at a name already collected;
/// at most `fuel` steps.
pub open spec fn walk(
    st: ResolverState,
    cur: Option<Seq<char>>,
    seen: Seq<Seq<char>>,
    fuel: nat,
    props: bool,
) -> Seq<Seq<char>>
    decreases fuel,
{
    if fuel == 0 {
        seen
    } else {
        match cur {
            None => seen,
            Some(name) => if seen.contains(name) {
                seen
            } else {
                let next = match parent_of_name(st, name, props) {
                    Some(pg) => lookup(st.guid_to_name, pg),
                    None => None,
                };
                walk(st, next, seen.push(name), (fuel - 1) as nat, props)
            },
        }
    }
}

/// The ancestor chain of a GUID, root first, ending with the GUID's own
/// name. Every step adds a name the GUID map holds and no name twice, so the
/// walk ends before it has taken as many steps as the map has entries.
pub open spec fn ancestors(st: ResolverState, guid: Seq<char>, props: bool) -> Seq<Seq<char>> {
    walk(st, lookup(st.guid_to_name, guid), seq![], st.guid_to_name.len(), props).reverse()
}

/// The GUID of the first entry of the GUID map whose name is `name`.
pub open spec fn guid_named(e: Seq<(Seq<char>, Seq<char>)>, name: Seq<char>) -> Option<Seq<char>>
    decreases e.len(),
{
    if e.len() == 0 {
        None
    } else if e[0].1 == name {
        Some(e[0].0)
    } else {
        guid_named(e.drop_first(), name)
    }
}

/// `acc` with the ancestor chain of each GUID added in turn.
pub open spec fn add_chains(st: ResolverState, acc: Seq<Seq<char>>, guids: Seq<Seq<char>>, props: bool) -> Seq<
    Seq<char>,
>
    decreases guids.len(),
{
    if guids.len() == 0 {
        acc
    } else {
        set_add_all(add_chains(st, acc, guids.drop_last(), props), ancestors(st, guids.last(), props))
    }
}

/// `acc` with the ancestor chain of each named type added in turn (a name the
/// GUID map does not hold adds nothing).
pub open spec fn add_named_chains(
    st: ResolverState,
    acc: Seq<Seq<char>>,
    names: Seq<Seq<char>>,
    props: bool,
) -> Seq<Seq<char>>
    decreases names.len(),
{
    if names.len() == 0 {
        acc
    } else {
        let prev = add_named_chains(st, acc, names.drop_last(), props);
        match guid_named(st.guid_to_name, names.last()) {
            Some(g) => set_add_all(prev, ancestors(st, g, props)),
            None => prev,
        }
    }
}

/// The keys of a table.
pub open spec fn table_keys(t: Seq<(Seq<char>, SemType)>) -> Seq<Seq<char>> {
    t.map_values(|p: (Seq<char>, SemType)| p.0)
}

/// The catalogue's type names: ancestors of the referenced types, then of
/// every defined entity and link type.
pub open spec fn catalogue_type_names(st: ResolverState) -> Seq<Seq<char>> {
    add_named_chains(
        st,
        add_chains(st, seq![], st.ref_types, false),
        table_keys(st.entities) + table_keys(st.links),
        false,
    )
}

/// The catalogue's property names: ancestors of the referenced properties,
/// then of every defined property type.
pub open spec fn catalogue_property_names(st: ResolverState) -> Seq<Seq<char>> {
    add_named_chains(st, add_chains(st, seq![], st.ref_props, true), table_keys(st.properties), true)
}

/// The catalogue record of a name: its custom record (entity, then link,
/// then property types), else the root of that name.
pub open spec fn cat_for_name(st: ResolverState, name: Seq<char>) -> SemType {
    match lookup(st.entities, name) {
        Some(c) => c,
        None => match lookup(st.links, name) {
            Some(c) => c,
            None => match lookup(st.properties, name) {
                Some(c) => c,
                None => SemType {
                    guid: root_guid(name),
                    parent: None,
                    abstract_: true,
                    name,
                    synonyms: seq![],
                    description: None,
                },
            },
        },
    }
}

/// The catalogue: none when nothing semantic is referenced or defined, or
/// when both name lists come out empty; else the records of both lists.
#[verifier::opaque]
pub open spec fn catalogue(st: ResolverState) -> Option<(Seq<SemType>, Seq<SemType>)> {
    let has_any = st.ref_types.len() > 0 || st.ref_props.len() > 0 || st.entities.len() > 0
        || st.links.len() > 0 || st.properties.len() > 0;
    let tn = catalogue_type_names(st);
    let pn = catalogue_property_names(st);
    if !has_any || (tn.len() == 0 && pn.len() == 0) {
        None
    } else {
        Some(
            (
                tn.map_values(|n: Seq<char>| cat_for_name(st, n)),
                pn.map_values(|n: Seq<char>| cat_for_name(st, n)),
            ),
        )
    }
}

/// Name-to-GUID entries for a kind's definitions, on top of `m`.
fn assign_guids<T: SemanticDef>(m: &mut IndexMap<String, String>, prefix: &str, defs: &Vec<T>)
    ensures
        mapping_entries(*final(m)) == name_guids(mapping_entries(*old(m)), prefix@, defs@),
{
    let ghost kvs = defs@.map_values(|d: T| (d.def_name(), def_guid_of(prefix@, d)));
    let ghost init = mapping_entries(*m);
    assert(kvs.take(0) =~= Seq::<(Seq<char>, Seq<char>)>::empty());
    for i in 0..defs.len()
        invariant
            kvs == defs@.map_values(|d: T| (d.def_name(), def_guid_of(prefix@, d))),
            mapping_entries(*m) == upsert_all(init, kvs.take(i as int)),
    {
        let d = &defs[i];
        let name = d.name_text();
        let g = match d.fixed_guid() {
            Some(g) => g.clone(),
            None => {
                let key = cat2(prefix, name);
                generate_guid(key.as_str())
            },
        };
        assert(kvs.take(i + 1).drop_last() =~= kvs.take(i as int));
        mapping_insert(m, name.to_owned(), g);
    }
    assert(kvs.take(defs@.len() as int) =~= kvs);
}

fn parent_guid(kind: &str, names: &IndexMap<String, String>) -> (r: Option<String>)
    ensures
        ostr(r) == parent_guid_of(kind@, mapping_entries(*names)),
{
    if is_empty_str(kind) {
        None
    } else if has_prefix(kind, "guid") {
        Some(kind.to_owned())
    } else {
        match mapping_get(names, kind) {
            Some(g) => Some(g.clone()),
            None => None,
        }
    }
}

/// Record each definition of a kind in `table` and its GUID in `g2n`.
fn record_customs<T: SemanticDef>(
    table: &mut IndexMap<String, Custom>,
    g2n: &mut IndexMap<String, String>,
    defs: &Vec<T>,
    names: &IndexMap<String, String>,
)
    requires
        forall|j: int|
            0 <= j < defs@.len() ==> lookup(mapping_entries(*names), #[trigger] defs@[j].def_name())
                is Some,
    ensures
        custom_table(custom_entries(*final(table))) == upsert_all(
            custom_table(custom_entries(*old(table))),
            defs@.map_values(|d: T| (d.def_name(), custom_of(d, mapping_entries(*names)))),
        ),
        mapping_entries(*final(g2n)) == upsert_all(
            mapping_entries(*old(g2n)),
            guid_pairs(defs@, mapping_entries(*names)),
        ),
{
    let ghost ne = mapping_entries(*names);
    let ghost kvs = defs@.map_values(|d: T| (d.def_name(), custom_of(d, ne)));
    let ghost gp = guid_pairs(defs@, ne);
    let ghost t0 = custom_table(custom_entries(*table));
    let ghost g0 = mapping_entries(*g2n);
    assert(kvs.take(0) =~= Seq::<(Seq<char>, SemType)>::empty());
    assert(gp.take(0) =~= Seq::<(Seq<char>, Seq<char>)>::empty());
    for i in 0..defs.len()
        invariant
            ne == mapping_entries(*names),
            kvs == defs@.map_values(|d: T| (d.def_name(), custom_of(d, ne))),
            gp == guid_pairs(defs@, ne),
            forall|j: int|
                0 <= j < defs@.len() ==> lookup(ne, #[trigger] defs@[j].def_name()) is Some,
            custom_table(custom_entries(*table)) == upsert_all(t0, kvs.take(i as int)),
            mapping_entries(*g2n) == upsert_all(g0, gp.take(i as int)),
    {
        let d = &defs[i];
        let name = d.name_text();
        assert(lookup(ne, defs@[i as int].def_name()) is Some);
        let guid = match mapping_get(names, name) {
            Some(g) => g.clone(),
            None => {
                proof {
                    assert(false);
                }
                String::new()
            },
        };
        let parent = parent_guid(d.parent_text(), names);
        let c = Custom {
            guid: guid.clone(),
            parent_guid: parent,
            abstract_: d.is_abstract(),
            name: name.to_owned(),
            synonyms: d.synonym_list(),
            description: d.description_text(),
        };
        assert(custom_view(c) == custom_of(defs@[i as int], ne));
        assert(kvs.take(i + 1).drop_last() =~= kvs.take(i as int));
        assert(gp.take(i + 1).drop_last() =~= gp.take(i as int));
        mapping_insert(g2n, guid, name.to_owned());
        proof {
            lemma_table_upsert(custom_entries(*table), name@, c);
        }
        custom_map_insert(table, name.to_owned(), c);
    }
    assert(kvs.take(defs@.len() as int) =~= kvs);
    assert(gp.take(defs@.len() as int) =~= gp);
}

impl SemanticResolver {
    /// The resolver's state as plain values.
    pub closed spec fn state(&self) -> ResolverState {
        ResolverState {
            entities: custom_table(custom_entries(self.entities)),
            links: custom_table(custom_entries(self.links)),
            properties: custom_table(custom_entries(self.properties)),
            guid_to_name: mapping_entries(self.guid_to_name),
            ref_types: string_set_entries(self.referenced_type_guids),
            ref_props: string_set_entries(self.referenced_property_guids),
        }
    }

    /// Build a resolver from the config's semantic type definitions.
    pub fn new(config: &Config) -> (r: Self)
        ensures
            r.state() == initial_state(*config),
    {
        let mut g2n = mapping_new();
        let rn = root_names();
        let ghost rp = rn@.map_values(|p: (&'static str, &'static str)| (p.1@, p.0@));
        assert(rp =~= roots().map_values(|p: (Seq<char>, Seq<char>)| (p.1, p.0)));
        assert(rp.take(0) =~= Seq::<(Seq<char>, Seq<char>)>::empty());
        for i in 0..rn.len()
            invariant
                rp == rn@.map_values(|p: (&'static str, &'static str)| (p.1@, p.0@)),
                mapping_entries(g2n) == upsert_all(seq![], rp.take(i as int)),
        {
            let (n, g) = rn[i];
            assert(rp.take(i + 1).drop_last() =~= rp.take(i as int));
            mapping_insert(&mut g2n, g.to_owned(), n.to_owned());
        }
        assert(rp.take(rn@.len() as int) =~= rp);

        let mut ent = mapping_new();
        mapping_insert(&mut ent, "Entity".to_owned(), ROOT_ENTITY.to_owned());
        assign_guids(&mut ent, "entity:", &config.semantic_entities);
        let mut lnk = mapping_new();
        mapping_insert(&mut lnk, "Link".to_owned(), ROOT_LINK.to_owned());
        assign_guids(&mut lnk, "link:", &config.semantic_links);
        let mut prop = mapping_new();
        assert(roots().subrange(2, 2) =~= Seq::<(Seq<char>, Seq<char>)>::empty());
        for i in 2..6usize
            invariant
                rn@.map_values(|p: (&'static str, &'static str)| (p.0@, p.1@)) == roots(),
                mapping_entries(prop) == upsert_all(seq![], roots().subrange(2, i as int)),
        {
            let (n, g) = rn[i];
            assert(roots().subrange(2, i + 1).drop_last() =~= roots().subrange(2, i as int));
            assert(roots()[i as int] == (n@, g@));
            mapping_insert(&mut prop, n.to_owned(), g.to_owned());
        }
        assign_guids(&mut prop, "property:", &config.semantic_properties);

        proof {
            reveal_strlit("entity:");
            reveal_strlit("link:");
            reveal_strlit("property:");
            reveal_strlit("Entity");
            reveal_strlit("Link");
            let ekvs = config.semantic_entities@.map_values(
                |d: SemanticEntity| (d.def_name(), def_guid_of("entity:"@, d)),
            );
            assert forall|j: int| 0 <= j < config.semantic_entities@.len() implies lookup(
                mapping_entries(ent),
                #[trigger] config.semantic_entities@[j].def_name(),
            ) is Some by {
                assert(ekvs[j].0 == config.semantic_entities@[j].def_name());
                lemma_upsert_all_has(seq![("Entity"@, ROOT_ENTITY@)], ekvs, j);
            }
            let lkvs = config.semantic_links@.map_values(
                |d: SemanticLink| (d.def_name(), def_guid_of("link:"@, d)),
            );
            assert forall|j: int| 0 <= j < config.semantic_links@.len() implies lookup(
                mapping_entries(lnk),
                #[trigger] config.semantic_links@[j].def_name(),
            ) is Some by {
                assert(lkvs[j].0 == config.semantic_links@[j].def_name());
                lemma_upsert_all_has(seq![("Link"@, ROOT_LINK@)], lkvs, j);
            }
            let pkvs = config.semantic_properties@.map_values(
                |d: SemanticProperty| (d.def_name(), def_guid_of("property:"@, d)),
            );
            assert forall|j: int| 0 <= j < config.semantic_properties@.len() implies lookup(
                mapping_entries(prop),
                #[trigger] config.semantic_properties@[j].def_name(),
            ) is Some by {
                assert(pkvs[j].0 == config.semantic_properties@[j].def_name());
                lemma_upsert_all_has(upsert_all(seq![], roots().subrange(2, 6)), pkvs, j);
            }
        }

        let mut entities = custom_map_new();
        let mut links = custom_map_new();
        let mut properties = custom_map_new();
        assert(custom_table(Seq::<(Seq<char>, Custom)>::empty()) =~= seq![]);
        record_customs(&mut entities, &mut g2n, &config.semantic_entities, &ent);
        record_customs(&mut links, &mut g2n, &config.semantic_links, &lnk);
        record_customs(&mut properties, &mut g2n, &config.semantic_properties, &prop);
        SemanticResolver {
            entities,
            links,
            properties,
            guid_to_name: g2n,
            referenced_type_guids: string_set_new(),
            referenced_property_guids: string_set_new(),
        }
    }
}


/// `set` with each string of `xs` added in turn.
fn add_all(set: &mut IndexSet<String>, xs: Vec<String>)
    ensures
        string_set_entries(*final(set)) == set_add_all(string_set_entries(*old(set)), strs(xs@)),
{
    let ghost s0 = string_set_entries(*set);
    let ghost v = strs(xs@);
    assert(v.take(0) =~= Seq::<Seq<char>>::empty());
    for i in 0..xs.len()
        invariant
            v == strs(xs@),
            string_set_entries(*set) == set_add_all(s0, v.take(i as int)),
    {
        assert(v.take(i + 1).drop_last() =~= v.take(i as int));
        string_set_insert(set, xs[i].clone());
    }
    assert(v.take(xs@.len() as int) =~= v);
}

fn copy_custom(c: &Custom) -> (r: CatType)
    ensures
        cat_view(r) == custom_view(*c),
{
    CatType {
        guid: c.guid.clone(),
        parent_guid: copy_opt(&c.parent_guid),
        abstract_: c.abstract_,
        name: c.name.clone(),
        synonyms: copy_strings(&c.synonyms),
        description: copy_opt(&c.description),
    }
}

/// The GUID of the root named `name`, or empty text.
fn root_guid_text(name: &str) -> (r: String)
    ensures
        r@ == root_guid(name@),
{
    let rn = root_names();
    let mut i: usize = 0;
    assert(roots().skip(0) =~= roots());
    while i < rn.len()
        invariant
            rn@.map_values(|p: (&'static str, &'static str)| (p.0@, p.1@)) == roots(),
            i <= rn@.len(),
            lookup(roots(), name@) == lookup(roots().skip(i as int), name@),
        decreases rn@.len() - i,
    {
        let (n, g) = rn[i];
        assert(roots().skip(i as int)[0] == roots()[i as int]);
        assert(roots()[i as int] == (n@, g@));
        assert(roots().skip(i as int).drop_first() =~= roots().skip(i + 1));
        if str_eq(n, name) {
            return g.to_owned();
        }
        i = i + 1;
    }
    assert(roots().skip(i as int).len() == 0);
    let r = String::new();
    assert(r@ =~= seq![]);
    r
}

impl SemanticResolver {
    fn add_geo(&mut self, name: &str, guid: &str, parent: &str)
        ensures
            final(self).state() == (ResolverState {
                properties: upsert(old(self).state().properties, name@, geo_record(name@, guid@, parent@)),
                guid_to_name: upsert(old(self).state().guid_to_name, guid@, name@),
                ..old(self).state()
            }),
    {
        mapping_insert(&mut self.guid_to_name, guid.to_owned(), name.to_owned());
        let c = Custom {
            guid: guid.to_owned(),
            parent_guid: Some(parent.to_owned()),
            abstract_: false,
            name: name.to_owned(),
            synonyms: Vec::new(),
            description: None,
        };
        assert(custom_view(c) == geo_record(name@, guid@, parent@)) by {
            assert(strs(c.synonyms@) =~= seq![]);
        }
        proof {
            lemma_table_upsert(custom_entries(self.properties), name@, c);
        }
        custom_map_insert(&mut self.properties, name.to_owned(), c);
    }

    /// Register the i2 geo property hierarchy (Grid Reference, then Latitude
    /// and Longitude under it), so latitude and longitude attribute classes
    /// resolve to the standard GUIDs.
    pub fn register_geo_properties(&mut self)
        ensures
            final(self).state() == with_geo(old(self).state()),
    {
        self.add_geo("Grid Reference", GRID_REFERENCE_GUID, ROOT_ABSTRACT_NUM);
        self.add_geo("Latitude", LATITUDE_GUID, GRID_REFERENCE_GUID);
        self.add_geo("Longitude", LONGITUDE_GUID, GRID_REFERENCE_GUID);
    }

    /// Resolve an entity or link semantic-type name to its GUID, recording it
    /// as referenced. `guid…` literals pass through; unknown names come back
    /// unchanged (validation flags them).
    pub fn resolve_type_name(&mut self, name: Option<&str>) -> (r: Option<String>)
        ensures
            ostr(r) == type_resolution(old(self).state(), opt_view(name)).0,
            final(self).state() == (ResolverState {
                ref_types: type_resolution(old(self).state(), opt_view(name)).1,
                ..old(self).state()
            }),
    {
        let name = match name {
            Some(n) => n,
            None => return None,
        };
        if is_empty_str(name) {
            return None;
        }
        if has_prefix(name, "guid") {
            string_set_insert(&mut self.referenced_type_guids, name.to_owned());
            return Some(name.to_owned());
        }
        proof {
            lemma_lookup_table(custom_entries(self.entities), name@);
            lemma_lookup_table(custom_entries(self.links), name@);
        }
        let found = match custom_map_get(&self.entities, name) {
            Some(c) => Some(c.guid.clone()),
            None => match custom_map_get(&self.links, name) {
                Some(c) => Some(c.guid.clone()),
                None => None,
            },
        };
        match found {
            Some(g) => {
                string_set_insert(&mut self.referenced_type_guids, g.clone());
                Some(g)
            },
            None => Some(name.to_owned()),
        }
    }

    /// Resolve a property semantic-type name to its GUID, recording it as
    /// referenced.
    pub fn resolve_property_name(&mut self, name: Option<&str>) -> (r: Option<String>)
        ensures
            ostr(r) == property_resolution(old(self).state(), opt_view(name)).0,
            final(self).state() == (ResolverState {
                ref_props: property_resolution(old(self).state(), opt_view(name)).1,
                ..old(self).state()
            }),
    {
        let name = match name {
            Some(n) => n,
            None => return None,
        };
        if is_empty_str(name) {
            return None;
        }
        if has_prefix(name, "guid") {
            string_set_insert(&mut self.referenced_property_guids, name.to_owned());
            return Some(name.to_owned());
        }
        proof {
            lemma_lookup_table(custom_entries(self.properties), name@);
        }
        let found = match custom_map_get(&self.properties, name) {
            Some(c) => Some(c.guid.clone()),
            None => None,
        };
        match found {
            Some(g) => {
                string_set_insert(&mut self.referenced_property_guids, g.clone());
                Some(g)
            },
            None => Some(name.to_owned()),
        }
    }

    fn parent_of(&self, name: &str, props: bool) -> (r: Option<String>)
        ensures
            ostr(r) == parent_of_name(self.state(), name@, props),
    {
        proof {
            lemma_lookup_table(custom_entries(self.entities), name@);
            lemma_lookup_table(custom_entries(self.links), name@);
            lemma_lookup_table(custom_entries(self.properties), name@);
        }
        let found = if props {
            custom_map_get(&self.properties, name)
        } else {
            match custom_map_get(&self.entities, name) {
                Some(c) => Some(c),
                None => custom_map_get(&self.links, name),
            }
        };
        match found {
            Some(c) => copy_opt(&c.parent_guid),
            None => None,
        }
    }

    fn name_of_guid(&self, guid: &str) -> (r: Option<String>)
        ensures
            ostr(r) == lookup(self.state().guid_to_name, guid@),
    {
        match mapping_get(&self.guid_to_name, guid) {
            Some(n) => Some(n.clone()),
            None => None,
        }
    }

    fn walk_chain(&self, start_guid: &str, props: bool) -> (chain: Vec<String>)
        ensures
            strs(chain@) == ancestors(self.state(), start_guid@, props),
    {
        let ghost st = self.state();
        let ghost full = walk(st, lookup(st.guid_to_name, start_guid@), seq![], st.guid_to_name.len(), props);
        let mut seen = string_set_new();
        let mut walked: Vec<String> = Vec::new();
        let mut cur = self.name_of_guid(start_guid);
        let mut fuel: usize = mapping_count(&self.guid_to_name);
        assert(strs(walked@) =~= seq![]);
        loop
            invariant
                st == self.state(),
                string_set_entries(seen) == strs(walked@),
                walk(st, ostr(cur), strs(walked@), fuel as nat, props) == full,
            ensures
                strs(walked@) == full,
            decreases fuel,
        {
            if fuel == 0 {
                break;
            }
            let name = match cur {
                None => break,
                Some(n) => n,
            };
            let added = string_set_insert(&mut seen, name.clone());
            if !added {
                break;
            }
            let ghost before = strs(walked@);
            walked.push(name.clone());
            assert(strs(walked@) =~= before.push(name@));
            let parent = self.parent_of(name.as_str(), props);
            cur = match parent {
                Some(pg) => self.name_of_guid(pg.as_str()),
                None => None,
            };
            fuel = fuel - 1;
        }
        let ghost w = strs(walked@);
        let mut chain: Vec<String> = Vec::new();
        let mut k = walked.len();
        assert(w.subrange(k as int, w.len() as int).reverse() =~= seq![]);
        while k > 0
            invariant
                w == strs(walked@),
                k <= walked@.len(),
                strs(chain@) == w.subrange(k as int, w.len() as int).reverse(),
            decreases k,
        {
            let ghost before = strs(chain@);
            chain.push(walked[k - 1].clone());
            assert(strs(chain@) =~= before.push(w[k - 1]));
            assert(w.subrange(k - 1, w.len() as int).reverse() =~= w.subrange(k as int, w.len() as int).reverse().push(w[k - 1]));
            k = k - 1;
        }
        assert(w.subrange(0, w.len() as int) =~= w);
        chain
    }

    /// The ancestor chain of an entity or link type GUID, root first.
    fn ancestor_chain(&self, start_guid: &str) -> (chain: Vec<String>)
        ensures
            strs(chain@) == ancestors(self.state(), start_guid@, false),
    {
        self.walk_chain(start_guid, false)
    }

    /// The ancestor chain of a property type GUID, root first.
    fn ancestor_chain_prop(&self, start_guid: &str) -> (chain: Vec<String>)
        ensures
            strs(chain@) == ancestors(self.state(), start_guid@, true),
    {
        self.walk_chain(start_guid, true)
    }

    fn cat_for(&self, name: &str) -> (r: CatType)
        ensures
            cat_view(r) == cat_for_name(self.state(), name@),
    {
        proof {
            lemma_lookup_table(custom_entries(self.entities), name@);
            lemma_lookup_table(custom_entries(self.links), name@);
            lemma_lookup_table(custom_entries(self.properties), name@);
        }
        let found = match custom_map_get(&self.entities, name) {
            Some(c) => Some(c),
            None => match custom_map_get(&self.links, name) {
                Some(c) => Some(c),
                None => custom_map_get(&self.properties, name),
            },
        };
        if let Some(c) = found {
            return copy_custom(c);
        }
        let guid = root_guid_text(name);
        let r = CatType {
            guid,
            parent_guid: None,
            abstract_: true,
            name: name.to_owned(),
            synonyms: Vec::new(),
            description: None,
        };
        assert(strs(r.synonyms@) =~= seq![]);
        r
    }
}


impl SemanticResolver {
    /// The GUID whose recorded name is `name` (the first such entry).
    fn guid_of_name(&self, name: &str) -> (r: Option<String>)
        ensures
            ostr(r) == guid_named(self.state().guid_to_name, name@),
    {
        let ghost e = self.state().guid_to_name;
        let n = mapping_count(&self.guid_to_name);
        let mut i: usize = 0;
        assert(e.skip(0) =~= e);
        while i < n
            invariant
                e == self.state().guid_to_name,
                n == e.len(),
                i <= n,
                guid_named(e, name@) == guid_named(e.skip(i as int), name@),
            decreases n - i,
        {
            let (g, nm) = mapping_at(&self.guid_to_name, i);
            assert(e.skip(i as int)[0] == e[i as int]);
            assert(e.skip(i as int).drop_first() =~= e.skip(i + 1));
            if str_eq(nm.as_str(), name) {
                return Some(g.clone());
            }
            i = i + 1;
        }
        assert(e.skip(i as int).len() == 0);
        None
    }

    /// Add the chains of the referenced GUIDs to `names`.
    fn add_referenced(&self, names: &mut IndexSet<String>, props: bool)
        ensures
            string_set_entries(*final(names)) == add_chains(
                self.state(),
                string_set_entries(*old(names)),
                if props {
                    self.state().ref_props
                } else {
                    self.state().ref_types
                },
                props,
            ),
    {
        let ghost st = self.state();
        let ghost acc0 = string_set_entries(*names);
        let refs = if props {
            &self.referenced_property_guids
        } else {
            &self.referenced_type_guids
        };
        let ghost gs = string_set_entries(*refs);
        assert(gs.take(0) =~= Seq::<Seq<char>>::empty());
        let n = string_set_len(refs);
        for i in 0..n
            invariant
                st == self.state(),
                gs == string_set_entries(*refs),
                gs == if props { st.ref_props } else { st.ref_types },
                n == gs.len(),
                string_set_entries(*names) == add_chains(st, acc0, gs.take(i as int), props),
        {
            let g = string_set_at(refs, i);
            let chain = self.walk_chain(g.as_str(), props);
            assert(gs.take(i + 1).drop_last() =~= gs.take(i as int));
            assert(gs.take(i + 1).last() == gs[i as int]);
            add_all(names, chain);
        }
        assert(gs.take(n as int) =~= gs);
    }

    /// Add the chains of every name of a table to `names`.
    fn add_defined(
        &self,
        names: &mut IndexSet<String>,
        table: &IndexMap<String, Custom>,
        props: bool,
        Ghost(done): Ghost<Seq<Seq<char>>>,
        Ghost(acc0): Ghost<Seq<Seq<char>>>,
    )
        requires
            string_set_entries(*old(names)) == add_named_chains(self.state(), acc0, done, props),
        ensures
            string_set_entries(*final(names)) == add_named_chains(
                self.state(),
                acc0,
                done + table_keys(custom_table(custom_entries(*table))),
                props,
            ),
    {
        let ghost st = self.state();
        let ghost ks = table_keys(custom_table(custom_entries(*table)));
        let n = custom_map_len(table);
        assert(done + ks.take(0) =~= done);
        for i in 0..n
            invariant
                st == self.state(),
                ks == table_keys(custom_table(custom_entries(*table))),
                n == ks.len(),
                string_set_entries(*names) == add_named_chains(st, acc0, done + ks.take(i as int), props),
        {
            let name = custom_map_key_at(table, i);
            assert((done + ks.take(i + 1)).drop_last() =~= done + ks.take(i as int));
            assert((done + ks.take(i + 1)).last() == ks[i as int]);
            assert(ks[i as int] == name@);
            match self.guid_of_name(name.as_str()) {
                Some(g) => {
                    let chain = self.walk_chain(g.as_str(), props);
                    add_all(names, chain);
                },
                None => {},
            }
        }
        assert(ks.take(n as int) =~= ks);
    }

    fn cats_of(&self, names: &IndexSet<String>) -> (r: Vec<CatType>)
        ensures
            r@.map_values(|c: CatType| cat_view(c)) == string_set_entries(*names).map_values(
                |n: Seq<char>| cat_for_name(self.state(), n),
            ),
    {
        let ghost want = string_set_entries(*names).map_values(|n: Seq<char>| cat_for_name(self.state(), n));
        let mut r: Vec<CatType> = Vec::new();
        let n = string_set_len(names);
        for i in 0..n
            invariant
                n == string_set_entries(*names).len(),
                want == string_set_entries(*names).map_values(|n: Seq<char>| cat_for_name(self.state(), n)),
                r@.len() == i,
                r@.map_values(|c: CatType| cat_view(c)) == want.take(i as int),
        {
            let name = string_set_at(names, i);
            let c = self.cat_for(name.as_str());
            let ghost before = r@.map_values(|c: CatType| cat_view(c));
            r.push(c);
            assert(r@.map_values(|c: CatType| cat_view(c)) =~= want.take(i + 1));
        }
        assert(want.take(n as int) =~= want);
        r
    }

    /// Build the catalogue (types, properties), each ancestor chain root first,
    /// or `None` when nothing semantic is referenced or defined.
    pub fn build_catalogue(&self) -> (r: Option<(Vec<CatType>, Vec<CatType>)>)
        ensures
            match (r, catalogue(self.state())) {
                (None, None) => true,
                (Some((t, p)), Some((ts, ps))) => t@.map_values(|c: CatType| cat_view(c)) == ts
                    && p@.map_values(|c: CatType| cat_view(c)) == ps,
                _ => false,
            },
    {
        reveal(catalogue);
        let ghost st = self.state();
        let has_any = string_set_len(&self.referenced_type_guids) > 0 || string_set_len(
            &self.referenced_property_guids,
        ) > 0 || custom_map_len(&self.entities) > 0 || custom_map_len(&self.links) > 0
            || custom_map_len(&self.properties) > 0;
        if !has_any {
            return None;
        }
        let mut type_names = string_set_new();
        self.add_referenced(&mut type_names, false);
        let ghost acc_t = string_set_entries(type_names);
        assert(Seq::<Seq<char>>::empty() + table_keys(st.entities) =~= table_keys(st.entities));
        let ghost none: Seq<Seq<char>> = seq![];
        let ghost ek = table_keys(st.entities);
        self.add_defined(&mut type_names, &self.entities, false, Ghost(none), Ghost(acc_t));
        self.add_defined(&mut type_names, &self.links, false, Ghost(ek), Ghost(acc_t));
        let mut prop_names = string_set_new();
        self.add_referenced(&mut prop_names, true);
        let ghost acc_p = string_set_entries(prop_names);
        self.add_defined(&mut prop_names, &self.properties, true, Ghost(none), Ghost(acc_p));
        assert(Seq::<Seq<char>>::empty() + table_keys(st.properties) =~= table_keys(st.properties));
        assert(string_set_entries(type_names) == catalogue_type_names(st));
        assert(string_set_entries(prop_names) == catalogue_property_names(st));
        if string_set_len(&type_names) == 0 && string_set_len(&prop_names) == 0 {
            return None;
        }
        let types = self.cats_of(&type_names);
        let props = self.cats_of(&prop_names);
        Some((types, props))
    }
}


// ── Laws of the catalogue ───────────────────────────────────────────────────

proof fn lemma_walk_keeps_seen(st: ResolverState, cur: Option<Seq<char>>, seen: Seq<Seq<char>>, fuel: nat, props: bool)
    ensures
        forall|x: Seq<char>| seen.contains(x) ==> #[trigger] walk(st, cur, seen, fuel, props).contains(x),
    decreases fuel,
{
    if fuel > 0 {
        if let Some(name) = cur {
            if !seen.contains(name) {
                let next = match parent_of_name(st, name, props) {
                    Some(pg) => lookup(st.guid_to_name, pg),
                    None => None,
                };
                lemma_walk_keeps_seen(st, next, seen.push(name), (fuel - 1) as nat, props);
                assert(walk(st, cur, seen, fuel, props) == walk(st, next, seen.push(name), (fuel - 1) as nat, props));
                assert forall|x: Seq<char>| seen.contains(x) implies #[trigger] walk(st, cur, seen, fuel, props).contains(x) by {
                    let i = choose|i: int| 0 <= i < seen.len() && seen[i] == x;
                    assert(seen.push(name)[i] == x);
                    assert(seen.push(name).contains(x));
                }
            }
        }
    }
}

proof fn lemma_walk_starts_at(st: ResolverState, name: Seq<char>, fuel: nat, props: bool)
    requires
        fuel > 0,
    ensures
        walk(st, Some(name), seq![], fuel, props).contains(name),
{
    let next = match parent_of_name(st, name, props) {
        Some(pg) => lookup(st.guid_to_name, pg),
        None => None,
    };
    let one = Seq::<Seq<char>>::empty().push(name);
    assert(one[0] == name);
    assert(one.contains(name));
    let e = Seq::<Seq<char>>::empty();
    assert(!e.contains(name));
    assert(e.push(name) == one);
    assert(walk(st, Some(name), e, fuel, props) == walk(st, next, one, (fuel - 1) as nat, props));
    lemma_walk_keeps_seen(st, next, one, (fuel - 1) as nat, props);
    assert(walk(st, Some(name), seq![], fuel, props) == walk(st, Some(name), e, fuel, props));
}

proof fn lemma_reverse_contains(s: Seq<Seq<char>>, x: Seq<char>)
    requires
        s.contains(x),
    ensures
        s.reverse().contains(x),
{
    let i = choose|i: int| 0 <= i < s.len() && s[i] == x;
    assert(s.reverse()[s.len() - 1 - i] == x);
}

proof fn lemma_set_add_all_keeps(acc: Seq<Seq<char>>, xs: Seq<Seq<char>>)
    ensures
        forall|x: Seq<char>| acc.contains(x) ==> #[trigger] set_add_all(acc, xs).contains(x),
        forall|x: Seq<char>| xs.contains(x) ==> #[trigger] set_add_all(acc, xs).contains(x),
    decreases xs.len(),
{
    if xs.len() > 0 {
        let prev = set_add_all(acc, xs.drop_last());
        let last = xs.last();
        lemma_set_add_all_keeps(acc, xs.drop_last());
        let res = set_add_all(acc, xs);
        assert(res == set_add(prev, last));
        assert forall|x: Seq<char>| prev.contains(x) implies res.contains(x) by {
            if !prev.contains(last) {
                let i = choose|i: int| 0 <= i < prev.len() && prev[i] == x;
                assert(prev.push(last)[i] == x);
            }
        }
        assert(res.contains(last)) by {
            if !prev.contains(last) {
                assert(prev.push(last)[prev.len() as int] == last);
            }
        }
        assert forall|x: Seq<char>| acc.contains(x) implies #[trigger] set_add_all(acc, xs).contains(x) by {
            assert(prev.contains(x));
        }
        assert forall|x: Seq<char>| xs.contains(x) implies #[trigger] set_add_all(acc, xs).contains(x) by {
            let i = choose|i: int| 0 <= i < xs.len() && xs[i] == x;
            if i < xs.len() - 1 {
                assert(xs.drop_last()[i] == x);
                assert(xs.drop_last().contains(x));
                assert(prev.contains(x));
            }
        }
    }
}

proof fn lemma_add_chains_keeps(st: ResolverState, acc: Seq<Seq<char>>, gs: Seq<Seq<char>>, props: bool)
    ensures
        forall|x: Seq<char>| acc.contains(x) ==> #[trigger] add_chains(st, acc, gs, props).contains(x),
        forall|j: int, x: Seq<char>|
            0 <= j < gs.len() && #[trigger] ancestors(st, gs[j], props).contains(x) ==> add_chains(
                st,
                acc,
                gs,
                props,
            ).contains(x),
    decreases gs.len(),
{
    if gs.len() > 0 {
        let prev = add_chains(st, acc, gs.drop_last(), props);
        lemma_add_chains_keeps(st, acc, gs.drop_last(), props);
        lemma_set_add_all_keeps(prev, ancestors(st, gs.last(), props));
        assert forall|j: int, x: Seq<char>|
            0 <= j < gs.len() && #[trigger] ancestors(st, gs[j], props).contains(x) implies add_chains(
                st,
                acc,
                gs,
                props,
            ).contains(x) by {
            if j < gs.len() - 1 {
                assert(gs.drop_last()[j] == gs[j]);
            }
        }
    }
}

proof fn lemma_add_named_keeps(st: ResolverState, acc: Seq<Seq<char>>, names: Seq<Seq<char>>, props: bool)
    ensures
        forall|x: Seq<char>| acc.contains(x) ==> #[trigger] add_named_chains(st, acc, names, props).contains(x),
    decreases names.len(),
{
    if names.len() > 0 {
        let prev = add_named_chains(st, acc, names.drop_last(), props);
        lemma_add_named_keeps(st, acc, names.drop_last(), props);
        if let Some(g) = guid_named(st.guid_to_name, names.last()) {
            lemma_set_add_all_keeps(prev, ancestors(st, g, props));
        }
    }
}

proof fn lemma_lookup_in(e: Seq<(Seq<char>, Seq<char>)>, k: Seq<char>)
    requires
        lookup(e, k) is Some,
    ensures
        e.len() > 0,
    decreases e.len(),
{
}

/// Every referenced entity or link type whose GUID the resolver knows is
/// listed in the catalogue (so a catalogue exists).
pub proof fn catalogue_lists_referenced_types(st: ResolverState, g: Seq<char>)
    requires
        st.ref_types.contains(g),
        lookup(st.guid_to_name, g) is Some,
    ensures
        catalogue_type_names(st).contains(lookup(st.guid_to_name, g).unwrap()),
        catalogue(st) is Some,
{
    reveal(catalogue);
    let n = lookup(st.guid_to_name, g).unwrap();
    lemma_lookup_in(st.guid_to_name, g);
    lemma_walk_starts_at(st, n, st.guid_to_name.len(), false);
    lemma_reverse_contains(walk(st, Some(n), seq![], st.guid_to_name.len(), false), n);
    let j = choose|j: int| 0 <= j < st.ref_types.len() && st.ref_types[j] == g;
    lemma_add_chains_keeps(st, seq![], st.ref_types, false);
    assert(ancestors(st, st.ref_types[j], false).contains(n));
    let acc = add_chains(st, seq![], st.ref_types, false);
    assert(acc.contains(n));
    lemma_add_named_keeps(st, acc, table_keys(st.entities) + table_keys(st.links), false);
    assert(catalogue_type_names(st).contains(n));
    assert(st.ref_types.len() > 0);
    assert(catalogue_type_names(st).len() > 0);
}

/// Every referenced property type whose GUID the resolver knows is listed in
/// the catalogue (so a catalogue exists).
pub proof fn catalogue_lists_referenced_properties(st: ResolverState, g: Seq<char>)
    requires
        st.ref_props.contains(g),
        lookup(st.guid_to_name, g) is Some,
    ensures
        catalogue_property_names(st).contains(lookup(st.guid_to_name, g).unwrap()),
        catalogue(st) is Some,
{
    reveal(catalogue);
    let n = lookup(st.guid_to_name, g).unwrap();
    lemma_lookup_in(st.guid_to_name, g);
    lemma_walk_starts_at(st, n, st.guid_to_name.len(), true);
    lemma_reverse_contains(walk(st, Some(n), seq![], st.guid_to_name.len(), true), n);
    let j = choose|j: int| 0 <= j < st.ref_props.len() && st.ref_props[j] == g;
    lemma_add_chains_keeps(st, seq![], st.ref_props, true);
    assert(ancestors(st, st.ref_props[j], true).contains(n));
    let acc = add_chains(st, seq![], st.ref_props, true);
    assert(acc.contains(n));
    lemma_add_named_keeps(st, acc, table_keys(st.properties), true);
    assert(catalogue_property_names(st).contains(n));
    assert(st.ref_props.len() > 0);
    assert(catalogue_property_names(st).len() > 0);
}

proof fn lemma_set_add_all_distinct(acc: Seq<Seq<char>>, xs: Seq<Seq<char>>)
    requires
        acc.no_duplicates(),
    ensures
        set_add_all(acc, xs).no_duplicates(),
    decreases xs.len(),
{
    if xs.len() > 0 {
        lemma_set_add_all_distinct(acc, xs.drop_last());
        let prev = set_add_all(acc, xs.drop_last());
        if !prev.contains(xs.last()) {
            let q = prev.push(xs.last());
            assert forall|i: int, j: int| 0 <= i < q.len() && 0 <= j < q.len() && i != j implies q[i]
                != q[j] by {
                if i < prev.len() && j < prev.len() {
                } else if i == prev.len() {
                    assert(q[j] == prev[j]);
                } else {
                    assert(q[i] == prev[i]);
                }
            }
        }
    }
}

proof fn lemma_add_chains_distinct(st: ResolverState, acc: Seq<Seq<char>>, gs: Seq<Seq<char>>, props: bool)
    requires
        acc.no_duplicates(),
    ensures
        add_chains(st, acc, gs, props).no_duplicates(),
    decreases gs.len(),
{
    if gs.len() > 0 {
        lemma_add_chains_distinct(st, acc, gs.drop_last(), props);
        lemma_set_add_all_distinct(add_chains(st, acc, gs.drop_last(), props), ancestors(st, gs.last(), props));
    }
}

proof fn lemma_add_named_distinct(st: ResolverState, acc: Seq<Seq<char>>, names: Seq<Seq<char>>, props: bool)
    requires
        acc.no_duplicates(),
    ensures
        add_named_chains(st, acc, names, props).no_duplicates(),
    decreases names.len(),
{
    if names.len() > 0 {
        lemma_add_named_distinct(st, acc, names.drop_last(), props);
        if let Some(g) = guid_named(st.guid_to_name, names.last()) {
            lemma_set_add_all_distinct(add_named_chains(st, acc, names.drop_last(), props), ancestors(st, g, props));
        }
    }
}

/// The catalogue lists each type and each property once.
pub proof fn catalogue_names_are_distinct(st: ResolverState)
    ensures
        catalogue_type_names(st).no_duplicates(),
        catalogue_property_names(st).no_duplicates(),
{
    let e = Seq::<Seq<char>>::empty();
    assert(e.no_duplicates());
    lemma_add_chains_distinct(st, e, st.ref_types, false);
    lemma_add_named_distinct(st, add_chains(st, e, st.ref_types, false), table_keys(st.entities) + table_keys(st.links), false);
    lemma_add_chains_distinct(st, e, st.ref_props, true);
    lemma_add_named_distinct(st, add_chains(st, e, st.ref_props, true), table_keys(st.properties), true);
}


/// The name of a type's parent: its parent GUID looked up in the GUID map.
pub open spec fn parent_name(st: ResolverState, name: Seq<char>, props: bool) -> Option<Seq<char>> {
    match parent_of_name(st, name, props) {
        Some(pg) => lookup(st.guid_to_name, pg),
        None => None,
    }
}

proof fn lemma_walk_links(st: ResolverState, cur: Option<Seq<char>>, seen: Seq<Seq<char>>, fuel: nat, props: bool)
    ensures
        ({
            let w = walk(st, cur, seen, fuel, props);
            &&& seen.len() <= w.len()
            &&& w.take(seen.len() as int) == seen
            &&& seen.len() < w.len() ==> cur == Some(w[seen.len() as int])
            &&& forall|k: int|
                seen.len() <= k && k + 1 < w.len() ==> parent_name(st, #[trigger] w[k], props) == Some(
                    w[k + 1],
                )
        }),
    decreases fuel,
{
    let w = walk(st, cur, seen, fuel, props);
    if fuel == 0 || cur is None || seen.contains(cur.unwrap()) {
        assert(w == seen);
        assert(w.take(seen.len() as int) =~= seen);
    } else {
        let n = cur.unwrap();
        let next = parent_name(st, n, props);
        let s2 = seen.push(n);
        lemma_walk_links(st, next, s2, (fuel - 1) as nat, props);
        assert(w == walk(st, next, s2, (fuel - 1) as nat, props));
        assert(w.take(s2.len() as int) == s2);
        assert(w[seen.len() as int] == w.take(s2.len() as int)[seen.len() as int]);
        assert(w.take(seen.len() as int) =~= w.take(s2.len() as int).take(seen.len() as int));
        assert forall|k: int| seen.len() <= k && k + 1 < w.len() implies parent_name(st, #[trigger] w[k], props)
            == Some(w[k + 1]) by {
            if k == seen.len() {
                assert(w[k] == n);
            }
        }
    }
}

/// Ancestor chains run root first: each name after the first is a child of
/// the name before it (its parent GUID names that type).
pub proof fn ancestor_chains_run_root_first(st: ResolverState, guid: Seq<char>, props: bool)
    ensures
        forall|i: int|
            1 <= i < ancestors(st, guid, props).len() ==> parent_name(
                st,
                #[trigger] ancestors(st, guid, props)[i],
                props,
            ) == Some(ancestors(st, guid, props)[i - 1]),
{
    let w = walk(st, lookup(st.guid_to_name, guid), seq![], st.guid_to_name.len(), props);
    lemma_walk_links(st, lookup(st.guid_to_name, guid), seq![], st.guid_to_name.len(), props);
    let c = ancestors(st, guid, props);
    assert(c == w.reverse());
    assert forall|i: int| 1 <= i < c.len() implies parent_name(st, #[trigger] c[i], props) == Some(c[i - 1]) by {
        let k = w.len() - 1 - i;
        assert(c[i] == w[k]);
        assert(c[i - 1] == w[k + 1]);
    }
}

} // verus!
