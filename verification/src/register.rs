//! Registration of the chart's strengths, types and attribute classes. Each
//! name is entered once, under the next minted id and in the order of first
//! reference; a name already entered gives back the id it has and mints
//! nothing.
use vstd::prelude::*;
use indexmap::{IndexMap, IndexSet};

use crate::datetime::opt_view;
use crate::enums::{AttributeType, EnumMeta};
use crate::ids::{id_text, IdCounter};
use crate::items::ov;
use crate::maps::{attr_at, attr_count, attr_entries, lookup, mapping_entries, mapping_get, mapping_insert, mapping_new, set_add, string_set_entries, upsert};
use crate::pending::{cfg_name, distinct_keys, without, Pending, TypeCfg};
use crate::models::{CategoricalStyleCfg, Card, GradeCollection, GradeRef, AttributeClass, DateTimeFormat, EntityType, Font, Link, LinkType, Strength, StrengthCollection};
use crate::registry::{DateTimeFormatEntry, StringCollection, conn_key, connection_key, ConnectionEntry, keys, strength_name, choose_strength_name, AttributeClassEntry, EntityTypeEntry, LinkTypeEntry, Registered, StrengthEntry};
use crate::entities::{ref_common, EntityRef};
use crate::resolve::{auto_parts, card_resolved, choose_icon, effective_shade, entity_colors, entity_label, grade_with_default, icon_choice, label_of, owned_cards, resolve_cards, resolve_custom_icon};
use crate::resolved::{ResolvedEntity, ResolvedLink};
use crate::items::{link_style, link_style_values};
use crate::tokens::{arrow_of, arrow_token};
use crate::transforms::{display_kind_matches, kind_applies, resolve_grade_with_default};
use crate::semantic::{property_resolution, type_resolution, ResolverState, SemanticResolver};
use crate::tokens::{attribute_type_of, attribute_type_token, dot_style_of, dot_style_token};
use crate::value::{inferred, rendered, AttrValue};
use crate::resolved::ResolvedAttr;

verus! {

/// The entries of a registry, in registration order, looked up by name.
pub struct Registry<T> {
    index: IndexMap<String, String>,
    entries: Vec<T>,
}

/// Inserting a key that is not there appends it.
proof fn lemma_upsert_new(e: Seq<(Seq<char>, Seq<char>)>, k: Seq<char>, v: Seq<char>)
    requires
        lookup(e, k) is None,
    ensures
        upsert(e, k, v) == e.push((k, v)),
    decreases e.len(),
{
    if e.len() > 0 {
        lemma_upsert_new(e.drop_first(), k, v);
        assert(seq![e[0]] + e.drop_first().push((k, v)) =~= e.push((k, v)));
    } else {
        assert(seq![(k, v)] =~= e.push((k, v)));
    }
}

proof fn lemma_keys_push<T: Registered>(s: Seq<T>, e: T)
    ensures
        keys(s.push(e)) == keys(s).push(e.key()),
{
    assert(keys(s.push(e)) =~= keys(s).push(e.key()));
}

impl<T: Registered> Registry<T> {
    /// The index lists the entries' names and ids, in order.
    pub closed spec fn wf(&self) -> bool {
        mapping_entries(self.index) == keys(self.entries@)
    }

    /// The entries, in registration order.
    pub closed spec fn items(&self) -> Seq<T> {
        self.entries@
    }

    pub fn new() -> (r: Self)
        ensures
            r.wf(),
            r.items() == Seq::<T>::empty(),
    {
        let r = Registry { index: mapping_new(), entries: Vec::new() };
        assert(keys(r.entries@) =~= Seq::<(Seq<char>, Seq<char>)>::empty());
        r
    }

    /// The id registered under `name`, if any.
    pub fn id_of(&self, name: &str) -> (r: Option<String>)
        requires
            self.wf(),
        ensures
            match r {
                Some(x) => lookup(keys(self.items()), name@) == Some(x@),
                None => lookup(keys(self.items()), name@) is None,
            },
    {
        match mapping_get(&self.index, name) {
            Some(id) => Some(id.clone()),
            None => None,
        }
    }

    /// Enter an entry whose name is not registered yet; it goes last.
    pub fn add(&mut self, e: T)
        requires
            old(self).wf(),
            lookup(keys(old(self).items()), e.key().0) is None,
        ensures
            final(self).wf(),
            final(self).items() == old(self).items().push(e),
    {
        let (n, id) = e.name_id();
        let name = n.clone();
        let idc = id.clone();
        proof {
            lemma_upsert_new(mapping_entries(self.index), e.key().0, e.key().1);
            lemma_keys_push(self.entries@, e);
        }
        mapping_insert(&mut self.index, name, idc);
        self.entries.push(e);
    }

    /// The entries, in registration order.
    pub fn entries(&self) -> (r: &Vec<T>)
        ensures
            r@ == self.items(),
    {
        &self.entries
    }
}

/// No registered name still waits in `p`.
pub open spec fn apart<T: Registered>(reg: Seq<T>, p: Seq<(Seq<char>, TypeCfg)>) -> bool {
    forall|x: Seq<char>| #[trigger] lookup(keys(reg), x) is Some ==> lookup(p, x) is None
}

/// The entity type a waiting configuration holds, if it holds one.
pub open spec fn entity_cfg(c: Option<TypeCfg>) -> Option<EntityType> {
    match c {
        Some(TypeCfg::Entity(t)) => Some(t),
        _ => None,
    }
}

/// The link type a waiting configuration holds, if it holds one.
pub open spec fn link_cfg(c: Option<TypeCfg>) -> Option<LinkType> {
    match c {
        Some(TypeCfg::Link(t)) => Some(t),
        _ => None,
    }
}

/// The attribute class a waiting configuration holds, if it holds one.
pub open spec fn class_cfg(c: Option<TypeCfg>) -> Option<AttributeClass> {
    match c {
        Some(TypeCfg::Class(t)) => Some(t),
        _ => None,
    }
}

proof fn lemma_apart_shrink<T: Registered>(reg: Seq<T>, p0: Seq<(Seq<char>, TypeCfg)>, p1: Seq<(Seq<char>, TypeCfg)>)
    requires
        apart(reg, p0),
        forall|x: Seq<char>| #[trigger] lookup(p1, x) is Some ==> lookup(p0, x) is Some,
    ensures
        apart(reg, p1),
{
}

proof fn lemma_apart_add<T: Registered>(reg: Seq<T>, e: T, p0: Seq<(Seq<char>, TypeCfg)>, p1: Seq<(Seq<char>, TypeCfg)>)
    requires
        apart(reg, p0),
        forall|x: Seq<char>| #[trigger] lookup(p1, x) is Some ==> lookup(p0, x) is Some && x != e.key().0,
    ensures
        apart(reg.push(e), p1),
{
    assert forall|x: Seq<char>| #[trigger] lookup(keys(reg.push(e)), x) is Some implies lookup(p1, x) is None by {
        lemma_keys_push(reg, e);
        lemma_lookup_push(keys(reg), e.key(), x);
    }
}

/// After registering `name`: unchanged when it was there; otherwise one more
/// id minted and one more entry, last, holding that id.
pub open spec fn registered<T: Registered>(
    before: Seq<T>,
    after: Seq<T>,
    minted_before: nat,
    minted_after: nat,
    name: Seq<char>,
    r: Seq<char>,
) -> bool {
    match lookup(keys(before), name) {
        Some(id) => after == before && minted_after == minted_before && r == id,
        None => {
            &&& minted_after == minted_before + 1
            &&& after.len() == before.len() + 1
            &&& after.drop_last() == before
            &&& after.last().key() == (name, id_text(minted_after))
            &&& r == id_text(minted_after)
        },
    }
}

/// Register the strength a link uses (its own, else the chart's default,
/// else `Default`): a new one is solid. Gives the strength's name.
pub fn ensure_strength(
    reg: &mut Registry<StrengthEntry>,
    ids: &mut IdCounter,
    default: Option<&str>,
    name: Option<&str>,
) -> (r: String)
    requires
        old(reg).wf(),
        old(ids).minted() < u64::MAX,
    ensures
        final(reg).wf(),
        r@ == strength_name(opt_view(default), opt_view(name)),
        match lookup(keys(old(reg).items()), r@) {
            Some(_) => final(reg).items() == old(reg).items() && final(ids).minted() == old(ids).minted(),
            None => {
                &&& final(ids).minted() == old(ids).minted() + 1
                &&& final(reg).items() == old(reg).items().push(final(reg).items().last())
                &&& final(reg).items().last().name@ == r@
                &&& final(reg).items().last().id@ == id_text(final(ids).minted())
                &&& final(reg).items().last().dot_token@ == "DotStyleSolid"@
            },
        },
{
    let n = choose_strength_name(default, name);
    match reg.id_of(n.as_str()) {
        Some(_) => {},
        None => {
            let id = ids.next_id();
            let e = StrengthEntry { name: n.clone(), id, dot_token: "DotStyleSolid".to_owned() };
            reg.add(e);
        },
    }
    n
}

/// A link type with only its name.
pub fn bare_link_type(name: &str) -> (t: LinkType)
    ensures
        t.name@ == name@,
        t.color is None,
        t.semantic_type is None,
        t.enforce is None,
{
    LinkType { name: name.to_owned(), color: None, semantic_type: None, enforce: None }
}

/// Register a link type on first reference: with its waiting configuration
/// when it has one (taken out of `pending`), else bare. Gives its id.
pub fn register_link_type(
    reg: &mut Registry<LinkTypeEntry>,
    ids: &mut IdCounter,
    resolver: &mut SemanticResolver,
    pending: &mut Pending,
    name: &str,
) -> (r: String)
    requires
        old(reg).wf(),
        old(pending).wf(),
        apart(old(reg).items(), old(pending).entries()),
        old(ids).minted() < u64::MAX,
    ensures
        final(reg).wf(),
        final(pending).wf(),
        apart(final(reg).items(), final(pending).entries()),
        final(pending).entries() == match lookup(keys(old(reg).items()), name@) {
            Some(_) => old(pending).entries(),
            None => without(old(pending).entries(), name@),
        },
        registered(old(reg).items(), final(reg).items(), old(ids).minted(), final(ids).minted(), name@, r@),
        lookup(keys(old(reg).items()), name@) is None ==> {
            let e = final(reg).items().last();
            &&& match link_cfg(lookup(old(pending).entries(), name@)) {
                Some(c) => e.cfg == c,
                None => e.cfg.name@ == name@ && e.cfg.color is None && e.cfg.semantic_type is None
                    && e.cfg.enforce is None,
            }
            &&& ov(e.semantic_guid) == type_resolution(old(resolver).state(), ov(e.cfg.semantic_type)).0
            &&& final(resolver).state() == (ResolverState {
                ref_types: type_resolution(old(resolver).state(), ov(e.cfg.semantic_type)).1,
                ..old(resolver).state()
            })
        },
        lookup(keys(old(reg).items()), name@) is Some ==> final(resolver).state() == old(resolver).state(),
{
    match reg.id_of(name) {
        Some(id) => id,
        None => {
            let ghost p0 = pending.entries();
            let cfg = match pending.take(name) {
                Some(TypeCfg::Link(c)) => c,
                _ => bare_link_type(name),
            };
            let id = ids.next_id();
            let st = match &cfg.semantic_type {
                Some(x) => Some(x.as_str()),
                None => None,
            };
            let semantic_guid = resolver.resolve_type_name(st);
            let e = LinkTypeEntry { name: name.to_owned(), id: id.clone(), cfg, semantic_guid };
            let ghost before = reg.items();
            reg.add(e);
            assert(reg.items().drop_last() =~= before);
            proof {
                lemma_apart_add(before, e, p0, pending.entries());
            }
            id
        },
    }
}

/// The name a (possibly custom) icon is written under.
pub open spec fn custom_icon(names: Seq<(Seq<char>, Seq<char>)>, icon: Seq<char>) -> Seq<char> {
    match lookup(names, icon) {
        Some(em) => em,
        None => icon,
    }
}

/// The used custom icons after resolving `icon` (when one is set).
pub open spec fn used_after(names: Seq<(Seq<char>, Seq<char>)>, used: Seq<Seq<char>>, icon: Option<Seq<char>>) -> Seq<Seq<char>> {
    match icon {
        Some(i) => match lookup(names, i) {
            Some(em) => set_add(used, em),
            None => used,
        },
        None => used,
    }
}

fn resolve_icon_field(
    icon: &Option<String>,
    names: &IndexMap<String, String>,
    used: &mut IndexSet<String>,
) -> (r: Option<String>)
    ensures
        ov(r) == match ov(*icon) {
            Some(i) => Some(custom_icon(mapping_entries(*names), i)),
            None => None,
        },
        string_set_entries(*final(used)) == used_after(mapping_entries(*names), string_set_entries(*old(used)), ov(*icon)),
{
    match icon {
        Some(i) => Some(resolve_custom_icon(names, used, i.as_str())),
        None => None,
    }
}

/// Register an entity type on first reference, when it has a waiting
/// configuration (taken out of `pending`): its icon is resolved against the custom icons. A type without a
/// name or without a configuration gets no entry. Gives its id, if any.
pub fn register_entity_type(
    reg: &mut Registry<EntityTypeEntry>,
    ids: &mut IdCounter,
    resolver: &mut SemanticResolver,
    icon_names: &IndexMap<String, String>,
    used: &mut IndexSet<String>,
    pending: &mut Pending,
    name: &str,
) -> (r: Option<String>)
    requires
        old(reg).wf(),
        old(pending).wf(),
        apart(old(reg).items(), old(pending).entries()),
        old(ids).minted() < u64::MAX,
    ensures
        final(reg).wf(),
        final(pending).wf(),
        apart(final(reg).items(), final(pending).entries()),
        final(pending).entries() == if name@.len() == 0 || lookup(keys(old(reg).items()), name@) is Some {
            old(pending).entries()
        } else {
            without(old(pending).entries(), name@)
        },
        name@.len() == 0 || (lookup(keys(old(reg).items()), name@) is None && entity_cfg(lookup(old(pending).entries(), name@)) is None) ==> {
            &&& r is None
            &&& final(reg).items() == old(reg).items()
            &&& final(ids).minted() == old(ids).minted()
            &&& final(resolver).state() == old(resolver).state()
            &&& string_set_entries(*final(used)) == string_set_entries(*old(used))
        },
        name@.len() > 0 && lookup(keys(old(reg).items()), name@) is Some ==> {
            &&& ov(r) == lookup(keys(old(reg).items()), name@)
            &&& final(reg).items() == old(reg).items()
            &&& final(ids).minted() == old(ids).minted()
            &&& final(resolver).state() == old(resolver).state()
            &&& string_set_entries(*final(used)) == string_set_entries(*old(used))
        },
        name@.len() > 0 && lookup(keys(old(reg).items()), name@) is None && entity_cfg(lookup(old(pending).entries(), name@)) is Some ==> {
            let c = entity_cfg(lookup(old(pending).entries(), name@))->0;
            let e = final(reg).items().last();
            &&& r is Some
            &&& registered(old(reg).items(), final(reg).items(), old(ids).minted(), final(ids).minted(), name@, r->0@)
            &&& e.cfg.name == c.name && e.cfg.color == c.color && e.cfg.shade_color == c.shade_color
            &&& e.cfg.representation == c.representation && e.cfg.semantic_type == c.semantic_type
            &&& e.cfg.enforce == c.enforce
            &&& ov(e.cfg.icon_file) == match ov(c.icon_file) {
                Some(i) => Some(custom_icon(mapping_entries(*icon_names), i)),
                None => None,
            }
            &&& string_set_entries(*final(used)) == used_after(
                mapping_entries(*icon_names),
                string_set_entries(*old(used)),
                ov(c.icon_file),
            )
            &&& ov(e.semantic_guid) == type_resolution(old(resolver).state(), ov(c.semantic_type)).0
            &&& final(resolver).state() == (ResolverState {
                ref_types: type_resolution(old(resolver).state(), ov(c.semantic_type)).1,
                ..old(resolver).state()
            })
        },
{
    if crate::text::is_empty_str(name) {
        return None;
    }
    if let Some(id) = reg.id_of(name) {
        return Some(id);
    }
    let ghost p0 = pending.entries();
    let mut cfg = match pending.take(name) {
        Some(TypeCfg::Entity(c)) => c,
        _ => {
            proof {
                lemma_apart_shrink(reg.items(), p0, pending.entries());
            }
            return None;
        },
    };
    let icon = resolve_icon_field(&cfg.icon_file, icon_names, used);
    cfg.icon_file = icon;
    let id = ids.next_id();
    let st = match &cfg.semantic_type {
        Some(x) => Some(x.as_str()),
        None => None,
    };
    let semantic_guid = resolver.resolve_type_name(st);
    let e = EntityTypeEntry { name: name.to_owned(), id: id.clone(), cfg, semantic_guid };
    let ghost before = reg.items();
    reg.add(e);
    assert(reg.items().drop_last() =~= before);
    proof {
        lemma_apart_add(before, e, p0, pending.entries());
    }
    Some(id)
}

/// A font with nothing set.
pub fn plain_font() -> (f: Font)
    ensures
        f.name is None && f.size is None && f.color is None && f.bg_color is None,
        f.bold is None && f.italic is None && f.strikeout is None && f.underline is None,
{
    Font {
        name: None,
        size: None,
        color: None,
        bg_color: None,
        bold: None,
        italic: None,
        strikeout: None,
        underline: None,
    }
}

/// An attribute class with only its name (and, when given, its type and a
/// shown value).
pub open spec fn bare_class(a: AttributeClass, name: Seq<char>, ty: Option<AttributeType>, show_value: Option<bool>) -> bool {
    &&& a.name@ == name
    &&& a.type_ == ty
    &&& a.show_value == show_value
    &&& a.prefix is None && a.suffix is None && a.decimal_places is None
    &&& a.show_date is None && a.show_time is None && a.show_seconds is None && a.show_if_set is None
    &&& a.show_class_name is None && a.show_symbol is None && a.visible is None
    &&& a.is_user is None && a.user_can_add is None && a.user_can_remove is None
    &&& a.icon_file is None && a.semantic_type is None
    &&& a.merge_behaviour is None && a.paste_behaviour is None && a.enforce is None
    &&& a.font.name is None && a.font.size is None && a.font.color is None && a.font.bg_color is None
    &&& a.font.bold is None && a.font.italic is None && a.font.strikeout is None && a.font.underline is None
}

pub fn bare_attribute_class(name: &str, ty: Option<AttributeType>, show_value: Option<bool>) -> (a: AttributeClass)
    ensures
        bare_class(a, name@, ty, show_value),
{
    AttributeClass {
        name: name.to_owned(),
        type_: ty,
        prefix: None,
        suffix: None,
        decimal_places: None,
        show_value,
        show_date: None,
        show_time: None,
        show_seconds: None,
        show_if_set: None,
        show_class_name: None,
        show_symbol: None,
        visible: None,
        is_user: None,
        user_can_add: None,
        user_can_remove: None,
        icon_file: None,
        semantic_type: None,
        merge_behaviour: None,
        paste_behaviour: None,
        font: plain_font(),
        enforce: None,
    }
}

/// Two class configurations agree on everything but the icon.
pub open spec fn same_but_icon(a: AttributeClass, c: AttributeClass) -> bool {
    &&& a.name == c.name && a.type_ == c.type_ && a.prefix == c.prefix && a.suffix == c.suffix
    &&& a.decimal_places == c.decimal_places && a.show_value == c.show_value && a.show_date == c.show_date
    &&& a.show_time == c.show_time && a.show_seconds == c.show_seconds && a.show_if_set == c.show_if_set
    &&& a.show_class_name == c.show_class_name && a.show_symbol == c.show_symbol && a.visible == c.visible
    &&& a.is_user == c.is_user && a.user_can_add == c.user_can_add && a.user_can_remove == c.user_can_remove
    &&& a.semantic_type == c.semantic_type && a.merge_behaviour == c.merge_behaviour
    &&& a.paste_behaviour == c.paste_behaviour && a.font == c.font && a.enforce == c.enforce
}

/// The `Type` token of a class: its configured type's, else the type
/// inferred from the first value seen.
pub open spec fn class_type_token(ty: Option<AttributeType>, sample: AttrValue) -> Seq<char> {
    match ty {
        Some(t) => attribute_type_of(t.token()),
        None => inferred(sample).token(),
    }
}

/// Register an attribute class on first use: with its waiting configuration
/// when it has one (taken out of `pending`), else bare; its icon is resolved against the custom
/// attribute icons and its type taken from the configuration or from the
/// value. Gives its id.
pub fn register_attribute_class(
    reg: &mut Registry<AttributeClassEntry>,
    ids: &mut IdCounter,
    resolver: &mut SemanticResolver,
    icon_names: &IndexMap<String, String>,
    used: &mut IndexSet<String>,
    pending: &mut Pending,
    name: &str,
    sample: &AttrValue,
) -> (r: String)
    requires
        old(reg).wf(),
        old(pending).wf(),
        apart(old(reg).items(), old(pending).entries()),
        old(ids).minted() < u64::MAX,
    ensures
        final(reg).wf(),
        final(pending).wf(),
        apart(final(reg).items(), final(pending).entries()),
        final(pending).entries() == match lookup(keys(old(reg).items()), name@) {
            Some(_) => old(pending).entries(),
            None => without(old(pending).entries(), name@),
        },
        registered(old(reg).items(), final(reg).items(), old(ids).minted(), final(ids).minted(), name@, r@),
        lookup(keys(old(reg).items()), name@) is Some ==> final(resolver).state() == old(resolver).state()
            && string_set_entries(*final(used)) == string_set_entries(*old(used)),
        lookup(keys(old(reg).items()), name@) is None ==> {
            let e = final(reg).items().last();
            &&& match class_cfg(lookup(old(pending).entries(), name@)) {
                Some(c) => {
                    &&& e.type_token@ == class_type_token(c.type_, *sample)
                    &&& ov(e.cfg.icon_file) == match ov(c.icon_file) {
                        Some(i) => Some(custom_icon(mapping_entries(*icon_names), i)),
                        None => None,
                    }
                    &&& string_set_entries(*final(used)) == used_after(
                        mapping_entries(*icon_names),
                        string_set_entries(*old(used)),
                        ov(c.icon_file),
                    )
                    &&& same_but_icon(e.cfg, c)
                },
                None => {
                    &&& bare_class(e.cfg, name@, None, None)
                    &&& e.type_token@ == inferred(*sample).token()
                    &&& string_set_entries(*final(used)) == string_set_entries(*old(used))
                },
            }
            &&& ov(e.semantic_guid) == property_resolution(old(resolver).state(), ov(e.cfg.semantic_type)).0
            &&& final(resolver).state() == (ResolverState {
                ref_props: property_resolution(old(resolver).state(), ov(e.cfg.semantic_type)).1,
                ..old(resolver).state()
            })
        },
{
    if let Some(id) = reg.id_of(name) {
        return id;
    }
    let ghost p0 = pending.entries();
    let mut cfg = match pending.take(name) {
        Some(TypeCfg::Class(c)) => c,
        _ => bare_attribute_class(name, None, None),
    };
    let icon = resolve_icon_field(&cfg.icon_file, icon_names, used);
    cfg.icon_file = icon;
    let type_token = match cfg.type_ {
        Some(t) => attribute_type_token(t.as_str()).to_owned(),
        None => sample.infer_type().anb_token().to_owned(),
    };
    let id = ids.next_id();
    let st = match &cfg.semantic_type {
        Some(x) => Some(x.as_str()),
        None => None,
    };
    let semantic_guid = resolver.resolve_property_name(st);
    let e = AttributeClassEntry { name: name.to_owned(), id: id.clone(), type_token, cfg, semantic_guid };
    let ghost before = reg.items();
    reg.add(e);
    assert(reg.items().drop_last() =~= before);
    proof {
        lemma_apart_add(before, e, p0, pending.entries());
    }
    id
}

/// Register a geographic coordinate class (`Latitude`, `Longitude`): a shown
/// number, resolved against the semantic properties by its name. Gives its id.
pub fn register_geo_class(
    reg: &mut Registry<AttributeClassEntry>,
    ids: &mut IdCounter,
    resolver: &mut SemanticResolver,
    name: &str,
) -> (r: String)
    requires
        old(reg).wf(),
        old(ids).minted() < u64::MAX,
    ensures
        final(reg).wf(),
        registered(old(reg).items(), final(reg).items(), old(ids).minted(), final(ids).minted(), name@, r@),
        lookup(keys(old(reg).items()), name@) is Some ==> final(resolver).state() == old(resolver).state(),
        lookup(keys(old(reg).items()), name@) is None ==> {
            let e = final(reg).items().last();
            &&& bare_class(e.cfg, name@, Some(AttributeType::Number), Some(true))
            &&& e.type_token@ == "AttNumber"@
            &&& ov(e.semantic_guid) == property_resolution(old(resolver).state(), Some(name@)).0
            &&& final(resolver).state() == (ResolverState {
                ref_props: property_resolution(old(resolver).state(), Some(name@)).1,
                ..old(resolver).state()
            })
        },
{
    if let Some(id) = reg.id_of(name) {
        return id;
    }
    let id = ids.next_id();
    let semantic_guid = resolver.resolve_property_name(Some(name));
    let cfg = bare_attribute_class(name, Some(AttributeType::Number), Some(true));
    let e = AttributeClassEntry {
        name: name.to_owned(),
        id: id.clone(),
        type_token: "AttNumber".to_owned(),
        cfg,
        semantic_guid,
    };
    let ghost before = reg.items();
    reg.add(e);
    assert(reg.items().drop_last() =~= before);
    id
}

proof fn lemma_lookup_push(e: Seq<(Seq<char>, Seq<char>)>, x: (Seq<char>, Seq<char>), k: Seq<char>)
    ensures
        lookup(e.push(x), k) == match lookup(e, k) {
            Some(v) => Some(v),
            None => if x.0 == k {
                Some(x.1)
            } else {
                None
            },
        },
    decreases e.len(),
{
    if e.len() == 0 {
        assert(e.push(x).drop_first() =~= e);
    } else {
        lemma_lookup_push(e.drop_first(), x, k);
        assert(e.push(x).drop_first() =~= e.drop_first().push(x));
    }
}

/// Once a name is registered, a lookup of it gives the id it was registered
/// under (so registering it again mints nothing and gives the same id), and
/// every name registered before keeps its id.
pub proof fn registered_names_keep_their_ids<T: Registered>(
    before: Seq<T>,
    after: Seq<T>,
    minted_before: nat,
    minted_after: nat,
    name: Seq<char>,
    r: Seq<char>,
    other: Seq<char>,
)
    requires
        registered(before, after, minted_before, minted_after, name, r),
    ensures
        lookup(keys(after), name) == Some(r),
        lookup(keys(before), other) is Some ==> lookup(keys(after), other) == lookup(keys(before), other),
{
    if lookup(keys(before), name) is None {
        lemma_keys_push(before, after.last());
        assert(after == before.push(after.last()));
        lemma_lookup_push(keys(before), after.last().key(), name);
        lemma_lookup_push(keys(before), after.last().key(), other);
    }
}

/// Registered names differ: a registry built by registration holds each name
/// at most once.
pub open spec fn names_distinct<T: Registered>(s: Seq<T>) -> bool {
    forall|i: int, j: int| 0 <= i < j < s.len() ==> s[i].key().0 != s[j].key().0
}

proof fn lemma_lookup_none_absent(e: Seq<(Seq<char>, Seq<char>)>, k: Seq<char>, i: int)
    requires
        lookup(e, k) is None,
        0 <= i < e.len(),
    ensures
        e[i].0 != k,
    decreases e.len(),
{
    if i > 0 {
        lemma_lookup_none_absent(e.drop_first(), k, i - 1);
    }
}

/// Registration keeps the names of a registry distinct.
pub proof fn registration_keeps_names_distinct<T: Registered>(
    before: Seq<T>,
    after: Seq<T>,
    minted_before: nat,
    minted_after: nat,
    name: Seq<char>,
    r: Seq<char>,
)
    requires
        names_distinct(before),
        registered(before, after, minted_before, minted_after, name, r),
    ensures
        names_distinct(after),
{
    if lookup(keys(before), name) is None {
        assert(after == before.push(after.last()));
        assert forall|i: int, j: int| 0 <= i < j < after.len() implies after[i].key().0 != after[j].key().0 by {
            if j == after.len() - 1 {
                lemma_lookup_none_absent(keys(before), name, i);
                assert(keys(before)[i] == before[i].key());
            } else {
                assert(after[i] == before[i] && after[j] == before[j]);
            }
        }
    }
}

// ── Connection styles ───────────────────────────────────────────────────────

/// A connection style key as plain values.
pub type ConnView = (Option<Seq<char>>, Option<i64>, Option<Seq<char>>);

pub open spec fn conn_view(k: (Option<String>, Option<i64>, Option<String>)) -> ConnView {
    (ov(k.0), k.1, ov(k.2))
}

/// The entries of a connection-style index, in insertion order.
pub uninterp spec fn conn_entries(m: IndexMap<(Option<String>, Option<i64>, Option<String>), String>) -> Seq<(ConnView, Seq<char>)>;

/// The id stored under a connection style, if any.
pub open spec fn conn_lookup(e: Seq<(ConnView, Seq<char>)>, k: ConnView) -> Option<Seq<char>>
    decreases e.len(),
{
    if e.len() == 0 {
        None
    } else if e[0].0 == k {
        Some(e[0].1)
    } else {
        conn_lookup(e.drop_first(), k)
    }
}

/// Calls `IndexMap::new` for a connection-style index.
#[verifier::external_body]
fn conn_index_new() -> (m: IndexMap<(Option<String>, Option<i64>, Option<String>), String>)
    ensures
        conn_entries(m) == Seq::<(ConnView, Seq<char>)>::empty(),
{
    IndexMap::new()
}

/// Calls `IndexMap::get` on a connection-style index (keys compare field by
/// field).
#[verifier::external_body]
fn conn_index_get<'a>(
    m: &'a IndexMap<(Option<String>, Option<i64>, Option<String>), String>,
    k: &(Option<String>, Option<i64>, Option<String>),
) -> (r: Option<&'a String>)
    ensures
        match r {
            Some(v) => conn_lookup(conn_entries(*m), conn_view(*k)) == Some(v@),
            None => conn_lookup(conn_entries(*m), conn_view(*k)) is None,
        },
{
    m.get(k)
}

/// Calls `IndexMap::insert` on a connection-style index with a key that is
/// not there: it goes last.
#[verifier::external_body]
fn conn_index_insert(
    m: &mut IndexMap<(Option<String>, Option<i64>, Option<String>), String>,
    k: (Option<String>, Option<i64>, Option<String>),
    v: String,
)
    requires
        conn_lookup(conn_entries(*old(m)), conn_view(k)) is None,
    ensures
        conn_entries(*final(m)) == conn_entries(*old(m)).push((conn_view(k), v@)),
{
    m.insert(k, v);
}

pub open spec fn entry_conn_key(e: ConnectionEntry) -> ConnView {
    (ov(e.multiplicity), e.fan_out, ov(e.theme_wiring))
}

pub open spec fn conn_keys(s: Seq<ConnectionEntry>) -> Seq<(ConnView, Seq<char>)> {
    s.map_values(|e: ConnectionEntry| (entry_conn_key(e), e.id@))
}

/// The connection styles of a chart, each with its id, in the order first
/// used.
pub struct Connections {
    index: IndexMap<(Option<String>, Option<i64>, Option<String>), String>,
    entries: Vec<ConnectionEntry>,
}

impl Connections {
    pub closed spec fn wf(&self) -> bool {
        conn_entries(self.index) == conn_keys(self.entries@)
    }

    pub closed spec fn items(&self) -> Seq<ConnectionEntry> {
        self.entries@
    }

    pub fn new() -> (r: Self)
        ensures
            r.wf(),
            r.items() == Seq::<ConnectionEntry>::empty(),
    {
        let r = Connections { index: conn_index_new(), entries: Vec::new() };
        assert(conn_keys(r.entries@) =~= Seq::<(ConnView, Seq<char>)>::empty());
        r
    }

    pub fn entries(&self) -> (r: &Vec<ConnectionEntry>)
        ensures
            r@ == self.items(),
    {
        &self.entries
    }
}

/// Register the connection style a link asks for, if any: a style seen
/// before gives its id; a new one gets the next minted id, last.
pub fn register_connection(conns: &mut Connections, ids: &mut IdCounter, l: &Link) -> (r: Option<String>)
    requires
        old(conns).wf(),
        old(ids).minted() < u64::MAX,
    ensures
        final(conns).wf(),
        match conn_key(*l) {
            None => r is None && final(conns).items() == old(conns).items() && final(ids).minted() == old(ids).minted(),
            Some(k) => match conn_lookup(conn_keys(old(conns).items()), k) {
                Some(id) => ov(r) == Some(id) && final(conns).items() == old(conns).items()
                    && final(ids).minted() == old(ids).minted(),
                None => {
                    &&& final(ids).minted() == old(ids).minted() + 1
                    &&& ov(r) == Some(id_text(final(ids).minted()))
                    &&& final(conns).items().drop_last() == old(conns).items()
                    &&& final(conns).items().len() == old(conns).items().len() + 1
                    &&& entry_conn_key(final(conns).items().last()) == k
                    &&& final(conns).items().last().id@ == id_text(final(ids).minted())
                },
            },
        },
{
    let key = match connection_key(l) {
        Some(k) => k,
        None => return None,
    };
    if let Some(id) = conn_index_get(&conns.index, &key) {
        return Some(id.clone());
    }
    let id = ids.next_id();
    let (m, f, t) = key;
    let e = ConnectionEntry { multiplicity: m.clone(), fan_out: f, theme_wiring: t.clone(), id: id.clone() };
    let ghost before = conns.entries@;
    conn_index_insert(&mut conns.index, (m, f, t), id.clone());
    conns.entries.push(e);
    assert(conn_keys(conns.entries@) =~= conn_keys(before).push((entry_conn_key(e), e.id@)));
    assert(conns.entries@.drop_last() =~= before);
    Some(id)
}

// ── Configured collections ──────────────────────────────────────────────────

/// The names and dot-style tokens of the configured strengths that are
/// entered, given the names already entered: each name once, first
/// occurrence first.
pub open spec fn new_strengths(items: Seq<Strength>, known: Seq<Seq<char>>, k: int) -> Seq<(Seq<char>, Seq<char>)>
    decreases k,
{
    if k <= 0 {
        seq![]
    } else {
        let prev = new_strengths(items, known, k - 1);
        let n = items[k - 1].name@;
        if known.contains(n) || prev.map_values(|p: (Seq<char>, Seq<char>)| p.0).contains(n) {
            prev
        } else {
            prev.push((n, dot_style_of(items[k - 1].dot_style.token())))
        }
    }
}

/// The strength entries as `(name, dot token)`.
pub open spec fn strength_view(s: Seq<StrengthEntry>) -> Seq<(Seq<char>, Seq<char>)> {
    s.map_values(|e: StrengthEntry| (e.name@, e.dot_token@))
}

/// The strengths a configuration defines, and its default strength: with a
/// strengths section, a solid `-` first when it names no default, then its
/// strengths (each name once); with none, or when that leaves nothing, a
/// solid `Default`.
pub open spec fn configured_strengths(sc: Option<StrengthCollection>) -> (Seq<(Seq<char>, Seq<char>)>, Option<Seq<char>>) {
    match sc {
        Some(c) => {
            let head: Seq<(Seq<char>, Seq<char>)> = match c.default {
                Some(_) => seq![],
                None => seq![("-"@, "DotStyleSolid"@)],
            };
            let all = head + new_strengths(c.items@, head.map_values(|p: (Seq<char>, Seq<char>)| p.0), c.items@.len() as int);
            let default = match c.default {
                Some(d) => Some(d@),
                None => Some("-"@),
            };
            if all.len() == 0 {
                (seq![("Default"@, "DotStyleSolid"@)], Some("Default"@))
            } else {
                (all, default)
            }
        },
        None => (seq![("Default"@, "DotStyleSolid"@)], Some("Default"@)),
    }
}

/// Each entry's id is the next minted one, from `first` on.
pub open spec fn ids_in_sequence<T: Registered>(s: Seq<T>, first: nat) -> bool {
    forall|i: int| 0 <= i < s.len() ==> #[trigger] s[i].key().1 == id_text((first + i + 1) as nat)
}

/// A key is found exactly when some entry has it.
proof fn lemma_lookup_some_iff(e: Seq<(Seq<char>, Seq<char>)>, k: Seq<char>)
    ensures
        lookup(e, k) is Some <==> e.map_values(|p: (Seq<char>, Seq<char>)| p.0).contains(k),
    decreases e.len(),
{
    let f = |p: (Seq<char>, Seq<char>)| p.0;
    if e.len() > 0 {
        lemma_lookup_some_iff(e.drop_first(), k);
        let m = e.map_values(f);
        let t = e.drop_first().map_values(f);
        assert(t =~= m.drop_first());
        if m.contains(k) && e[0].0 != k {
            let i = choose|i: int| 0 <= i < m.len() && m[i] == k;
            assert(i > 0);
            assert(t[i - 1] == k);
        }
        if t.contains(k) {
            let i = choose|i: int| 0 <= i < t.len() && t[i] == k;
            assert(m[i + 1] == k);
        }
        if e[0].0 == k {
            assert(m[0] == k);
        }
    }
}

proof fn lemma_contains_add(a: Seq<Seq<char>>, b: Seq<Seq<char>>, x: Seq<char>)
    ensures
        (a + b).contains(x) <==> a.contains(x) || b.contains(x),
{
    if a.contains(x) {
        let i = choose|i: int| 0 <= i < a.len() && a[i] == x;
        assert((a + b)[i] == x);
    }
    if b.contains(x) {
        let i = choose|i: int| 0 <= i < b.len() && b[i] == x;
        assert((a + b)[a.len() + i] == x);
    }
    if (a + b).contains(x) {
        let i = choose|i: int| 0 <= i < (a + b).len() && (a + b)[i] == x;
        if i < a.len() {
            assert(a[i] == x);
        } else {
            assert(b[i - a.len()] == x);
        }
    }
}

/// Enter the configured strengths into an empty registry, minting their ids
/// in order. Gives the default strength's name.
pub fn setup_strengths(reg: &mut Registry<StrengthEntry>, ids: &mut IdCounter, sc: &Option<StrengthCollection>) -> (r: Option<String>)
    requires
        old(reg).wf(),
        old(reg).items().len() == 0,
        old(ids).minted() + match sc {
            Some(c) => c.items@.len() + 1,
            None => 1,
        } < u64::MAX,
    ensures
        final(reg).wf(),
        strength_view(final(reg).items()) == configured_strengths(*sc).0,
        ov(r) == configured_strengths(*sc).1,
        final(ids).minted() == old(ids).minted() + final(reg).items().len(),
        ids_in_sequence(final(reg).items(), old(ids).minted()),
{
    let ghost m0 = ids.minted();
    let mut default: Option<String> = None;
    let ghost mut head: Seq<(Seq<char>, Seq<char>)> = seq![];
    match sc {
        Some(c) => {
            match &c.default {
                Some(d) => {
                    default = Some(d.clone());
                },
                None => {
                    let id = ids.next_id();
                    reg.add(StrengthEntry { name: "-".to_owned(), id, dot_token: "DotStyleSolid".to_owned() });
                    default = Some("-".to_owned());
                    proof {
                        head = seq![("-"@, "DotStyleSolid"@)];
                    }
                },
            }
            assert(strength_view(reg.items()) =~= head);
            let ghost known = head.map_values(|p: (Seq<char>, Seq<char>)| p.0);
            for i in 0..c.items.len()
                invariant
                    reg.wf(),
                    strength_view(reg.items()) == head + new_strengths(c.items@, known, i as int),
                    known == head.map_values(|p: (Seq<char>, Seq<char>)| p.0),
                    ids.minted() == m0 + reg.items().len(),
                    reg.items().len() <= i + 1,
                    m0 + c.items@.len() + 1 < u64::MAX,
                    ids_in_sequence(reg.items(), m0),
            {
                let item = &c.items[i];
                let ghost prev = new_strengths(c.items@, known, i as int);
                let ghost n = item.name@;
                proof {
                    let items = reg.items();
                    assert(keys(items).map_values(|p: (Seq<char>, Seq<char>)| p.0) =~= strength_view(items).map_values(
                        |p: (Seq<char>, Seq<char>)| p.0,
                    ));
                    assert((head + prev).map_values(|p: (Seq<char>, Seq<char>)| p.0) =~= known + prev.map_values(
                        |p: (Seq<char>, Seq<char>)| p.0,
                    ));
                    lemma_lookup_some_iff(keys(items), n);
                    lemma_contains_add(known, prev.map_values(|p: (Seq<char>, Seq<char>)| p.0), n);
                }
                if reg.id_of(item.name.as_str()).is_none() {
                    let id = ids.next_id();
                    let e = StrengthEntry {
                        name: item.name.clone(),
                        id,
                        dot_token: dot_style_token(item.dot_style.as_str()).to_owned(),
                    };
                    let ghost before = reg.items();
                    reg.add(e);
                    proof {
                        assert(strength_view(reg.items()) =~= strength_view(before).push((e.name@, e.dot_token@)));
                        assert forall|j: int| 0 <= j < reg.items().len() implies #[trigger] reg.items()[j].key().1 == id_text(
                            (m0 + j + 1) as nat,
                        ) by {
                            if j < before.len() {
                                assert(reg.items()[j] == before[j]);
                            }
                        }
                    }
                }
                assert(strength_view(reg.items()) =~= head + new_strengths(c.items@, known, i + 1));
            }
        },
        None => {},
    }
    if reg.entries().len() == 0 {
        let id = ids.next_id();
        reg.add(StrengthEntry { name: "Default".to_owned(), id, dot_token: "DotStyleSolid".to_owned() });
        default = Some("Default".to_owned());
        assert(strength_view(reg.items()) =~= seq![("Default"@, "DotStyleSolid"@)]);
    }
    default
}

/// Mint an id for each string, in order.
pub fn string_ids(ids: &mut IdCounter, items: Vec<String>) -> (r: StringCollection)
    requires
        old(ids).minted() + items@.len() < u64::MAX,
    ensures
        r.items@ == items@,
        r.ids@.len() == items@.len(),
        forall|i: int| 0 <= i < items@.len() ==> #[trigger] r.ids@[i]@ == id_text((old(ids).minted() + i + 1) as nat),
        final(ids).minted() == old(ids).minted() + items@.len(),
{
    let mut out: Vec<String> = Vec::new();
    for i in 0..items.len()
        invariant
            ids.minted() == old(ids).minted() + i,
            old(ids).minted() + items@.len() < u64::MAX,
            out@.len() == i,
            forall|k: int| 0 <= k < i ==> #[trigger] out@[k]@ == id_text((old(ids).minted() + k + 1) as nat),
    {
        out.push(ids.next_id());
    }
    StringCollection { items, ids: out }
}

/// Enter the configured date-time formats, minting their ids in order.
pub fn setup_datetime_formats(ids: &mut IdCounter, formats: &Vec<DateTimeFormat>) -> (r: Vec<DateTimeFormatEntry>)
    requires
        old(ids).minted() + formats@.len() < u64::MAX,
    ensures
        r@.len() == formats@.len(),
        forall|i: int|
            0 <= i < formats@.len() ==> {
                &&& (#[trigger] r@[i]).id@ == id_text((old(ids).minted() + i + 1) as nat)
                &&& r@[i].name@ == formats@[i].name@
                &&& r@[i].format@ == formats@[i].format@
            },
        final(ids).minted() == old(ids).minted() + formats@.len(),
{
    let mut out: Vec<DateTimeFormatEntry> = Vec::new();
    for i in 0..formats.len()
        invariant
            ids.minted() == old(ids).minted() + i,
            old(ids).minted() + formats@.len() < u64::MAX,
            out@.len() == i,
            forall|k: int|
                0 <= k < i ==> {
                    &&& (#[trigger] out@[k]).id@ == id_text((old(ids).minted() + k + 1) as nat)
                    &&& out@[k].name@ == formats@[k].name@
                    &&& out@[k].format@ == formats@[k].format@
                },
    {
        let id = ids.next_id();
        out.push(DateTimeFormatEntry { id, name: formats[i].name.clone(), format: formats[i].format.clone() });
    }
    out
}

// ── Configured types ────────────────────────────────────────────────────────

/// Every waiting configuration is of one kind.
pub open spec fn all_entities(p: Seq<(Seq<char>, TypeCfg)>) -> bool {
    forall|i: int| 0 <= i < p.len() ==> #[trigger] p[i].1 is Entity
}

pub open spec fn all_links(p: Seq<(Seq<char>, TypeCfg)>) -> bool {
    forall|i: int| 0 <= i < p.len() ==> #[trigger] p[i].1 is Link
}

pub open spec fn all_classes(p: Seq<(Seq<char>, TypeCfg)>) -> bool {
    forall|i: int| 0 <= i < p.len() ==> #[trigger] p[i].1 is Class
}

/// The filed configurations of the first `k` of `cs`, each under its name.
pub open spec fn filed(cs: Seq<TypeCfg>, k: int) -> Seq<(Seq<char>, TypeCfg)>
    decreases k,
{
    if k <= 0 {
        seq![]
    } else {
        upsert(filed(cs, k - 1), cfg_name(cs[k - 1]), cs[k - 1])
    }
}

proof fn lemma_upsert_kind(e: Seq<(Seq<char>, TypeCfg)>, k: Seq<char>, v: TypeCfg, i: int)
    requires
        0 <= i < upsert(e, k, v).len(),
    ensures
        upsert(e, k, v)[i].1 == v || exists|m: int| 0 <= m < e.len() && e[m] == upsert(e, k, v)[i],
    decreases e.len(),
{
    if e.len() > 0 && e[0].0 != k {
        if i > 0 {
            lemma_upsert_kind(e.drop_first(), k, v, i - 1);
            let u = upsert(e.drop_first(), k, v);
            assert(upsert(e, k, v)[i] == u[i - 1]);
            if u[i - 1].1 != v {
                let m = choose|m: int| 0 <= m < e.drop_first().len() && e.drop_first()[m] == u[i - 1];
                assert(e[m + 1] == u[i - 1]);
            }
        } else {
            assert(upsert(e, k, v)[0] == e[0]);
        }
    } else if e.len() > 0 {
        if i > 0 {
            assert(upsert(e, k, v)[i] == e[i]);
        }
    }
}

/// File configured entity types, in order; a later one with the same name
/// replaces the earlier in its place.
pub fn file_entity_types(ts: Vec<EntityType>) -> (p: Pending)
    ensures
        p.wf(),
        all_entities(p.entries()),
        p.entries() == filed(ts@.map_values(|t: EntityType| TypeCfg::Entity(t)), ts@.len() as int),
{
    let ghost cs = ts@.map_values(|t: EntityType| TypeCfg::Entity(t));
    let total = ts.len();
    let ghost n = ts@.len();
    assert(n == total);
    let mut rest = ts;
    let mut p = Pending::new();
    let mut k: usize = 0;
    while rest.len() > 0
        invariant
            p.wf(),
            all_entities(p.entries()),
            k + rest@.len() == n,
            n <= usize::MAX,
            cs.len() == n,
            forall|i: int| 0 <= i < rest@.len() ==> cs[k + i] == TypeCfg::Entity(#[trigger] rest@[i]),
            p.entries() == filed(cs, k as int),
        decreases rest@.len(),
    {
        let ghost r0 = rest@;
        let t = rest.remove(0);
        assert(cs[k as int] == TypeCfg::Entity(t));
        let name = t.name.clone();
        let ghost before = p.entries();
        p.put(name, TypeCfg::Entity(t));
        proof {
            assert forall|i: int| 0 <= i < p.entries().len() implies #[trigger] p.entries()[i].1 is Entity by {
                lemma_upsert_kind(before, t.name@, TypeCfg::Entity(t), i);
            }
            assert forall|i: int| 0 <= i < rest@.len() implies cs[k + 1 + i] == TypeCfg::Entity(#[trigger] rest@[i]) by {
                assert(rest@[i] == r0[i + 1]);
            }
        }
        k = k + 1;
    }
    p
}

/// File configured link types, as [`file_entity_types`] does.
pub fn file_link_types(ts: Vec<LinkType>) -> (p: Pending)
    ensures
        p.wf(),
        all_links(p.entries()),
        p.entries() == filed(ts@.map_values(|t: LinkType| TypeCfg::Link(t)), ts@.len() as int),
{
    let ghost cs = ts@.map_values(|t: LinkType| TypeCfg::Link(t));
    let total = ts.len();
    let ghost n = ts@.len();
    assert(n == total);
    let mut rest = ts;
    let mut p = Pending::new();
    let mut k: usize = 0;
    while rest.len() > 0
        invariant
            p.wf(),
            all_links(p.entries()),
            k + rest@.len() == n,
            n <= usize::MAX,
            cs.len() == n,
            forall|i: int| 0 <= i < rest@.len() ==> cs[k + i] == TypeCfg::Link(#[trigger] rest@[i]),
            p.entries() == filed(cs, k as int),
        decreases rest@.len(),
    {
        let ghost r0 = rest@;
        let t = rest.remove(0);
        assert(cs[k as int] == TypeCfg::Link(t));
        let name = t.name.clone();
        let ghost before = p.entries();
        p.put(name, TypeCfg::Link(t));
        proof {
            assert forall|i: int| 0 <= i < p.entries().len() implies #[trigger] p.entries()[i].1 is Link by {
                lemma_upsert_kind(before, t.name@, TypeCfg::Link(t), i);
            }
            assert forall|i: int| 0 <= i < rest@.len() implies cs[k + 1 + i] == TypeCfg::Link(#[trigger] rest@[i]) by {
                assert(rest@[i] == r0[i + 1]);
            }
        }
        k = k + 1;
    }
    p
}

/// File configured attribute classes, as [`file_entity_types`] does.
pub fn file_attribute_classes(ts: Vec<AttributeClass>) -> (p: Pending)
    ensures
        p.wf(),
        all_classes(p.entries()),
        p.entries() == filed(ts@.map_values(|t: AttributeClass| TypeCfg::Class(t)), ts@.len() as int),
{
    let ghost cs = ts@.map_values(|t: AttributeClass| TypeCfg::Class(t));
    let total = ts.len();
    let ghost n = ts@.len();
    assert(n == total);
    let mut rest = ts;
    let mut p = Pending::new();
    let mut k: usize = 0;
    while rest.len() > 0
        invariant
            p.wf(),
            all_classes(p.entries()),
            k + rest@.len() == n,
            n <= usize::MAX,
            cs.len() == n,
            forall|i: int| 0 <= i < rest@.len() ==> cs[k + i] == TypeCfg::Class(#[trigger] rest@[i]),
            p.entries() == filed(cs, k as int),
        decreases rest@.len(),
    {
        let ghost r0 = rest@;
        let t = rest.remove(0);
        assert(cs[k as int] == TypeCfg::Class(t));
        let name = t.name.clone();
        let ghost before = p.entries();
        p.put(name, TypeCfg::Class(t));
        proof {
            assert forall|i: int| 0 <= i < p.entries().len() implies #[trigger] p.entries()[i].1 is Class by {
                lemma_upsert_kind(before, t.name@, TypeCfg::Class(t), i);
            }
            assert forall|i: int| 0 <= i < rest@.len() implies cs[k + 1 + i] == TypeCfg::Class(#[trigger] rest@[i]) by {
                assert(rest@[i] == r0[i + 1]);
            }
        }
        k = k + 1;
    }
    p
}

// ── Configured types never referenced ───────────────────────────────────────

/// The semantic types the waiting configurations name.
pub open spec fn cfg_semantic(c: TypeCfg) -> Option<Seq<char>> {
    match c {
        TypeCfg::Entity(t) => ov(t.semantic_type),
        TypeCfg::Link(t) => ov(t.semantic_type),
        TypeCfg::Class(t) => ov(t.semantic_type),
    }
}

/// The icon the waiting configurations name.
pub open spec fn cfg_icon(c: TypeCfg) -> Option<Seq<char>> {
    match c {
        TypeCfg::Entity(t) => ov(t.icon_file),
        TypeCfg::Class(t) => ov(t.icon_file),
        TypeCfg::Link(_) => None,
    }
}

/// The resolver state after resolving the semantic types of the first `k`
/// configurations, in order (as types, or as properties).
pub open spec fn resolved_through(st: ResolverState, p: Seq<(Seq<char>, TypeCfg)>, k: int, props: bool) -> ResolverState
    decreases k,
{
    if k <= 0 {
        st
    } else {
        let s1 = resolved_through(st, p, k - 1, props);
        if props {
            ResolverState { ref_props: property_resolution(s1, cfg_semantic(p[k - 1].1)).1, ..s1 }
        } else {
            ResolverState { ref_types: type_resolution(s1, cfg_semantic(p[k - 1].1)).1, ..s1 }
        }
    }
}

/// The semantic GUID the `k`-th configuration resolves to, in order.
pub open spec fn guid_at(st: ResolverState, p: Seq<(Seq<char>, TypeCfg)>, k: int, props: bool) -> Option<Seq<char>> {
    let s1 = resolved_through(st, p, k, props);
    if props {
        property_resolution(s1, cfg_semantic(p[k].1)).0
    } else {
        type_resolution(s1, cfg_semantic(p[k].1)).0
    }
}

/// The used custom icons after resolving the icons of the first `k`
/// configurations.
pub open spec fn used_through(names: Seq<(Seq<char>, Seq<char>)>, used: Seq<Seq<char>>, p: Seq<(Seq<char>, TypeCfg)>, k: int) -> Seq<Seq<char>>
    decreases k,
{
    if k <= 0 {
        used
    } else {
        used_after(names, used_through(names, used, p, k - 1), cfg_icon(p[k - 1].1))
    }
}

/// An entry made from waiting configuration `c`: its name, the id minted
/// for it, and the configuration with its icon resolved.
pub open spec fn entity_entry_of(e: EntityTypeEntry, c: EntityType, id: Seq<char>, names: Seq<(Seq<char>, Seq<char>)>) -> bool {
    &&& e.key() == (c.name@, id)
    &&& e.cfg.name == c.name && e.cfg.color == c.color && e.cfg.shade_color == c.shade_color
    &&& e.cfg.representation == c.representation && e.cfg.semantic_type == c.semantic_type
    &&& e.cfg.enforce == c.enforce
    &&& ov(e.cfg.icon_file) == match ov(c.icon_file) {
        Some(i) => Some(custom_icon(names, i)),
        None => None,
    }
}

proof fn lemma_rest_apart(p: Seq<(Seq<char>, TypeCfg)>)
    requires
        p.len() > 0,
        distinct_keys(p),
    ensures
        lookup(p, p[0].0) is Some,
        forall|x: Seq<char>| #[trigger] lookup(p.drop_first(), x) is Some ==> lookup(p, x) is Some && x != p[0].0,
{
    crate::pending::lemma_lookup_at(p, 0);
    assert forall|x: Seq<char>| #[trigger] lookup(p.drop_first(), x) is Some implies lookup(p, x) is Some && x != p[0].0 by {
        crate::pending::lemma_lookup_index(p.drop_first(), x);
        let m = choose|m: int| 0 <= m < p.drop_first().len() && p.drop_first()[m].0 == x;
        assert(p[m + 1].0 == x);
    }
}

/// Register the configured entity types never referenced, in configuration
/// order, each under the next minted id.
pub fn register_remaining_entity_types(
    reg: &mut Registry<EntityTypeEntry>,
    pending: &mut Pending,
    ids: &mut IdCounter,
    resolver: &mut SemanticResolver,
    icon_names: &IndexMap<String, String>,
    used: &mut IndexSet<String>,
)
    requires
        old(reg).wf(),
        old(pending).wf(),
        apart(old(reg).items(), old(pending).entries()),
        old(ids).minted() + old(pending).entries().len() < u64::MAX,
    ensures
        final(reg).wf(),
        final(pending).wf(),
        apart(final(reg).items(), final(pending).entries()),
        final(ids).minted() <= old(ids).minted() + old(pending).entries().len(),
        all_entities(old(pending).entries()) ==> (final(pending).entries().len() == 0),
        all_entities(old(pending).entries()) ==> (final(reg).items().len() == old(reg).items().len() + old(pending).entries().len()),
        all_entities(old(pending).entries()) ==> (final(reg).items().take(old(reg).items().len() as int) == old(reg).items()),
        all_entities(old(pending).entries()) ==> (final(ids).minted() == old(ids).minted() + old(pending).entries().len()),
        all_entities(old(pending).entries()) ==> (forall|i: int|
            0 <= i < old(pending).entries().len() ==> {
                let e = #[trigger] final(reg).items()[old(reg).items().len() + i];
                &&& entity_entry_of(
                    e,
                    entity_cfg(Some(old(pending).entries()[i].1))->0,
                    id_text((old(ids).minted() + i + 1) as nat),
                    mapping_entries(*icon_names),
                )
                &&& ov(e.semantic_guid) == guid_at(old(resolver).state(), old(pending).entries(), i, false)
            }),
        all_entities(old(pending).entries()) ==> (final(resolver).state() == resolved_through(
            old(resolver).state(),
            old(pending).entries(),
            old(pending).entries().len() as int,
            false,
        )),
        all_entities(old(pending).entries()) ==> (string_set_entries(*final(used)) == used_through(
            mapping_entries(*icon_names),
            string_set_entries(*old(used)),
            old(pending).entries(),
            old(pending).entries().len() as int,
        )),
{
    let ghost p0 = pending.entries();
    let ghost r0 = reg.items();
    let ghost m0 = ids.minted();
    let ghost s0 = resolver.state();
    let ghost u0 = string_set_entries(*used);
    let ghost names = mapping_entries(*icon_names);
    let mut k: u64 = 0;
    while !pending.is_empty()
        invariant
            reg.wf(),
            pending.wf(),
            k <= p0.len(),
            p0 == old(pending).entries(),
            m0 == old(ids).minted(),
            pending.entries() == p0.skip(k as int),
            apart(reg.items(), pending.entries()),
            reg.items().len() == r0.len() + k,
            reg.items().take(r0.len() as int) == r0,
            ids.minted() == m0 + k,
            m0 + p0.len() < u64::MAX,
            names == mapping_entries(*icon_names),
            forall|i: int|
                0 <= i < k ==> {
                    let e = #[trigger] reg.items()[r0.len() + i];
                    &&& entity_entry_of(e, entity_cfg(Some(p0[i].1))->0, id_text((m0 + i + 1) as nat), names)
                    &&& ov(e.semantic_guid) == guid_at(s0, p0, i, false)
                },
            resolver.state() == resolved_through(s0, p0, k as int, false),
            string_set_entries(*used) == used_through(names, u0, p0, k as int),
        decreases p0.len() - k,
    {
        let ghost pk = pending.entries();
        proof {
            lemma_rest_apart(pk);
            assert(pk[0] == p0[k as int]);
        }
        let (key, c) = match pending.take_first() {
            Some(x) => x,
            None => {
                assert(false);
                return;
            },
        };
        let mut cfg = match c {
            TypeCfg::Entity(t) => t,
            _ => {
                proof { assert(!(p0[k as int].1 is Entity)); }
                return;
            },
        };
        let icon = resolve_icon_field(&cfg.icon_file, icon_names, used);
        cfg.icon_file = icon;
        let id = ids.next_id();
        let st = match &cfg.semantic_type {
            Some(x) => Some(x.as_str()),
            None => None,
        };
        let semantic_guid = resolver.resolve_type_name(st);
        let e = EntityTypeEntry { name: cfg.name.clone(), id, cfg, semantic_guid };
        let ghost before = reg.items();
        assert(cfg_name(pk[0].1) == pk[0].0);
        reg.add(e);
        proof {
            lemma_apart_add(before, e, pk, pending.entries());
            assert(pending.entries() =~= p0.skip(k + 1));
            assert forall|i: int| 0 <= i < k + 1 implies {
                let e2 = #[trigger] reg.items()[r0.len() + i];
                &&& entity_entry_of(e2, entity_cfg(Some(p0[i].1))->0, id_text((m0 + i + 1) as nat), names)
                &&& ov(e2.semantic_guid) == guid_at(s0, p0, i, false)
            } by {
                if i < k {
                    assert(reg.items()[r0.len() + i] == before[r0.len() + i]);
                }
            }
            assert(reg.items().take(r0.len() as int) =~= before.take(r0.len() as int));
        }
        k = k + 1;
    }
    proof {
        assert(p0.skip(k as int).len() == 0);
    }
}

/// Register the configured link types never referenced, in configuration
/// order, each under the next minted id.
pub fn register_remaining_link_types(
    reg: &mut Registry<LinkTypeEntry>,
    pending: &mut Pending,
    ids: &mut IdCounter,
    resolver: &mut SemanticResolver,
)
    requires
        old(reg).wf(),
        old(pending).wf(),
        apart(old(reg).items(), old(pending).entries()),
        old(ids).minted() + old(pending).entries().len() < u64::MAX,
    ensures
        final(reg).wf(),
        final(pending).wf(),
        apart(final(reg).items(), final(pending).entries()),
        final(ids).minted() <= old(ids).minted() + old(pending).entries().len(),
        all_links(old(pending).entries()) ==> (final(pending).entries().len() == 0),
        all_links(old(pending).entries()) ==> (final(reg).items().len() == old(reg).items().len() + old(pending).entries().len()),
        all_links(old(pending).entries()) ==> (final(reg).items().take(old(reg).items().len() as int) == old(reg).items()),
        all_links(old(pending).entries()) ==> (final(ids).minted() == old(ids).minted() + old(pending).entries().len()),
        all_links(old(pending).entries()) ==> (forall|i: int|
            0 <= i < old(pending).entries().len() ==> {
                let e = #[trigger] final(reg).items()[old(reg).items().len() + i];
                &&& e.key() == (link_cfg(Some(old(pending).entries()[i].1))->0.name@, id_text((old(ids).minted() + i + 1) as nat))
                &&& e.cfg == link_cfg(Some(old(pending).entries()[i].1))->0
                &&& ov(e.semantic_guid) == guid_at(old(resolver).state(), old(pending).entries(), i, false)
            }),
        all_links(old(pending).entries()) ==> (final(resolver).state() == resolved_through(
            old(resolver).state(),
            old(pending).entries(),
            old(pending).entries().len() as int,
            false,
        )),
{
    let ghost p0 = pending.entries();
    let ghost r0 = reg.items();
    let ghost m0 = ids.minted();
    let ghost s0 = resolver.state();
    let mut k: u64 = 0;
    while !pending.is_empty()
        invariant
            reg.wf(),
            pending.wf(),
            k <= p0.len(),
            p0 == old(pending).entries(),
            m0 == old(ids).minted(),
            pending.entries() == p0.skip(k as int),
            apart(reg.items(), pending.entries()),
            reg.items().len() == r0.len() + k,
            reg.items().take(r0.len() as int) == r0,
            ids.minted() == m0 + k,
            m0 + p0.len() < u64::MAX,
            forall|i: int|
                0 <= i < k ==> {
                    let e = #[trigger] reg.items()[r0.len() + i];
                    &&& e.key() == (link_cfg(Some(p0[i].1))->0.name@, id_text((m0 + i + 1) as nat))
                    &&& e.cfg == link_cfg(Some(p0[i].1))->0
                    &&& ov(e.semantic_guid) == guid_at(s0, p0, i, false)
                },
            resolver.state() == resolved_through(s0, p0, k as int, false),
        decreases p0.len() - k,
    {
        let ghost pk = pending.entries();
        proof {
            lemma_rest_apart(pk);
            assert(pk[0] == p0[k as int]);
        }
        let (key, c) = match pending.take_first() {
            Some(x) => x,
            None => {
                assert(false);
                return;
            },
        };
        let cfg = match c {
            TypeCfg::Link(t) => t,
            _ => {
                proof { assert(!(p0[k as int].1 is Link)); }
                return;
            },
        };
        let id = ids.next_id();
        let st = match &cfg.semantic_type {
            Some(x) => Some(x.as_str()),
            None => None,
        };
        let semantic_guid = resolver.resolve_type_name(st);
        let e = LinkTypeEntry { name: cfg.name.clone(), id, cfg, semantic_guid };
        let ghost before = reg.items();
        assert(cfg_name(pk[0].1) == pk[0].0);
        reg.add(e);
        proof {
            lemma_apart_add(before, e, pk, pending.entries());
            assert(pending.entries() =~= p0.skip(k + 1));
            assert forall|i: int| 0 <= i < k + 1 implies {
                let e2 = #[trigger] reg.items()[r0.len() + i];
                &&& e2.key() == (link_cfg(Some(p0[i].1))->0.name@, id_text((m0 + i + 1) as nat))
                &&& e2.cfg == link_cfg(Some(p0[i].1))->0
                &&& ov(e2.semantic_guid) == guid_at(s0, p0, i, false)
            } by {
                if i < k {
                    assert(reg.items()[r0.len() + i] == before[r0.len() + i]);
                }
            }
            assert(reg.items().take(r0.len() as int) =~= before.take(r0.len() as int));
        }
        k = k + 1;
    }
    proof {
        assert(p0.skip(k as int).len() == 0);
    }
}

/// An entry made from a waiting attribute class: its name, the id minted
/// for it, its type's token (`AttText` when it has none), and the
/// configuration with its icon resolved.
pub open spec fn class_entry_of(e: AttributeClassEntry, c: AttributeClass, id: Seq<char>, names: Seq<(Seq<char>, Seq<char>)>) -> bool {
    &&& e.key() == (c.name@, id)
    &&& e.type_token@ == match c.type_ {
        Some(t) => attribute_type_of(t.token()),
        None => "AttText"@,
    }
    &&& same_but_icon(e.cfg, c)
    &&& ov(e.cfg.icon_file) == match ov(c.icon_file) {
        Some(i) => Some(custom_icon(names, i)),
        None => None,
    }
}

/// Register the configured attribute classes never referenced, in configuration
/// order, each under the next minted id.
pub fn register_remaining_attribute_classes(
    reg: &mut Registry<AttributeClassEntry>,
    pending: &mut Pending,
    ids: &mut IdCounter,
    resolver: &mut SemanticResolver,
    icon_names: &IndexMap<String, String>,
    used: &mut IndexSet<String>,
)
    requires
        old(reg).wf(),
        old(pending).wf(),
        apart(old(reg).items(), old(pending).entries()),
        old(ids).minted() + old(pending).entries().len() < u64::MAX,
    ensures
        final(reg).wf(),
        final(pending).wf(),
        apart(final(reg).items(), final(pending).entries()),
        final(ids).minted() <= old(ids).minted() + old(pending).entries().len(),
        all_classes(old(pending).entries()) ==> (final(pending).entries().len() == 0),
        all_classes(old(pending).entries()) ==> (final(reg).items().len() == old(reg).items().len() + old(pending).entries().len()),
        all_classes(old(pending).entries()) ==> (final(reg).items().take(old(reg).items().len() as int) == old(reg).items()),
        all_classes(old(pending).entries()) ==> (final(ids).minted() == old(ids).minted() + old(pending).entries().len()),
        all_classes(old(pending).entries()) ==> (forall|i: int|
            0 <= i < old(pending).entries().len() ==> {
                let e = #[trigger] final(reg).items()[old(reg).items().len() + i];
                &&& class_entry_of(
                    e,
                    class_cfg(Some(old(pending).entries()[i].1))->0,
                    id_text((old(ids).minted() + i + 1) as nat),
                    mapping_entries(*icon_names),
                )
                &&& ov(e.semantic_guid) == guid_at(old(resolver).state(), old(pending).entries(), i, true)
            }),
        all_classes(old(pending).entries()) ==> (final(resolver).state() == resolved_through(
            old(resolver).state(),
            old(pending).entries(),
            old(pending).entries().len() as int,
            true,
        )),
        all_classes(old(pending).entries()) ==> (string_set_entries(*final(used)) == used_through(
            mapping_entries(*icon_names),
            string_set_entries(*old(used)),
            old(pending).entries(),
            old(pending).entries().len() as int,
        )),
{
    let ghost p0 = pending.entries();
    let ghost r0 = reg.items();
    let ghost m0 = ids.minted();
    let ghost s0 = resolver.state();
    let ghost u0 = string_set_entries(*used);
    let ghost names = mapping_entries(*icon_names);
    let mut k: u64 = 0;
    while !pending.is_empty()
        invariant
            reg.wf(),
            pending.wf(),
            k <= p0.len(),
            p0 == old(pending).entries(),
            m0 == old(ids).minted(),
            pending.entries() == p0.skip(k as int),
            apart(reg.items(), pending.entries()),
            reg.items().len() == r0.len() + k,
            reg.items().take(r0.len() as int) == r0,
            ids.minted() == m0 + k,
            m0 + p0.len() < u64::MAX,
            names == mapping_entries(*icon_names),
            forall|i: int|
                0 <= i < k ==> {
                    let e = #[trigger] reg.items()[r0.len() + i];
                    &&& class_entry_of(e, class_cfg(Some(p0[i].1))->0, id_text((m0 + i + 1) as nat), names)
                    &&& ov(e.semantic_guid) == guid_at(s0, p0, i, true)
                },
            resolver.state() == resolved_through(s0, p0, k as int, true),
            string_set_entries(*used) == used_through(names, u0, p0, k as int),
        decreases p0.len() - k,
    {
        let ghost pk = pending.entries();
        proof {
            lemma_rest_apart(pk);
            assert(pk[0] == p0[k as int]);
        }
        let (key, c) = match pending.take_first() {
            Some(x) => x,
            None => {
                assert(false);
                return;
            },
        };
        let mut cfg = match c {
            TypeCfg::Class(t) => t,
            _ => {
                proof { assert(!(p0[k as int].1 is Class)); }
                return;
            },
        };
        let icon = resolve_icon_field(&cfg.icon_file, icon_names, used);
        cfg.icon_file = icon;
        let id = ids.next_id();
        let st = match &cfg.semantic_type {
            Some(x) => Some(x.as_str()),
            None => None,
        };
        let semantic_guid = resolver.resolve_property_name(st);
        let type_token = match cfg.type_ {
            Some(t) => attribute_type_token(t.as_str()).to_owned(),
            None => "AttText".to_owned(),
        };
        let e = AttributeClassEntry { name: cfg.name.clone(), id, type_token, cfg, semantic_guid };
        let ghost before = reg.items();
        assert(cfg_name(pk[0].1) == pk[0].0);
        reg.add(e);
        proof {
            lemma_apart_add(before, e, pk, pending.entries());
            assert(pending.entries() =~= p0.skip(k + 1));
            assert forall|i: int| 0 <= i < k + 1 implies {
                let e2 = #[trigger] reg.items()[r0.len() + i];
                &&& class_entry_of(e2, class_cfg(Some(p0[i].1))->0, id_text((m0 + i + 1) as nat), names)
                &&& ov(e2.semantic_guid) == guid_at(s0, p0, i, true)
            } by {
                if i < k {
                    assert(reg.items()[r0.len() + i] == before[r0.len() + i]);
                }
            }
            assert(reg.items().take(r0.len() as int) =~= before.take(r0.len() as int));
        }
        k = k + 1;
    }
    proof {
        assert(p0.skip(k as int).len() == 0);
    }
}

// ── Attribute lists ─────────────────────────────────────────────────────────

/// Resolve an attribute list against the registered classes, without
/// registering: each attribute with its class id (empty when its class is
/// not registered) and its value as written.
pub fn lookup_attrs(reg: &Registry<AttributeClassEntry>, attrs: &IndexMap<String, AttrValue>) -> (r: Vec<ResolvedAttr>)
    requires
        reg.wf(),
    ensures
        r@.len() == attr_entries(*attrs).len(),
        forall|i: int|
            0 <= i < r@.len() ==> {
                &&& (#[trigger] r@[i]).class@ == attr_entries(*attrs)[i].0
                &&& r@[i].reference@ == match lookup(keys(reg.items()), attr_entries(*attrs)[i].0) {
                    Some(id) => id,
                    None => Seq::<char>::empty(),
                }
                &&& ov(r@[i].value) == Some(rendered(attr_entries(*attrs)[i].1))
            },
{
    let n = attr_count(attrs);
    let mut out: Vec<ResolvedAttr> = Vec::new();
    for i in 0..n
        invariant
            n == attr_entries(*attrs).len(),
            reg.wf(),
            out@.len() == i,
            forall|k: int|
                0 <= k < i ==> {
                    &&& (#[trigger] out@[k]).class@ == attr_entries(*attrs)[k].0
                    &&& out@[k].reference@ == match lookup(keys(reg.items()), attr_entries(*attrs)[k].0) {
                        Some(id) => id,
                        None => Seq::<char>::empty(),
                    }
                    &&& ov(out@[k].value) == Some(rendered(attr_entries(*attrs)[k].1))
                },
    {
        let (name, value) = attr_at(attrs, i);
        let reference = match reg.id_of(name.as_str()) {
            Some(id) => id,
            None => String::new(),
        };
        out.push(ResolvedAttr { class: name.clone(), reference, value: Some(value.render()) });
    }
    out
}

/// Two resolver states hold the same tables (they may differ in what they
/// have recorded as referenced).
pub open spec fn same_tables(a: ResolverState, b: ResolverState) -> bool {
    a.entities == b.entities && a.links == b.links && a.properties == b.properties && a.guid_to_name == b.guid_to_name
}

/// The names of an attribute list, in order.
pub open spec fn attr_names(e: Seq<(Seq<char>, AttrValue)>) -> Seq<Seq<char>> {
    e.map_values(|p: (Seq<char>, AttrValue)| p.0)
}

/// Resolve an attribute list, registering each attribute's class on first
/// use (in list order): each attribute with the id its class is registered
/// under and its value as written.
pub fn resolve_attrs(
    reg: &mut Registry<AttributeClassEntry>,
    pending: &mut Pending,
    ids: &mut IdCounter,
    resolver: &mut SemanticResolver,
    icon_names: &IndexMap<String, String>,
    used: &mut IndexSet<String>,
    attrs: &IndexMap<String, AttrValue>,
) -> (r: Vec<ResolvedAttr>)
    requires
        old(reg).wf(),
        old(pending).wf(),
        apart(old(reg).items(), old(pending).entries()),
        old(ids).minted() + attr_entries(*attrs).len() < u64::MAX,
    ensures
        final(reg).wf(),
        final(pending).wf(),
        apart(final(reg).items(), final(pending).entries()),
        r@.len() == attr_entries(*attrs).len(),
        forall|i: int|
            0 <= i < r@.len() ==> {
                &&& (#[trigger] r@[i]).class@ == attr_entries(*attrs)[i].0
                &&& ov(r@[i].value) == Some(rendered(attr_entries(*attrs)[i].1))
                &&& lookup(keys(final(reg).items()), attr_entries(*attrs)[i].0) == Some(r@[i].reference@)
            },
        final(reg).items().take(old(reg).items().len() as int) == old(reg).items(),
        same_tables(final(resolver).state(), old(resolver).state()),
        final(resolver).state().ref_types == old(resolver).state().ref_types,
        final(ids).minted() == old(ids).minted() + (final(reg).items().len() - old(reg).items().len()),
        forall|j: int|
            old(reg).items().len() <= j < final(reg).items().len() ==> (#[trigger] final(reg).items()[j]).key().1
                == id_text((old(ids).minted() + (j - old(reg).items().len()) + 1) as nat),
        forall|j: int|
            old(reg).items().len() <= j < final(reg).items().len() ==> attr_names(attr_entries(*attrs)).contains(
                (#[trigger] final(reg).items()[j]).key().0,
            ),
{
    let n = attr_count(attrs);
    let ghost e = attr_entries(*attrs);
    let ghost r0 = reg.items();
    let ghost m0 = ids.minted();
    let ghost s0 = resolver.state();
    let mut out: Vec<ResolvedAttr> = Vec::new();
    for i in 0..n
        invariant
            n == e.len(),
            e == attr_entries(*attrs),
            reg.wf(),
            pending.wf(),
            apart(reg.items(), pending.entries()),
            m0 + n < u64::MAX,
            out@.len() == i,
            reg.items().len() >= r0.len(),
            reg.items().len() - r0.len() <= i,
            reg.items().take(r0.len() as int) == r0,
            same_tables(resolver.state(), s0),
            resolver.state().ref_types == s0.ref_types,
            ids.minted() == m0 + (reg.items().len() - r0.len()),
            forall|k: int|
                0 <= k < i ==> {
                    &&& (#[trigger] out@[k]).class@ == e[k].0
                    &&& ov(out@[k].value) == Some(rendered(e[k].1))
                    &&& lookup(keys(reg.items()), e[k].0) == Some(out@[k].reference@)
                },
            forall|j: int|
                r0.len() <= j < reg.items().len() ==> (#[trigger] reg.items()[j]).key().1 == id_text(
                    (m0 + (j - r0.len()) + 1) as nat,
                ),
            forall|j: int|
                r0.len() <= j < reg.items().len() ==> attr_names(e).contains((#[trigger] reg.items()[j]).key().0),
    {
        let (name, value) = attr_at(attrs, i);
        let ghost before = reg.items();
        let ghost mb = ids.minted();
        let reference = register_attribute_class(reg, ids, resolver, icon_names, used, pending, name.as_str(), value);
        proof {
            let after = reg.items();
            assert forall|k: int| 0 <= k < i implies lookup(keys(after), e[k].0) == Some(#[trigger] out@[k].reference@) by {
                registered_names_keep_their_ids(before, after, mb, ids.minted(), name@, reference@, e[k].0);
            }
            registered_names_keep_their_ids(before, after, mb, ids.minted(), name@, reference@, name@);
            if lookup(keys(before), name@) is None {
                assert(after == before.push(after.last()));
                assert forall|j: int| r0.len() <= j < after.len() implies (#[trigger] after[j]).key().1 == id_text(
                    (m0 + (j - r0.len()) + 1) as nat,
                ) by {
                    if j < before.len() {
                        assert(after[j] == before[j]);
                    }
                }
                assert forall|j: int| r0.len() <= j < after.len() implies attr_names(e).contains((#[trigger] after[j]).key().0) by {
                    if j < before.len() {
                        assert(after[j] == before[j]);
                    } else {
                        assert(attr_names(e)[i as int] == after[j].key().0);
                    }
                }
                assert(after.take(r0.len() as int) =~= before.take(r0.len() as int));
            }
        }
        out.push(ResolvedAttr { class: name.clone(), reference, value: Some(value.render()) });
    }
    out
}

// ── Entities ────────────────────────────────────────────────────────────────

/// The registries and tables entities and links are resolved against.
pub struct Tables {
    pub ids: IdCounter,
    pub entity_types: Registry<EntityTypeEntry>,
    pub pending_entity_types: Pending,
    pub link_types: Registry<LinkTypeEntry>,
    pub pending_link_types: Pending,
    pub classes: Registry<AttributeClassEntry>,
    pub pending_classes: Pending,
    pub strengths: Registry<StrengthEntry>,
    pub connections: Connections,
    pub resolver: SemanticResolver,
    pub entity_icons: IndexMap<String, String>,
    pub attribute_icons: IndexMap<String, String>,
    pub used_icons: IndexSet<String>,
}

impl Tables {
    /// Fresh tables: nothing registered or minted yet, the configured types
    /// filed and waiting, the given resolver and custom icon names.
    pub fn new(
        resolver: SemanticResolver,
        entity_types: Vec<EntityType>,
        link_types: Vec<LinkType>,
        classes: Vec<AttributeClass>,
        entity_icons: IndexMap<String, String>,
        attribute_icons: IndexMap<String, String>,
    ) -> (t: Tables)
        ensures
            t.ready(),
            t.ids.minted() == 0,
            t.entity_types.items().len() == 0,
            t.link_types.items().len() == 0,
            t.classes.items().len() == 0,
            t.strengths.items().len() == 0,
            t.connections.items().len() == 0,
            t.pending_entity_types.entries() == filed(
                entity_types@.map_values(|x: EntityType| TypeCfg::Entity(x)),
                entity_types@.len() as int,
            ),
            t.pending_link_types.entries() == filed(
                link_types@.map_values(|x: LinkType| TypeCfg::Link(x)),
                link_types@.len() as int,
            ),
            t.pending_classes.entries() == filed(
                classes@.map_values(|x: AttributeClass| TypeCfg::Class(x)),
                classes@.len() as int,
            ),
            all_entities(t.pending_entity_types.entries()),
            all_links(t.pending_link_types.entries()),
            all_classes(t.pending_classes.entries()),
            t.resolver == resolver,
            t.entity_icons == entity_icons,
            t.attribute_icons == attribute_icons,
            string_set_entries(t.used_icons) == Seq::<Seq<char>>::empty(),
    {
        let t = Tables {
            ids: IdCounter::new(),
            entity_types: Registry::new(),
            pending_entity_types: file_entity_types(entity_types),
            link_types: Registry::new(),
            pending_link_types: file_link_types(link_types),
            classes: Registry::new(),
            pending_classes: file_attribute_classes(classes),
            strengths: Registry::new(),
            connections: Connections::new(),
            resolver,
            entity_icons,
            attribute_icons,
            used_icons: crate::maps::string_set_new(),
        };
        assert(keys(t.entity_types.items()) =~= Seq::<(Seq<char>, Seq<char>)>::empty());
        assert(keys(t.link_types.items()) =~= Seq::<(Seq<char>, Seq<char>)>::empty());
        assert(keys(t.classes.items()) =~= Seq::<(Seq<char>, Seq<char>)>::empty());
        t
    }

    /// Each registry is well formed and no registered name still waits.
    pub open spec fn ready(&self) -> bool {
        &&& self.entity_types.wf() && self.pending_entity_types.wf()
        &&& apart(self.entity_types.items(), self.pending_entity_types.entries())
        &&& self.link_types.wf() && self.pending_link_types.wf()
        &&& apart(self.link_types.items(), self.pending_link_types.entries())
        &&& self.classes.wf() && self.pending_classes.wf()
        &&& apart(self.classes.items(), self.pending_classes.entries())
        &&& self.strengths.wf() && self.connections.wf()
    }
}

/// Whether resolving an entity of type `ty` gives it a type reference: the
/// type has a name and is registered or has a waiting configuration.
pub open spec fn has_type_ref(t: Tables, ty: Seq<char>) -> bool {
    ty.len() > 0 && (lookup(keys(t.entity_types.items()), ty) is Some || entity_cfg(
        lookup(t.pending_entity_types.entries(), ty),
    ) is Some)
}

/// The icon override an entity ends up with: its own icon, else the icon
/// map's, written under its custom name when it is a custom icon.
pub open spec fn icon_override_of(e: EntityRef, mapped: Option<Seq<char>>, names: Seq<(Seq<char>, Seq<char>)>) -> Option<Seq<char>> {
    match icon_choice(e, mapped) {
        Some(i) => Some(custom_icon(names, i)),
        None => None,
    }
}

/// The geographic coordinate attributes of an entity, when it has them:
/// `Latitude` then `Longitude`, each with its class id and value.
pub open spec fn geo_attr_views(geo: Option<(String, String, String, String)>) -> Seq<(Seq<char>, Seq<char>, Option<Seq<char>>)> {
    match geo {
        Some((lat_ref, lat, lon_ref, lon)) => seq![
            ("Latitude"@, lat_ref@, Some(lat@)),
            ("Longitude"@, lon_ref@, Some(lon@)),
        ],
        None => seq![],
    }
}

pub open spec fn attr_view(a: ResolvedAttr) -> (Seq<char>, Seq<char>, Option<Seq<char>>) {
    (a.class@, a.reference@, ov(a.value))
}

/// Resolve one entity: mint its chart-item id, register its type and its
/// attributes' classes (in that order), and settle its position, label,
/// grades, colors, cards, semantic type and icon. `int_id` is its number in
/// the chart, `pos` where it is placed, `geo` its coordinate attributes
/// (class ids and values), `auto` its automatic colors and `mapped_icon` the
/// icon map's choice. Gives the entity and the shade links match against.
#[verifier::spinoff_prover]
#[verifier::rlimit(80)]
pub fn resolve_entity(
    t: &mut Tables,
    e: &EntityRef,
    int_id: i64,
    pos: (i64, i64),
    geo: Option<(String, String, String, String)>,
    auto: Option<(u32, u32)>,
    mapped_icon: Option<&str>,
    loose: &Vec<Card>,
    g1: &GradeCollection,
    g2: &GradeCollection,
    g3: &GradeCollection,
) -> (r: (ResolvedEntity, Option<u32>))
    requires
        old(t).ready(),
        old(t).ids.minted() + 2 + attr_entries(ref_common(*e).attributes).len() < u64::MAX,
    ensures
        final(t).ready(),
        ({
            let c = ref_common(*e);
            let n = attr_entries(c.attributes).len();
            let re = r.0;
            &&& re.ci_id@ == id_text((old(t).ids.minted() + 1) as nat)
            &&& re.int_id == int_id
            &&& re.identity@ == c.id@
            &&& re.label@ == label_of(c)
            &&& re.etype@ == c.type_@
            &&& ov(re.etype_ref) == if has_type_ref(*old(t), c.type_@) {
                lookup(keys(final(t).entity_types.items()), c.type_@)
            } else {
                None
            }
            &&& (re.x, re.y) == pos
            &&& re.attrs@.len() == n + geo_attr_views(geo).len()
            &&& forall|i: int|
                0 <= i < n ==> {
                    &&& (#[trigger] re.attrs@[i]).class@ == attr_entries(c.attributes)[i].0
                    &&& ov(re.attrs@[i].value) == Some(rendered(attr_entries(c.attributes)[i].1))
                    &&& lookup(keys(final(t).classes.items()), attr_entries(c.attributes)[i].0) == Some(
                        re.attrs@[i].reference@,
                    )
                }
            &&& forall|i: int| 0 <= i < geo_attr_views(geo).len() ==> attr_view(#[trigger] re.attrs@[n + i]) == geo_attr_views(geo)[i]
            &&& re.grade_one == grade_with_default(c.grade_one, *g1)
            &&& re.grade_two == grade_with_default(c.grade_two, *g2)
            &&& re.grade_three == grade_with_default(c.grade_three, *g3)
            &&& (re.auto_shade, re.label_bg, re.label_fg) == auto_parts(*e, auto)
            &&& r.1 == effective_shade(*e, auto)
            &&& re.cards@.len() == owned_cards(c.cards@, loose@, Some(c.id@), false).len()
            &&& forall|i: int|
                0 <= i < re.cards@.len() ==> card_resolved(
                    #[trigger] re.cards@[i],
                    owned_cards(c.cards@, loose@, Some(c.id@), false)[i],
                    *g1,
                    *g2,
                    *g3,
                )
            &&& ov(re.semantic_guid) == type_resolution(old(t).resolver.state(), ov(c.semantic_type)).0
            &&& ov(re.icon_override) == icon_override_of(*e, opt_view(mapped_icon), mapping_entries(old(t).entity_icons))
        }),
        final(t).entity_types.items().take(old(t).entity_types.items().len() as int) == old(t).entity_types.items(),
        final(t).classes.items().take(old(t).classes.items().len() as int) == old(t).classes.items(),
        final(t).ids.minted() == old(t).ids.minted() + 1 + (final(t).entity_types.items().len()
            - old(t).entity_types.items().len()) + (final(t).classes.items().len() - old(t).classes.items().len()),
        same_tables(final(t).resolver.state(), old(t).resolver.state()),
        final(t).link_types == old(t).link_types,
        final(t).pending_link_types == old(t).pending_link_types,
        final(t).strengths == old(t).strengths,
        final(t).connections == old(t).connections,
        final(t).entity_icons == old(t).entity_icons,
        final(t).attribute_icons == old(t).attribute_icons,
{
    let c = e.common();
    let ghost ot = *t;
    let ci_id = t.ids.next_id();
    let ghost et0 = t.entity_types.items();
    let ghost m1 = t.ids.minted();
    let etype_ref = register_entity_type(
        &mut t.entity_types,
        &mut t.ids,
        &mut t.resolver,
        &t.entity_icons,
        &mut t.used_icons,
        &mut t.pending_entity_types,
        c.type_.as_str(),
    );
    proof {
        if c.type_@.len() > 0 && lookup(keys(et0), c.type_@) is None && etype_ref is Some {
            registered_names_keep_their_ids(et0, t.entity_types.items(), m1, t.ids.minted(), c.type_@, etype_ref->0@, c.type_@);
        }
        if !(c.type_@.len() > 0 && lookup(keys(et0), c.type_@) is None && entity_cfg(lookup(ot.pending_entity_types.entries(), c.type_@)) is Some) {
            assert(t.entity_types.items() =~= et0);
        }
        assert(t.entity_types.items().take(et0.len() as int) =~= et0);
    }
    let ghost st1 = t.resolver.state();
    let mut attrs = resolve_attrs(
        &mut t.classes,
        &mut t.pending_classes,
        &mut t.ids,
        &mut t.resolver,
        &t.attribute_icons,
        &mut t.used_icons,
        &c.attributes,
    );
    let ghost n = attrs@.len();
    match geo {
        Some((lat_ref, lat, lon_ref, lon)) => {
            attrs.push(ResolvedAttr { class: "Latitude".to_owned(), reference: lat_ref, value: Some(lat) });
            attrs.push(ResolvedAttr { class: "Longitude".to_owned(), reference: lon_ref, value: Some(lon) });
        },
        None => {},
    }
    let (auto_shade, label_bg, label_fg, shade) = entity_colors(e, auto);
    let cards = resolve_cards(&c.cards, loose, Some(c.id.as_str()), false, g1, g2, g3);
    let st = match &c.semantic_type {
        Some(x) => Some(x.as_str()),
        None => None,
    };
    let ghost st2 = t.resolver.state();
    let semantic_guid = t.resolver.resolve_type_name(st);
    let icon_override = match choose_icon(e, mapped_icon) {
        Some(name) => Some(resolve_custom_icon(&t.entity_icons, &mut t.used_icons, name.as_str())),
        None => None,
    };
    let re = ResolvedEntity {
        ci_id,
        int_id,
        identity: c.id.clone(),
        label: entity_label(c),
        etype: c.type_.clone(),
        etype_ref,
        x: pos.0,
        y: pos.1,
        attrs,
        grade_one: resolve_grade_with_default(grade_opt(&c.grade_one), g1),
        grade_two: resolve_grade_with_default(grade_opt(&c.grade_two), g2),
        grade_three: resolve_grade_with_default(grade_opt(&c.grade_three), g3),
        auto_shade,
        label_bg,
        label_fg,
        cards,
        semantic_guid,
        icon_override,
    };
    proof {
        assert(same_tables(st2, ot.resolver.state()));
        assert(type_resolution(st2, ov(c.semantic_type)).0 == type_resolution(ot.resolver.state(), ov(c.semantic_type)).0);
    }
    (re, shade)
}

fn grade_opt(o: &Option<GradeRef>) -> (r: Option<&GradeRef>)
    ensures
        match r {
            Some(g) => *o == Some(*g),
            None => o is None,
        },
{
    match o {
        Some(g) => Some(g),
        None => None,
    }
}

// ── Links ───────────────────────────────────────────────────────────────────

/// What is settled for a link before it is written: its chart-item id, its
/// semantic type, its intensity width and color, its arc offset and its
/// connection style.
#[derive(Debug)]
pub struct LinkMeta {
    pub ci_id: String,
    pub semantic_guid: Option<String>,
    pub int_width: Option<i64>,
    pub int_color: Option<u32>,
    pub offset: i64,
    pub conn_ref: Option<String>,
}

proof fn lemma_conn_lookup_push(e: Seq<(ConnView, Seq<char>)>, x: (ConnView, Seq<char>), k: ConnView)
    ensures
        conn_lookup(e.push(x), k) == match conn_lookup(e, k) {
            Some(v) => Some(v),
            None => if x.0 == k {
                Some(x.1)
            } else {
                None
            },
        },
    decreases e.len(),
{
    if e.len() == 0 {
        assert(e.push(x).drop_first() =~= e);
    } else {
        lemma_conn_lookup_push(e.drop_first(), x, k);
        assert(e.push(x).drop_first() =~= e.drop_first().push(x));
    }
}

/// Register what a link uses, in order: its type (when named), its strength
/// (its own, else the categorical style's, else the chart's default), its
/// connection style, its chart-item id, its attributes' classes; then resolve
/// its semantic type. `auto_offset` is its parallel-link offset and
/// `intensity` its intensity width and color.
#[verifier::spinoff_prover]
#[verifier::rlimit(80)]
pub fn register_link(
    t: &mut Tables,
    l: &Link,
    style_strength: Option<&str>,
    default_strength: Option<&str>,
    auto_offset: i64,
    intensity: (Option<i64>, Option<u32>),
) -> (r: LinkMeta)
    requires
        old(t).ready(),
        old(t).ids.minted() + 4 + attr_entries(l.attributes).len() < u64::MAX,
    ensures
        final(t).ready(),
        ({
            let lt_new = final(t).link_types.items().len() - old(t).link_types.items().len();
            let s_new = final(t).strengths.items().len() - old(t).strengths.items().len();
            let c_new = final(t).connections.items().len() - old(t).connections.items().len();
            let a_new = final(t).classes.items().len() - old(t).classes.items().len();
            &&& final(t).ids.minted() == old(t).ids.minted() + lt_new + s_new + c_new + 1 + a_new
            &&& r.ci_id@ == id_text((old(t).ids.minted() + lt_new + s_new + c_new + 1) as nat)
        }),
        match ov(l.type_) {
            Some(ty) => ty.len() > 0 ==> lookup(keys(final(t).link_types.items()), ty) is Some,
            None => true,
        },
        ov(l.type_) is None || ov(l.type_)->0.len() == 0 ==> final(t).link_types == old(t).link_types,
        lookup(
            keys(final(t).strengths.items()),
            strength_name(
                opt_view(default_strength),
                match ov(l.strength) {
                    Some(x) => Some(x),
                    None => opt_view(style_strength),
                },
            ),
        ) is Some,
        match conn_key(*l) {
            None => r.conn_ref is None,
            Some(k) => conn_lookup(conn_keys(final(t).connections.items()), k) == ov(r.conn_ref) && r.conn_ref is Some,
        },
        forall|i: int|
            0 <= i < attr_entries(l.attributes).len() ==> #[trigger] lookup(
                keys(final(t).classes.items()),
                attr_entries(l.attributes)[i].0,
            ) is Some,
        ov(r.semantic_guid) == type_resolution(old(t).resolver.state(), ov(l.semantic_type)).0,
        r.offset == match l.offset {
            Some(o) => o,
            None => auto_offset,
        },
        r.int_width == intensity.0,
        r.int_color == intensity.1,
        final(t).link_types.items().take(old(t).link_types.items().len() as int) == old(t).link_types.items(),
        final(t).strengths.items().take(old(t).strengths.items().len() as int) == old(t).strengths.items(),
        final(t).connections.items().take(old(t).connections.items().len() as int) == old(t).connections.items(),
        final(t).classes.items().take(old(t).classes.items().len() as int) == old(t).classes.items(),
        same_tables(final(t).resolver.state(), old(t).resolver.state()),
        final(t).entity_types == old(t).entity_types,
        final(t).pending_entity_types == old(t).pending_entity_types,
        final(t).entity_icons == old(t).entity_icons,
        final(t).attribute_icons == old(t).attribute_icons,
{
    let ghost ot = *t;
    match &l.type_ {
        Some(ty) => {
            if !crate::text::is_empty_str(ty.as_str()) {
                let ghost lt0 = t.link_types.items();
                let ghost m0 = t.ids.minted();
                let id = register_link_type(&mut t.link_types, &mut t.ids, &mut t.resolver, &mut t.pending_link_types, ty.as_str());
                proof {
                    registered_names_keep_their_ids(lt0, t.link_types.items(), m0, t.ids.minted(), ty@, id@, ty@);
                    if lookup(keys(lt0), ty@) is None {
                        assert(t.link_types.items().drop_last() == lt0);
                        assert(t.link_types.items().take(lt0.len() as int) =~= lt0);
                    } else {
                        assert(t.link_types.items().take(lt0.len() as int) =~= lt0);
                    }
                }
            }
        },
        None => {},
    }
    let ghost lt1 = t.link_types.items();
    let own = match &l.strength {
        Some(x) => Some(x.as_str()),
        None => style_strength,
    };
    let ghost s0 = t.strengths.items();
    let ghost m1 = t.ids.minted();
    let sname = ensure_strength(&mut t.strengths, &mut t.ids, default_strength, own);
    proof {
        if lookup(keys(s0), sname@) is None {
            lemma_keys_push(s0, t.strengths.items().last());
            assert(t.strengths.items() == s0.push(t.strengths.items().last()));
            lemma_lookup_push(keys(s0), t.strengths.items().last().key(), sname@);
            assert(t.strengths.items().take(s0.len() as int) =~= s0);
        } else {
            assert(t.strengths.items().take(s0.len() as int) =~= s0);
        }
    }
    let ghost c0 = t.connections.items();
    let conn_ref = register_connection(&mut t.connections, &mut t.ids, l);
    proof {
        match conn_key(*l) {
            Some(k) => {
                if conn_lookup(conn_keys(c0), k) is None {
                    let after = t.connections.items();
                    assert(after == c0.push(after.last()));
                    assert(conn_keys(after) =~= conn_keys(c0).push((entry_conn_key(after.last()), after.last().id@)));
                    lemma_conn_lookup_push(conn_keys(c0), (entry_conn_key(after.last()), after.last().id@), k);
                    assert(after.take(c0.len() as int) =~= c0);
                } else {
                    assert(t.connections.items().take(c0.len() as int) =~= c0);
                }
            },
            None => {
                assert(t.connections.items().take(c0.len() as int) =~= c0);
            },
        }
    }
    let ci_id = t.ids.next_id();
    let ghost a0 = t.classes.items();
    let resolved = resolve_attrs(
        &mut t.classes,
        &mut t.pending_classes,
        &mut t.ids,
        &mut t.resolver,
        &t.attribute_icons,
        &mut t.used_icons,
        &l.attributes,
    );
    proof {
        assert forall|i: int| 0 <= i < attr_entries(l.attributes).len() implies #[trigger] lookup(
            keys(t.classes.items()),
            attr_entries(l.attributes)[i].0,
        ) is Some by {
            assert(lookup(keys(t.classes.items()), attr_entries(l.attributes)[i].0) == Some(resolved@[i].reference@));
        }
    }
    let st = match &l.semantic_type {
        Some(x) => Some(x.as_str()),
        None => None,
    };
    let ghost st2 = t.resolver.state();
    let semantic_guid = t.resolver.resolve_type_name(st);
    proof {
        assert(same_tables(st2, ot.resolver.state()));
    }
    let offset = match l.offset {
        Some(o) => o,
        None => auto_offset,
    };
    LinkMeta { ci_id, semantic_guid, int_width: intensity.0, int_color: intensity.1, offset, conn_ref }
}

/// The link type a link names, when it names one.
pub open spec fn named_type(l: Link) -> Option<Seq<char>> {
    match ov(l.type_) {
        Some(t) => if t.len() > 0 {
            Some(t)
        } else {
            None
        },
        None => None,
    }
}

/// Everything a link is written with: its settled meta, its ends, its style
/// (own values, else the categorical style's, else its intensity, else the
/// color matched from its target entity; its own strength, else the style's,
/// else the chart default), its arrow token, its type and type reference,
/// its grades and cards, and its attributes and label as given.
#[verifier::spinoff_prover]
#[verifier::rlimit(60)]
pub fn resolve_link(
    t: &Tables,
    l: &Link,
    meta: &LinkMeta,
    end1: i64,
    end2: i64,
    cat: Option<&CategoricalStyleCfg>,
    matched: Option<u32>,
    default_strength: &str,
    attrs: Vec<ResolvedAttr>,
    label: String,
    loose: &Vec<Card>,
    g1: &GradeCollection,
    g2: &GradeCollection,
    g3: &GradeCollection,
) -> (r: ResolvedLink)
    requires
        t.ready(),
    ensures
        r.ci_id == meta.ci_id,
        r.label == label,
        r.end1 == end1 && r.end2 == end2,
        r.offset == meta.offset,
        r.conn_ref == meta.conn_ref,
        ov(r.semantic_guid) == ov(meta.semantic_guid),
        (r.line_width, r.line_color, r.strength@) == link_style(
            *l,
            match cat {
                Some(c) => Some(*c),
                None => None,
            },
            meta.int_width,
            meta.int_color,
            matched,
            default_strength@,
        ),
        ov(r.arrow) == match ov(l.arrow) {
            Some(a) => arrow_of(a),
            None => None,
        },
        ov(r.ltype) == named_type(*l),
        ov(r.ltype_ref) == match named_type(*l) {
            Some(ty) => lookup(keys(t.link_types.items()), ty),
            None => None,
        },
        r.grade_one == grade_with_default(l.grade_one, *g1),
        r.grade_two == grade_with_default(l.grade_two, *g2),
        r.grade_three == grade_with_default(l.grade_three, *g3),
        r.cards@.len() == owned_cards(l.cards@, loose@, ov(l.link_id), true).len(),
        forall|i: int|
            0 <= i < r.cards@.len() ==> card_resolved(
                #[trigger] r.cards@[i],
                owned_cards(l.cards@, loose@, ov(l.link_id), true)[i],
                *g1,
                *g2,
                *g3,
            ),
        r.attrs == attrs,
{
    let (line_width, line_color, strength) = link_style_values(
        l,
        cat,
        meta.int_width,
        meta.int_color,
        matched,
        default_strength,
    );
    let arrow = match &l.arrow {
        Some(a) => match arrow_token(a.as_str()) {
            Some(tok) => Some(tok.to_owned()),
            None => None,
        },
        None => None,
    };
    let ltype = match &l.type_ {
        Some(ty) => if crate::text::is_empty_str(ty.as_str()) {
            None
        } else {
            Some(ty.clone())
        },
        None => None,
    };
    let ltype_ref = match &ltype {
        Some(ty) => t.link_types.id_of(ty.as_str()),
        None => None,
    };
    let owner = match &l.link_id {
        Some(x) => Some(x.as_str()),
        None => None,
    };
    let cards = resolve_cards(&l.cards, loose, owner, true, g1, g2, g3);
    let semantic_guid = match &meta.semantic_guid {
        Some(x) => Some(x.clone()),
        None => None,
    };
    ResolvedLink {
        ci_id: meta.ci_id.clone(),
        label,
        end1,
        end2,
        offset: meta.offset,
        conn_ref: match &meta.conn_ref {
            Some(x) => Some(x.clone()),
            None => None,
        },
        semantic_guid,
        strength,
        arrow,
        line_width,
        line_color,
        ltype,
        ltype_ref,
        grade_one: resolve_grade_with_default(grade_opt(&l.grade_one), g1),
        grade_two: resolve_grade_with_default(grade_opt(&l.grade_two), g2),
        grade_three: resolve_grade_with_default(grade_opt(&l.grade_three), g3),
        cards,
        attrs,
    }
}

// ── Display templates ───────────────────────────────────────────────────────

/// Register the class a display attribute writes into, when it is not
/// registered yet: a visible, shown text class with no semantic type. Gives
/// its id.
pub fn register_display_class(reg: &mut Registry<AttributeClassEntry>, ids: &mut IdCounter, name: &str) -> (r: String)
    requires
        old(reg).wf(),
        old(ids).minted() < u64::MAX,
    ensures
        final(reg).wf(),
        registered(old(reg).items(), final(reg).items(), old(ids).minted(), final(ids).minted(), name@, r@),
        lookup(keys(old(reg).items()), name@) is None ==> {
            let e = final(reg).items().last();
            &&& e.cfg.name@ == name@ && e.cfg.type_ == Some(AttributeType::Text)
            &&& e.cfg.visible == Some(true) && e.cfg.show_value == Some(true)
            &&& e.type_token@ == "AttText"@
            &&& e.semantic_guid is None
        },
{
    if let Some(id) = reg.id_of(name) {
        return id;
    }
    let id = ids.next_id();
    let mut cfg = bare_attribute_class(name, Some(AttributeType::Text), Some(true));
    cfg.visible = Some(true);
    let e = AttributeClassEntry {
        name: name.to_owned(),
        id: id.clone(),
        type_token: "AttText".to_owned(),
        cfg,
        semantic_guid: None,
    };
    let ghost before = reg.items();
    reg.add(e);
    assert(reg.items().drop_last() =~= before);
    id
}

/// Whether a display entry applies to an item: its kind admits the item's
/// kind, and its type filter, when set, names the item's type.
pub open spec fn display_applies(kind: Option<Seq<char>>, filter: Option<Seq<char>>, is_link: bool, item_type: Option<Seq<char>>) -> bool {
    kind_applies(kind, is_link) && match filter {
        Some(f) => item_type == Some(f),
        None => true,
    }
}

pub fn display_targets(kind: Option<&str>, filter: Option<&str>, is_link: bool, item_type: Option<&str>) -> (r: bool)
    ensures
        r == display_applies(opt_view(kind), opt_view(filter), is_link, opt_view(item_type)),
{
    if !display_kind_matches(kind, is_link) {
        return false;
    }
    match filter {
        Some(f) => match item_type {
            Some(t) => crate::text::str_eq(f, t),
            None => false,
        },
        None => true,
    }
}

/// Whether a display label may replace an item's label: an entity's label
/// counts as its own when it is set and differs from its identity, a link's
/// when it is set; an own label is replaced only when the entry overrides.
pub open spec fn label_replaceable(label: Seq<char>, identity: Option<Seq<char>>, override_existing: bool) -> bool {
    let own = match identity {
        Some(id) => label.len() > 0 && label != id,
        None => label.len() > 0,
    };
    !own || override_existing
}

pub fn may_replace_label(label: &str, identity: Option<&str>, override_existing: bool) -> (r: bool)
    ensures
        r == label_replaceable(label@, opt_view(identity), override_existing),
{
    let own = match identity {
        Some(id) => !crate::text::is_empty_str(label) && !crate::text::str_eq(label, id),
        None => !crate::text::is_empty_str(label),
    };
    !own || override_existing
}


/// Register the geographic (`geo`) or display attribute class `name` on the
/// tables. A configured class of that name still waiting to be registered
/// is dropped, so that no name is both registered and waiting.
pub fn register_side_class(t: &mut Tables, name: &str, geo: bool) -> (r: String)
    requires
        old(t).ready(),
        old(t).ids.minted() < u64::MAX,
    ensures
        final(t).ready(),
        final(t).ids.minted() <= old(t).ids.minted() + 1,
        final(t).entity_types == old(t).entity_types,
        final(t).pending_entity_types == old(t).pending_entity_types,
        final(t).link_types == old(t).link_types,
        final(t).pending_link_types == old(t).pending_link_types,
        final(t).strengths == old(t).strengths,
        final(t).connections == old(t).connections,
        final(t).entity_icons == old(t).entity_icons,
        final(t).attribute_icons == old(t).attribute_icons,
        lookup(keys(final(t).classes.items()), name@) == Some(r@),
{
    let ghost p_orig = t.pending_classes.entries();
    let ghost c0 = t.classes.items();
    let _ = t.pending_classes.take(name);
    let ghost p1 = t.pending_classes.entries();
    proof {
        lemma_apart_shrink(c0, p_orig, p1);
    }
    let r = if geo {
        register_geo_class(&mut t.classes, &mut t.ids, &mut t.resolver, name)
    } else {
        register_display_class(&mut t.classes, &mut t.ids, name)
    };
    proof {
        let c1 = t.classes.items();
        if lookup(keys(c0), name@) is None {
            assert(c1 == c0.push(c1.last()));
            lemma_apart_add(c0, c1.last(), p1, p1);
            lemma_keys_push(c0, c1.last());
            lemma_lookup_push(keys(c0), c1.last().key(), name@);
        }
    }
    r
}

} // verus!
