//! Building a whole `.anx` document: the builder's initial registrations,
//! the resolve passes over entities and links (minting ids in a fixed
//! order), and the emission of every section in schema order.
//!
//! The work that computes in floating point (layout, geographic placement,
//! automatic colours, link intensity, display templates and width values)
//! reaches the builder as plain values in a [`LaidOut`].
use vstd::prelude::*;
use indexmap::IndexMap;

use crate::custom_icons::{custom_images_text, emit_custom_images, kept_images, prepare_custom_icons, CustomImage, IconKind};
use crate::emit::{color_of, push_pair, put_close, put_empty, put_open, resolve_color, Pair};
use crate::entities::{collect_entity_refs, entity_refs, EntityRef};
use crate::input::{ChartData, Config};
use crate::items::{emit_entity_item, emit_link_item, entity_item_text, link_item_text};
use crate::maps::{attr_count, mapping_get, mapping_new, string_set_at, string_set_entries, string_set_len};
use crate::models::{GradeCollection, LegendItem, Palette, Settings};
use crate::register::{
    lookup_attrs, register_link, register_remaining_attribute_classes, register_remaining_entity_types,
    register_remaining_link_types, register_side_class, resolve_entity, resolve_link, setup_datetime_formats,
    setup_strengths, string_ids, display_targets, may_replace_label, LinkMeta, Tables, configured_strengths,
    filed, ids_in_sequence, new_strengths, strength_view,
};
use crate::pending::TypeCfg;
use crate::items::ov;
use crate::ids::id_text;
use crate::models::{AttributeClass, EntityType, LinkType, StrengthCollection};
use crate::registry::{
    attribute_classes_text, connections_text, datetime_formats_text, emit_attribute_classes, emit_connections,
    emit_datetime_formats, emit_entity_types, emit_grades, emit_link_types, emit_palettes, emit_strengths,
    entity_types_text, grades_text, link_types_text, palettes_text, strengths_text, DateTimeFormatEntry,
    StringCollection,
};
use crate::resolve::{entity_number_of, entity_position, placement, views};
use crate::entities::ref_common;
use crate::models::Link;
use crate::resolved::{ResolvedAttr, ResolvedEntity, ResolvedLink};
use crate::sections::{
    catalogue_text, chart_attr_pairs, chart_attrs, emit_legend, emit_library_catalogue, emit_summary, legend_text,
    summary_text,
};
use crate::semantic::{catalogue, SemanticResolver};
use crate::tokens::grade_with_dash;
use crate::transforms::{apply_icon_map, categorical_style, compute_link_offsets, offsets_fit};
use crate::xml::{bom, to_utf16le_with_bom, utf16le, ByteWrite, attr_views, close_line, comment_text, declaration_text, line_text, Attr, Writer, XmlSink};
use crate::datetime::opt_view;
use crate::api::{validate_or_err, AnxByteChunks, BuildOptions};
use crate::error::Error;
use crate::validation::validation_findings;
use crate::validation::chart::entity_count;

verus! {

/// Where the library's sources live, named in each document's provenance
/// comment.
pub const REPO_URL: &'static str = "https://github.com/gustavo-gkmi/anxwritter";

/// What a build takes from outside the library, as plain values: the
/// results of the floating-point work, the creation date (the clock) and
/// the bitmaps the custom icons' images converted to.
pub struct LaidOut {
    /// The creation date the summary uses when it sets none.
    pub created: String,
    /// The bitmap of each custom entity icon and custom attribute icon, one
    /// per configured entry (`None` where the image could not be had).
    pub entity_icon_bmps: Vec<Option<Vec<u8>>>,
    pub attribute_icon_bmps: Vec<Option<Vec<u8>>>,
    /// Layout positions of entities, by entity id.
    pub layout: Vec<(String, i64, i64)>,
    /// Geographic positions of entities, by entity id (they take precedence
    /// over the layout).
    pub geo_positions: Vec<(String, i64, i64)>,
    /// Latitude and longitude text of entities, by entity id; when any is
    /// given the `Latitude` and `Longitude` classes are registered.
    pub geo_coords: Vec<(String, String, String)>,
    /// Automatic (background, foreground) colours of entities, by entity id;
    /// used when the settings turn automatic colouring on.
    pub auto_colors: Vec<(String, u32, u32)>,
    /// The intensity (width, colour) override of each link, by position.
    pub intensity: Vec<(Option<i64>, Option<u32>)>,
    /// The text of each entity's and each link's sub-text width, by position.
    pub entity_sub_text: Vec<Option<String>>,
    pub link_sub_text: Vec<Option<String>>,
    /// The text of the grid's width and height.
    pub grid_width: Option<String>,
    pub grid_height: Option<String>,
    /// Rendered display attributes and labels: `[display][entity]` and
    /// `[display][link]`, `None` where the template skips the item.
    pub entity_display_attrs: Vec<Vec<Option<String>>>,
    pub entity_display_labels: Vec<Vec<Option<String>>>,
    pub link_display_attrs: Vec<Vec<Option<String>>>,
    pub link_display_labels: Vec<Vec<Option<String>>>,
}

/// Why a build could not finish: the id counter or an arc offset would
/// leave its machine range.
#[derive(Debug, Clone, Copy, PartialEq, Eq, Structural)]
pub enum BuildError {
    IdsExhausted,
    OffsetsOverflow,
}

/// The state of a build: the registries and tables, the settings and
/// chart-wide collections, and (after [`finalize`]) the resolved items and
/// the grade and source string ids.
pub struct Builder {
    pub tables: Tables,
    pub settings: Settings,
    pub default_strength: Option<String>,
    pub datetime_formats: Vec<DateTimeFormatEntry>,
    pub grades_one: GradeCollection,
    pub grades_two: GradeCollection,
    pub grades_three: GradeCollection,
    pub source_types: Vec<String>,
    pub legend_items: Vec<LegendItem>,
    pub palettes: Vec<Palette>,
    pub custom_images: Vec<CustomImage>,
    pub include_all_icons: bool,
    pub entities: Vec<ResolvedEntity>,
    pub entity_colors: Vec<(String, u32)>,
    pub links: Vec<ResolvedLink>,
    pub strings_one: StringCollection,
    pub strings_two: StringCollection,
    pub strings_three: StringCollection,
    pub strings_sources: StringCollection,
}

pub open spec fn strings_wf(s: StringCollection) -> bool {
    s.ids@.len() == s.items@.len()
}

impl Builder {
    /// The tables are ready and every string collection has one id per item.
    pub open spec fn ready(&self) -> bool {
        &&& self.tables.ready()
        &&& strings_wf(self.strings_one)
        &&& strings_wf(self.strings_two)
        &&& strings_wf(self.strings_three)
        &&& strings_wf(self.strings_sources)
    }
}

pub open spec fn ostr(o: Option<String>) -> Option<Seq<char>> {
    match o {
        Some(s) => Some(s@),
        None => None,
    }
}

fn as_str_opt(o: &Option<String>) -> (r: Option<&str>)
    ensures
        opt_view(r) == ostr(*o),
{
    match o {
        Some(s) => Some(s.as_str()),
        None => None,
    }
}

fn empty_strings() -> (r: StringCollection)
    ensures
        strings_wf(r),
        r.items@.len() == 0,
{
    StringCollection { items: Vec::new(), ids: Vec::new() }
}

fn copy_strings(v: &Vec<String>) -> (r: Vec<String>)
    ensures
        r@.len() == v@.len(),
        forall|i: int| 0 <= i < v@.len() ==> #[trigger] r@[i]@ == v@[i]@,
{
    let mut r: Vec<String> = Vec::new();
    for i in 0..v.len()
        invariant
            r@.len() == i,
            forall|k: int| 0 <= k < i ==> #[trigger] r@[k]@ == v@[k]@,
    {
        r.push(v[i].clone());
    }
    r
}

fn grades_or_empty(g: Option<GradeCollection>) -> (r: GradeCollection) {
    match g {
        Some(g) => grade_with_dash(g),
        None => GradeCollection { default: None, items: Vec::new() },
    }
}

/// The number of strengths a config layer lists.
pub open spec fn strength_count(sc: Option<StrengthCollection>) -> int {
    match sc {
        Some(c) => c.items@.len() as int,
        None => 0,
    }
}

/// A new build of `config` with `settings`: the configured strengths are
/// registered from `ID1` (with the default one as configured), then the
/// date-time formats get the next ids in order; the configured entity
/// types, link types and attribute classes wait to be registered; the
/// settings and chart-wide collections are as given; nothing is resolved.
pub open spec fn initial_state(b: Builder, config: Config, settings: Settings) -> bool {
    let n = b.tables.strengths.items().len();
    let f = config.datetime_formats@;
    &&& b.ready()
    &&& b.entities@.len() == 0
    &&& b.links@.len() == 0
    &&& b.settings == settings
    &&& strength_view(b.tables.strengths.items()) == configured_strengths(config.strengths).0
    &&& ov(b.default_strength) == configured_strengths(config.strengths).1
    &&& ids_in_sequence(b.tables.strengths.items(), 0)
    &&& b.datetime_formats@.len() == f.len()
    &&& forall|i: int|
        0 <= i < f.len() ==> {
            &&& (#[trigger] b.datetime_formats@[i]).id@ == id_text((n + i + 1) as nat)
            &&& b.datetime_formats@[i].name@ == f[i].name@
            &&& b.datetime_formats@[i].format@ == f[i].format@
        }
    &&& b.tables.ids.minted() == n + f.len()
    &&& b.tables.entity_types.items().len() == 0
    &&& b.tables.link_types.items().len() == 0
    &&& b.tables.classes.items().len() == 0
    &&& b.tables.pending_entity_types.entries() == filed(
        config.entity_types@.map_values(|x: EntityType| TypeCfg::Entity(x)),
        config.entity_types@.len() as int,
    )
    &&& b.tables.pending_link_types.entries() == filed(
        config.link_types@.map_values(|x: LinkType| TypeCfg::Link(x)),
        config.link_types@.len() as int,
    )
    &&& b.tables.pending_classes.entries() == filed(
        config.attribute_classes@.map_values(|x: AttributeClass| TypeCfg::Class(x)),
        config.attribute_classes@.len() as int,
    )
    &&& b.source_types == config.source_types
    &&& b.legend_items == config.legend_items
    &&& b.palettes == config.palettes
}

proof fn lemma_new_strengths_len(items: Seq<crate::models::Strength>, known: Seq<Seq<char>>, k: int)
    requires
        k >= 0,
    ensures
        new_strengths(items, known, k).len() <= k,
    decreases k,
{
    if k > 0 {
        lemma_new_strengths_len(items, known, k - 1);
    }
}

proof fn lemma_configured_strengths_len(sc: Option<StrengthCollection>)
    ensures
        configured_strengths(sc).0.len() <= strength_count(sc) + 1,
{
    match sc {
        Some(c) => {
            let head: Seq<(Seq<char>, Seq<char>)> = match c.default {
                Some(_) => seq![],
                None => seq![("-"@, "DotStyleSolid"@)],
            };
            lemma_new_strengths_len(c.items@, head.map_values(|p: (Seq<char>, Seq<char>)| p.0), c.items@.len() as int);
        },
        None => {},
    }
}

/// Start a build from a config layer. `settings` are the layer's settings
/// (or the defaults when it has none); `entity_bmps` and `attribute_bmps`
/// are the bitmaps the custom icons' images converted to, one per entry.
/// Registers the geographic properties when the geo map places
/// coordinates, the strengths, then the date-time formats, in that id order.
fn new_builder(
    config: Config,
    settings: Settings,
    entity_bmps: &Vec<Option<Vec<u8>>>,
    attribute_bmps: &Vec<Option<Vec<u8>>>,
) -> (r: Result<Builder, BuildError>)
    requires
        entity_bmps@.len() == config.custom_entity_icons@.len(),
        attribute_bmps@.len() == config.custom_attribute_icons@.len(),
    ensures
        r is Ok <==> strength_count(config.strengths) < 0xffff_fff0 && config.datetime_formats@.len() < 0xffff_fff0,
        r matches Ok(b) ==> initial_state(b, config, settings),
        r matches Err(e) ==> e is IdsExhausted,
{
    let ghost config0 = config;
    let ghost settings0 = settings;
    let mut resolver = SemanticResolver::new(&config);
    let geo_props = match &settings.extra_cfg.geo_map {
        Some(g) => match &g.mode {
            Some(m) => !crate::text::str_eq(m.as_str(), "position"),
            None => true,
        },
        None => false,
    };
    if geo_props {
        resolver.register_geo_properties();
    }
    let (mut imgs, enames) = prepare_custom_icons(&config.custom_entity_icons, entity_bmps, IconKind::Icon);
    let (mut aimgs, anames) = prepare_custom_icons(&config.custom_attribute_icons, attribute_bmps, IconKind::Attribute);
    imgs.append(&mut aimgs);
    let include_all = match &settings.extra_cfg.custom_icons_include {
        Some(s) => crate::text::str_eq(s.as_str(), "all"),
        None => false,
    };
    let Config {
        settings: _,
        entity_types,
        link_types,
        attribute_classes,
        datetime_formats,
        strengths,
        grades_one,
        grades_two,
        grades_three,
        source_types,
        legend_items,
        palettes,
        ..
    } = config;
    let mut tables = Tables::new(resolver, entity_types, link_types, attribute_classes, enames, anames);
    let n_str: usize = match &strengths {
        Some(c) => c.items.len(),
        None => 0,
    };
    if n_str >= 0xffff_fff0 || datetime_formats.len() >= 0xffff_fff0 {
        return Err(BuildError::IdsExhausted);
    }
    let default_strength = setup_strengths(&mut tables.strengths, &mut tables.ids, &strengths);
    proof {
        lemma_configured_strengths_len(strengths);
    }
    let formats = setup_datetime_formats(&mut tables.ids, &datetime_formats);
    Ok(
        Builder {
            tables,
            settings,
            default_strength,
            datetime_formats: formats,
            grades_one: grades_or_empty(grades_one),
            grades_two: grades_or_empty(grades_two),
            grades_three: grades_or_empty(grades_three),
            source_types,
            legend_items,
            palettes,
            custom_images: imgs,
            include_all_icons: include_all,
            entities: Vec::new(),
            entity_colors: Vec::new(),
            links: Vec::new(),
            strings_one: empty_strings(),
            strings_two: empty_strings(),
            strings_three: empty_strings(),
            strings_sources: empty_strings(),
        },
    )
}


// ── Lookups by entity id ────────────────────────────────────────────────────

/// The first position listed for `id`.
pub open spec fn pos_for(v: Seq<(String, i64, i64)>, id: Seq<char>) -> Option<(i64, i64)>
    decreases v.len(),
{
    if v.len() == 0 {
        None
    } else if v[0].0@ == id {
        Some((v[0].1, v[0].2))
    } else {
        pos_for(v.drop_first(), id)
    }
}

/// The entity ids of `refs`, in order.
pub open spec fn ref_ids(refs: Seq<EntityRef>) -> Seq<Seq<char>> {
    refs.map_values(|e: EntityRef| ref_common(e).id@)
}

/// What a build settles of entity `e` from the inputs alone: its number in
/// the chart (its last position among `ids`, counted from 1), its identity
/// and type, and its position: its own, else its geographic one, else its
/// layout one, else the origin.
pub open spec fn entity_settled(re: ResolvedEntity, e: EntityRef, ids: Seq<Seq<char>>, laid: LaidOut) -> bool {
    let c = ref_common(e);
    &&& re.int_id == entity_number_of(ids, c.id@)
    &&& re.identity@ == c.id@
    &&& re.etype@ == c.type_@
    &&& (re.x, re.y) == placement(c, pos_for(laid.geo_positions@, c.id@), pos_for(laid.layout@, c.id@))
}

/// What a build settles of link `l`: the numbers of the entities at its ends.
pub open spec fn link_settled(rl: ResolvedLink, l: Link, ids: Seq<Seq<char>>) -> bool {
    &&& rl.end1 == entity_number_of(ids, l.from_id@)
    &&& rl.end2 == entity_number_of(ids, l.to_id@)
}

/// A finished build of `data`: one resolved item per entity and per link, in
/// order, each settled as above.
pub open spec fn settled(b: Builder, data: &ChartData, laid: LaidOut) -> bool {
    let refs = entity_refs(data);
    &&& b.entities@.len() == refs.len()
    &&& b.links@.len() == data.links@.len()
    &&& forall|k: int| 0 <= k < refs.len() ==> entity_settled(#[trigger] b.entities@[k], refs[k], ref_ids(refs), laid)
    &&& forall|k: int| 0 <= k < data.links@.len() ==> link_settled(#[trigger] b.links@[k], data.links@[k], ref_ids(refs))
}

/// The fields of a resolved entity that display synthesis leaves alone.
pub open spec fn same_core(a: ResolvedEntity, b: ResolvedEntity) -> bool {
    a.int_id == b.int_id && a.identity == b.identity && a.etype == b.etype && a.x == b.x && a.y == b.y
}

fn find_pos(v: &Vec<(String, i64, i64)>, id: &str) -> (r: Option<(i64, i64)>)
    ensures
        r == pos_for(v@, id@),
{
    let mut i: usize = 0;
    assert(v@.skip(0) =~= v@);
    while i < v.len()
        invariant
            i <= v@.len(),
            pos_for(v@, id@) == pos_for(v@.skip(i as int), id@),
        decreases v@.len() - i,
    {
        assert(v@.skip(i as int).drop_first() =~= v@.skip(i + 1));
        if crate::text::str_eq(v[i].0.as_str(), id) {
            return Some((v[i].1, v[i].2));
        }
        i = i + 1;
    }
    None
}

fn find_coords(v: &Vec<(String, String, String)>, id: &str) -> (r: Option<(String, String)>) {
    let mut i: usize = 0;
    while i < v.len()
        invariant
            i <= v@.len(),
        decreases v@.len() - i,
    {
        if crate::text::str_eq(v[i].0.as_str(), id) {
            return Some((v[i].1.clone(), v[i].2.clone()));
        }
        i = i + 1;
    }
    None
}

fn find_colors(v: &Vec<(String, u32, u32)>, id: &str) -> (r: Option<(u32, u32)>) {
    let mut i: usize = 0;
    while i < v.len()
        invariant
            i <= v@.len(),
        decreases v@.len() - i,
    {
        if crate::text::str_eq(v[i].0.as_str(), id) {
            return Some((v[i].1, v[i].2));
        }
        i = i + 1;
    }
    None
}

/// The colour last recorded for `id`.
fn last_color(v: &Vec<(String, u32)>, id: &str) -> (r: Option<u32>) {
    let mut i: usize = v.len();
    while i > 0
        invariant
            i <= v@.len(),
        decreases i,
    {
        i = i - 1;
        if crate::text::str_eq(v[i].0.as_str(), id) {
            return Some(v[i].1);
        }
    }
    None
}

fn nested_at(v: &Vec<Vec<Option<String>>>, d: usize, i: usize) -> (r: Option<String>) {
    if d < v.len() && i < v[d].len() {
        match &v[d][i] {
            Some(s) => Some(s.clone()),
            None => None,
        }
    } else {
        None
    }
}

fn opt_at(v: &Vec<Option<String>>, i: usize) -> (r: Option<&str>)
    ensures
        opt_view(r) == text_at(v@, i as int),
{
    if i < v.len() {
        as_str_opt(&v[i])
    } else {
        None
    }
}

/// Whether `n` more ids fit the counter.
fn ids_fit(t: &Tables, n: u64) -> (r: bool)
    ensures
        r ==> t.ids.minted() + n < u64::MAX,
{
    let m = t.ids.count();
    m < u64::MAX - 1 && n < u64::MAX - 1 - m
}

fn attr_budget(t: &Tables, attrs: &IndexMap<String, crate::value::AttrValue>, extra: u64) -> (r: bool)
    ensures
        r ==> t.ids.minted() + extra + crate::maps::attr_entries(*attrs).len() < u64::MAX,
{
    let n = attr_count(attrs);
    if n as u64 >= 0xffff_ffff_0000_0000 || extra >= 0x1000 {
        return false;
    }
    ids_fit(t, n as u64 + extra)
}

// ── The resolve passes ──────────────────────────────────────────────────────

/// The entity ids in entity order.
fn entity_ids(refs: &Vec<EntityRef>) -> (r: Vec<String>)
    ensures
        r@.len() == refs@.len(),
        views(r@) == ref_ids(refs@),
{
    let mut r: Vec<String> = Vec::new();
    for i in 0..refs.len()
        invariant
            r@.len() == i,
            forall|k: int| 0 <= k < i ==> #[trigger] r@[k]@ == ref_common(refs@[k]).id@,
    {
        r.push(refs[i].common().id.clone());
    }
    assert(views(r@) =~= ref_ids(refs@));
    r
}

/// Resolve every entity in order: its chart-item id is minted, its type and
/// attribute classes registered, its number is its last position in entity
/// order (counted from 1), and its position is its own, else its geographic
/// one, else its layout one, else the origin.
fn resolve_entities(b: &mut Builder, data: &ChartData, refs: &Vec<EntityRef>, ids: &Vec<String>, laid: &LaidOut) -> (r: Result<(), BuildError>)
    requires
        old(b).ready(),
        ids@.len() == refs@.len(),
        views(ids@) == ref_ids(refs@),
    ensures
        final(b).ready(),
        r is Ok ==> final(b).entities@.len() == old(b).entities@.len() + refs@.len(),
        r is Ok ==> forall|k: int|
            0 <= k < refs@.len() ==> entity_settled(
                #[trigger] final(b).entities@[old(b).entities@.len() + k],
                refs@[k],
                views(ids@),
                *laid,
            ),
        final(b).links@.len() == old(b).links@.len(),
{
    let mapped = match &b.settings.extra_cfg.icon_map {
        Some(im) => apply_icon_map(refs.as_slice(), im),
        None => mapping_new(),
    };
    let geo_refs: Option<(String, String)> = if laid.geo_coords.len() > 0 {
        if !ids_fit(&b.tables, 2) {
            return Err(BuildError::IdsExhausted);
        }
        let lat = register_side_class(&mut b.tables, "Latitude", true);
        let lon = register_side_class(&mut b.tables, "Longitude", true);
        Some((lat, lon))
    } else {
        None
    };
    if ids.len() as u64 >= 0x7fff_ffff_ffff_fff0 {
        return Err(BuildError::IdsExhausted);
    }
    let auto_on = match b.settings.extra_cfg.entity_auto_color {
        Some(v) => v,
        None => false,
    };
    let n = refs.len();
    let ghost e0 = b.entities@.len();
    for i in 0..n
        invariant
            n == refs@.len(),
            ids@.len() == refs@.len(),
            ids@.len() < 0x7fff_ffff_ffff_fff0,
            b.ready(),
            b.entities@.len() == e0 + i,
            b.links@.len() == old(b).links@.len(),
            forall|k: int|
                0 <= k < i ==> entity_settled(#[trigger] b.entities@[e0 + k], refs@[k], views(ids@), *laid),
    {
        let e = &refs[i];
        let c = e.common();
        let int_id = crate::resolve::entity_number(ids, &c.id);
        let laid_pos = find_pos(&laid.layout, c.id.as_str());
        let geo_pos = find_pos(&laid.geo_positions, c.id.as_str());
        let pos = entity_position(c, geo_pos, laid_pos);
        let geo = match &geo_refs {
            Some((lat_ref, lon_ref)) => match find_coords(&laid.geo_coords, c.id.as_str()) {
                Some((lat, lon)) => Some((lat_ref.clone(), lat, lon_ref.clone(), lon)),
                None => None,
            },
            None => None,
        };
        let auto = if auto_on {
            find_colors(&laid.auto_colors, c.id.as_str())
        } else {
            None
        };
        let mapped_icon = mapping_get(&mapped, c.id.as_str());
        let mi: Option<&str> = match mapped_icon {
            Some(s) => Some(s.as_str()),
            None => None,
        };
        if !attr_budget(&b.tables, &c.attributes, 2) {
            return Err(BuildError::IdsExhausted);
        }
        let (re, shade) = resolve_entity(
            &mut b.tables,
            e,
            int_id,
            pos,
            geo,
            auto,
            mi,
            &data.loose_cards,
            &b.grades_one,
            &b.grades_two,
            &b.grades_three,
        );
        b.entities.push(re);
        match shade {
            Some(col) => b.entity_colors.push((c.id.clone(), col)),
            None => {},
        }
    }
    Ok(())
}

/// The categorical style configuration, when the settings have one.
fn categorical_cfg(s: &Settings) -> (r: Option<&crate::models::CategoricalCfg>) {
    match &s.extra_cfg.styling {
        Some(st) => match &st.links {
            Some(l) => match &l.categorical {
                Some(c) => Some(c),
                None => None,
            },
            None => None,
        },
        None => None,
    }
}

/// Register every link in order: type, strength, connection style, then
/// its chart-item id and attribute classes.
fn register_links(b: &mut Builder, data: &ChartData, laid: &LaidOut) -> (r: Result<Vec<LinkMeta>, BuildError>)
    requires
        old(b).ready(),
    ensures
        final(b).ready(),
        r matches Ok(m) ==> m@.len() == data.links@.len(),
        final(b).entities@ == old(b).entities@,
        final(b).links@.len() == old(b).links@.len(),
{
    let spacing: i64 = match b.settings.extra_cfg.link_arc_offset {
        Some(v) => v,
        None => 20,
    };
    let n = data.links.len();
    let mag: u64 = if spacing >= 0 {
        spacing as u64
    } else if spacing == i64::MIN {
        0x8000_0000_0000_0000
    } else {
        (-spacing) as u64
    };
    let nn = n as u64;
    if nn > 0 && mag > 0x7fff_ffff_ffff_ffff / nn {
        return Err(BuildError::OffsetsOverflow);
    }
    assert((nn as int) * (mag as int) <= 0x7fff_ffff_ffff_ffff) by (nonlinear_arith)
        requires
            nn == 0 || mag <= 0x7fff_ffff_ffff_ffffu64 / nn,
    ;
    assert(offsets_fit(n as int, spacing as int));
    let offsets = compute_link_offsets(&data.links, spacing);
    let mut metas: Vec<LinkMeta> = Vec::new();
    for i in 0..n
        invariant
            n == data.links@.len(),
            offsets@.len() == n,
            b.ready(),
            metas@.len() == i,
            b.entities@ == old(b).entities@,
            b.links@.len() == old(b).links@.len(),
    {
        let l = &data.links[i];
        let intensity: (Option<i64>, Option<u32>) = if i < laid.intensity.len() {
            laid.intensity[i]
        } else {
            (None, None)
        };
        let style_strength: Option<&str> = if l.strength.is_none() {
            match categorical_cfg(&b.settings) {
                Some(cat) => match categorical_style(&l.attributes, cat) {
                    Some(st) => as_str_opt(&st.strength),
                    None => None,
                },
                None => None,
            }
        } else {
            None
        };
        if !attr_budget(&b.tables, &l.attributes, 4) {
            return Err(BuildError::IdsExhausted);
        }
        let ds = as_str_opt(&b.default_strength);
        let meta = register_link(&mut b.tables, l, style_strength, ds, offsets[i], intensity);
        metas.push(meta);
    }
    Ok(metas)
}

/// Synthesize display attributes and labels on the resolved entities: each
/// display attribute with a name and a template registers its text class,
/// then adds its rendered value to each entity it targets; each display
/// label with a template replaces the label of each entity it targets whose
/// label is its identity or empty (or every one, when it overrides).
fn expand_entity_displays(b: &mut Builder, laid: &LaidOut) -> (r: Result<(), BuildError>)
    requires
        old(b).ready(),
    ensures
        final(b).ready(),
        final(b).entities@.len() == old(b).entities@.len(),
        forall|k: int| 0 <= k < old(b).entities@.len() ==> same_core(#[trigger] final(b).entities@[k], old(b).entities@[k]),
        final(b).links@.len() == old(b).links@.len(),
{
    let nd = b.settings.extra_cfg.display_attribute.len();
    for d in 0..nd
        invariant
            b.ready(),
            b.entities@.len() == old(b).entities@.len(),
            b.links@.len() == old(b).links@.len(),
            forall|k: int| 0 <= k < old(b).entities@.len() ==> same_core(#[trigger] b.entities@[k], old(b).entities@[k]),
            nd == b.settings.extra_cfg.display_attribute@.len(),
    {
        let da_name = match &b.settings.extra_cfg.display_attribute[d].attribute_name {
            Some(x) => x.clone(),
            None => String::new(),
        };
        let has = b.settings.extra_cfg.display_attribute[d].attribute_name.is_some()
            && b.settings.extra_cfg.display_attribute[d].template.is_some();
        if has {
            if !ids_fit(&b.tables, 1) {
                return Err(BuildError::IdsExhausted);
            }
            let reference = register_side_class(&mut b.tables, da_name.as_str(), false);
            let ne = b.entities.len();
            for i in 0..ne
                invariant
                    b.ready(),
                    ne == b.entities@.len(),
                    b.entities@.len() == old(b).entities@.len(),
                    b.links@.len() == old(b).links@.len(),
                forall|k: int| 0 <= k < old(b).entities@.len() ==> same_core(#[trigger] b.entities@[k], old(b).entities@[k]),
                    nd == b.settings.extra_cfg.display_attribute@.len(),
                    d < b.settings.extra_cfg.display_attribute@.len(),
            {
                let targets = display_targets(
                    as_str_opt(&b.settings.extra_cfg.display_attribute[d].kind),
                    as_str_opt(&b.settings.extra_cfg.display_attribute[d].type_),
                    false,
                    Some(b.entities[i].etype.as_str()),
                );
                if targets {
                    match nested_at(&laid.entity_display_attrs, d, i) {
                        Some(v) => {
                            let ghost before = b.entities@;
                            let mut re = b.entities.remove(i);
                            re.attrs.push(ResolvedAttr { class: da_name.clone(), reference: reference.clone(), value: Some(v) });
                            b.entities.insert(i, re);
                            proof {
                                assert(b.entities@ =~= before.update(i as int, re));
                            }
                        },
                        None => {},
                    }
                }
            }
        }
    }
    let nl = b.settings.extra_cfg.display_label.len();
    for d in 0..nl
        invariant
            b.ready(),
            b.entities@.len() == old(b).entities@.len(),
            b.links@.len() == old(b).links@.len(),
            forall|k: int| 0 <= k < old(b).entities@.len() ==> same_core(#[trigger] b.entities@[k], old(b).entities@[k]),
            nl == b.settings.extra_cfg.display_label@.len(),
    {
        if b.settings.extra_cfg.display_label[d].template.is_some() {
            let over = match b.settings.extra_cfg.display_label[d].override_existing {
                Some(v) => v,
                None => false,
            };
            let ne = b.entities.len();
            for i in 0..ne
                invariant
                    b.ready(),
                    ne == b.entities@.len(),
                    b.entities@.len() == old(b).entities@.len(),
                    b.links@.len() == old(b).links@.len(),
                forall|k: int| 0 <= k < old(b).entities@.len() ==> same_core(#[trigger] b.entities@[k], old(b).entities@[k]),
                    nl == b.settings.extra_cfg.display_label@.len(),
                    d < b.settings.extra_cfg.display_label@.len(),
            {
                let targets = display_targets(
                    as_str_opt(&b.settings.extra_cfg.display_label[d].kind),
                    as_str_opt(&b.settings.extra_cfg.display_label[d].type_),
                    false,
                    Some(b.entities[i].etype.as_str()),
                );
                if targets && may_replace_label(b.entities[i].label.as_str(), Some(b.entities[i].identity.as_str()), over) {
                    match nested_at(&laid.entity_display_labels, d, i) {
                        Some(v) => {
                            let ghost before = b.entities@;
                            let mut re = b.entities.remove(i);
                            re.label = v;
                            b.entities.insert(i, re);
                            proof {
                                assert(b.entities@ =~= before.update(i as int, re));
                            }
                        },
                        None => {},
                    }
                }
            }
        }
    }
    Ok(())
}


/// The default strength's name ("Default" when none is set).
fn strength_name(b: &Builder) -> (r: String)
    ensures
        r@ == default_strength_name(*b),
{
    match &b.default_strength {
        Some(s) => s.clone(),
        None => "Default".to_owned(),
    }
}

pub open spec fn default_strength_name(b: Builder) -> Seq<char> {
    match b.default_strength {
        Some(s) => s@,
        None => "Default"@,
    }
}

/// Resolve every link in order against the finished registries: its end
/// numbers, style (explicit, categorical, intensity, matched entity colour),
/// attributes (with display attributes), and label (with display labels).
fn resolve_links(b: &mut Builder, data: &ChartData, ids: &Vec<String>, metas: &Vec<LinkMeta>, laid: &LaidOut)
    requires
        old(b).ready(),
        metas@.len() == data.links@.len(),
        ids@.len() < 0x7fff_ffff_ffff_fff0,
    ensures
        final(b).ready(),
        final(b).links@.len() == old(b).links@.len() + data.links@.len(),
        forall|k: int|
            0 <= k < data.links@.len() ==> link_settled(
                #[trigger] final(b).links@[old(b).links@.len() + k],
                data.links@[k],
                views(ids@),
            ),
        final(b).entities@ == old(b).entities@,
{
    let match_color = match b.settings.extra_cfg.link_match_entity_color {
        Some(v) => v,
        None => false,
    };
    let ds = strength_name(b);
    let n = data.links.len();
    for i in 0..n
        invariant
            n == data.links@.len(),
            metas@.len() == n,
            ids@.len() < 0x7fff_ffff_ffff_fff0,
            b.ready(),
            b.links@.len() == old(b).links@.len() + i,
            b.entities@ == old(b).entities@,
            forall|k: int|
                0 <= k < i ==> link_settled(#[trigger] b.links@[old(b).links@.len() + k], data.links@[k], views(ids@)),
    {
        let l = &data.links[i];
        let end1 = crate::resolve::entity_number(ids, &l.from_id);
        let end2 = crate::resolve::entity_number(ids, &l.to_id);
        let cat_style = match categorical_cfg(&b.settings) {
            Some(cat) => categorical_style(&l.attributes, cat),
            None => None,
        };
        let matched = if match_color && l.line_color.is_none() {
            last_color(&b.entity_colors, l.to_id.as_str())
        } else {
            None
        };
        let mut attrs = lookup_attrs(&b.tables.classes, &l.attributes);
        let ltype = as_str_opt(&l.type_);
        let nd = b.settings.extra_cfg.display_attribute.len();
        for d in 0..nd
            invariant
                nd == b.settings.extra_cfg.display_attribute@.len(),
                b.ready(),
        {
            let disp = &b.settings.extra_cfg.display_attribute[d];
            if disp.template.is_some() && display_targets(as_str_opt(&disp.kind), as_str_opt(&disp.type_), true, ltype) {
                match &disp.attribute_name {
                    Some(name) => match b.tables.classes.id_of(name.as_str()) {
                        Some(reference) => match nested_at(&laid.link_display_attrs, d, i) {
                            Some(v) => {
                                attrs.push(ResolvedAttr { class: name.clone(), reference, value: Some(v) });
                            },
                            None => {},
                        },
                        None => {},
                    },
                    None => {},
                }
            }
        }
        let mut label = match &l.label {
            Some(x) => x.clone(),
            None => String::new(),
        };
        let nl = b.settings.extra_cfg.display_label.len();
        for d in 0..nl
            invariant
                nl == b.settings.extra_cfg.display_label@.len(),
        {
            let disp = &b.settings.extra_cfg.display_label[d];
            let over = match disp.override_existing {
                Some(v) => v,
                None => false,
            };
            if disp.template.is_some() && display_targets(as_str_opt(&disp.kind), as_str_opt(&disp.type_), true, ltype)
                && may_replace_label(label.as_str(), None, over) {
                match nested_at(&laid.link_display_labels, d, i) {
                    Some(v) => {
                        label = v;
                    },
                    None => {},
                }
            }
        }
        let rl = resolve_link(
            &b.tables,
            l,
            &metas[i],
            end1,
            end2,
            cat_style,
            matched,
            ds.as_str(),
            attrs,
            label,
            &data.loose_cards,
            &b.grades_one,
            &b.grades_two,
            &b.grades_three,
        );
        b.links.push(rl);
    }
}

/// Run the resolve passes in order: entities, links, display synthesis,
/// the configured types nothing referenced (entity types, link types,
/// attribute classes), then the grade and source string ids, and finally
/// the links' resolution against the finished registries.
pub fn finalize(b: &mut Builder, data: &ChartData, laid: &LaidOut) -> (r: Result<(), BuildError>)
    requires
        old(b).ready(),
        old(b).entities@.len() == 0,
        old(b).links@.len() == 0,
    ensures
        final(b).ready(),
        r is Ok ==> settled(*final(b), data, *laid),
{
    let refs = collect_entity_refs(data);
    let ids = entity_ids(&refs);
    if ids.len() as u64 >= 0x7fff_ffff_ffff_fff0 {
        return Err(BuildError::IdsExhausted);
    }
    match resolve_entities(b, data, &refs, &ids, laid) {
        Ok(()) => {},
        Err(e) => {
            return Err(e);
        },
    }
    let ghost resolved = b.entities@;
    assert(forall|k: int| 0 <= k < refs@.len() ==> entity_settled(#[trigger] resolved[0 + k], refs@[k], views(ids@), *laid));
    let metas = match register_links(b, data, laid) {
        Ok(m) => m,
        Err(e) => {
            return Err(e);
        },
    };
    match expand_entity_displays(b, laid) {
        Ok(()) => {},
        Err(e) => {
            return Err(e);
        },
    }
    let ghost expanded = b.entities@;
    if !ids_fit(&b.tables, b.tables.pending_entity_types.count() as u64) {
        return Err(BuildError::IdsExhausted);
    }
    {
        let t = &mut b.tables;
        register_remaining_entity_types(
            &mut t.entity_types,
            &mut t.pending_entity_types,
            &mut t.ids,
            &mut t.resolver,
            &t.entity_icons,
            &mut t.used_icons,
        );
    }
    if !ids_fit(&b.tables, b.tables.pending_link_types.count() as u64) {
        return Err(BuildError::IdsExhausted);
    }
    {
        let t = &mut b.tables;
        register_remaining_link_types(&mut t.link_types, &mut t.pending_link_types, &mut t.ids, &mut t.resolver);
    }
    if !ids_fit(&b.tables, b.tables.pending_classes.count() as u64) {
        return Err(BuildError::IdsExhausted);
    }
    {
        let t = &mut b.tables;
        register_remaining_attribute_classes(
            &mut t.classes,
            &mut t.pending_classes,
            &mut t.ids,
            &mut t.resolver,
            &t.attribute_icons,
            &mut t.used_icons,
        );
    }
    let g1 = copy_strings(&b.grades_one.items);
    if !ids_fit(&b.tables, g1.len() as u64) {
        return Err(BuildError::IdsExhausted);
    }
    b.strings_one = string_ids(&mut b.tables.ids, g1);
    let g2 = copy_strings(&b.grades_two.items);
    if !ids_fit(&b.tables, g2.len() as u64) {
        return Err(BuildError::IdsExhausted);
    }
    b.strings_two = string_ids(&mut b.tables.ids, g2);
    let g3 = copy_strings(&b.grades_three.items);
    if !ids_fit(&b.tables, g3.len() as u64) {
        return Err(BuildError::IdsExhausted);
    }
    b.strings_three = string_ids(&mut b.tables.ids, g3);
    let gs = copy_strings(&b.source_types);
    if !ids_fit(&b.tables, gs.len() as u64) {
        return Err(BuildError::IdsExhausted);
    }
    b.strings_sources = string_ids(&mut b.tables.ids, gs);
    let ghost mid = b.entities@;
    resolve_links(b, data, &ids, &metas, laid);
    proof {
        assert forall|k: int| 0 <= k < refs@.len() implies entity_settled(
            #[trigger] b.entities@[k],
            refs@[k],
            ref_ids(refs@),
            *laid,
        ) by {
            assert(entity_settled(resolved[0 + k], refs@[k], views(ids@), *laid));
            assert(views(ids@) == ref_ids(refs@));
            assert(same_core(expanded[k], resolved[k]));
        }
        assert forall|k: int| 0 <= k < data.links@.len() implies link_settled(
            #[trigger] b.links@[k],
            data.links@[k],
            ref_ids(refs@),
        ) by {
            assert(link_settled(b.links@[0 + k], data.links@[k], views(ids@)));
        }
    }
    Ok(())
}


// ── Emission ────────────────────────────────────────────────────────────────

/// The provenance comment's text.
pub open spec fn provenance() -> Seq<char> {
    "Built with anxwritter "@ + crate::TARGET_ANXWRITTER_VERSION@ + " — "@ + REPO_URL@
}

/// The `<ApplicationVersion>` attributes.
pub open spec fn app_version_pairs() -> Seq<Pair> {
    seq![("Major"@, "9"@), ("Minor"@, "0"@), ("Point"@, "0"@), ("Build"@, "0"@)]
}

/// The text at position `i`, if the list reaches it.
pub open spec fn text_at(v: Seq<Option<String>>, i: int) -> Option<Seq<char>> {
    if 0 <= i < v.len() {
        ostr(v[i])
    } else {
        None
    }
}

/// The first `k` entity chart items.
pub open spec fn entity_items_text(c: bool, b: Builder, refs: Seq<EntityRef>, laid: LaidOut, k: int) -> Seq<char>
    decreases k,
{
    if k <= 0 {
        seq![]
    } else {
        entity_items_text(c, b, refs, laid, k - 1) + entity_item_text(
            c,
            2,
            b.entities@[k - 1],
            refs[k - 1],
            default_strength_name(b),
            color_of(b.settings.chart.bg_color),
            text_at(laid.entity_sub_text@, k - 1),
        )
    }
}

/// The first `k` link chart items.
pub open spec fn link_items_text(c: bool, b: Builder, links: Seq<crate::models::Link>, laid: LaidOut, k: int) -> Seq<char>
    decreases k,
{
    if k <= 0 {
        seq![]
    } else {
        link_items_text(c, b, links, laid, k - 1) + link_item_text(
            c,
            2,
            b.links@[k - 1],
            links[k - 1],
            text_at(laid.link_sub_text@, k - 1),
        )
    }
}

/// The `<ChartItemCollection>`: every entity, then every link.
#[verifier::opaque]
pub open spec fn chart_items_text(c: bool, b: Builder, refs: Seq<EntityRef>, links: Seq<crate::models::Link>, laid: LaidOut) -> Seq<char> {
    line_text(c, 1, "ChartItemCollection"@, seq![], false) + entity_items_text(
        c,
        b,
        refs,
        laid,
        refs.len() as int,
    ) + link_items_text(c, b, links, laid, links.len() as int) + close_line(c, 1, "ChartItemCollection"@)
}

/// The document's opening: declaration, provenance comment, the `<Chart>`
/// tag, the application version, the library catalogue and the custom
/// images.
#[verifier::opaque]
pub open spec fn head_text(b: Builder, laid: LaidOut, c: bool, encoding: Seq<char>) -> Seq<char> {
    let cat = catalogue(b.tables.resolver.state());
    declaration_text(encoding) + comment_text(provenance()) + line_text(
        c,
        0,
        "Chart"@,
        chart_attr_pairs(b.settings, cat is Some, ostr(laid.grid_width), ostr(laid.grid_height)),
        false,
    ) + line_text(c, 1, "ApplicationVersion"@, app_version_pairs(), true) + catalogue_text(c, 1, cat)
        + custom_images_text(
        c,
        1,
        kept_images(b.custom_images@, string_set_entries(b.tables.used_icons), b.include_all_icons),
    )
}

/// The registries: strengths, grades and sources, attribute classes,
/// entity types, link types, date-time formats, then the summary.
#[verifier::opaque]
pub open spec fn registries_text(b: Builder, c: bool, created: Seq<char>) -> Seq<char> {
    strengths_text(c, 1, b.tables.strengths.items()) + grades_text(
        c,
        1,
        b.strings_one,
        b.strings_two,
        b.strings_three,
        b.strings_sources,
    ) + attribute_classes_text(c, 1, b.tables.classes.items()) + entity_types_text(
        c,
        1,
        b.tables.entity_types.items(),
    ) + link_types_text(c, 1, b.tables.link_types.items()) + datetime_formats_text(
        c,
        1,
        b.datetime_formats@,
    ) + summary_text(c, 1, b.settings.summary, created)
}

/// The document's close: connections, palettes, the legend and `</Chart>`.
#[verifier::opaque]
pub open spec fn tail_text(b: Builder, c: bool) -> Seq<char> {
    connections_text(c, 1, b.tables.connections.items()) + palettes_text(
        c,
        1,
        b.palettes@,
        b.tables.classes.items(),
        b.tables.entity_types.items(),
        b.tables.link_types.items(),
    ) + legend_text(c, 1, b.settings.legend_cfg, b.legend_items@) + close_line(c, 0, "Chart"@)
}

/// The whole document of a finalized build, in schema order.
pub open spec fn document_text(
    b: Builder,
    refs: Seq<EntityRef>,
    links: Seq<crate::models::Link>,
    laid: LaidOut,
    c: bool,
    created: Seq<char>,
    encoding: Seq<char>,
) -> Seq<char> {
    head_text(b, laid, c, encoding) + registries_text(b, c, created) + chart_items_text(c, b, refs, links, laid)
        + tail_text(b, c)
}

fn used_list(s: &indexmap::IndexSet<String>) -> (r: Vec<String>)
    ensures
        r@.map_values(|u: String| u@) == string_set_entries(*s),
{
    let n = string_set_len(s);
    let mut r: Vec<String> = Vec::new();
    for i in 0..n
        invariant
            n == string_set_entries(*s).len(),
            r@.map_values(|u: String| u@) == string_set_entries(*s).take(i as int),
    {
        let x = string_set_at(s, i).clone();
        let ghost before = r@;
        r.push(x);
        assert(r@.map_values(|u: String| u@) =~= before.map_values(|u: String| u@).push(x@));
        assert(string_set_entries(*s).take(i + 1) =~= string_set_entries(*s).take(i as int).push(
            string_set_entries(*s)[i as int],
        ));
    }
    assert(string_set_entries(*s).take(n as int) =~= string_set_entries(*s));
    r
}

fn provenance_string() -> (r: String)
    ensures
        r@ == provenance(),
{
    let mut r = "Built with anxwritter ".to_owned();
    r.append(crate::TARGET_ANXWRITTER_VERSION);
    r.append(" — ");
    r.append(REPO_URL);
    r
}

#[verifier::spinoff_prover]
#[verifier::rlimit(100)]
fn emit_entity_items<'s, S: XmlSink>(w: &mut Writer<'s, S>, b: &Builder, refs: &Vec<EntityRef>, laid: &LaidOut)
    requires
        old(w).out.valid(),
        old(w).depth == 2,
        b.entities@.len() == refs@.len(),
    ensures
        final(w).out.valid(),
        final(w).text() == old(w).text() + entity_items_text(old(w).compact, *b, refs@, *laid, refs@.len() as int),
        final(w).compact == old(w).compact,
        final(w).depth == 2,
        *final(final(w).out) == *final(old(w).out),
{
    let ghost c = w.compact;
    let ghost t1 = w.text();
    let strength = strength_name(b);
    let bg = resolve_color(&b.settings.chart.bg_color);
    let n = refs.len();
    assert(t1 + entity_items_text(c, *b, refs@, *laid, 0) =~= t1);
    for i in 0..n
        invariant
            n == refs@.len(),
            b.entities@.len() == refs@.len(),
            w.out.valid(),
            w.depth == 2,
            w.compact == c,
            w.text() == t1 + entity_items_text(c, *b, refs@, *laid, i as int),
            strength@ == default_strength_name(*b),
            bg == color_of(b.settings.chart.bg_color),
            *final(w.out) == *final(old(w).out),
    {
        let ghost before = entity_items_text(c, *b, refs@, *laid, i as int);
        emit_entity_item(w, &b.entities[i], refs[i], strength.as_str(), bg, opt_at(&laid.entity_sub_text, i));
        let ghost item = entity_item_text(
            c,
            2,
            b.entities@[i as int],
            refs@[i as int],
            default_strength_name(*b),
            color_of(b.settings.chart.bg_color),
            text_at(laid.entity_sub_text@, i as int),
        );
        assert(entity_items_text(c, *b, refs@, *laid, i + 1) == before + item);
        assert(w.text() =~= t1 + (before + item));
    }
}

#[verifier::spinoff_prover]
#[verifier::rlimit(100)]
fn emit_link_items<'s, S: XmlSink>(w: &mut Writer<'s, S>, b: &Builder, data: &ChartData, laid: &LaidOut)
    requires
        old(w).out.valid(),
        old(w).depth == 2,
        b.links@.len() == data.links@.len(),
    ensures
        final(w).out.valid(),
        final(w).text() == old(w).text() + link_items_text(
            old(w).compact,
            *b,
            data.links@,
            *laid,
            data.links@.len() as int,
        ),
        final(w).compact == old(w).compact,
        final(w).depth == 2,
        *final(final(w).out) == *final(old(w).out),
{
    let ghost c = w.compact;
    let ghost t2 = w.text();
    let m = data.links.len();
    assert(t2 + link_items_text(c, *b, data.links@, *laid, 0) =~= t2);
    for i in 0..m
        invariant
            m == data.links@.len(),
            b.links@.len() == data.links@.len(),
            w.out.valid(),
            w.depth == 2,
            w.compact == c,
            w.text() == t2 + link_items_text(c, *b, data.links@, *laid, i as int),
            *final(w.out) == *final(old(w).out),
    {
        let ghost before = link_items_text(c, *b, data.links@, *laid, i as int);
        emit_link_item(w, &b.links[i], &data.links[i], opt_at(&laid.link_sub_text, i));
        let ghost item = link_item_text(c, 2, b.links@[i as int], data.links@[i as int], text_at(laid.link_sub_text@, i as int));
        assert(link_items_text(c, *b, data.links@, *laid, i + 1) == before + item);
        assert(w.text() =~= t2 + (before + item));
    }
}

#[verifier::spinoff_prover]
#[verifier::rlimit(40)]
fn emit_chart_items<'s, S: XmlSink>(
    w: &mut Writer<'s, S>,
    b: &Builder,
    refs: &Vec<EntityRef>,
    data: &ChartData,
    laid: &LaidOut,
)
    requires
        old(w).out.valid(),
        old(w).depth == 1,
        b.entities@.len() == refs@.len(),
        b.links@.len() == data.links@.len(),
    ensures
        final(w).out.valid(),
        final(w).text() == old(w).text() + chart_items_text(old(w).compact, *b, refs@, data.links@, *laid),
        final(w).compact == old(w).compact,
        final(w).depth == 1,
        *final(final(w).out) == *final(old(w).out),
{
    let ghost c = w.compact;
    let ghost t0 = w.text();
    let none: Vec<Attr> = Vec::new();
    assert(attr_views(none@) =~= Seq::<Pair>::empty());
    put_open(w, "ChartItemCollection", &none);
    emit_entity_items(w, b, refs, laid);
    emit_link_items(w, b, data, laid);
    put_close(w, "ChartItemCollection");
    proof {
        reveal(chart_items_text);
    }
    assert(w.text() =~= t0 + chart_items_text(c, *b, refs@, data.links@, *laid));
}


fn app_version_attrs() -> (a: Vec<Attr<'static>>)
    ensures
        attr_views(a@) == app_version_pairs(),
{
    let mut a: Vec<Attr> = Vec::new();
    assert(attr_views(a@) =~= Seq::<Pair>::empty());
    push_pair(&mut a, "Major", "9".to_owned());
    push_pair(&mut a, "Minor", "0".to_owned());
    push_pair(&mut a, "Point", "0".to_owned());
    push_pair(&mut a, "Build", "0".to_owned());
    a
}

#[verifier::spinoff_prover]
#[verifier::rlimit(100)]
fn emit_head<'s, S: XmlSink>(w: &mut Writer<'s, S>, b: &Builder, laid: &LaidOut, encoding: &str)
    requires
        old(w).out.valid(),
        old(w).depth == 0,
    ensures
        final(w).out.valid(),
        final(w).text() == old(w).text() + head_text(*b, *laid, old(w).compact, encoding@),
        final(w).compact == old(w).compact,
        final(w).depth == 1,
        *final(final(w).out) == *final(old(w).out),
{
    let ghost c = w.compact;
    let ghost t0 = w.text();
    let ghost cat = catalogue(b.tables.resolver.state());
    w.declaration(encoding);
    let prov = provenance_string();
    w.comment(prov.as_str());
    let ca = chart_attrs(&b.settings, &b.tables.resolver, as_str_opt(&laid.grid_width), as_str_opt(&laid.grid_height));
    put_open(w, "Chart", &ca);
    let av = app_version_attrs();
    put_empty(w, "ApplicationVersion", &av);
    let ghost p1 = declaration_text(encoding@) + comment_text(provenance()) + line_text(
        c,
        0,
        "Chart"@,
        chart_attr_pairs(b.settings, cat is Some, ostr(laid.grid_width), ostr(laid.grid_height)),
        false,
    ) + line_text(c, 1, "ApplicationVersion"@, app_version_pairs(), true);
    assert(w.text() =~= t0 + p1);
    let ghost t1 = w.text();
    emit_library_catalogue(w, &b.tables.resolver);
    let ghost x = catalogue_text(c, 1, cat);
    assert(w.text() == t1 + x);
    let ghost t2 = w.text();
    let used = used_list(&b.tables.used_icons);
    emit_custom_images(w, &b.custom_images, &used, b.include_all_icons);
    let ghost y = custom_images_text(
        c,
        1,
        kept_images(b.custom_images@, string_set_entries(b.tables.used_icons), b.include_all_icons),
    );
    assert(w.text() == t2 + y);
    assert(w.text() =~= t0 + (p1 + x + y));
    proof {
        reveal(head_text);
    }
}

#[verifier::spinoff_prover]
#[verifier::rlimit(100)]
fn emit_registries<'s, S: XmlSink>(w: &mut Writer<'s, S>, b: &Builder, created: &str)
    requires
        old(w).out.valid(),
        old(w).depth == 1,
        b.ready(),
    ensures
        final(w).out.valid(),
        final(w).text() == old(w).text() + registries_text(*b, old(w).compact, created@),
        final(w).compact == old(w).compact,
        final(w).depth == 1,
        *final(final(w).out) == *final(old(w).out),
{
    let ghost c = w.compact;
    let ghost t0 = w.text();
    emit_strengths(w, b.tables.strengths.entries());
    let ghost a1 = strengths_text(c, 1, b.tables.strengths.items());
    assert(w.text() == t0 + a1);
    let ghost t1 = w.text();
    emit_grades(w, &b.strings_one, &b.strings_two, &b.strings_three, &b.strings_sources);
    let ghost a2 = grades_text(c, 1, b.strings_one, b.strings_two, b.strings_three, b.strings_sources);
    assert(w.text() == t1 + a2);
    let ghost t2 = w.text();
    emit_attribute_classes(w, b.tables.classes.entries());
    let ghost a3 = attribute_classes_text(c, 1, b.tables.classes.items());
    assert(w.text() == t2 + a3);
    let ghost t3 = w.text();
    emit_entity_types(w, b.tables.entity_types.entries());
    let ghost a4 = entity_types_text(c, 1, b.tables.entity_types.items());
    assert(w.text() == t3 + a4);
    let ghost t4 = w.text();
    emit_link_types(w, b.tables.link_types.entries());
    let ghost a5 = link_types_text(c, 1, b.tables.link_types.items());
    assert(w.text() == t4 + a5);
    let ghost t5 = w.text();
    emit_datetime_formats(w, &b.datetime_formats);
    let ghost a6 = datetime_formats_text(c, 1, b.datetime_formats@);
    assert(w.text() == t5 + a6);
    let ghost t6 = w.text();
    emit_summary(w, &b.settings.summary, created);
    let ghost a7 = summary_text(c, 1, b.settings.summary, created@);
    assert(w.text() == t6 + a7);
    assert(w.text() =~= t0 + (a1 + a2 + a3 + a4 + a5 + a6 + a7));
    proof {
        reveal(registries_text);
    }
}

#[verifier::spinoff_prover]
#[verifier::rlimit(100)]
fn emit_tail<'s, S: XmlSink>(w: &mut Writer<'s, S>, b: &Builder)
    requires
        old(w).out.valid(),
        old(w).depth == 1,
    ensures
        final(w).out.valid(),
        final(w).text() == old(w).text() + tail_text(*b, old(w).compact),
        final(w).compact == old(w).compact,
        final(w).depth == 0,
        *final(final(w).out) == *final(old(w).out),
{
    let ghost c = w.compact;
    let ghost t0 = w.text();
    emit_connections(w, b.tables.connections.entries());
    emit_palettes(w, &b.palettes, b.tables.classes.entries(), b.tables.entity_types.entries(), b.tables.link_types.entries());
    emit_legend(w, &b.settings.legend_cfg, &b.legend_items);
    put_close(w, "Chart");
    proof {
        reveal(tail_text);
    }
    assert(w.text() =~= t0 + tail_text(*b, c));
}

/// Emit the whole document of a finalized build: the declaration naming
/// `encoding`, the provenance comment, then `<Chart>` with every section in
/// schema order. `created` is the creation date the summary uses when it
/// sets none.
pub fn emit_document<'s, S: XmlSink>(
    w: &mut Writer<'s, S>,
    b: &Builder,
    data: &ChartData,
    laid: &LaidOut,
    created: &str,
    encoding: &str,
)
    requires
        old(w).out.valid(),
        old(w).depth == 0,
        b.ready(),
        b.entities@.len() == entity_refs(data).len(),
        b.links@.len() == data.links@.len(),
    ensures
        final(w).out.valid(),
        final(w).text() == old(w).text() + document_text(
            *b,
            entity_refs(data),
            data.links@,
            *laid,
            old(w).compact,
            created@,
            encoding@,
        ),
        final(w).compact == old(w).compact,
        final(w).depth == 0,
        *final(final(w).out) == *final(old(w).out),
{
    let ghost c = w.compact;
    let ghost t0 = w.text();
    let refs = collect_entity_refs(data);
    emit_head(w, b, laid, encoding);
    let ghost t1 = w.text();
    emit_registries(w, b, created);
    let ghost t2 = w.text();
    emit_chart_items(w, b, &refs, data, laid);
    let ghost t3 = w.text();
    emit_tail(w, b);
    let ghost h = head_text(*b, *laid, c, encoding@);
    let ghost g = registries_text(*b, c, created@);
    let ghost it = chart_items_text(c, *b, entity_refs(data), data.links@, *laid);
    let ghost tl = tail_text(*b, c);
    assert(w.text() == t0 + h + g + it + tl);
    assert(t0 + h + g + it + tl =~= t0 + (h + g + it + tl));
}

/// Finalize a build and emit its document into a string.
fn build_document(b: &mut Builder, data: &ChartData, laid: &LaidOut, compact: bool, created: &str, encoding: &str) -> (r: Result<String, BuildError>)
    requires
        old(b).ready(),
        old(b).entities@.len() == 0,
        old(b).links@.len() == 0,
    ensures
        final(b).ready(),
        r is Ok ==> settled(*final(b), data, *laid),
        r matches Ok(s) ==> s@ == document_text(*final(b), entity_refs(data), data.links@, *laid, compact, created@, encoding@),
{
    match finalize(b, data, laid) {
        Ok(()) => {},
        Err(e) => {
            return Err(e);
        },
    }
    let mut s = String::new();
    {
        let mut w = Writer::new(&mut s, compact);
        emit_document(&mut w, b, data, laid, created, encoding);
    }
    Ok(s)
}

impl LaidOut {
    /// Outside values for a chart that needs none: no positions, colours,
    /// overrides, icon bitmaps or rendered displays.
    pub fn plain(created: String) -> (r: LaidOut)
        ensures
            r.created == created,
            r.entity_icon_bmps@.len() == 0,
            r.attribute_icon_bmps@.len() == 0,
    {
        LaidOut {
            created,
            entity_icon_bmps: Vec::new(),
            attribute_icon_bmps: Vec::new(),
            layout: Vec::new(),
            geo_positions: Vec::new(),
            geo_coords: Vec::new(),
            auto_colors: Vec::new(),
            intensity: Vec::new(),
            entity_sub_text: Vec::new(),
            link_sub_text: Vec::new(),
            grid_width: None,
            grid_height: None,
            entity_display_attrs: Vec::new(),
            entity_display_labels: Vec::new(),
            link_display_attrs: Vec::new(),
            link_display_labels: Vec::new(),
        }
    }
}

impl Builder {
    /// Start a build from a config layer; `settings` are the layer's
    /// settings (or the defaults when it has none), and `laid` gives the
    /// custom icons' bitmaps.
    pub fn new(config: Config, settings: Settings, laid: &LaidOut) -> (r: Result<Builder, BuildError>)
        requires
            laid.entity_icon_bmps@.len() == config.custom_entity_icons@.len(),
            laid.attribute_icon_bmps@.len() == config.custom_attribute_icons@.len(),
        ensures
            r is Ok <==> strength_count(config.strengths) < 0xffff_fff0 && config.datetime_formats@.len() < 0xffff_fff0,
            r matches Ok(b) ==> initial_state(b, config, settings),
            r matches Err(e) ==> e is IdsExhausted,
    {
        new_builder(config, settings, &laid.entity_icon_bmps, &laid.attribute_icon_bmps)
    }

    /// Resolve and emit the compact XML string of a chart (declared UTF-8).
    pub fn build(&mut self, data: &ChartData, laid: &LaidOut) -> (r: Result<String, BuildError>)
        requires
            old(self).ready(),
            old(self).entities@.len() == 0,
            old(self).links@.len() == 0,
        ensures
            final(self).ready(),
            r is Ok ==> settled(*final(self), data, *laid),
            r matches Ok(s) ==> s@ == document_text(*final(self), entity_refs(data), data.links@, *laid, true, laid.created@, "utf-8"@),
    {
        build_document(self, data, laid, true, laid.created.as_str(), "utf-8")
    }

    /// Resolve and emit the XML string of a chart (declared UTF-8): compact,
    /// or indented two spaces a level when `compact` is off.
    pub fn build_with(&mut self, data: &ChartData, laid: &LaidOut, compact: bool) -> (r: Result<String, BuildError>)
        requires
            old(self).ready(),
            old(self).entities@.len() == 0,
            old(self).links@.len() == 0,
        ensures
            final(self).ready(),
            r is Ok ==> settled(*final(self), data, *laid),
            r matches Ok(s) ==> s@ == document_text(*final(self), entity_refs(data), data.links@, *laid, compact, laid.created@, "utf-8"@),
    {
        build_document(self, data, laid, compact, laid.created.as_str(), "utf-8")
    }

    /// Resolve, then write the chart's `.anx` bytes into `inner`: the
    /// byte-order mark, then the document (declared UTF-16) in UTF-16 LE.
    pub fn write_to<W: ByteWrite>(&mut self, data: &ChartData, laid: &LaidOut, inner: W, compact: bool) -> (r: Result<W, Error>)
        requires
            old(self).ready(),
            old(self).entities@.len() == 0,
            old(self).links@.len() == 0,
        ensures
            final(self).ready(),
            r is Ok ==> settled(*final(self), data, *laid),
            r matches Ok(w) ==> w.bytes() == inner.bytes() + bom() + utf16le(
                document_text(*final(self), entity_refs(data), data.links@, *laid, compact, laid.created@, "utf-16"@),
            ),
            inner.accepts() && r is Err ==> r matches Err(Error::Other(_)),
    {
        let s = match build_document(self, data, laid, compact, laid.created.as_str(), "utf-16") {
            Ok(s) => s,
            Err(e) => {
                return Err(build_failure(e));
            },
        };
        let bytes = to_utf16le_with_bom(s.as_str());
        let mut inner = inner;
        match inner.write_all(bytes.as_slice()) {
            Ok(()) => {},
            Err(f) => {
                return Err(Error::Other(f.message));
            },
        }
        match inner.flush() {
            Ok(()) => {},
            Err(f) => {
                return Err(Error::Other(f.message));
            },
        }
        Ok(inner)
    }
}


// ── Whole builds ────────────────────────────────────────────────────────────

/// `s` is the document (declaring `encoding`, compact or not) of some
/// finished build of `data` with the outside values `laid`: one that
/// settled every entity's number, identity, type and position and every
/// link's ends as [`settled`] says.
pub open spec fn is_document_of(s: Seq<char>, data: &ChartData, laid: LaidOut, compact: bool, encoding: Seq<char>) -> bool {
    exists|b: Builder|
        b.ready() && settled(b, data, laid) && s == #[trigger] document_text(
            b,
            entity_refs(data),
            data.links@,
            laid,
            compact,
            laid.created@,
            encoding,
        )
}

/// The library error a build failure is reported as.
fn build_failure(e: BuildError) -> (r: Error)
    ensures
        r is Other,
{
    match e {
        BuildError::IdsExhausted => Error::Other("the id counter is exhausted".to_owned()),
        BuildError::OffsetsOverflow => Error::Other("link arc offsets overflow".to_owned()),
    }
}

/// Build a chart to its document text, without validating.
fn render(config: Config, settings: Settings, data: &ChartData, laid: &LaidOut, compact: bool, encoding: &str) -> (r: Result<String, Error>)
    requires
        laid.entity_icon_bmps@.len() == config.custom_entity_icons@.len(),
        laid.attribute_icon_bmps@.len() == config.custom_attribute_icons@.len(),
    ensures
        r matches Ok(s) ==> is_document_of(s@, data, *laid, compact, encoding@),
        r is Err ==> r matches Err(Error::Other(_)),
{
    let mut b = match new_builder(config, settings, &laid.entity_icon_bmps, &laid.attribute_icon_bmps) {
        Ok(b) => b,
        Err(e) => {
            return Err(build_failure(e));
        },
    };
    match build_document(&mut b, data, laid, compact, laid.created.as_str(), encoding) {
        Ok(s) => Ok(s),
        Err(e) => Err(build_failure(e)),
    }
}

proof fn lemma_entity_count(data: &ChartData)
    ensures
        entity_refs(data).len() == entity_count(*data),
{
}

/// The validation gate, for a chart of any size.
fn check(config: &Config, data: &ChartData) -> (r: Result<(), Error>)
    ensures
        r is Ok <==> validation_findings(*config, *data).len() == 0,
        r is Err ==> r matches Err(Error::Validation(_)),
{
    let refs = collect_entity_refs(data);
    let n = refs.len();
    proof {
        lemma_entity_count(data);
    }
    assert(n == entity_count(*data));
    validate_or_err(config, data)
}

/// The compact XML string of a chart, declared as UTF-8, without
/// validation.
pub fn render_xml(config: Config, settings: Settings, data: &ChartData, laid: &LaidOut) -> (r: Result<String, Error>)
    requires
        laid.entity_icon_bmps@.len() == config.custom_entity_icons@.len(),
        laid.attribute_icon_bmps@.len() == config.custom_attribute_icons@.len(),
    ensures
        r matches Ok(s) ==> is_document_of(s@, data, *laid, true, "utf-8"@),
        r is Err ==> r matches Err(Error::Other(_)),
{
    render(config, settings, data, laid, true, "utf-8")
}

/// Validate, then give the compact XML string of a chart (UTF-8). An
/// invalid chart gives every finding as [`Error::Validation`].
pub fn to_xml(config: Config, settings: Settings, data: &ChartData, laid: &LaidOut) -> (r: Result<String, Error>)
    requires
        laid.entity_icon_bmps@.len() == config.custom_entity_icons@.len(),
        laid.attribute_icon_bmps@.len() == config.custom_attribute_icons@.len(),
    ensures
        validation_findings(config, *data).len() > 0 ==> r matches Err(Error::Validation(_)),
        r matches Err(Error::Validation(_)) ==> validation_findings(config, *data).len() > 0,
        r matches Ok(s) ==> is_document_of(s@, data, *laid, true, "utf-8"@),
{
    match check(&config, data) {
        Ok(()) => {},
        Err(e) => {
            return Err(e);
        },
    }
    render(config, settings, data, laid, true, "utf-8")
}

/// Build a chart's `.anx` bytes: the byte-order mark, then the document
/// (declared as UTF-16) in UTF-16 LE. With `validate`, an invalid chart
/// gives every finding as [`Error::Validation`] and nothing is built.
pub fn build_anx_with(config: Config, settings: Settings, data: &ChartData, laid: &LaidOut, opts: BuildOptions) -> (r: Result<Vec<u8>, Error>)
    requires
        laid.entity_icon_bmps@.len() == config.custom_entity_icons@.len(),
        laid.attribute_icon_bmps@.len() == config.custom_attribute_icons@.len(),
    ensures
        opts.validate && validation_findings(config, *data).len() > 0 ==> r matches Err(Error::Validation(_)),
        r matches Err(Error::Validation(_)) ==> opts.validate && validation_findings(config, *data).len() > 0,
        r matches Ok(bytes) ==> exists|s: Seq<char>|
            #[trigger] is_document_of(s, data, *laid, opts.compact, "utf-16"@) && bytes@ == bom() + utf16le(s),
{
    if opts.validate {
        match check(&config, data) {
            Ok(()) => {},
            Err(e) => {
                return Err(e);
            },
        }
    }
    match render(config, settings, data, laid, opts.compact, "utf-16") {
        Ok(s) => {
            let bytes = to_utf16le_with_bom(s.as_str());
            assert(is_document_of(s@, data, *laid, opts.compact, "utf-16"@));
            Ok(bytes)
        },
        Err(e) => Err(e),
    }
}

/// [`build_anx_with`] in compact form, validating when `validate` is set.
pub fn build_anx(config: Config, settings: Settings, data: &ChartData, laid: &LaidOut, validate: bool) -> (r: Result<Vec<u8>, Error>)
    requires
        laid.entity_icon_bmps@.len() == config.custom_entity_icons@.len(),
        laid.attribute_icon_bmps@.len() == config.custom_attribute_icons@.len(),
    ensures
        validate && validation_findings(config, *data).len() > 0 ==> r matches Err(Error::Validation(_)),
        r matches Err(Error::Validation(_)) ==> validate && validation_findings(config, *data).len() > 0,
        r matches Ok(bytes) ==> exists|s: Seq<char>|
            #[trigger] is_document_of(s, data, *laid, true, "utf-16"@) && bytes@ == bom() + utf16le(s),
{
    build_anx_with(config, settings, data, laid, BuildOptions { compact: true, validate })
}

/// Validate, then hand a chart's `.anx` bytes out in chunks of at most
/// `chunk` bytes (2 at least) that never split a UTF-16 code unit.
pub fn iter_anx_bytes(config: Config, settings: Settings, data: &ChartData, laid: &LaidOut, chunk: usize) -> (r: Result<AnxByteChunks, Error>)
    requires
        laid.entity_icon_bmps@.len() == config.custom_entity_icons@.len(),
        laid.attribute_icon_bmps@.len() == config.custom_attribute_icons@.len(),
    ensures
        validation_findings(config, *data).len() > 0 ==> r matches Err(Error::Validation(_)),
        r matches Err(Error::Validation(_)) ==> validation_findings(config, *data).len() > 0,
        r matches Ok(ch) ==> exists|s: Seq<char>|
            #[trigger] is_document_of(s, data, *laid, true, "utf-16"@) && ch.remaining() == bom() + utf16le(s),
{
    match build_anx(config, settings, data, laid, true) {
        Ok(bytes) => Ok(AnxByteChunks::new(bytes, chunk)),
        Err(e) => Err(e),
    }
}

/// Validate (when `validate` is set), then write a chart's `.anx` bytes
/// into `inner`: the byte-order mark, then the document in UTF-16 LE. A
/// refused write is reported as [`Error::Other`] with its message.
#[verifier::spinoff_prover]
#[verifier::rlimit(40)]
pub fn write_anx<W: ByteWrite>(
    config: Config,
    settings: Settings,
    data: &ChartData,
    laid: &LaidOut,
    inner: W,
    validate: bool,
) -> (r: Result<W, Error>)
    requires
        laid.entity_icon_bmps@.len() == config.custom_entity_icons@.len(),
        laid.attribute_icon_bmps@.len() == config.custom_attribute_icons@.len(),
    ensures
        validate && validation_findings(config, *data).len() > 0 ==> r matches Err(Error::Validation(_)),
        r matches Err(Error::Validation(_)) ==> validate && validation_findings(config, *data).len() > 0,
        r matches Ok(w) ==> exists|s: Seq<char>|
            #[trigger] is_document_of(s, data, *laid, true, "utf-16"@) && w.bytes() == inner.bytes() + bom()
                + utf16le(s),
{
    let bytes = match build_anx(config, settings, data, laid, validate) {
        Ok(b) => b,
        Err(e) => {
            return Err(e);
        },
    };
    let mut inner = inner;
    match inner.write_all(bytes.as_slice()) {
        Ok(()) => {},
        Err(f) => {
            return Err(Error::Other(f.message));
        },
    }
    match inner.flush() {
        Ok(()) => {},
        Err(f) => {
            return Err(Error::Other(f.message));
        },
    }
    Ok(inner)
}

} // verus!
