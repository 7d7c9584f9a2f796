//! Color handling. ANB colors are Windows COLORREF integers,
//! `R + G*256 + B*65536` (upper byte 0). A color may be given as a COLORREF
//! integer, a named color (`"Light Orange"`, `"light_orange"`, ...), a hex
//! string (`"#RRGGBB"` or `"RRGGBB"`), or a [`Color`] variant; [`ColorValue`]
//! unifies these and [`ColorValue::to_colorref`] resolves them.
use vstd::prelude::*;

use crate::enums::{Color, EnumMeta};
use crate::error::Error;
use crate::text::{
    canonical_key, canonical_key_of, chars_of, hex_of, hex_value, is_hex, seq_eq, trim,
    trim_chars,
};

verus! {

/// `R + G*256 + B*65536`.
pub open spec fn colorref(r: int, g: int, b: int) -> int {
    r + g * 256 + b * 65536
}

/// Build a COLORREF integer from an `(r, g, b)` triple.
pub fn rgb_to_colorref(r: u32, g: u32, b: u32) -> (c: u32)
    requires
        colorref(r as int, g as int, b as int) <= u32::MAX,
    ensures
        c == colorref(r as int, g as int, b as int),
{
    r + g * 256 + b * 65536
}

/// Split a COLORREF into `(r, g, b)`: its three low bytes.
pub fn colorref_to_rgb(c: u32) -> (rgb: (u32, u32, u32))
    ensures
        rgb == ((c % 256) as u32, ((c / 256) % 256) as u32, ((c / 65536) % 256) as u32),
{
    let r = c & 0xFF;
    let g = (c >> 8) & 0xFF;
    let b = (c >> 16) & 0xFF;
    assert(c & 0xFF == c % 256) by (bit_vector);
    assert((c >> 8) & 0xFF == (c / 256) % 256) by (bit_vector);
    assert((c >> 16) & 0xFF == (c / 65536) % 256) by (bit_vector);
    (r, g, b)
}

/// Splitting a COLORREF of three channels and joining its channels again
/// gives it back.
pub proof fn colorref_roundtrip(c: u32)
    requires
        c <= 0xFF_FFFF,
    ensures
        colorref((c % 256) as int, ((c / 256) % 256) as int, ((c / 65536) % 256) as int) == c,
{
}

/// Joining three channels and splitting the result gives the channels back.
pub proof fn rgb_roundtrip(r: u32, g: u32, b: u32)
    requires
        r < 256,
        g < 256,
        b < 256,
    ensures
        ({
            let c = colorref(r as int, g as int, b as int);
            c % 256 == r && (c / 256) % 256 == g && (c / 65536) % 256 == b && c <= 0xFF_FFFF
        }),
{
}

/// The 40 named ANB shading colors as `(normalized_name, colorref)`, names
/// lowercase with `_` between words, in ANB palette order.
#[verifier::opaque]
pub open spec fn named_table() -> Seq<(&'static str, u32)> {
    seq![
        ("black", 0u32),
        ("brown", 13209u32),
        ("olive_green", 13107u32),
        ("dark_green", 13056u32),
        ("dark_teal", 6697728u32),
        ("dark_blue", 8388608u32),
        ("indigo", 10040115u32),
        ("dark_grey", 3355443u32),
        ("dark_red", 128u32),
        ("orange", 26367u32),
        ("dark_yellow", 32896u32),
        ("green", 32768u32),
        ("teal", 8421376u32),
        ("blue", 16711680u32),
        ("blue_grey", 10053222u32),
        ("grey", 8421504u32),
        ("red", 255u32),
        ("light_orange", 39423u32),
        ("lime", 52377u32),
        ("sea_green", 6723891u32),
        ("aqua", 13421619u32),
        ("light_blue", 16737843u32),
        ("violet", 8388736u32),
        ("light_grey", 10066329u32),
        ("pink", 16711935u32),
        ("gold", 52479u32),
        ("yellow", 65535u32),
        ("bright_green", 65280u32),
        ("turquoise", 16776960u32),
        ("sky_blue", 16763904u32),
        ("plum", 6697881u32),
        ("silver", 12632256u32),
        ("rose", 13408767u32),
        ("tan", 10079487u32),
        ("light_yellow", 10092543u32),
        ("light_green", 13434828u32),
        ("light_turquoise", 16777164u32),
        ("pale_blue", 16764057u32),
        ("lavender", 16751052u32),
        ("white", 16777215u32),
    ]
}

/// The same 40 colors under their display names (`"Light Orange"`,
/// `"Blue-Grey"`), parallel to [`named_table`].
#[verifier::opaque]
pub open spec fn display_table() -> Seq<(&'static str, u32)> {
    seq![
        ("Black", 0u32),
        ("Brown", 13209u32),
        ("Olive Green", 13107u32),
        ("Dark Green", 13056u32),
        ("Dark Teal", 6697728u32),
        ("Dark Blue", 8388608u32),
        ("Indigo", 10040115u32),
        ("Dark Grey", 3355443u32),
        ("Dark Red", 128u32),
        ("Orange", 26367u32),
        ("Dark Yellow", 32896u32),
        ("Green", 32768u32),
        ("Teal", 8421376u32),
        ("Blue", 16711680u32),
        ("Blue-Grey", 10053222u32),
        ("Grey", 8421504u32),
        ("Red", 255u32),
        ("Light Orange", 39423u32),
        ("Lime", 52377u32),
        ("Sea Green", 6723891u32),
        ("Aqua", 13421619u32),
        ("Light Blue", 16737843u32),
        ("Violet", 8388736u32),
        ("Light Grey", 10066329u32),
        ("Pink", 16711935u32),
        ("Gold", 52479u32),
        ("Yellow", 65535u32),
        ("Bright Green", 65280u32),
        ("Turquoise", 16776960u32),
        ("Sky Blue", 16763904u32),
        ("Plum", 6697881u32),
        ("Silver", 12632256u32),
        ("Rose", 13408767u32),
        ("Tan", 10079487u32),
        ("Light Yellow", 10092543u32),
        ("Light Green", 13434828u32),
        ("Light Turquoise", 16777164u32),
        ("Pale Blue", 16764057u32),
        ("Lavender", 16751052u32),
        ("White", 16777215u32),
    ]
}

/// The 40 named ANB shading colors as `(normalized_name, colorref)`.
pub fn named_colors() -> (t: Vec<(&'static str, u32)>)
    ensures
        t@ == named_table(),
{
    let t = vec![
        ("black", 0u32),
        ("brown", 13209u32),
        ("olive_green", 13107u32),
        ("dark_green", 13056u32),
        ("dark_teal", 6697728u32),
        ("dark_blue", 8388608u32),
        ("indigo", 10040115u32),
        ("dark_grey", 3355443u32),
        ("dark_red", 128u32),
        ("orange", 26367u32),
        ("dark_yellow", 32896u32),
        ("green", 32768u32),
        ("teal", 8421376u32),
        ("blue", 16711680u32),
        ("blue_grey", 10053222u32),
        ("grey", 8421504u32),
        ("red", 255u32),
        ("light_orange", 39423u32),
        ("lime", 52377u32),
        ("sea_green", 6723891u32),
        ("aqua", 13421619u32),
        ("light_blue", 16737843u32),
        ("violet", 8388736u32),
        ("light_grey", 10066329u32),
        ("pink", 16711935u32),
        ("gold", 52479u32),
        ("yellow", 65535u32),
        ("bright_green", 65280u32),
        ("turquoise", 16776960u32),
        ("sky_blue", 16763904u32),
        ("plum", 6697881u32),
        ("silver", 12632256u32),
        ("rose", 13408767u32),
        ("tan", 10079487u32),
        ("light_yellow", 10092543u32),
        ("light_green", 13434828u32),
        ("light_turquoise", 16777164u32),
        ("pale_blue", 16764057u32),
        ("lavender", 16751052u32),
        ("white", 16777215u32),
    ];
    reveal(named_table);
    assert(t@ =~= named_table());
    t
}

/// The named colors under their display names, parallel to [`named_colors`].
pub fn named_colors_display() -> (t: Vec<(&'static str, u32)>)
    ensures
        t@ == display_table(),
{
    let t = vec![
        ("Black", 0u32),
        ("Brown", 13209u32),
        ("Olive Green", 13107u32),
        ("Dark Green", 13056u32),
        ("Dark Teal", 6697728u32),
        ("Dark Blue", 8388608u32),
        ("Indigo", 10040115u32),
        ("Dark Grey", 3355443u32),
        ("Dark Red", 128u32),
        ("Orange", 26367u32),
        ("Dark Yellow", 32896u32),
        ("Green", 32768u32),
        ("Teal", 8421376u32),
        ("Blue", 16711680u32),
        ("Blue-Grey", 10053222u32),
        ("Grey", 8421504u32),
        ("Red", 255u32),
        ("Light Orange", 39423u32),
        ("Lime", 52377u32),
        ("Sea Green", 6723891u32),
        ("Aqua", 13421619u32),
        ("Light Blue", 16737843u32),
        ("Violet", 8388736u32),
        ("Light Grey", 10066329u32),
        ("Pink", 16711935u32),
        ("Gold", 52479u32),
        ("Yellow", 65535u32),
        ("Bright Green", 65280u32),
        ("Turquoise", 16776960u32),
        ("Sky Blue", 16763904u32),
        ("Plum", 6697881u32),
        ("Silver", 12632256u32),
        ("Rose", 13408767u32),
        ("Tan", 10079487u32),
        ("Light Yellow", 10092543u32),
        ("Light Green", 13434828u32),
        ("Light Turquoise", 16777164u32),
        ("Pale Blue", 16764057u32),
        ("Lavender", 16751052u32),
        ("White", 16777215u32),
    ];
    reveal(display_table);
    assert(t@ =~= display_table());
    t
}

/// The value of the first table entry whose name is `key`.
pub open spec fn table_lookup(t: Seq<(&'static str, u32)>, key: Seq<char>) -> Option<u32>
    decreases t.len(),
{
    if t.len() == 0 {
        None
    } else if t[0].0@ == key {
        Some(t[0].1)
    } else {
        table_lookup(t.drop_first(), key)
    }
}

/// The COLORREF a color name stands for: its canonical key looked up in the
/// named table.
pub open spec fn named_lookup(name: Seq<char>) -> Option<u32> {
    table_lookup(named_table(), canonical_key(name))
}

fn lookup_key(key: &Vec<char>) -> (r: Option<u32>)
    ensures
        r == table_lookup(named_table(), key@),
{
    let t = named_colors();
    let n = t.len();
    let mut i: usize = 0;
    assert(t@.skip(0) =~= t@);
    while i < n
        invariant
            n == t@.len(),
            t@ == named_table(),
            i <= n,
            table_lookup(named_table(), key@) == table_lookup(t@.skip(i as int), key@),
        decreases n - i,
    {
        assert(t@.skip(i as int)[0] == t@[i as int]);
        assert(t@.skip(i as int).drop_first() =~= t@.skip(i + 1));
        let (name, value) = t[i];
        let nv = chars_of(name);
        if seq_eq(&nv, key) {
            return Some(value);
        }
        i = i + 1;
    }
    None
}

/// Resolve a named color (case-, space- and dash-insensitive) to its
/// COLORREF, or `None` if unknown.
pub fn named_to_colorref(name: &str) -> (r: Option<u32>)
    ensures
        r == named_lookup(name@),
{
    let key = canonical_key_of(name);
    lookup_key(&key)
}

/// The text after an optional leading `#`, once trimmed.
pub open spec fn hex_body(s: Seq<char>) -> Seq<char> {
    let t = trim(s);
    if t.len() > 0 && t[0] == '#' {
        t.drop_first()
    } else {
        t
    }
}

/// Six hex digits as `RRGGBB`, read into a COLORREF.
pub open spec fn hex6_colorref(h: Seq<char>) -> int {
    colorref(
        (hex_of(h[0]) * 16 + hex_of(h[1])) as int,
        (hex_of(h[2]) * 16 + hex_of(h[3])) as int,
        (hex_of(h[4]) * 16 + hex_of(h[5])) as int,
    )
}

/// What a color string resolves to: a named color first, then `#RRGGBB` or
/// `RRGGBB` hex.
pub open spec fn color_str_value(s: Seq<char>) -> Option<u32> {
    match named_lookup(s) {
        Some(v) => Some(v),
        None => hex_color_value(s),
    }
}

fn hex_pair(h: &Vec<char>, i: usize) -> (r: Option<u32>)
    requires
        i + 1 < h@.len(),
        h@.len() == 6,
    ensures
        (is_hex(h@[i as int]) && is_hex(h@[i + 1])) ==> r == Some(
            (hex_of(h@[i as int]) * 16 + hex_of(h@[i + 1])) as u32,
        ),
        !(is_hex(h@[i as int]) && is_hex(h@[i + 1])) ==> r is None,
        r matches Some(x) ==> x < 256,
{
    let hi = hex_value(h[i]);
    let lo = hex_value(h[i + 1]);
    if let Some(a) = hi {
        if let Some(b) = lo {
            return Some(a * 16 + b);
        }
    }
    None
}

fn hex_body_of(s: &str) -> (h: Vec<char>)
    ensures
        h@ == hex_body(s@),
{
    let v = chars_of(s);
    let t = trim_chars(&v);
    let mut h: Vec<char> = Vec::new();
    let start: usize = if t.len() > 0 && t[0] == '#' { 1 } else { 0 };
    let mut k = start;
    while k < t.len()
        invariant
            start <= k <= t@.len(),
            h@ == t@.subrange(start as int, k as int),
        decreases t@.len() - k,
    {
        h.push(t[k]);
        assert(t@.subrange(start as int, k + 1) =~= t@.subrange(start as int, k as int).push(
            t@[k as int],
        ));
        k = k + 1;
    }
    assert(h@ =~= hex_body(s@));
    h
}

fn hex6(h: &Vec<char>) -> (r: Option<u32>)
    requires
        h@.len() == 6,
    ensures
        r == (if (forall|i: int| 0 <= i < 6 ==> is_hex(#[trigger] h@[i])) {
            Some(hex6_colorref(h@) as u32)
        } else {
            None::<u32>
        }),
{
    let r = hex_pair(h, 0);
    let g = hex_pair(h, 2);
    let b = hex_pair(h, 4);
    match (r, g, b) {
        (Some(r), Some(g), Some(b)) => Some(r + g * 256 + b * 65536),
        _ => {
            assert(!(forall|i: int| 0 <= i < 6 ==> is_hex(#[trigger] h@[i])));
            None
        },
    }
}

/// The hex reading of a color string that names no color.
pub open spec fn hex_color_value(s: Seq<char>) -> Option<u32> {
    let h = hex_body(s);
    if h.len() == 6 && (forall|i: int| 0 <= i < 6 ==> is_hex(#[trigger] h[i])) {
        Some(hex6_colorref(h) as u32)
    } else {
        None
    }
}

fn parse_hex_color(s: &str) -> (r: Option<u32>)
    ensures
        r == hex_color_value(s@),
{
    let h = hex_body_of(s);
    if h.len() == 6 {
        hex6(&h)
    } else {
        None
    }
}

/// Parse a string color: named lookup first, then `#RRGGBB` / `RRGGBB` hex.
pub fn parse_color_str(s: &str) -> (r: Result<u32, Error>)
    ensures
        match color_str_value(s@) {
            Some(v) => r == Ok::<u32, Error>(v),
            None => r matches Err(Error::Color(m)) && m@ == s@,
        },
{
    if let Some(c) = named_to_colorref(s) {
        return Ok(c);
    }
    match parse_hex_color(s) {
        Some(c) => Ok(c),
        None => Err(Error::Color(s.to_owned())),
    }
}

/// A user-supplied color before resolution: an int, an enum variant, or a
/// name/hex string.
#[derive(Debug, Clone)]
pub enum ColorValue {
    Int(u32),
    Named(Color),
    Str(String),
}

/// What a [`ColorValue`] resolves to, if anything.
pub open spec fn color_value_of(c: ColorValue) -> Option<u32> {
    match c {
        ColorValue::Int(v) => Some(v),
        ColorValue::Named(n) => named_lookup(n.token()),
        ColorValue::Str(s) => color_str_value(s@),
    }
}

impl ColorValue {
    /// Resolve to a COLORREF integer: an int passes through, a variant is looked
    /// up by name, a string goes through [`parse_color_str`].
    pub fn to_colorref(&self) -> (r: Result<u32, Error>)
        ensures
            match color_value_of(*self) {
                Some(v) => r == Ok::<u32, Error>(v),
                None => r matches Err(Error::Color(_)),
            },
    {
        match self {
            ColorValue::Int(v) => Ok(*v),
            ColorValue::Named(c) => {
                let key = c.as_str();
                match named_to_colorref(key) {
                    Some(v) => Ok(v),
                    None => Err(Error::Color(key.to_owned())),
                }
            },
            ColorValue::Str(s) => parse_color_str(s.as_str()),
        }
    }
}

} // verus!
