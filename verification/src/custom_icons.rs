//! Custom icon embedding: the identifiers of `<CustomImage>` entries, the
//! compressed, base64-encoded payload of an icon bitmap, the preparation of
//! configured icons, and the `<CustomImageCollection>`.
use vstd::prelude::*;
use indexmap::IndexMap;

use crate::emit::{put_close, put_empty, put_open, push_pair, Pair};
use crate::maps::{mapping_entries, mapping_insert, mapping_new, upsert};
use crate::models::CustomIconEntry;
use crate::text::{
    char_count, chars_of, contains_str, dec, first_index, has_prefix, is_empty_str,
    lemma_first_index_at, lemma_first_index_none, slice_chars, starts_with, string_of, trim,
    trim_chars, u64_string,
};
use crate::xml::{attr_views, close_line, line_text, Attr, Writer, XmlSink};

verus! {

/// Prefix prepended to emitted custom icon names to avoid clashing with the
/// ANB built-in icon set.
pub const EMITTED_PREFIX: &'static str = "anxW_";

/// The two custom-image kinds.
#[derive(Clone, Copy, PartialEq, Eq, Structural)]
pub enum IconKind {
    Icon,
    Attribute,
}

/// `<emitted>,Screen,<Kind>`, the `Id` of a `<CustomImage>`.
pub open spec fn composite_id(emitted: Seq<char>, kind: IconKind) -> Seq<char> {
    emitted + match kind {
        IconKind::Icon => ",Screen,Icon"@,
        IconKind::Attribute => ",Screen,Attribute"@,
    }
}

pub fn composite_key(emitted: &str, kind: IconKind) -> (r: String)
    ensures
        r@ == composite_id(emitted@, kind),
{
    let mut s = String::new();
    s.append(emitted);
    match kind {
        IconKind::Icon => s.append(",Screen,Icon"),
        IconKind::Attribute => s.append(",Screen,Attribute"),
    }
    s
}

/// The zlib stream (compression level 9) of some bytes.
pub uninterp spec fn zlib9(bytes: Seq<u8>) -> Seq<u8>;

/// The standard-alphabet, padded base64 text of some bytes.
pub uninterp spec fn base64_text(bytes: Seq<u8>) -> Seq<char>;

/// Compresses with `flate2::write::ZlibEncoder` at `Compression::new(9)` into
/// a `Vec` (whose writes cannot fail). Claimed: the result depends on the
/// input bytes alone.
#[verifier::external_body]
fn zlib_compress(bytes: &Vec<u8>) -> (r: Vec<u8>)
    ensures
        r@ == zlib9(bytes@),
{
    let mut enc = flate2::write::ZlibEncoder::new(Vec::new(), flate2::Compression::new(9));
    let _ = std::io::Write::write_all(&mut enc, bytes.as_slice());
    enc.finish().unwrap_or_default()
}

/// Encodes with `base64::engine::general_purpose::STANDARD`. Claimed: the
/// text depends on the bytes alone.
#[verifier::external_body]
fn base64_encode(bytes: &Vec<u8>) -> (r: String)
    ensures
        r@ == base64_text(bytes@),
{
    base64::Engine::encode(&base64::engine::general_purpose::STANDARD, bytes.as_slice())
}

/// The `<CustomImage>` payload of a bitmap: base64 of its zlib stream, and
/// its uncompressed length (as a 32-bit count).
pub fn payload(bmp: &Vec<u8>) -> (r: (String, u32))
    ensures
        r.0@ == base64_text(zlib9(bmp@)),
        r.1 == bmp@.len() as u32,
{
    let z = zlib_compress(bmp);
    (base64_encode(&z), bmp.len() as u32)
}


/// A prepared custom image: its composite id, uncompressed length, encoded
/// data, and the emitted icon name.
#[derive(Debug)]
pub struct CustomImage {
    pub id: String,
    pub datalength: u32,
    pub data: String,
    pub emitted: String,
}

pub open spec fn image_view(c: CustomImage) -> (Seq<char>, u32, Seq<char>, Seq<char>) {
    (c.id@, c.datalength, c.data@, c.emitted@)
}

pub open spec fn ostr_of(o: Option<String>) -> Option<Seq<char>> {
    match o {
        Some(x) => Some(x@),
        None => None,
    }
}

/// The name an icon is emitted under: its prefix (the library's by default)
/// and its name.
pub open spec fn emitted_name(e: CustomIconEntry) -> Seq<char> {
    (match ostr_of(e.prefix) {
        Some(p) => p,
        None => EMITTED_PREFIX@,
    }) + e.name@
}

/// An entry's payload: its given data (and length, 0 when unset); else, for
/// an entry with an image, the payload of the image's bitmap when it could be
/// converted; else none.
pub open spec fn entry_payload(e: CustomIconEntry, bmp: Option<Vec<u8>>) -> Option<(Seq<char>, u32)> {
    match e.data {
        Some(d) => Some((d@, match e.datalength {
            Some(n) => n,
            None => 0,
        })),
        None => if e.image is Some {
            match bmp {
                Some(b) => Some((base64_text(zlib9(b@)), b@.len() as u32)),
                None => None,
            }
        } else {
            None
        },
    }
}

/// The images and name map prepared from the first `k` entries: entries
/// without a name or a payload are skipped.
pub open spec fn prepared(
    entries: Seq<CustomIconEntry>,
    bmps: Seq<Option<Vec<u8>>>,
    kind: IconKind,
    k: int,
) -> (Seq<(Seq<char>, u32, Seq<char>, Seq<char>)>, Seq<(Seq<char>, Seq<char>)>)
    decreases k,
{
    if k <= 0 {
        (seq![], seq![])
    } else {
        let (imgs, names) = prepared(entries, bmps, kind, k - 1);
        let e = entries[k - 1];
        if e.name@.len() == 0 {
            (imgs, names)
        } else {
            match entry_payload(e, bmps[k - 1]) {
                None => (imgs, names),
                Some((data, len)) => {
                    let em = emitted_name(e);
                    (imgs.push((composite_id(em, kind), len, data, em)), upsert(names, e.name@, em))
                },
            }
        }
    }
}

/// Prepare configured custom icons of one kind: `bmps[i]` is the bitmap the
/// `i`-th entry's image converted to, if it did. Gives the images with their
/// payloads and the name-to-emitted-name map.
pub fn prepare_custom_icons(
    entries: &Vec<CustomIconEntry>,
    bmps: &Vec<Option<Vec<u8>>>,
    kind: IconKind,
) -> (r: (Vec<CustomImage>, IndexMap<String, String>))
    requires
        bmps@.len() == entries@.len(),
    ensures
        (r.0@.map_values(|c: CustomImage| image_view(c)), mapping_entries(r.1)) == prepared(
            entries@,
            bmps@,
            kind,
            entries@.len() as int,
        ),
{
    let mut imgs: Vec<CustomImage> = Vec::new();
    let mut names = mapping_new();
    for i in 0..entries.len()
        invariant
            bmps@.len() == entries@.len(),
            (imgs@.map_values(|c: CustomImage| image_view(c)), mapping_entries(names)) == prepared(
                entries@,
                bmps@,
                kind,
                i as int,
            ),
    {
        let e = &entries[i];
        if !is_empty_str(e.name.as_str()) {
            let pl: Option<(String, u32)> = match &e.data {
                Some(d) => Some((d.clone(), match e.datalength {
                    Some(n) => n,
                    None => 0,
                })),
                None => if e.image.is_some() {
                    match &bmps[i] {
                        Some(b) => Some(payload(b)),
                        None => None,
                    }
                } else {
                    None
                },
            };
            if let Some((data, len)) = pl {
                let mut emitted = match &e.prefix {
                    Some(p) => p.clone(),
                    None => EMITTED_PREFIX.to_owned(),
                };
                emitted.append(e.name.as_str());
                let ghost before = imgs@.map_values(|c: CustomImage| image_view(c));
                mapping_insert(&mut names, e.name.clone(), emitted.clone());
                let img = CustomImage { id: composite_key(emitted.as_str(), kind), datalength: len, data, emitted };
                imgs.push(img);
                assert(imgs@.map_values(|c: CustomImage| image_view(c)) =~= before.push(image_view(img)));
            }
        }
    }
    (imgs, names)
}

/// The images kept for emission: all of them, or only those whose emitted
/// name is in `used`.
pub open spec fn kept_images(imgs: Seq<CustomImage>, used: Seq<Seq<char>>, all: bool) -> Seq<CustomImage> {
    imgs.filter(|c: CustomImage| all || used.contains(c.emitted@))
}

/// The `<CustomImage>` lines of the first `k` images.
pub open spec fn image_lines(c: bool, d: nat, imgs: Seq<CustomImage>, k: int) -> Seq<char>
    decreases k,
{
    if k <= 0 {
        seq![]
    } else {
        image_lines(c, d, imgs, k - 1) + line_text(
            c,
            d,
            "CustomImage"@,
            seq![
                ("Id"@, imgs[k - 1].id@),
                ("DataLength"@, dec(imgs[k - 1].datalength as nat)),
                ("Data"@, imgs[k - 1].data@),
            ],
            true,
        )
    }
}

/// The `<CustomImageCollection>` of the kept images; nothing when none is kept.
pub open spec fn custom_images_text(c: bool, d: nat, kept: Seq<CustomImage>) -> Seq<char> {
    if kept.len() == 0 {
        seq![]
    } else {
        line_text(c, d, "CustomImageCollection"@, seq![], false) + image_lines(
            c,
            d + 1,
            kept,
            kept.len() as int,
        ) + close_line(c, d, "CustomImageCollection"@)
    }
}

fn keep_images<'a>(imgs: &'a Vec<CustomImage>, used: &Vec<String>, all: bool) -> (k: Vec<&'a CustomImage>)
    ensures
        k@.map_values(|c: &CustomImage| *c) == kept_images(imgs@, used@.map_values(|u: String| u@), all),
{
    let ghost uv = used@.map_values(|u: String| u@);
    let ghost f = |c: CustomImage| all || uv.contains(c.emitted@);
    let mut k: Vec<&'a CustomImage> = Vec::new();
    for i in 0..imgs.len()
        invariant
            uv == used@.map_values(|u: String| u@),
            f == (|c: CustomImage| all || uv.contains(c.emitted@)),
            k@.map_values(|c: &CustomImage| *c) == imgs@.take(i as int).filter(f),
    {
        let c = &imgs[i];
        let found = contains_str(used, c.emitted.as_str());
        proof {
            if found {
                let j = choose|j: int| 0 <= j < used@.len() && used@[j]@ == c.emitted@;
                assert(uv[j] == c.emitted@);
            }
            if uv.contains(c.emitted@) {
                let j = choose|j: int| 0 <= j < uv.len() && uv[j] == c.emitted@;
                assert(used@[j]@ == c.emitted@);
            }
        }
        let keep = all || found;
        let ghost before = k@.map_values(|c: &CustomImage| *c);
        proof {
            assert(imgs@.take(i + 1) =~= imgs@.take(i as int).push(*c));
            imgs@.take(i as int).lemma_filter_push(*c, f);
        }
        if keep {
            k.push(c);
            assert(k@.map_values(|c: &CustomImage| *c) =~= before.push(*c));
        }
    }
    assert(imgs@.take(imgs@.len() as int) =~= imgs@);
    k
}

/// Emit the `<CustomImageCollection>`: every prepared image when `all`,
/// otherwise only those whose emitted name is in `used`.
pub fn emit_custom_images<'s, S: XmlSink>(
    w: &mut Writer<'s, S>,
    imgs: &Vec<CustomImage>,
    used: &Vec<String>,
    all: bool,
)
    requires
        old(w).out.valid(),
        old(w).depth < usize::MAX - 1,
    ensures
        final(w).out.valid(),
        final(w).text() == old(w).text() + custom_images_text(
            old(w).compact,
            old(w).depth as nat,
            kept_images(imgs@, used@.map_values(|u: String| u@), all),
        ),
        final(w).compact == old(w).compact,
        final(w).depth == old(w).depth,
        *final(final(w).out) == *final(old(w).out),
{
    let kept = keep_images(imgs, used, all);
    let ghost kv = kept@.map_values(|c: &CustomImage| *c);
    if kept.len() == 0 {
        assert(final(w).text() =~= old(w).text());
        return;
    }
    let none: Vec<Attr> = Vec::new();
    assert(attr_views(none@) =~= Seq::<Pair>::empty());
    put_open(w, "CustomImageCollection", &none);
    let ghost head = w.text();
    for i in 0..kept.len()
        invariant
            kv == kept@.map_values(|c: &CustomImage| *c),
            w.out.valid(),
            w.compact == old(w).compact,
            w.depth == old(w).depth + 1,
            old(w).depth < usize::MAX - 1,
            *final(w.out) == *final(old(w).out),
            w.text() == head + image_lines(w.compact, w.depth as nat, kv, i as int),
    {
        let c = kept[i];
        assert(kv[i as int] == *c);
        let mut a: Vec<Attr> = Vec::new();
        assert(attr_views(a@) =~= Seq::<Pair>::empty());
        push_pair(&mut a, "Id", c.id.clone());
        push_pair(&mut a, "DataLength", u64_string(c.datalength as u64));
        push_pair(&mut a, "Data", c.data.clone());
        assert(attr_views(a@) =~= seq![
            ("Id"@, c.id@),
            ("DataLength"@, dec(c.datalength as nat)),
            ("Data"@, c.data@),
        ]);
        put_empty(w, "CustomImage", &a);
    }
    put_close(w, "CustomImageCollection");
}


// ── Image sources and bitmap conversion ─────────────────────────────────────

/// The longest side, in pixels, an icon is scaled down to.
pub const MAX_SIZE: u32 = 128;

/// The bytes that standard-alphabet, padded base64 text decodes to; `None`
/// when the text is not valid base64.
pub uninterp spec fn base64_bytes(text: Seq<char>) -> Option<Seq<u8>>;

/// Decodes with `base64::engine::general_purpose::STANDARD`. Claimed: the
/// outcome depends on the text alone. The error's message is not described.
#[verifier::external_body]
fn base64_decode(text: &str) -> (r: Result<Vec<u8>, String>)
    ensures
        match r {
            Ok(b) => base64_bytes(text@) == Some(b@),
            Err(_) => base64_bytes(text@) is None,
        },
{
    match base64::Engine::decode(&base64::engine::general_purpose::STANDARD, text) {
        Ok(b) => Ok(b),
        Err(e) => Err(e.to_string()),
    }
}

/// What a `data:` URI holds: `None` for a source that is no `data:` URI;
/// otherwise the base64 payload after the first comma (trimmed), decoded,
/// with `Err(())` for a URI without a comma or with invalid base64.
pub open spec fn data_uri_bytes(uri: Seq<char>) -> Option<Result<Seq<u8>, bool>> {
    if !starts_with(uri, "data:"@) {
        None
    } else {
        let rest = uri.skip("data:"@.len() as int);
        match first_index(rest, ',') {
            None => Some(Err(true)),
            Some(i) => match base64_bytes(trim(rest.skip(i + 1))) {
                Some(b) => Some(Ok(b)),
                None => Some(Err(false)),
            },
        }
    }
}

/// Decode a `data:` URI image source. `None` when the source is no `data:`
/// URI (it names a file); `Err("malformed data: URI")` when it has no comma;
/// otherwise the base64 decoding of its trimmed payload, or the decoder's
/// error.
pub fn decode_data_uri(uri: &str) -> (r: Option<Result<Vec<u8>, String>>)
    ensures
        match data_uri_bytes(uri@) {
            None => r is None,
            Some(Ok(b)) => r matches Some(Ok(v)) && v@ == b,
            Some(Err(no_comma)) => r matches Some(Err(m)) && (no_comma ==> m@
                == "malformed data: URI"@),
        },
{
    if !has_prefix(uri, "data:") {
        return None;
    }
    let v = chars_of(uri);
    let start = char_count("data:");
    let ghost rest = uri@.skip(start as int);
    let n = v.len();
    let mut i = start;
    while i < n && v[i] != ','
        invariant
            v@ == uri@,
            n == v@.len(),
            start == "data:"@.len(),
            start <= i <= n,
            rest == uri@.skip(start as int),
            forall|k: int| start <= k < i ==> v@[k] != ',',
        decreases n - i,
    {
        i = i + 1;
    }
    if i == n {
        proof {
            assert forall|k: int| 0 <= k < rest.len() implies rest[k] != ',' by {
                assert(rest[k] == v@[start + k]);
            }
            lemma_first_index_none(rest, ',');
        }
        return Some(Err("malformed data: URI".to_owned()));
    }
    proof {
        assert forall|k: int| 0 <= k < i - start implies rest[k] != ',' by {
            assert(rest[k] == v@[start + k]);
        }
        lemma_first_index_at(rest, ',', i - start);
    }
    let tail = slice_chars(&v, i + 1, n);
    assert(tail@ =~= rest.skip(i - start + 1));
    let body = trim_chars(&tail);
    let text = string_of(&body);
    match base64_decode(text.as_str()) {
        Ok(b) => Some(Ok(b)),
        Err(e) => Some(Err(e)),
    }
}

/// The RGBA pixels (row-major, four bytes each) an encoded image decodes
/// to, with its width and height; `None` when the bytes are no image the
/// decoder reads.
pub uninterp spec fn decoded_rgba(bytes: Seq<u8>) -> Option<(u32, u32, Seq<u8>)>;

/// Lanczos3 resampling of a `w`×`h` RGBA image to `nw`×`nh`.
pub uninterp spec fn lanczos3(px: Seq<u8>, w: u32, h: u32, nw: u32, nh: u32) -> Seq<u8>;

/// The BMP file encoding a `side`×`side` RGB image; `None` when the encoder
/// refuses it.
pub uninterp spec fn bmp_rgb8(rgb: Seq<u8>, side: u32) -> Option<Seq<u8>>;

/// Decodes with `image::load_from_memory` and converts with `to_rgba8`.
/// Claimed: the outcome depends on the bytes alone, and the pixel buffer
/// holds at least `w * h` four-byte pixels (the `ImageBuffer` invariant).
/// The error's message is not described.
#[verifier::external_body]
fn decode_rgba(bytes: &Vec<u8>) -> (r: Result<(u32, u32, Vec<u8>), String>)
    ensures
        match r {
            Ok((w, h, px)) => decoded_rgba(bytes@) == Some((w, h, px@)) && px@.len() >= (w as int)
                * (h as int) * 4,
            Err(_) => decoded_rgba(bytes@) is None,
        },
{
    match image::load_from_memory(bytes.as_slice()) {
        Ok(img) => {
            let rgba = img.to_rgba8();
            let (w, h) = rgba.dimensions();
            Ok((w, h, rgba.into_raw()))
        },
        Err(e) => Err(e.to_string()),
    }
}

/// Resizes with `image::imageops::resize` and `FilterType::Lanczos3`.
/// Claimed: the result depends on the arguments alone and holds exactly
/// `nw * nh` four-byte pixels (a fresh `ImageBuffer::new(nw, nh)`). The
/// resampling first builds a `w`×`nh` buffer of four `f32` per pixel, then
/// the `nw`×`nh` result; `requires` keeps every buffer's length (and the
/// intermediate buffer's bytes) within the machine's limits, where
/// `ImageBuffer::new` would panic.
#[verifier::external_body]
fn resize_lanczos3(px: &Vec<u8>, w: u32, h: u32, nw: u32, nh: u32) -> (r: Vec<u8>)
    requires
        px@.len() >= (w as int) * (h as int) * 4,
        (w as int) * (h as int) * 4 <= usize::MAX,
        (nw as int) * (nh as int) * 4 <= usize::MAX,
        (w as int) * (nh as int) * 16 <= isize::MAX,
    ensures
        r@ == lanczos3(px@, w, h, nw, nh),
        r@.len() == (nw as int) * (nh as int) * 4,
{
    let img: image::RgbaImage = image::ImageBuffer::from_raw(w, h, px.clone()).unwrap();
    image::imageops::resize(&img, nw, nh, image::imageops::FilterType::Lanczos3).into_raw()
}

/// Encodes with `image::codecs::bmp::BmpEncoder` as 8-bit RGB. Claimed: the
/// outcome depends on the arguments alone. The error's message is not
/// described.
#[verifier::external_body]
fn encode_bmp(rgb: &Vec<u8>, side: u32) -> (r: Result<Vec<u8>, String>)
    requires
        rgb@.len() == (side as int) * (side as int) * 3,
    ensures
        match r {
            Ok(b) => bmp_rgb8(rgb@, side) == Some(b@),
            Err(_) => bmp_rgb8(rgb@, side) is None,
        },
{
    let mut buf: Vec<u8> = Vec::new();
    let enc = image::codecs::bmp::BmpEncoder::new(&mut buf).encode(
        rgb.as_slice(), side, side, image::ExtendedColorType::Rgb8);
    match enc {
        Ok(()) => Ok(buf),
        Err(e) => Err(e.to_string()),
    }
}

pub open spec fn max_u32(a: u32, b: u32) -> u32 {
    if a >= b { a } else { b }
}

/// One side scaled by `MAX_SIZE / maxd`, rounded half up, at least 1.
pub open spec fn scaled_side(d: u32, maxd: u32) -> u32 {
    let q = (2 * (d as int) * (MAX_SIZE as int) + maxd as int) / (2 * (maxd as int));
    if q < 1 { 1 } else { q as u32 }
}

/// Whether an image of this size is scaled down (its longest side exceeds
/// `MAX_SIZE`).
pub open spec fn needs_downscale(w: u32, h: u32) -> bool {
    max_u32(w, h) > MAX_SIZE
}

/// The size an image is brought to: downscale-only, keeping proportions.
pub open spec fn fitted(w: u32, h: u32) -> (u32, u32) {
    if needs_downscale(w, h) {
        let maxd = max_u32(w, h);
        (scaled_side(w, maxd), scaled_side(h, maxd))
    } else {
        (w, h)
    }
}

/// The canvas pixel at (`row`, `col`) of a `side`×`side` square holding the
/// `nw`×`nh` image centred: the image's colour where its alpha is at least
/// 128, magenta elsewhere.
pub open spec fn keyed_pixel(px: Seq<u8>, nw: int, nh: int, side: int, row: int, col: int) -> Seq<u8> {
    let x = col - (side - nw) / 2;
    let y = row - (side - nh) / 2;
    let i = (y * nw + x) * 4;
    if 0 <= x < nw && 0 <= y < nh && px[i + 3] >= 128 {
        seq![px[i], px[i + 1], px[i + 2]]
    } else {
        seq![255u8, 0u8, 255u8]
    }
}

/// The first `n` canvas pixels, row-major, as RGB bytes.
pub open spec fn keyed_canvas(px: Seq<u8>, nw: int, nh: int, side: int, n: int) -> Seq<u8>
    decreases n,
{
    if n <= 0 {
        seq![]
    } else {
        keyed_canvas(px, nw, nh, side, n - 1) + keyed_pixel(px, nw, nh, side, (n - 1) / side, (n - 1) % side)
    }
}

/// The bitmap an image source's bytes convert to: a BMP passes through
/// unchanged; any other image is decoded, scaled down to fit `MAX_SIZE`,
/// centred on a magenta-keyed square and encoded as a 24-bit BMP. `None`
/// when decoding or encoding fails, or when the resampling buffer (`w`
/// columns by the new height, sixteen bytes a pixel) would exceed the
/// machine's address space.
pub open spec fn bmp_of(bytes: Seq<u8>) -> Option<Seq<u8>> {
    if bytes.len() >= 2 && bytes[0] == 66u8 && bytes[1] == 77u8 {
        Some(bytes)
    } else {
        match decoded_rgba(bytes) {
            None => None,
            Some((w, h, px)) => {
                let (nw, nh) = fitted(w, h);
                if needs_downscale(w, h) && (w as int) * (nh as int) * 16 > isize::MAX {
                    None
                } else {
                    let src = if needs_downscale(w, h) { lanczos3(px, w, h, nw, nh) } else { px };
                    let side = max_u32(nw, nh);
                    bmp_rgb8(
                        keyed_canvas(src, nw as int, nh as int, side as int, (side as int) * (side as int)),
                        side,
                    )
                }
            },
        }
    }
}

fn scale_side(d: u32, maxd: u32) -> (r: u32)
    requires
        MAX_SIZE < maxd,
        d <= maxd,
    ensures
        r == scaled_side(d, maxd),
        1 <= r <= MAX_SIZE,
{
    let num: u64 = (d as u64) * 256 + maxd as u64;
    let den: u64 = 2 * (maxd as u64);
    let q: u64 = num / den;
    assert(q <= 128) by (nonlinear_arith)
        requires
            q == num / den,
            num == d * 256 + maxd,
            den == 2 * maxd,
            d <= maxd,
            maxd > 128,
    {
        assert(num < 129 * den);
    }
    if q < 1 { 1 } else { q as u32 }
}

/// Convert an image's bytes to a 24-bit, magenta-keyed BMP: see `bmp_of`.
/// The error's message is the decoder's or encoder's.
pub fn to_bmp(bytes: &Vec<u8>) -> (r: Result<Vec<u8>, String>)
    ensures
        match bmp_of(bytes@) {
            Some(b) => r matches Ok(v) && v@ == b,
            None => r is Err,
        },
{
    if bytes.len() >= 2 && bytes[0] == 66u8 && bytes[1] == 77u8 {
        return Ok(bytes.clone());
    }
    let (w, h, px) = match decode_rgba(bytes) {
        Ok(t) => t,
        Err(e) => return Err(e),
    };
    let maxd = if w >= h { w } else { h };
    let down = maxd > MAX_SIZE;
    let (nw, nh) = if down { (scale_side(w, maxd), scale_side(h, maxd)) } else { (w, h) };
    let plen = px.len();
    assert(px@.len() == plen);
    assert((nw as int) * (nh as int) * 4 <= 128 * 128 * 4) by (nonlinear_arith)
        requires
            nw <= 128,
            nh <= 128,
    ;
    assert((w as int) * (nh as int) * 16 <= 0xffff_ffff * 128 * 16) by (nonlinear_arith)
        requires
            nh <= 128,
    ;
    if down && (w as u64) * (nh as u64) * 16 > isize::MAX as u64 {
        return Err("image too large to resample".to_owned());
    }
    let src: Vec<u8> = if down {
        resize_lanczos3(&px, w, h, nw, nh)
    } else {
        px
    };
    assert(src@.len() >= (nw as int) * (nh as int) * 4);
    let side = if nw >= nh { nw } else { nh };
    let canvas = key_canvas(&src, nw, nh, side);
    encode_bmp(&canvas, side)
}

/// The magenta-keyed `side`×`side` RGB canvas of an `nw`×`nh` RGBA image.
fn key_canvas(px: &Vec<u8>, nw: u32, nh: u32, side: u32) -> (r: Vec<u8>)
    requires
        nw <= side <= MAX_SIZE,
        nh <= side,
        px@.len() >= (nw as int) * (nh as int) * 4,
    ensures
        r@ == keyed_canvas(px@, nw as int, nh as int, side as int, (side as int) * (side as int)),
        r@.len() == (side as int) * (side as int) * 3,
{
    assert((side as int) * (side as int) <= 128 * 128) by (nonlinear_arith)
        requires
            side <= 128,
    ;
    let total: usize = (side as usize) * (side as usize);
    let sd = side as usize;
    let xo: usize = ((side - nw) / 2) as usize;
    let yo: usize = ((side - nh) / 2) as usize;
    let w = nw as usize;
    let h = nh as usize;
    let mut out: Vec<u8> = Vec::new();
    let mut q: usize = 0;
    while q < total
        invariant
            total == (side as int) * (side as int),
            sd == side,
            side <= MAX_SIZE,
            nw <= side,
            nh <= side,
            xo == (side - nw) / 2,
            yo == (side - nh) / 2,
            w == nw,
            h == nh,
            px@.len() >= (nw as int) * (nh as int) * 4,
            q <= total,
            out@ == keyed_canvas(px@, nw as int, nh as int, side as int, q as int),
            out@.len() == 3 * q,
        decreases total - q,
    {
        let row = q / sd;
        let col = q % sd;
        let ghost pix = keyed_pixel(px@, nw as int, nh as int, side as int, row as int, col as int);
        if col >= xo && col - xo < w && row >= yo && row - yo < h {
            let x = col - xo;
            let y = row - yo;
            assert((y * w + x) * 4 + 3 < w * h * 4) by (nonlinear_arith)
                requires
                    x < w,
                    y < h,
            ;
            assert(w * h * 4 <= 128 * 128 * 4) by (nonlinear_arith)
                requires
                    w <= 128,
                    h <= 128,
            ;
            let i = (y * w + x) * 4;
            if px[i + 3] >= 128 {
                out.push(px[i]);
                out.push(px[i + 1]);
                out.push(px[i + 2]);
            } else {
                out.push(255u8);
                out.push(0u8);
                out.push(255u8);
            }
        } else {
            out.push(255u8);
            out.push(0u8);
            out.push(255u8);
        }
        assert(out@ =~= keyed_canvas(px@, nw as int, nh as int, side as int, q as int) + pix);
        q = q + 1;
    }
    assert(3 * (total as int) == (side as int) * (side as int) * 3) by (nonlinear_arith)
        requires
            total == (side as int) * (side as int),
    ;
    out
}

} // verus!
