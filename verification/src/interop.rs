//! i2 interoperability constants (the abstract semantic roots, the geo-map
//! property anchors, LCX schema metadata) and deterministic semantic-type
//! GUIDs.
use vstd::prelude::*;

use crate::text::{all_ascii, chars_of, to_uppercase_chars, uppercase};

verus! {

// ── Abstract roots ──────────────────────────────────────────────────────────
pub const ROOT_ENTITY: &'static str = "guid3669EC21-8E41-438A-AA1A-26B477C15BE0";
pub const ROOT_LINK: &'static str = "guidC9E54967-BBBF-494B-8348-B9D524F500FD";
pub const ROOT_ABSTRACT_TEXT: &'static str = "guid9A224CCF-28F7-4c55-9F14-9E820A0B1631";
pub const ROOT_ABSTRACT_NUM: &'static str = "guid6D676796-915D-487f-B384-73503C988ABE";
pub const ROOT_ABSTRACT_DT: &'static str = "guid6684F871-B607-4ffb-80E8-480535CB44FC";
pub const ROOT_ABSTRACT_FLAG: &'static str = "guid74F2A516-2F49-4282-989F-F4A468656FF0";

// ── Geo-map property GUIDs ──────────────────────────────────────────────────
pub const LATITUDE_GUID: &'static str = "guid5304A03B-FE47-4406-91E7-0D49EC8409A6";
pub const LONGITUDE_GUID: &'static str = "guid14BCA0EC-D67A-4A67-BC36-CFF650FD77A9";
pub const GRID_REFERENCE_GUID: &'static str = "guid7E0F705E-3D39-4E6E-B6C1-5E72B8C573DA";

// ── LCX schema metadata ─────────────────────────────────────────────────────
pub const LCX_NS: &'static str = "http://www.i2group.com/Schemas/2001-12-07/LCXSchema";
pub const LCX_VERSION_MAJOR: &'static str = "1";
pub const LCX_VERSION_MINOR: &'static str = "18";
pub const LCX_VERSION_RELEASE: &'static str = "27";
pub const LCX_VERSION_BUILD: &'static str = "60";
pub const LCX_LOCALE_HEX: &'static str = "0809";

/// The namespace of this library's deterministic semantic-type GUIDs
/// (`d1e2f3a4-b5c6-7890-abcd-ef1234567890`), as its 16 bytes.
pub open spec fn guid_namespace() -> Seq<u8> {
    seq![
        0xd1u8, 0xe2u8, 0xf3u8, 0xa4u8, 0xb5u8, 0xc6u8, 0x78u8, 0x90u8, 0xabu8, 0xcdu8, 0xefu8,
        0x12u8, 0x34u8, 0x56u8, 0x78u8, 0x90u8,
    ]
}

/// The text of the version-5 UUID (SHA-1, name-based) of a key's UTF-8
/// bytes in the namespace given by 16 bytes, hyphenated lowercase hex.
pub uninterp spec fn uuid_v5_text(ns: Seq<u8>, key: Seq<char>) -> Seq<char>;

/// Calls `uuid::Uuid::from_slice` on the 16 namespace bytes, then
/// `uuid::Uuid::new_v5` on the key's UTF-8 bytes, then `to_string`. Claimed:
/// the result is a function of the namespace and the key alone, 36 ASCII
/// characters long (the hyphenated form the crate documents).
#[verifier::external_body]
fn uuid_v5(ns: &Vec<u8>, key: &str) -> (r: String)
    requires
        ns@.len() == 16,
    ensures
        r@ == uuid_v5_text(ns@, key@),
        r@.len() == 36,
        all_ascii(r@),
{
    let space = uuid::Uuid::from_slice(ns.as_slice()).unwrap();
    uuid::Uuid::new_v5(&space, key.as_bytes()).to_string()
}

/// The GUID of a semantic type key: `guid` and the uppercased UUID text.
pub open spec fn guid_of(key: Seq<char>) -> Seq<char> {
    "guid"@ + uppercase(uuid_v5_text(guid_namespace(), key))
}

/// Deterministic GUID from a key (`entity:Suspect`, `link:Surveilled`,
/// `property:CPF Number`): the same key always yields the same GUID.
pub fn generate_guid(key: &str) -> (r: String)
    ensures
        r@ == guid_of(key@),
        r@.len() == 40,
{
    let ns: Vec<u8> = vec![
        0xd1u8, 0xe2u8, 0xf3u8, 0xa4u8, 0xb5u8, 0xc6u8, 0x78u8, 0x90u8, 0xabu8, 0xcdu8, 0xefu8,
        0x12u8, 0x34u8, 0x56u8, 0x78u8, 0x90u8,
    ];
    assert(ns@ =~= guid_namespace());
    let u = uuid_v5(&ns, key);
    let up = to_uppercase_chars(&chars_of(u.as_str()));
    let mut r = String::new();
    r.append("guid");
    crate::text::push_chars(&mut r, &up);
    proof {
        reveal_strlit("guid");
    }
    r
}

} // verus!
