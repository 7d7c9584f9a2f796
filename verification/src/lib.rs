//! anxwritter — i2 Analyst's Notebook Exchange (`.anx`) documents from typed
//! chart data: validation rules, identifier minting, color and date handling,
//! and the XML/UTF-16 emitter, with their contracts proved by Verus.
use vstd::prelude::*;

pub mod text;
pub mod xml;
pub mod ids;
pub mod enums;
pub mod error;
pub mod color;
pub mod datetime;
pub mod layout;
pub mod discovery;
pub mod number;
pub mod value;
pub mod models;
pub mod entities;
pub mod input;
pub mod maps;
pub mod report;
pub mod pattern;
pub mod validation;
pub mod transforms;
pub mod tokens;
pub mod interop;
pub mod resolved;
pub mod custom_icons;
pub mod semantic;
pub mod sugar;
pub mod layering;
pub mod config_value;
pub mod api;
pub mod emit;
pub mod items;
pub mod sections;
pub mod registry;
pub mod resolve;
pub mod pending;
pub mod register;
pub mod builder;

verus! {

/// The format release this crate writes, as stamped into each file it builds.
pub const TARGET_ANXWRITTER_VERSION: &'static str = "1.24.2";

} // verus!
