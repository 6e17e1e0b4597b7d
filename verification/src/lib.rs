//! Verified core of an SVG <-> EMF vector conversion engine: the EMF binary
//! record format (reading and writing), the embedded EMF+ paint table, and the
//! byte-lossless source embedding used by both conversion directions.

pub mod error;
pub mod types;
pub mod wire;
pub mod records;
pub mod reader;
pub mod writer;
pub mod roundtrip;
pub mod emfplus;
pub mod text_util;
pub mod source_embed;
pub mod convert;
pub mod style;
pub mod text;
pub mod svg_syntax;
pub mod svg_props;
pub mod css_cascade;
pub mod gdi;
pub mod emit_objects;
pub mod dc_state;
pub mod object_playback;
pub mod xml_doc;
pub mod skipped;
