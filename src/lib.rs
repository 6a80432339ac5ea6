//! Codec between the in-memory IR of an interface-definition library and its
//! keyed-document wire encoding.

pub mod doc;
pub mod span;
pub mod ser_option;
pub mod decl_path;
pub mod wire;
pub mod types;
pub mod ir;
pub mod groups;
pub mod decl_map;
pub mod laws;
