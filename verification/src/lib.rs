//! Verified reading and writing of ISO base media file format (ISOBMFF) structures.
//!
//! Every structure is described by a parser from bytes, a serializer to bytes and
//! a size function, each stated against a mathematical model of the encoding.

pub mod codec;
pub mod wire;
pub mod versioned;
pub mod header;
pub mod frame;
pub mod children;
pub mod nested;
pub mod boxes;
pub mod common_types;
pub mod string_deserializer;
pub mod object_description;
pub mod decoder_config;
pub mod sl_config;
pub mod es_descriptor;
pub mod security;
pub mod derive_options;
pub mod file;
