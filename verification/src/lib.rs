//! Luau source text for the fields of protobuf messages: their types, and the code that
//! writes them to bytes and to JSON and reads them back.

pub mod blocks;
pub mod coding;
pub mod collections;
pub mod decode;
pub mod descriptor;
pub mod fields;
pub mod generator;
pub mod if_builder;
pub mod instructions;
pub mod json;
pub mod laws;
pub mod layout;
pub mod naming;
pub mod occurrences;
pub mod string_builder;
pub mod text;
