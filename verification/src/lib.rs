//! Schema parsing, text generation and runtime support for the plutus models:
//! fixed-layout records that are exchanged with Python and C.
pub mod text;
pub mod model;
pub mod parser;
pub mod render;
pub mod cs;
pub mod pyi;
pub mod pydantic;
pub mod index;
pub mod hex;
pub mod gene;
pub mod ipv4;
pub mod fields;
pub mod validate;
pub mod bigint;
pub mod consts;
pub mod batch;
pub mod layout;
pub mod codegen;
pub mod shape;
pub mod plan;
