//! Converts a line-oriented quiz authoring syntax into QTI 1.2 assessment
//! packages: a text parser producing an in-memory assessment model, an XML
//! builder emitting the `questestinterop` tree, a hand-authored schema table
//! with a structural validator, and a generator that serialises the tree and
//! the accompanying package manifest.

pub mod decimal;
pub mod types;
pub mod xml;
pub mod schema;
pub mod xmlio;
pub mod builder;
pub mod parser;
pub mod validator;
pub mod generator;
pub mod exporter;
pub mod laws;
pub mod error;
pub mod text;
