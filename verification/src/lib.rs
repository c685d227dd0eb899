//! Translation of Avro schemas, given as JSON, into the ADF field-list notation.
//!
//! A schema is held as a [`json::Json`] tree, whose model is a [`json::Tree`].
//! [`translate`] says what the ADF text of a tree is and computes it, or says
//! why there is none; [`reader`] takes the schema as JSON text; [`decimal`]
//! writes the numbers of a decimal type; [`laws`] holds what is proved of
//! every translation.

pub mod json;
pub mod decimal;
pub mod translate;
pub mod reader;
pub mod laws;
