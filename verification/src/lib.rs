//! Verified core of a personal-information store: the JSON header parser,
//! diary entry selection, and the bookkeeping of taskwarrior imports.

pub mod header;
pub mod json;
pub mod writer;
pub mod parser;
pub mod laws;
pub mod diary;
pub mod todo;
pub mod ref_error;
