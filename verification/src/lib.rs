//! Engine of a viewer for JSON-lines application logs: decoding of lines into
//! records, filtering of the record store, and search with cursor navigation.

pub mod criteria;
pub mod fields;
pub mod json;
pub mod level;
pub mod payload;
pub mod record;
pub mod session;
pub mod text;
