//! Client-side engine of a metadata-harvesting protocol: response parsing,
//! metadata formats, request building and the full-harvest state machine.

pub mod err;
pub mod text;
pub mod xml;
pub mod time;
pub mod metadata;
pub mod xoai;
pub mod records;
pub mod request;
pub mod get_record;
pub mod list_records;
pub mod harvest;
pub mod laws;
