//! A value-inspection engine for an embedded, dynamically typed scripting
//! runtime: given a model of a runtime value, it produces a human-readable,
//! optionally colourized, optionally multi-line textual representation,
//! recursively, with depth limiting and truncation.

pub mod config;
pub mod format;
pub mod laws;
pub mod token;
pub mod value;

pub use format::{format_object, format_plain_object, ObjectDisplay, PlainObjectDisplay};
