//! Generation of update helpers for record types.
//!
//! Given a description of a record type, the library selects the members that
//! take part in updates, derives the canonical names of each, and builds the
//! three generated operations (name to column, tagged value to column and
//! expression, batch of tagged values to partial record) together with the
//! tagged-value enumeration they share.

pub mod descriptor;
pub mod selector;
pub mod canonical;
pub mod synth;
pub mod eval;
pub mod render;

pub use crate::synth::field_updater;
