//! Declarative enum-enrichment metadata engine.
//!
//! Given a bare enumeration declaration (a name, an ordered variant list with
//! optional integer-discriminant expressions and payload shapes, and a set of
//! declared derive capabilities), the library resolves a single authoritative
//! metadata table: dense 0-based ordinals, evaluated discriminant values,
//! case-converted name forms with their inverse lookups, a capability-gated
//! feature plan, and a canonical pretty-printed declaration.

pub mod capability;
pub mod cases;
pub mod config;
pub mod error;
pub mod expr;
pub mod hasher;
pub mod int_type;
pub mod laws;
pub mod lookup;
pub mod pipeline;
pub mod plan;
pub mod pretty;
pub mod random;
pub mod resolve;
pub mod text;
