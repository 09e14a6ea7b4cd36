//! Deterministic validation engine for Vectis UI artifacts.

pub mod assets;
pub mod tokens;
pub mod layout;
pub mod identity;
pub mod report;
pub mod discovery;
pub mod schema;
