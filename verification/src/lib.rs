use vstd::prelude::*;

pub mod text;
pub mod error;
pub mod templates;
pub mod registry;
pub mod json;
pub mod paths;
pub mod engine;
pub mod validate;
pub mod prerequisites;
pub mod versions;
pub mod init;
pub mod matrix;
pub mod query;
pub mod update_versions;
pub mod verify;
pub mod scaffolding;
pub mod add_shell;
pub mod android_setup;
pub mod reports;
pub mod summary;

verus! {

} // verus!
