//! Keeps a canonical `VERSION` file in step with the version fields of the
//! build manifests (Cargo.toml, pyproject.toml, package.json) of a project.
//!
//! The library works on the contents of files, never on the file system:
//! callers hand it what they read and write back what it returns.

pub mod canonical;
pub mod cascade;
pub mod discovery;
pub mod doctor;
pub mod engine;
pub mod error;
pub mod manifest;
pub mod output;
pub mod precedence;
pub mod release;
pub mod text;
pub mod toml_edit;
pub mod version;
