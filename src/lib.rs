//! Project scaffolding and source deployment for container-run services:
//! workspace resolution, manifest rewriting, event-type lookup and the
//! build-file lifecycle of a deploy.

pub mod error;
pub mod text;
pub mod paths;
pub mod manifest;
pub mod catalog;
pub mod workspace;
pub mod scaffold;
pub mod deploy;
