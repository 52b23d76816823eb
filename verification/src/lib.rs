//! Verified core of the `heaven` project tool: target selection, path and
//! template handling, project-name rules, manifest editing and server URLs.

pub mod text;
pub mod target;
pub mod project;
pub mod network;
pub mod manifest;
