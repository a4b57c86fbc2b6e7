//! Finds the build-artifact directories of Cargo projects, orders and
//! partitions them, and plans their removal.
//!
//! The library decides and renders; it touches neither the file system nor
//! the terminal nor other processes. A caller walks the directories, reads
//! the manifests and runs the clean command, and hands what it found to
//! the functions here:
//!
//! - [`path`] and [`scan`] tell which entries a scan looks at, which are
//!   manifests and which paths a scan can have reached;
//! - [`project`] makes the record of one project and orders the records;
//! - [`projects`] splits the records by a pattern into those to act on and
//!   those to leave alone, each side an ordered [`project_set`];
//! - [`clean`] asks for consent and goes through the projects to clean;
//! - [`size`], [`style`] and [`text`] render sizes and lines.
//!
//! All of it is verified, but for what other crates compute: `toml` parses
//! the manifests ([`manifest`]) and `regex` matches the patterns
//! ([`pattern`]). Their answers are given names in the contracts; what the
//! library does with an answer is proved for every answer.

pub mod clean;
pub mod consts;
pub mod error;
pub mod manifest;
pub mod order;
pub mod path;
pub mod pattern;
pub mod project;
pub mod project_set;
pub mod projects;
pub mod scan;
pub mod size;
pub mod style;
pub mod text;

pub use path::is_hidden;
pub use size::to_memory_string;
