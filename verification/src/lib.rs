//! Configuration-driven classification engine for a colorized directory
//! listing tool.
//!
//! The engine loads an ordered rule file, matches file names against the
//! rules (first match wins), and resolves a matching rule's value to an RGB
//! triple. Reading the environment, the filesystem and the terminal is left
//! to the embedding program: the library works on plain values.

pub mod args;
pub mod color;
pub mod configuration;
pub mod entry;
pub mod lookup;
