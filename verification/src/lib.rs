//! Conversion of an SSH client configuration into an Ansible-style YAML
//! inventory document.
//!
//! The crate covers the conversion pipeline itself: a line-oriented parser
//! that groups configuration lines into per-host field maps, a typed-value
//! inference engine for free-form variable values, and the mapping logic
//! that projects known fields into named inventory parameters and folds the
//! remainder into a single argument string.  Reading the input, writing the
//! output and the YAML encoding itself are left to the embedding program.

pub mod ansible;
pub mod fields;
pub mod parser;
pub mod ssh_config;
pub mod text;
pub mod variables;
