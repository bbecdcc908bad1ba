//! A declarative description language for typed runtime objects.
//!
//! A *prefab* is a small piece of text that names an ordered sequence of
//! build steps: attach a dynamically-typed value, or invoke a named build
//! command.  The library parses such text against a registry of known type
//! names and shapes, builds the dynamic values, and caches each parsed
//! prefab under its source name.

pub mod dynamic_value;
pub mod grammar;
pub mod laws;
pub mod parse;
pub mod prefab;
pub mod registry;
pub mod strmap;
pub mod text;
