//! Style resolution for a document tree: the cascade that collects the
//! declared values of every node, the resolution of `calc()`, `attr()` and
//! `var()`, the expansion of shorthand properties, and the propagation of
//! inherited values from the root down.

pub mod text;
pub mod values;
pub mod stylesheet;
pub mod styling;
pub mod node;
pub mod document;
pub mod definitions;
pub mod property_definitions;
pub mod shorthands;
pub mod calc;
pub mod functions;
pub mod matcher;
pub mod system;
pub mod render_tree;
pub mod inheritance;
pub mod ancestors;
pub mod generate;
pub mod query;
pub mod tokenizer;
pub mod loader;
