//! Code generation for Go endpoint scaffolding: naming conventions,
//! file templates, and in-place edits of existing Go sources.

pub mod container;
pub mod container_laws;
pub mod edit;
pub mod endpoint;
pub mod gomod;
pub mod handlers;
pub mod naming;
pub mod paren_list;
pub mod pattern;
pub mod search;
pub mod template;
pub mod text;
pub mod wire;
pub mod wire_laws;
