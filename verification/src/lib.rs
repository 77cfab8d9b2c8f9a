//! Dependency resolution and installation rules of a package manager for the
//! Node ecosystem: version selection, the install state of one run, the
//! content store's layout, workspace hoisting and the texts shown to the user.

pub mod claims;
pub mod colors;
pub mod commands;
pub mod installer;
pub mod json;
pub mod manager;
pub mod name_map;
pub mod output;
pub mod platform;
pub mod registry;
pub mod shims;
pub mod symbols;
pub mod task;
pub mod text;
pub mod types;
pub mod version;
pub mod workspace;
