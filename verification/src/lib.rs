//! Turns a mod project tree between its editable source layout and its
//! distributable layout: the pack pipeline copies and converts the tree,
//! discovers build units, archives and signs them, and prunes the
//! intermediate artifacts; the unpack pipeline expands archives and converts
//! the compiled files back. The pipelines plan over a modelled tree; a thin
//! shell performs the file operations and runs the external tools they name.

pub mod commands;
pub mod converters;
pub mod fs_model;
pub mod ignore_rules;
pub mod laws;
pub mod mod_packer;
pub mod models;
pub mod packers;
pub mod paths;
pub mod pbo_packer;
pub mod signing;
pub mod tree_walker;
pub mod utils;
