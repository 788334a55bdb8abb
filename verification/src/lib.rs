//! Discovers the source files of a project from its manifest and walks the
//! syntax tree of each file, classifying the declarations it contains.

pub mod canon;
pub mod locate;
pub mod manifest;
pub mod tree;
pub mod visit;
