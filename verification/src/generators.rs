//! Content generators, one module per block kind. Each takes a parsed
//! configuration and project metadata and returns the lines that replace
//! one block body.

pub mod badges;
pub mod cargo_add;
pub mod cargo_install;
pub mod contributors;
pub mod description;
pub mod file;
pub mod with_automdrs;
