//! Library for keeping marked regions of a markdown document up to date.
//!
//! A document may contain regions fenced by sentinel HTML comments: an
//! opening line `<!-- automdrs:NAME [options] -->` and a closing line
//! `<!-- /automdrs -->`. The library scans a document for such regions,
//! dispatches each region by name to a content generator, and rewrites the
//! document in one pass, replacing only the region bodies while leaving the
//! surrounding text and the marker lines themselves unchanged.

pub mod badges;
pub mod contributors;
pub mod dispatch;
pub mod error;
pub mod generators;
pub mod github;
pub mod handler;
pub mod lines;
pub mod manifest;
pub mod registry;
pub mod render;
pub mod scan;
pub mod tag_options;
pub mod text;
