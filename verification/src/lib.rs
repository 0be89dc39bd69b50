//! Presentation of query results: a registry of namespace prefixes that
//! compacts IRIs, and a renderer that lays cells out as a bordered text
//! table.
//!
//! - [`prefix_map`]: the registry, built from the prefix declarations of a
//!   query text, and the compaction of IRIs against it.
//! - [`pattern`]: how a declaration is found in text.
//! - [`cell`]: the values of a result row and the text that stands for them.
//! - [`table`]: measuring columns and drawing the table.
//! - [`graph_format`]: choosing a graph serialization by file extension.
//! - [`text`]: character-level helpers.

pub mod cell;
pub mod graph_format;
pub mod pattern;
pub mod prefix_map;
pub mod table;
pub mod text;
