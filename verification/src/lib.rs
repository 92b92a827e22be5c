//! Queries over a dependency-lock document: the names of its inputs and the
//! canonical URL from which each pinned input is fetched.
//!
//! [`parse`] reads a document from its JSON text. [`list_names`],
//! [`list_name_url_pairs`], [`list_urls`] and [`lookup`] answer the queries;
//! each URL is the work of [`reconstruct`], which goes by the table in
//! [`registry`].

pub mod document;
pub mod engine;
pub mod escape;
pub mod json;
pub mod model;
pub mod parse;
pub mod query;
pub mod registry;
pub mod text;

pub use document::LockDocument;
pub use engine::{reconstruct, ReconstructionError};
pub use model::{LockedSpec, Node, OriginalSpec};
pub use parse::{from_value, parse, ParseError};
pub use query::{list_name_url_pairs, list_names, list_urls, lookup, LookupError};
pub use registry::{canonical_scheme, required_fields, Field, Piece, SourceType};
