//! Identifier and slug codec for a tag-redirection service.
//!
//! The crate validates and canonicalizes the two identifier kinds the
//! service works with — fixed-length hexadecimal tag identifiers and
//! external knowledge-base page references — and parses and re-encodes
//! the composite routing slug that carries a tag identifier together
//! with an optional tap count.

pub mod hexchar;
pub mod page_ref;
pub mod relation;
pub mod slug;
pub mod tag_id;
pub mod text;

pub use page_ref::{NotionPageId, NotionPageIdError, UrlParts};
pub use relation::{FieldKind, RelationError, Schema, SchemaField};
pub use slug::{RoutingSlug, SlugError};
pub use tag_id::{Hex14, Hex14Error};
