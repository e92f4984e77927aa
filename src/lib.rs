//! MIME type <-> file extension lookup over an embedded JSON table.
//!
//! The table is parsed into a `MimeDb` (MIME type -> ordered extensions, in
//! document order), from which a `ReverseIndex` (extension -> MIME type) is
//! derived by first-claim-wins inversion. Both are immutable once built.
pub mod db;
mod index;
pub mod model;
pub mod reverse;

pub use db::{
    from_json, load, mime_to_ext, mime_to_preferred_ext, status, MimeDb, Unavailable, MIME_DB_JSON,
};
pub use reverse::{ext_to_mime, ReverseIndex};
