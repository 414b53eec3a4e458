//! Splits a font collection container into standalone single-font files.
//!
//! The library reads the collection header and each sub-font's table
//! directory, lays the sub-font's tables out again in a fresh buffer with
//! four-byte alignment, and chooses a safe file name for it.  All of it is
//! stated over byte sequences and proved.

pub mod builder;
pub mod bytes;
pub mod collection;
pub mod directory;
pub mod error;
pub mod extract;
pub mod laws;
pub mod layout;
pub mod naming;

pub use builder::build_font;
pub use bytes::{push_u16_be, push_u32_be, read_u16_be, read_u32_be};
pub use collection::{read_collection_header, CollectionHeader};
pub use directory::{read_directory, OffsetSubtable, SubFontDirectory, TableRecord};
pub use error::SplitError;
pub use extract::{extract_subfont, ExtractedFont};
pub use naming::{
    choose_name, fallback_name_of, output_file_name, resolve_name, sanitize_file_name, FULL_NAME_ID,
};
