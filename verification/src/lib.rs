//! Reading `security.txt` files line by line.
//!
//! A line is a comment, which starts with `#`, or a field, written as a name,
//! a `:` and a value. [`Line`] and [`Field`] are read from text with
//! `from_str`.

pub mod error;
pub mod field;
pub mod line;
pub mod name;
pub mod text;
pub mod timestamp;
pub mod trusted;

pub use crate::error::ParseError;
pub use crate::field::Field;
pub use crate::line::Line;
pub use crate::name::FieldName;
pub use crate::name::UrlField;
pub use crate::timestamp::Timestamp;
use vstd::prelude::*;

verus! {

/// The conventional name of the file.
pub const FILENAME: &'static str = "security.txt";

/// The path under which the file must be placed when it is served over
/// HTTP.
pub const WELL_KNOWN_PATH: &'static str = "/.well-known/security.txt";

/// The media type of the file, which must be plain text.
pub const MIMETYPE: &'static str = "text/plain";

} // verus!
