//! Parsing, validation and time-aligned merging of BUFKIT sounding files.
//!
//! A BUFKIT file is plain text holding two sections: an upper-air section with
//! one vertical profile per forecast time, and a surface section with one row
//! per forecast time. The library locates both sections, decodes their records
//! and pairs the records whose valid times are equal.
//!
//! All text is handled as bytes. White space, letters and digits are the ASCII
//! ones; every other byte is an ordinary character of a token.

pub mod bufkit_data;
pub mod error;
pub mod number;
pub mod parse_util;
pub mod text;
pub mod valid_time;

pub use crate::bufkit_data::{BufkitData, BufkitFile, SoundingIterator};
pub use crate::error::{BufkitFileError, ErrorKind};
