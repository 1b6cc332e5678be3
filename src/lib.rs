//! Parser for NetLogo world export files.
//!
//! An export is a sequence of named sections. Each section starts with a
//! boundary row holding only the section's name, may carry one header row of
//! column names, and then holds data rows. The parser walks the rows once,
//! binds every data row to the active header and collects a typed snapshot.

pub mod parser;
pub mod record;
pub mod section;
pub mod text;
pub mod value;

pub use parser::{parse_rows, parse_str, ErrorKind, NetLogoWorld, ParseError, Scanner};
pub use record::{Globals, Link, Patch, Turle};
pub use section::Section;
pub use value::Value;
