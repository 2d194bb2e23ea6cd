//! Parsing of the canonical hyphenated text form of a GUID into its
//! mixed-endian binary layout.

pub mod ascii;
pub mod error;
pub mod guid;
pub mod hex;
pub mod parse;

pub use error::GuidFromStrError;
pub use guid::Guid;
pub use parse::try_parse_guid;
