//! Frame-header parsing for MPEG audio elementary streams.
//!
//! The crate locates frame headers in an in-memory byte buffer, decodes the
//! packed 32-bit header word into its fields and checks the fields against
//! the format's legality rules.

pub mod decoder;
pub mod header;
pub mod result;
pub mod utils;

pub use decoder::{Decoder, Frame};
pub use header::Header;
pub use result::Error;
