//! Reading byte streams in any of several compression formats without knowing
//! the format in advance.
//!
//! A decoder looks at the first bytes of its input, picks the matching codec
//! and hands out the decoded bytes. The lookahead buffer that makes this
//! possible hands every byte it looked at, in order and once, to the codec.
use vstd::prelude::*;

pub mod bufread;
pub mod compression;
pub mod format;
mod io_ops;
pub mod magic;
pub mod read;

pub use bufread::AnyDecoder;
pub use compression::Compression;
pub use compression::CompressionLevel;
pub use format::Format;
