//! A decoder for the WebAssembly module binary format.
//!
//! The decoder turns one contiguous byte buffer into a structured module
//! value, or rejects it with a precise error.  It is a single synchronous
//! pass with no recovery: the first malformed byte aborts the whole decode.

pub mod errors;
pub mod utils;
pub mod instructions;
pub mod sections;
