//! An HTTP client for the WASI HTTP host interface, with its request
//! preparation, header handling, body chunking and response decoding
//! verified by Verus.

pub mod body;
pub mod byte_buf;
pub mod chunk;
pub mod client;
pub mod conversions;
pub mod error;
pub mod headers;
pub mod method;
pub mod number;
pub mod response;
pub mod status;
pub mod text;
pub mod timeout;
pub mod transfer;
pub mod url;

pub use error::Error;
