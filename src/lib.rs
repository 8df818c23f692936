//! SHA-1 digests of file contents, streamed in bounded chunks and rendered as
//! lowercase hexadecimal, with case-insensitive validation against an expected
//! digest.
//!
//! The library does no I/O of its own: a caller reads its byte source in
//! chunks of `CHUNK_SIZE` bytes and hands each outcome to a `DigestEngine`.

pub mod ascii;
pub mod engine;
pub mod error;
pub mod hex;
pub mod sha1_state;

pub use engine::{hash_bytes, validate_bytes, DigestEngine, Step, CHUNK_SIZE};
pub use error::SHAError;
