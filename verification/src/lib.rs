//! Decoder for a block-structured, optionally encrypted and compressed
//! game-asset archive ("package"). A package's payload is spread over a
//! primary file and numbered patch files; each logical asset ("entry") is a
//! contiguous run of fixed-size blocks that are independently encrypted
//! (AES-128-GCM) and compressed. This crate holds the decoding core:
//! locating the newest patch file, parsing the header and the entry/block
//! tables, deriving the per-package nonce, decrypting blocks, and splicing
//! block payloads back into each entry's byte stream. File and directory
//! I/O, command-line handling and the native decompressor call live outside
//! the library and hand it plain values.

use vstd::prelude::*;

pub mod classify;
pub mod crypto;
pub mod locate;
pub mod parse;
pub mod reconstruct;
pub mod structs;

verus! {

/// Size in bytes of one physical storage block of the package format.
pub const BLOCK_SIZE: u32 = 262144;

/// The error taxonomy of the decoding core. Every failure is fatal for the
/// run; the core performs no retries and no partial recovery.
#[derive(Clone, Copy, Debug, PartialEq, Eq, Structural)]
pub enum PkgError {
    /// A required path or identifier is missing (e.g. no package file
    /// matches the requested identifier).
    Configuration,
    /// The package bytes do not have the shape the format requires
    /// (short table, malformed file name, out-of-range block index).
    Format,
    /// A file could not be opened, read or written.
    Io,
    /// The cipher could not be set up or run.
    Crypto,
    /// The external decompressor was missing or signalled failure.
    Codec,
}

} // verus!
