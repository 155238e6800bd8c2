//! The caller-facing configuration surface: which endpoints to use and
//! how large a block to move at a time.

use vstd::prelude::*;

verus! {

/// Convert and copy a file.
///
/// Absence of a path selects the matching standard stream.  The parsing
/// of command-line text into this shape happens outside the library.
#[derive(Debug)]
pub struct Cli {
    /// Read from this path instead of stdin.
    pub input: Option<String>,
    /// Write to this path instead of stdout.
    pub output: Option<String>,
    /// Read and write up to this many bytes at a time.
    pub block_size: usize,
}

} // verus!
