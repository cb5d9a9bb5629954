//! A byte source held in memory.

use vstd::prelude::*;

verus! {

/// The bytes received so far and how many of them have been consumed.
///
/// A reader that runs out of bytes in the middle of a frame stays where that
/// frame began, so more bytes can be appended to `data` and the read tried
/// again.
#[derive(Debug, Clone, PartialEq, Eq)]
pub struct ByteReader {
    pub data: Vec<u8>,
    pub position: usize,
}

} // verus!
