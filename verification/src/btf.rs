//! Debug-type information. The library carries it to whoever relocates by
//! it, and does not look inside.

use vstd::prelude::*;

verus! {

/// Debug-type information of a kernel, as the bytes in which it was found.
#[derive(Debug)]
pub struct Btf {
    pub data: Vec<u8>,
}

/// Why debug-type information could not be read or applied.
#[derive(Debug)]
pub struct BtfError {
    pub message: String,
}

} // verus!
