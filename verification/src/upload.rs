//! Body and reply of the plain upload endpoint, which writes one file into
//! a container with fixed ownership and mode.

use vstd::prelude::*;

verus! {

/// A file to write into a container.
#[derive(Debug)]
pub struct WriteFileRequest {
    /// Absolute path inside the target container.
    pub path: String,
    /// Raw UTF-8 file contents.
    pub content: String,
}

/// Reply of a successful write.
#[derive(Debug)]
pub struct WriteFileResponse {
    pub status: &'static str,
}

} // verus!
