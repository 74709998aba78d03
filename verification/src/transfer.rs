//! Body and reply of the write-file endpoint, which uploads one file into a
//! container and optionally fixes its owner and mode afterwards.

use vstd::prelude::*;

verus! {

/// A file to write into a container.
#[derive(Debug)]
pub struct WriteFileRequest {
    /// Absolute path inside the target container.
    pub path: String,
    /// Raw UTF-8 file contents.
    pub content: String,
    /// Optional owner, e.g. `"devuser:devuser"`.
    pub owner: Option<String>,
    /// Optional mode, e.g. `"0644"`.
    pub mode: Option<String>,
    /// Refuse to replace an existing file unless true.
    pub overwrite: Option<bool>,
}

/// Reply of a successful write.
#[derive(Debug)]
pub struct WriteFileResponse {
    pub status: &'static str,
}

} // verus!
