use vstd::prelude::*;

verus! {

/// The size above which a recording is compressed before upload: 24 MiB,
/// leaving a margin under the completion service's 25 MB limit.
pub const MAX_FILE_SIZE_BYTES: u64 = 25165824;

/// Decides when a recording must be compressed before upload.  The
/// compression itself shells out to an encoder and lives with the caller;
/// this holds the size rule.
pub struct AudioCompressor {
}

impl AudioCompressor {
    /// Does a file of this size exceed the upload threshold?
    pub fn needs_compression(size_bytes: u64) -> (r: bool)
        ensures
            r == (size_bytes > MAX_FILE_SIZE_BYTES),
    {
        size_bytes > MAX_FILE_SIZE_BYTES
    }
}

} // verus!
