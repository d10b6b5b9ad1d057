//! The reasons for which a buffer is refused.

use vstd::prelude::*;

verus! {

/// Why a render call was refused. A refused call has written nothing.
#[derive(Debug, Clone, Copy, PartialEq, Eq, Structural)]
pub enum ProcessingError {
    /// No transform exists for the pair of pixel formats.
    UnsupportedFormat,
    /// A buffer's length is not a whole number of pixels, or the two buffers
    /// do not hold the same number of bytes.
    InvalidBufferSize,
}

impl ProcessingError {
    /// A short description of the error.
    pub fn message(&self) -> (text: &'static str)
        ensures
            text@ == (match *self {
                ProcessingError::UnsupportedFormat => "unsupported pixel format"@,
                ProcessingError::InvalidBufferSize => "invalid buffer size"@,
            }),
    {
        match self {
            ProcessingError::UnsupportedFormat => "unsupported pixel format",
            ProcessingError::InvalidBufferSize => "invalid buffer size",
        }
    }
}

} // verus!
