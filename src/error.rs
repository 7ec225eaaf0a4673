use vstd::prelude::*;

verus! {

/// Why a decode failed.
#[derive(Debug, Clone, Copy, PartialEq, Eq, Structural)]
pub enum Error {
    /// A string index past the declared string count was requested.
    IndexOutOfBounds,
    /// Bytes that should hold text are not valid UTF-8.
    Decode,
    /// A read would run past the end of the buffer.
    UnexpectedEndOfData,
}

} // verus!
