//! The error taxonomy shared by every fallible operation of the crate.

use vstd::prelude::*;

verus! {

/// Why an operation failed.
///
/// Marshalling errors (`TooLong`, `InvalidInput`, `EncodingError`,
/// `UnknownVariant`) are reported before any native call would be
/// issued, so a failed call never leaves a partially written native
/// record behind.  `NativeError` carries a native errno value through
/// unchanged for diagnostics.
#[derive(Clone, Copy, Debug, PartialEq, Eq, Structural)]
pub enum ErrorKind {
    /// The operation named a handle that was never opened or has
    /// already been closed.
    InvalidHandle,
    /// A text field does not fit the fixed-capacity native buffer.
    TooLong,
    /// An argument breaks an encoding rule, such as a string with an
    /// embedded terminator byte.
    InvalidInput,
    /// Native bytes do not form valid text.
    EncodingError,
    /// A native constant has no typed representation in this crate.
    UnknownVariant,
    /// A list index lies beyond the current length of the list.
    IndexOutOfRange,
    /// No list entry matches the one given.
    NotFound,
    /// A non-blocking data operation has no room or no data.
    WouldBlock,
    /// The resource still has hosts, links, channels or registrations
    /// attached and cannot be torn down yet.
    ResourceBusy,
    /// A filter callback produced an invalid verdict.
    FilterError,
    /// A native call failed; the native error code is preserved.
    NativeError(i32),
}

/// Maps a native error code to the typed taxonomy: the would-block
/// code (11, the value shared for would-block conditions on the
/// platforms the native library runs on) keeps its meaning, and every
/// other code is passed through unchanged for diagnostics.
pub fn error_from_native(errno: i32) -> (r: ErrorKind)
    ensures
        errno == 11 ==> r == ErrorKind::WouldBlock,
        errno != 11 ==> r == ErrorKind::NativeError(errno),
{
    if errno == 11 {
        ErrorKind::WouldBlock
    } else {
        ErrorKind::NativeError(errno)
    }
}

} // verus!
