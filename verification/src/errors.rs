//! The failure kinds of the core. Every operation returns a result carrying
//! one of these instead of panicking: malformed scripts and out-of-range
//! indices are expected inputs.

use vstd::prelude::*;

verus! {

/// A recoverable, local failure of an encode, decode, execute or expand step.
#[derive(Clone, Copy, Debug, PartialEq, Eq, Structural)]
pub enum ScriptError {
    /// An operation needed more stack items than were present.
    Underflow,
    /// A pick or roll index reached at or past the bottom of the stack.
    IndexOutOfRange,
    /// A byte that does not begin any known instruction (carries the byte).
    UnsupportedOpcode(u8),
    /// A declared payload length would read past the end of the buffer.
    TruncatedStream,
    /// An integer decode was given an over-wide byte string.
    MalformedNumber,
    /// A macro was expanded with the wrong number of arguments.
    ArityMismatch,
    /// An integer magnitude too large for the encoder's committed width.
    Encoding,
}

} // verus!
