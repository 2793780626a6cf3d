//! The error taxonomy of the I/O layer.

use vstd::prelude::*;

verus! {

/// A hard failure or capability gap reported by a stream or a provider.
///
/// `NotSizeable` and `NotSeekable` are routine capability gaps: certain
/// stream kinds (a decompressing stream, for instance) cannot know their
/// length or reposition, and callers are expected to have a fallback path.
/// `Io` wraps a genuine underlying failure such as a failed write or a
/// malformed compressed stream.
#[derive(Clone, Copy, Debug, PartialEq, Eq, Structural)]
pub enum IoError {
    /// The stream's total length cannot be determined without consuming it.
    NotSizeable,
    /// The stream cannot reposition.
    NotSeekable,
    /// An underlying input/output operation failed.
    Io,
}

} // verus!
