//! A layered I/O abstraction for a sandboxed document-compilation engine.
//!
//! The engine reads inputs and writes outputs through a unified contract,
//! never assuming a conventional filesystem: resources may come from memory
//! buffers, compressed byte streams, or the real process standard output.
//! Lookups return a tri-state [`OpenResult`] so that absence of a resource is
//! never conflated with a hard failure, and an ordered [`stack::IoStack`]
//! composes heterogeneous backends with first-match-wins,
//! fail-fast-on-error semantics.

use vstd::prelude::*;

pub mod digest;
pub mod errors;
pub mod genuine_stdout;
pub mod input;
pub mod memory;
pub mod output;
pub mod provider;
pub mod scripted;
pub mod stack;
pub mod status;

use crate::errors::IoError;

verus! {

/// The tri-state outcome of every lookup operation.
///
/// `Found` means the backend located and opened the resource. `NotAvailable`
/// means the backend has no knowledge of the name — routine, and never an
/// error. `HardError` means the backend recognized or attempted the name and
/// something went wrong; it must never be masked by a lower-priority backend
/// that coincidentally also claims the name.
pub enum OpenResult<T> {
    Found(T),
    NotAvailable,
    HardError(IoError),
}

/// Byte-for-byte equality of two opaque resource names: no case folding, no
/// normalization, no path canonicalization.
pub fn bytes_eq(a: &[u8], b: &[u8]) -> (r: bool)
    ensures
        r <==> a@ == b@,
{
    if a.len() != b.len() {
        return false;
    }
    let mut i: usize = 0;
    while i < a.len()
        invariant
            i <= a@.len(),
            a@.len() == b@.len(),
            forall|j: int| 0 <= j < i ==> a@[j] == b@[j],
        decreases a@.len() - i,
    {
        if a[i] != b[i] {
            return false;
        }
        i += 1;
    }
    proof {
        assert(a@ =~= b@);
    }
    true
}

} // verus!
