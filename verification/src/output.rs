//! Digest-tracking output handles.
//!
//! An [`OutputHandle`] wraps a writable sink, tags it with an opaque name,
//! and mirrors every byte the sink accepts into a running SHA3-256 digest.
//! Finalizing the handle consumes it and yields the `(name, digest)` pair,
//! so a second finalize is impossible by ownership.

use vstd::prelude::*;

use crate::digest::Sha3Accumulator;
use crate::digest::sha3_256_of;
use crate::errors::IoError;

verus! {

#[verifier::external_type_specification]
#[verifier::external_body]
pub struct ExStdout(std::io::Stdout);

/// The real process standard output, together with the sequence of bytes
/// that have been accepted through this value.
pub struct StdoutSink {
    out: std::io::Stdout,
    sent: Ghost<Seq<u8>>,
}

impl StdoutSink {
    /// The bytes the process standard output has accepted through this value.
    pub closed spec fn sent(&self) -> Seq<u8> {
        self.sent@
    }

    /// A sink for the process standard output; nothing has been written
    /// through the new value.
    pub fn new() -> (r: StdoutSink)
        ensures
            r.sent() == Seq::<u8>::empty(),
    {
        StdoutSink { out: raw_stdout(), sent: Ghost(Seq::empty()) }
    }

    /// Relies on `std::io::Write::write`: on success at most `buf.len()`
    /// bytes are accepted, and they are the prefix of `buf`; on failure it is
    /// guaranteed that no byte was accepted.
    #[verifier::external_body]
    pub fn write(&mut self, buf: &[u8]) -> (r: Result<usize, IoError>)
        ensures
            match r {
                Ok(n) => n <= buf@.len() && final(self).sent() == old(self).sent() + buf@.take(
                    n as int,
                ),
                Err(_) => final(self).sent() == old(self).sent(),
            },
    {
        match std::io::Write::write(&mut self.out, buf) {
            Ok(n) => Ok(n),
            Err(_) => Err(IoError::Io),
        }
    }

    /// Relies on `std::io::Write::flush`, which writes no bytes of its own.
    #[verifier::external_body]
    pub fn flush(&mut self) -> (r: Result<(), IoError>)
        ensures
            final(self).sent() == old(self).sent(),
    {
        match std::io::Write::flush(&mut self.out) {
            Ok(()) => Ok(()),
            Err(_) => Err(IoError::Io),
        }
    }
}

/// Relies on `std::io::stdout`, which returns a handle to the process
/// standard output.
#[verifier::external_body]
fn raw_stdout() -> std::io::Stdout {
    std::io::stdout()
}

/// A writable destination for an output handle: an in-memory byte buffer, or
/// the real process standard output.
pub enum Sink {
    Memory(Vec<u8>),
    Stdout(StdoutSink),
}

impl Sink {
    /// The bytes the sink has accepted so far, in order.
    pub open spec fn received(&self) -> Seq<u8> {
        match self {
            Sink::Memory(v) => v@,
            Sink::Stdout(s) => s.sent(),
        }
    }

    /// Forward `buf` to the sink. On success, the accepted bytes are exactly
    /// the returned-length prefix of `buf`; on failure nothing was accepted.
    /// A memory buffer cannot fail and accepts everything offered.
    pub fn write(&mut self, buf: &[u8]) -> (r: Result<usize, IoError>)
        ensures
            match r {
                Ok(n) => n <= buf@.len() && final(self).received() == old(self).received()
                    + buf@.take(n as int),
                Err(_) => final(self).received() == old(self).received(),
            },
            (*old(self)) is Memory ==> match r {
                Ok(n) => n == buf@.len(),
                Err(_) => false,
            },
            (*final(self)) is Memory <==> (*old(self)) is Memory,
    {
        match self {
            Sink::Memory(v) => {
                let n = buf.len();
                v.extend_from_slice(buf);
                proof {
                    assert(buf@.take(n as int) =~= buf@);
                }
                Ok(n)
            },
            Sink::Stdout(s) => s.write(buf),
        }
    }

    /// Flush the sink; no byte is accepted or dropped by a flush, and a
    /// memory buffer cannot fail one.
    pub fn flush(&mut self) -> (r: Result<(), IoError>)
        ensures
            final(self).received() == old(self).received(),
            (*old(self)) is Memory ==> r is Ok,
            (*final(self)) is Memory <==> (*old(self)) is Memory,
    {
        match self {
            Sink::Memory(_) => Ok(()),
            Sink::Stdout(s) => s.flush(),
        }
    }
}

/// A named output destination that mirrors every byte its sink accepts into
/// a running SHA3-256 digest. The sink may have accepted bytes before it was
/// wrapped; the digest covers exactly what was accepted through the handle.
pub struct OutputHandle {
    name: Vec<u8>,
    inner: Sink,
    digest: Sha3Accumulator,
    base: Ghost<Seq<u8>>,
}

impl OutputHandle {
    /// The opaque name the handle was opened under.
    pub closed spec fn name_spec(&self) -> Seq<u8> {
        self.name@
    }

    /// The bytes the sink has accepted through this handle, in order, with
    /// no gaps or duplication.
    pub closed spec fn written(&self) -> Seq<u8> {
        self.digest.fed()
    }

    /// The digest accumulator has absorbed exactly the bytes the sink has
    /// accepted through this handle: everything past what the sink held when
    /// the handle was created.
    pub closed spec fn wf(&self) -> bool {
        self.inner.received() == self.base@ + self.digest.fed()
    }

    /// Whether the handle writes into an in-memory buffer; such a sink
    /// accepts every byte offered and never fails.
    pub closed spec fn memory_backed(&self) -> bool {
        self.inner is Memory
    }

    /// Wrap `inner`, tagging it with `name`; the digest will cover exactly
    /// the bytes accepted from here on.
    pub fn new(name: &[u8], inner: Sink) -> (r: OutputHandle)
        ensures
            r.wf(),
            r.name_spec() == name@,
            r.written() == Seq::<u8>::empty(),
            r.memory_backed() <==> inner is Memory,
    {
        let mut owned_name: Vec<u8> = Vec::new();
        owned_name.extend_from_slice(name);
        let ghost base = inner.received();
        let r = OutputHandle {
            name: owned_name,
            inner,
            digest: Sha3Accumulator::new(),
            base: Ghost(base),
        };
        proof {
            assert(r.name@ =~= name@);
            assert(r.inner.received() =~= r.base@ + r.digest.fed());
        }
        r
    }

    /// The opaque name, readable any number of times.
    pub fn name(&self) -> (r: &Vec<u8>)
        ensures
            r@ == self.name_spec(),
    {
        &self.name
    }

    /// Forward `buf` to the inner sink and absorb into the digest exactly
    /// the prefix the sink accepted. A memory-backed handle accepts all of
    /// `buf` and cannot fail.
    pub fn write(&mut self, buf: &[u8]) -> (r: Result<usize, IoError>)
        requires
            old(self).wf(),
        ensures
            final(self).wf(),
            final(self).name_spec() == old(self).name_spec(),
            final(self).memory_backed() == old(self).memory_backed(),
            match r {
                Ok(n) => n <= buf@.len() && final(self).written() == old(self).written()
                    + buf@.take(n as int),
                Err(_) => final(self).written() == old(self).written(),
            },
            old(self).memory_backed() ==> match r {
                Ok(n) => n == buf@.len(),
                Err(_) => false,
            },
    {
        match self.inner.write(buf) {
            Ok(n) => {
                let accepted = vstd::slice::slice_subrange(buf, 0, n);
                proof {
                    assert(accepted@ =~= buf@.take(n as int));
                }
                self.digest.input(accepted);
                proof {
                    assert(self.inner.received() =~= self.base@ + self.digest.fed());
                }
                Ok(n)
            },
            Err(e) => Err(e),
        }
    }

    /// Flush the inner sink; the digest is unaffected, and a memory-backed
    /// handle cannot fail a flush.
    pub fn flush(&mut self) -> (r: Result<(), IoError>)
        requires
            old(self).wf(),
        ensures
            final(self).wf(),
            final(self).name_spec() == old(self).name_spec(),
            final(self).written() == old(self).written(),
            final(self).memory_backed() == old(self).memory_backed(),
            old(self).memory_backed() ==> r is Ok,
    {
        self.inner.flush()
    }

    /// Consume the handle and return its name together with the SHA3-256
    /// digest of every byte the sink accepted through it. Ownership makes a
    /// second finalize impossible.
    pub fn into_name_digest(self) -> (r: (Vec<u8>, [u8; 32]))
        ensures
            r.0@ == self.name_spec(),
            r.1@ == sha3_256_of(self.written()),
    {
        let OutputHandle { name, inner: _, digest, base: _ } = self;
        let sum = digest.finish();
        (name, sum)
    }
}

/// Write-chunking invariance: a handle that accepted a byte sequence as any
/// sequence of chunks finalizes to the same digest as a handle that accepted
/// the whole sequence in one write.
pub proof fn lemma_write_chunking_invariance(
    chunked: OutputHandle,
    whole: OutputHandle,
    chunks: Seq<Seq<u8>>,
)
    requires
        chunked.written() == chunks.flatten(),
        whole.written() == chunks.flatten(),
    ensures
        sha3_256_of(chunked.written()) == sha3_256_of(whole.written()),
{
}

} // verus!
