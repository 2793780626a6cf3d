//! Readable input streams and their capability contract.
//!
//! An input stream supports sequential byte reads; beyond that, its
//! capabilities are queried, never assumed: the total size may be unknown and
//! seeking may be unsupported. Two reference stream kinds are provided: an
//! in-memory buffer stream (always sizeable and seekable) and a decompressing
//! stream over a raw gzip byte sequence (never sizeable, never seekable).

use vstd::prelude::*;

use crate::errors::IoError;

verus! {

#[verifier::external_type_specification]
#[verifier::external_body]
#[verifier::reject_recursive_types(R)]
pub struct ExGzDecoder<R>(flate2::read::GzDecoder<R>);

#[verifier::external_type_specification]
#[verifier::external_body]
#[verifier::reject_recursive_types(T)]
pub struct ExCursor<T>(std::io::Cursor<T>);

/// The byte sequence a raw gzip stream decompresses to, as `flate2` computes
/// it. The result is a function of the raw bytes alone.
pub uninterp spec fn gunzip_of(raw: Seq<u8>) -> Seq<u8>;

/// Whether `flate2` accepts a raw byte sequence as a well-formed gzip stream
/// end to end. Like the decompression itself this is a function of the raw
/// bytes alone: over an in-memory source no transient failure exists, so
/// reads of a well-formed stream never fail.
pub uninterp spec fn gzip_ok(raw: Seq<u8>) -> bool;

/// A position to seek to: absolute, relative to the end, or relative to the
/// current position.
#[derive(Clone, Copy, Debug, PartialEq, Eq, Structural)]
pub enum SeekFrom {
    Start(u64),
    End(i64),
    Current(i64),
}

/// The capability contract of an input stream beyond basic byte reading: an
/// optional size query and optional seeking. Both answers are pure functions
/// of the stream state, and a stream that lacks a capability fails the same
/// way on every call.
pub trait InputFeatures: Sized {
    /// What `get_size` returns for this stream state.
    spec fn size_result(&self) -> Result<usize, IoError>;

    /// What `try_seek` returns for this stream state, and the state after.
    spec fn seek_outcome(&self, pos: SeekFrom) -> (Result<u64, IoError>, Self);

    /// The total byte length of the underlying content, if determinable
    /// without consuming the stream; `NotSizeable` otherwise. Never changes
    /// the stream.
    fn get_size(&mut self) -> (r: Result<usize, IoError>)
        ensures
            r == old(self).size_result(),
            *final(self) == *old(self),
    ;

    /// Reposition the stream, or fail with `NotSeekable` for streams that
    /// cannot reposition (which leaves the stream unchanged).
    fn try_seek(&mut self, pos: SeekFrom) -> (r: Result<u64, IoError>)
        ensures
            r == old(self).seek_outcome(pos).0,
            *final(self) == old(self).seek_outcome(pos).1,
    ;
}

/// An in-memory buffer stream: a byte buffer together with a read position.
/// The position may sit beyond the end of the buffer (a seek can put it
/// there); reads from there yield nothing.
pub struct BufferStream {
    pub data: Vec<u8>,
    pub pos: u64,
}

impl BufferStream {
    /// The index reads start from: the position, clipped to the buffer end.
    pub open spec fn cursor(&self) -> int {
        if self.pos <= self.data@.len() {
            self.pos as int
        } else {
            self.data@.len() as int
        }
    }

    /// The bytes still to be read, in order.
    pub open spec fn remaining(&self) -> Seq<u8> {
        self.data@.skip(self.cursor())
    }

    /// A stream over `data`, positioned at its start.
    pub fn new(data: Vec<u8>) -> (r: BufferStream)
        ensures
            r.data@ == data@,
            r.pos == 0,
            r.remaining() == data@,
    {
        let r = BufferStream { data, pos: 0 };
        proof {
            assert(r.remaining() =~= r.data@);
        }
        r
    }

    /// Read up to `max` of the next bytes, advancing the position past them.
    /// The result is shorter than `max` only when the buffer end cuts it off.
    pub fn read_chunk(&mut self, max: usize) -> (r: Vec<u8>)
        ensures
            r@.len() == if max as int <= old(self).remaining().len() {
                max as int
            } else {
                old(self).remaining().len() as int
            },
            r@ == old(self).remaining().take(r@.len() as int),
            final(self).remaining() == old(self).remaining().skip(r@.len() as int),
            final(self).data@ == old(self).data@,
    {
        let len = self.data.len();
        let start: usize = if self.pos <= len as u64 {
            self.pos as usize
        } else {
            len
        };
        let avail = len - start;
        let count = if max <= avail {
            max
        } else {
            avail
        };
        let mut out: Vec<u8> = Vec::new();
        let mut i: usize = 0;
        while i < count
            invariant
                count <= avail,
                avail == len - start,
                start + count <= len,
                len == self.data@.len(),
                i <= count,
                out@ =~= self.data@.subrange(start as int, start as int + i as int),
                *self == *old(self),
                start as int == old(self).cursor(),
            decreases count - i,
        {
            let b = self.data[start + i];
            out.push(b);
            i += 1;
        }
        self.pos = (start as u64) + (count as u64);
        proof {
            assert(out@ =~= old(self).remaining().take(count as int));
            assert(self.remaining() =~= old(self).remaining().skip(count as int));
        }
        out
    }
}

impl InputFeatures for BufferStream {
    open spec fn size_result(&self) -> Result<usize, IoError> {
        Ok((self.data@.len() as usize))
    }

    open spec fn seek_outcome(&self, pos: SeekFrom) -> (Result<u64, IoError>, Self) {
        let base: int = match pos {
            SeekFrom::Start(n) => n as int,
            SeekFrom::End(d) => self.data@.len() + d as int,
            SeekFrom::Current(d) => self.pos as int + d as int,
        };
        if 0 <= base <= u64::MAX as int {
            (Ok(base as u64), BufferStream { data: self.data, pos: base as u64 })
        } else {
            (Err(IoError::Io), *self)
        }
    }

    /// The exact buffer length, always available.
    fn get_size(&mut self) -> (r: Result<usize, IoError>) {
        Ok(self.data.len())
    }

    /// Standard seek semantics: absolute, end-relative or current-relative;
    /// an offset that would land before the start (or beyond what a position
    /// can represent) is an error and leaves the stream unchanged.
    fn try_seek(&mut self, pos: SeekFrom) -> (r: Result<u64, IoError>) {
        let base: i128 = match pos {
            SeekFrom::Start(n) => n as i128,
            SeekFrom::End(d) => (self.data.len() as i128) + (d as i128),
            SeekFrom::Current(d) => (self.pos as i128) + (d as i128),
        };
        if 0 <= base && base <= u64::MAX as i128 {
            self.pos = base as u64;
            Ok(self.pos)
        } else {
            Err(IoError::Io)
        }
    }
}

/// A decompressing stream over a raw gzip byte sequence. Its total length is
/// unknowable without consuming it and it cannot reposition, so both
/// capability queries fail; reads hand out the decompressed bytes in order.
pub struct GzInput {
    inner: flate2::read::GzDecoder<std::io::Cursor<Vec<u8>>>,
    raw: Ghost<Seq<u8>>,
    delivered: Ghost<Seq<u8>>,
}

impl GzInput {
    /// The raw gzip bytes the stream was opened over.
    pub closed spec fn raw_spec(&self) -> Seq<u8> {
        self.raw@
    }

    /// The decompressed bytes handed out so far, in order.
    pub closed spec fn delivered_spec(&self) -> Seq<u8> {
        self.delivered@
    }

    /// What was handed out so far is a prefix of the full decompression.
    pub open spec fn wf(&self) -> bool {
        self.delivered_spec().is_prefix_of(gunzip_of(self.raw_spec()))
    }

    /// The decompressed bytes still to be handed out, in order.
    pub open spec fn remaining(&self) -> Seq<u8> {
        gunzip_of(self.raw_spec()).skip(self.delivered_spec().len() as int)
    }

    /// A decompressing stream over `compressed`, with nothing read yet.
    pub fn new(compressed: Vec<u8>) -> (r: GzInput)
        ensures
            r.raw_spec() == compressed@,
            r.delivered_spec() == Seq::<u8>::empty(),
            r.wf(),
            r.remaining() == gunzip_of(compressed@),
    {
        let ghost raw_bytes = compressed@;
        let r = GzInput {
            inner: new_gz_decoder(compressed),
            raw: Ghost(raw_bytes),
            delivered: Ghost(Seq::empty()),
        };
        proof {
            assert(r.delivered_spec().is_prefix_of(gunzip_of(r.raw_spec())));
            assert(r.remaining() =~= gunzip_of(raw_bytes));
        }
        r
    }

    /// Relies on `std::io::Read::read` for `flate2::read::GzDecoder`:
    /// decompression of a gzip stream is a function of the raw bytes alone,
    /// each successful read hands out the next bytes of the decompressed
    /// sequence (none on a malformed stream, where it fails instead), a read
    /// never hands out more than the buffer it was offered, a read into a
    /// non-empty buffer hands out nothing only at the end of the stream, and
    /// over an in-memory source a read fails only on a malformed stream.
    #[verifier::external_body]
    fn read_raw(&mut self, max: usize) -> (r: Result<Vec<u8>, IoError>)
        ensures
            final(self).raw_spec() == old(self).raw_spec(),
            gzip_ok(old(self).raw_spec()) ==> r is Ok,
            match r {
                Ok(v) => v@.len() <= max && final(self).delivered_spec() == old(
                    self,
                ).delivered_spec() + v@ && (old(self).delivered_spec() + v@).is_prefix_of(
                    gunzip_of(old(self).raw_spec()),
                ) && ((v@.len() == 0 && max > 0) ==> old(self).delivered_spec() == gunzip_of(
                    old(self).raw_spec(),
                )),
                Err(_) => final(self).delivered_spec() == old(self).delivered_spec(),
            },
    {
        let mut buf = vec![0u8; max];
        match std::io::Read::read(&mut self.inner, &mut buf) {
            Ok(n) => {
                buf.truncate(n);
                Ok(buf)
            },
            Err(_) => Err(IoError::Io),
        }
    }

    /// Read up to `max` of the next decompressed bytes, advancing past them.
    /// On a well-formed stream a read never fails.
    pub fn read_chunk(&mut self, max: usize) -> (r: Result<Vec<u8>, IoError>)
        requires
            old(self).wf(),
        ensures
            final(self).raw_spec() == old(self).raw_spec(),
            final(self).wf(),
            gzip_ok(old(self).raw_spec()) ==> r is Ok,
            match r {
                Ok(v) => v@.len() <= max && v@.len() <= old(self).remaining().len() && v@ == old(
                    self,
                ).remaining().take(v@.len() as int) && final(self).remaining() == old(
                    self,
                ).remaining().skip(v@.len() as int) && ((v@.len() == 0 && max > 0) ==> old(
                    self,
                ).remaining().len() == 0),
                Err(_) => final(self).remaining() == old(self).remaining(),
            },
    {
        let ghost old_delivered = self.delivered_spec();
        let ghost full = gunzip_of(self.raw_spec());
        let r = self.read_raw(max);
        proof {
            match &r {
                Ok(v) => {
                    let dlen = old_delivered.len() as int;
                    let vlen = v@.len() as int;
                    assert(old_delivered + v@ =~= full.subrange(0, dlen + vlen));
                    assert forall|j: int| 0 <= j < vlen implies v@[j] == full[dlen + j] by {
                        assert((old_delivered + v@)[dlen + j] == v@[j]);
                    };
                    assert(v@ =~= full.skip(dlen).take(vlen));
                    assert(self.remaining() =~= full.skip(dlen).skip(vlen));
                    assert(full.skip(dlen).skip(vlen) =~= old(self).remaining().skip(vlen));
                },
                Err(_) => {},
            }
        }
        r
    }
}

impl InputFeatures for GzInput {
    open spec fn size_result(&self) -> Result<usize, IoError> {
        Err(IoError::NotSizeable)
    }

    open spec fn seek_outcome(&self, pos: SeekFrom) -> (Result<u64, IoError>, Self) {
        (Err(IoError::NotSeekable), *self)
    }

    /// A decompressing stream never knows its length ahead of consumption.
    fn get_size(&mut self) -> (r: Result<usize, IoError>) {
        Err(IoError::NotSizeable)
    }

    /// A decompressing stream can never reposition.
    fn try_seek(&mut self, pos: SeekFrom) -> (r: Result<u64, IoError>) {
        Err(IoError::NotSeekable)
    }
}

/// Relies on `flate2::read::GzDecoder::new`, which wraps a raw gzip byte
/// stream and decompresses it on read.
#[verifier::external_body]
fn new_gz_decoder(compressed: Vec<u8>) -> flate2::read::GzDecoder<std::io::Cursor<Vec<u8>>> {
    flate2::read::GzDecoder::new(std::io::Cursor::new(compressed))
}

/// An exclusively owned, opaque readable byte source handed out by a
/// provider: an in-memory buffer stream or a decompressing stream.
pub enum InputHandle {
    Buffer(BufferStream),
    Gz(GzInput),
}

impl InputHandle {
    /// The bytes still to be read from the stream, in order.
    pub open spec fn remaining(&self) -> Seq<u8> {
        match self {
            InputHandle::Buffer(b) => b.remaining(),
            InputHandle::Gz(g) => g.remaining(),
        }
    }

    /// Stream-kind bookkeeping holds (trivial for a buffer stream).
    pub open spec fn wf(&self) -> bool {
        match self {
            InputHandle::Buffer(_) => true,
            InputHandle::Gz(g) => g.wf(),
        }
    }

    /// Whether reads from this stream are owed success: a buffer stream can
    /// never fail a read, and a decompressing stream cannot fail one over a
    /// well-formed gzip stream.
    pub open spec fn reads_ok(&self) -> bool {
        match self {
            InputHandle::Buffer(_) => true,
            InputHandle::Gz(g) => gzip_ok(g.raw_spec()),
        }
    }

    /// Read up to `max` of the next bytes, advancing past them. A buffer
    /// stream returns exactly `max` bytes unless its end cuts the read off,
    /// and a read fails only where success is not owed.
    pub fn read_chunk(&mut self, max: usize) -> (r: Result<Vec<u8>, IoError>)
        requires
            old(self).wf(),
        ensures
            final(self).wf(),
            final(self).reads_ok() == old(self).reads_ok(),
            old(self).reads_ok() ==> r is Ok,
            match r {
                Ok(v) => v@.len() <= max && v@.len() <= old(self).remaining().len() && v@ == old(
                    self,
                ).remaining().take(v@.len() as int) && final(self).remaining() == old(
                    self,
                ).remaining().skip(v@.len() as int) && ((v@.len() == 0 && max > 0) ==> old(
                    self,
                ).remaining().len() == 0) && ((*old(
                    self,
                )) is Buffer ==> v@.len() == if max as int <= old(self).remaining().len() {
                    max as int
                } else {
                    old(self).remaining().len() as int
                }),
                Err(_) => final(self).remaining() == old(self).remaining(),
            },
    {
        match self {
            InputHandle::Buffer(b) => {
                let v = b.read_chunk(max);
                proof {
                    assert(v@.len() <= max);
                }
                Ok(v)
            },
            InputHandle::Gz(g) => g.read_chunk(max),
        }
    }

    /// Read everything left in the stream, in order: the fallback path for
    /// streams whose size cannot be known ahead of consumption. It fails only
    /// where success is not owed.
    pub fn read_to_end(&mut self) -> (r: Result<Vec<u8>, IoError>)
        requires
            old(self).wf(),
        ensures
            final(self).wf(),
            final(self).reads_ok() == old(self).reads_ok(),
            old(self).reads_ok() ==> r is Ok,
            match r {
                Ok(v) => v@ == old(self).remaining() && final(self).remaining().len() == 0,
                Err(_) => true,
            },
    {
        let mut out: Vec<u8> = Vec::new();
        loop
            invariant
                self.wf(),
                self.reads_ok() == old(self).reads_ok(),
                out@ + self.remaining() == old(self).remaining(),
            decreases self.remaining().len(),
        {
            let ghost before = self.remaining();
            let ghost done = out@;
            match self.read_chunk(4096) {
                Ok(chunk) => {
                    if chunk.is_empty() {
                        proof {
                            assert(out@ =~= out@ + self.remaining());
                        }
                        return Ok(out);
                    }
                    let ghost taken = chunk@.len() as int;
                    let mut tail = chunk;
                    out.append(&mut tail);
                    proof {
                        assert(before.take(taken) + before.skip(taken) =~= before);
                        assert(out@ + self.remaining() =~= done + before);
                    }
                },
                Err(e) => {
                    return Err(e);
                },
            }
        }
    }
}

impl InputFeatures for InputHandle {
    open spec fn size_result(&self) -> Result<usize, IoError> {
        match self {
            InputHandle::Buffer(b) => b.size_result(),
            InputHandle::Gz(g) => g.size_result(),
        }
    }

    open spec fn seek_outcome(&self, pos: SeekFrom) -> (Result<u64, IoError>, Self) {
        match self {
            InputHandle::Buffer(b) => {
                (b.seek_outcome(pos).0, InputHandle::Buffer(b.seek_outcome(pos).1))
            },
            InputHandle::Gz(g) => (g.seek_outcome(pos).0, InputHandle::Gz(g.seek_outcome(pos).1)),
        }
    }

    /// Answers exactly as the wrapped stream kind does.
    fn get_size(&mut self) -> (r: Result<usize, IoError>) {
        match self {
            InputHandle::Buffer(b) => b.get_size(),
            InputHandle::Gz(g) => g.get_size(),
        }
    }

    /// Answers exactly as the wrapped stream kind does.
    fn try_seek(&mut self, pos: SeekFrom) -> (r: Result<u64, IoError>) {
        match self {
            InputHandle::Buffer(b) => b.try_seek(pos),
            InputHandle::Gz(g) => g.try_seek(pos),
        }
    }
}

} // verus!
