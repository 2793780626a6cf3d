//! An in-memory name-to-bytes provider, used for generated intermediates.

use vstd::prelude::*;

use crate::OpenResult;
use crate::bytes_eq;
use crate::input::BufferStream;
use crate::input::InputHandle;
use crate::output::OutputHandle;
use crate::output::Sink;
use crate::provider::Answer;
use crate::provider::IoProvider;
use crate::provider::lemma_table_find_at;
use crate::provider::lemma_table_find_none;
use crate::provider::table_find;
use crate::status::DiagnosticsSink;

verus! {

/// A provider backed by an in-memory table of named byte buffers. Later
/// insertions of a name shadow earlier ones. Input lookups serve a buffer
/// stream over a copy of the stored bytes; output lookups always serve a
/// fresh memory-backed handle; it does not own the standard output.
pub struct MemoryIo {
    pub files: Vec<(Vec<u8>, Vec<u8>)>,
}

impl MemoryIo {
    /// The stored contents under `name`, if any.
    pub open spec fn contents(&self, name: Seq<u8>) -> Option<Seq<u8>> {
        match table_find(self.files@, name) {
            Some(v) => Some(v@),
            None => None,
        }
    }

    /// An empty provider.
    pub fn new() -> (r: MemoryIo)
        ensures
            r.files@ == Seq::<(Vec<u8>, Vec<u8>)>::empty(),
    {
        MemoryIo { files: Vec::new() }
    }

    /// Store `data` under `name`, shadowing any earlier entry of that name;
    /// every other name keeps its contents.
    pub fn insert(&mut self, name: Vec<u8>, data: Vec<u8>)
        ensures
            final(self).contents(name@) == Some::<Seq<u8>>(data@),
            forall|other: Seq<u8>| other != name@ ==> final(self).contents(other) == old(
                self,
            ).contents(other),
    {
        let ghost name_view = name@;
        let ghost data_view = data@;
        self.files.insert(0, (name, data));
        proof {
            assert(self.files@[0].0@ == name_view);
            assert(self.files@[0].1@ == data_view);
            assert(forall|other: Seq<u8>|
                other != name_view ==> #[trigger] table_find(self.files@, other) == table_find(
                    self.files@.skip(1),
                    other,
                ));
            assert(self.files@.skip(1) =~= old(self).files@);
        }
    }
}

impl IoProvider for MemoryIo {
    open spec fn output_name_answer(&self, name: Seq<u8>) -> Answer {
        Answer::Serve(Seq::empty())
    }

    open spec fn stdout_answer(&self) -> Answer {
        Answer::Absent
    }

    open spec fn input_answer(&self, name: Seq<u8>) -> Answer {
        match self.contents(name) {
            Some(c) => Answer::Serve(c),
            None => Answer::Absent,
        }
    }

    open spec fn output_name_post(&self, name: Seq<u8>) -> MemoryIo {
        *self
    }

    open spec fn stdout_post(&self) -> MemoryIo {
        *self
    }

    open spec fn input_post(&self, name: Seq<u8>) -> MemoryIo {
        *self
    }

    open spec fn input_notes(&self, name: Seq<u8>) -> Seq<String> {
        Seq::empty()
    }

    /// Serve a fresh handle writing into a new memory buffer.
    fn output_open_name(&mut self, name: &[u8]) -> (r: OpenResult<OutputHandle>) {
        OpenResult::Found(OutputHandle::new(name, Sink::Memory(Vec::new())))
    }

    /// A memory provider never owns the process standard output.
    fn output_open_stdout(&mut self) -> (r: OpenResult<OutputHandle>) {
        OpenResult::NotAvailable
    }

    /// Serve a buffer stream over a copy of the stored bytes, or
    /// `NotAvailable` for a name with no entry.
    fn input_open_name(&mut self, name: &[u8], status: &mut DiagnosticsSink) -> (r: OpenResult<
        InputHandle,
    >) {
        proof {
            assert(old(status).messages@ + Seq::<String>::empty() =~= old(status).messages@);
        }
        let n = self.files.len();
        let mut i: usize = 0;
        while i < n
            invariant
                n == self.files@.len(),
                i <= n,
                forall|j: int| 0 <= j < i ==> self.files@[j].0@ != name@,
                *self == *old(self),
            decreases n - i,
        {
            if bytes_eq(self.files[i].0.as_slice(), name) {
                let mut data: Vec<u8> = Vec::new();
                data.extend_from_slice(self.files[i].1.as_slice());
                proof {
                    lemma_table_find_at(self.files@, name@, i as int);
                    assert(data@ =~= self.files@[i as int].1@);
                }
                let stream = BufferStream::new(data);
                return OpenResult::Found(InputHandle::Buffer(stream));
            }
            i += 1;
        }
        proof {
            lemma_table_find_none(self.files@, name@);
        }
        OpenResult::NotAvailable
    }
}

} // verus!
