//! A provider with predetermined per-name responses and call counters.
//!
//! It stands in for an arbitrary backend when exercising a stack: a script
//! fixes what each operation answers for each name — serve stored bytes, or
//! fail hard — and every probe is counted, so shadowing and fail-fast
//! behaviour of a stack can be observed from outside.

use vstd::prelude::*;

use crate::OpenResult;
use crate::bytes_eq;
use crate::errors::IoError;
use crate::input::BufferStream;
use crate::input::InputHandle;
use crate::output::OutputHandle;
use crate::output::Sink;
use crate::provider::Answer;
use crate::provider::IoProvider;
use crate::provider::lemma_table_find_at;
use crate::provider::lemma_table_find_none;
use crate::provider::table_find;
use crate::status::DiagnosticsSink;

verus! {

/// What a scripted provider does for one name: serve these bytes, or fail
/// hard with this error. A name with no script entry is answered
/// `NotAvailable`.
pub enum ScriptedReply {
    Serve(Vec<u8>),
    Fail(IoError),
}

/// The specification-level reading of a scripted reply.
pub open spec fn reply_answer(rep: ScriptedReply) -> Answer {
    match rep {
        ScriptedReply::Serve(v) => Answer::Serve(v@),
        ScriptedReply::Fail(e) => Answer::Fail(e),
    }
}

/// A provider whose answers are fixed by per-name scripts. `input_calls`,
/// `output_calls` and `stdout_calls` count how often each operation was
/// probed (saturating at the counter's maximum).
pub struct ScriptedIo {
    pub input_script: Vec<(Vec<u8>, ScriptedReply)>,
    pub output_script: Vec<(Vec<u8>, ScriptedReply)>,
    pub input_calls: u64,
    pub output_calls: u64,
    pub stdout_calls: u64,
}

impl ScriptedIo {
    /// A provider that answers `NotAvailable` to everything, with all
    /// counters at zero.
    pub fn new() -> (r: ScriptedIo)
        ensures
            r.input_script@ == Seq::<(Vec<u8>, ScriptedReply)>::empty(),
            r.output_script@ == Seq::<(Vec<u8>, ScriptedReply)>::empty(),
            r.input_calls == 0,
            r.output_calls == 0,
            r.stdout_calls == 0,
    {
        ScriptedIo {
            input_script: Vec::new(),
            output_script: Vec::new(),
            input_calls: 0,
            output_calls: 0,
            stdout_calls: 0,
        }
    }

    /// Script the input answer for `name` (earlier entries win).
    pub fn script_input(&mut self, name: Vec<u8>, reply: ScriptedReply)
        ensures
            final(self).input_script@ == old(self).input_script@.insert(0, (name, reply)),
            final(self).output_script@ == old(self).output_script@,
            final(self).input_calls == old(self).input_calls,
            final(self).output_calls == old(self).output_calls,
            final(self).stdout_calls == old(self).stdout_calls,
    {
        self.input_script.insert(0, (name, reply));
    }

    /// Script the output answer for `name` (earlier entries win).
    pub fn script_output(&mut self, name: Vec<u8>, reply: ScriptedReply)
        ensures
            final(self).output_script@ == old(self).output_script@.insert(0, (name, reply)),
            final(self).input_script@ == old(self).input_script@,
            final(self).input_calls == old(self).input_calls,
            final(self).output_calls == old(self).output_calls,
            final(self).stdout_calls == old(self).stdout_calls,
    {
        self.output_script.insert(0, (name, reply));
    }
}

/// A probe counter bumped by one, saturating at the counter's maximum.
pub open spec fn bumped(c: u64) -> u64 {
    if c < u64::MAX {
        (c + 1) as u64
    } else {
        c
    }
}

/// Bump a probe counter without ever overflowing.
fn saturating_bump(counter: &mut u64)
    ensures
        *final(counter) == bumped(*old(counter)),
{
    if *counter < u64::MAX {
        *counter = *counter + 1;
    }
}

impl IoProvider for ScriptedIo {
    open spec fn output_name_answer(&self, name: Seq<u8>) -> Answer {
        match table_find(self.output_script@, name) {
            Some(rep) => reply_answer(rep),
            None => Answer::Absent,
        }
    }

    open spec fn stdout_answer(&self) -> Answer {
        Answer::Absent
    }

    open spec fn input_answer(&self, name: Seq<u8>) -> Answer {
        match table_find(self.input_script@, name) {
            Some(rep) => reply_answer(rep),
            None => Answer::Absent,
        }
    }

    open spec fn output_name_post(&self, name: Seq<u8>) -> ScriptedIo {
        ScriptedIo { output_calls: bumped(self.output_calls), ..*self }
    }

    open spec fn stdout_post(&self) -> ScriptedIo {
        ScriptedIo { stdout_calls: bumped(self.stdout_calls), ..*self }
    }

    open spec fn input_post(&self, name: Seq<u8>) -> ScriptedIo {
        ScriptedIo { input_calls: bumped(self.input_calls), ..*self }
    }

    open spec fn input_notes(&self, name: Seq<u8>) -> Seq<String> {
        Seq::empty()
    }

    /// Answer from the output script; a served handle writes into a fresh
    /// memory buffer.
    fn output_open_name(&mut self, name: &[u8]) -> (r: OpenResult<OutputHandle>) {
        saturating_bump(&mut self.output_calls);
        let n = self.output_script.len();
        let mut i: usize = 0;
        while i < n
            invariant
                n == self.output_script@.len(),
                i <= n,
                forall|j: int| 0 <= j < i ==> self.output_script@[j].0@ != name@,
                *self == (ScriptedIo { output_calls: bumped(old(self).output_calls), ..*old(self) }),
            decreases n - i,
        {
            if bytes_eq(self.output_script[i].0.as_slice(), name) {
                proof {
                    lemma_table_find_at(self.output_script@, name@, i as int);
                }
                match &self.output_script[i].1 {
                    ScriptedReply::Serve(_) => {
                        return OpenResult::Found(OutputHandle::new(name, Sink::Memory(Vec::new())));
                    },
                    ScriptedReply::Fail(e) => {
                        return OpenResult::HardError(*e);
                    },
                }
            }
            i += 1;
        }
        proof {
            lemma_table_find_none(self.output_script@, name@);
        }
        OpenResult::NotAvailable
    }

    /// A scripted provider never owns the process standard output.
    fn output_open_stdout(&mut self) -> (r: OpenResult<OutputHandle>) {
        saturating_bump(&mut self.stdout_calls);
        OpenResult::NotAvailable
    }

    /// Answer from the input script; served bytes come as a buffer stream
    /// over a copy of the scripted contents.
    fn input_open_name(&mut self, name: &[u8], status: &mut DiagnosticsSink) -> (r: OpenResult<
        InputHandle,
    >) {
        proof {
            assert(old(status).messages@ + Seq::<String>::empty() =~= old(status).messages@);
        }
        saturating_bump(&mut self.input_calls);
        let n = self.input_script.len();
        let mut i: usize = 0;
        while i < n
            invariant
                n == self.input_script@.len(),
                i <= n,
                forall|j: int| 0 <= j < i ==> self.input_script@[j].0@ != name@,
                *self == (ScriptedIo { input_calls: bumped(old(self).input_calls), ..*old(self) }),
            decreases n - i,
        {
            if bytes_eq(self.input_script[i].0.as_slice(), name) {
                proof {
                    lemma_table_find_at(self.input_script@, name@, i as int);
                }
                match &self.input_script[i].1 {
                    ScriptedReply::Serve(v) => {
                        let mut data: Vec<u8> = Vec::new();
                        data.extend_from_slice(v.as_slice());
                        proof {
                            assert(data@ =~= v@);
                        }
                        let stream = BufferStream::new(data);
                        return OpenResult::Found(InputHandle::Buffer(stream));
                    },
                    ScriptedReply::Fail(e) => {
                        return OpenResult::HardError(*e);
                    },
                }
            }
            i += 1;
        }
        proof {
            lemma_table_find_none(self.input_script@, name@);
        }
        OpenResult::NotAvailable
    }
}

} // verus!
