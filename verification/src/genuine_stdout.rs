//! The pass-through provider for the real process standard output.

use vstd::prelude::*;

use crate::OpenResult;
use crate::input::InputHandle;
use crate::output::OutputHandle;
use crate::output::Sink;
use crate::output::StdoutSink;
use crate::provider::Answer;
use crate::provider::IoProvider;
use crate::status::DiagnosticsSink;

verus! {

/// The designated owner of the real process standard output. It serves
/// standard-output requests with a digest-tracking handle over the process
/// stdout and declines everything else, so that at most one component ever
/// writes to the real stream.
pub struct GenuineStdoutIo {}

impl GenuineStdoutIo {
    /// A fresh pass-through provider.
    pub fn new() -> (r: GenuineStdoutIo) {
        GenuineStdoutIo {}
    }
}

impl IoProvider for GenuineStdoutIo {
    open spec fn output_name_answer(&self, name: Seq<u8>) -> Answer {
        Answer::Absent
    }

    open spec fn stdout_answer(&self) -> Answer {
        Answer::Serve(Seq::empty())
    }

    open spec fn input_answer(&self, name: Seq<u8>) -> Answer {
        Answer::Absent
    }

    open spec fn output_name_post(&self, name: Seq<u8>) -> GenuineStdoutIo {
        *self
    }

    open spec fn stdout_post(&self) -> GenuineStdoutIo {
        *self
    }

    open spec fn input_post(&self, name: Seq<u8>) -> GenuineStdoutIo {
        *self
    }

    open spec fn input_notes(&self, name: Seq<u8>) -> Seq<String> {
        Seq::empty()
    }

    /// Named outputs are not this provider's business.
    fn output_open_name(&mut self, name: &[u8]) -> (r: OpenResult<OutputHandle>) {
        OpenResult::NotAvailable
    }

    /// Serve a fresh handle over the real process standard output, tagged
    /// with the empty name.
    fn output_open_stdout(&mut self) -> (r: OpenResult<OutputHandle>) {
        let empty_name: Vec<u8> = Vec::new();
        let handle = OutputHandle::new(empty_name.as_slice(), Sink::Stdout(StdoutSink::new()));
        OpenResult::Found(handle)
    }

    /// Inputs are not this provider's business.
    fn input_open_name(&mut self, name: &[u8], status: &mut DiagnosticsSink) -> (r: OpenResult<
        InputHandle,
    >) {
        proof {
            assert(old(status).messages@ + Seq::<String>::empty() =~= old(status).messages@);
        }
        OpenResult::NotAvailable
    }
}

} // verus!
