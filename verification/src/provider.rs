//! The capability contract a backend implements to serve named outputs,
//! standard output, and named inputs.
//!
//! Each of the three operations is independent and optional; a backend that
//! declines one answers `NotAvailable`. At the specification level every
//! operation is summarized by an [`Answer`], a pure function of the provider
//! state, so that the stack's fallback search can be pinned down exactly.

use vstd::prelude::*;

use crate::OpenResult;
use crate::errors::IoError;
use crate::input::InputHandle;
use crate::output::OutputHandle;
use crate::status::DiagnosticsSink;

verus! {

/// The specification-level summary of one provider operation on one key:
/// serve a resource (for inputs, with these contents), know nothing of the
/// name, or fail hard with this error.
pub enum Answer {
    Serve(Seq<u8>),
    Absent,
    Fail(IoError),
}

/// How an output-opening result must relate to the provider's answer: the
/// classification matches, and a served handle is fresh — well-formed, tagged
/// with the requested name, with nothing written yet.
pub open spec fn output_agrees(a: Answer, r: OpenResult<OutputHandle>, name: Seq<u8>) -> bool {
    match a {
        Answer::Serve(_) => match r {
            OpenResult::Found(h) => h.wf() && h.name_spec() == name && h.written() == Seq::<
                u8,
            >::empty(),
            _ => false,
        },
        Answer::Absent => r is NotAvailable,
        Answer::Fail(e) => match r {
            OpenResult::HardError(err) => err == e,
            _ => false,
        },
    }
}

/// How an input-opening result must relate to the provider's answer: the
/// classification matches, and a served stream is well-formed, owes its
/// reads success, and holds exactly the answered contents — `Found` means
/// located *and* successfully opened.
pub open spec fn input_agrees(a: Answer, r: OpenResult<InputHandle>) -> bool {
    match a {
        Answer::Serve(content) => match r {
            OpenResult::Found(h) => h.wf() && h.reads_ok() && h.remaining() == content,
            _ => false,
        },
        Answer::Absent => r is NotAvailable,
        Answer::Fail(e) => match r {
            OpenResult::HardError(err) => err == e,
            _ => false,
        },
    }
}

/// A backend serving named outputs, standard output, and named inputs over
/// one storage medium. Each operation's outcome is the [`Answer`] given by
/// the corresponding spec function of the state the provider is probed in;
/// its effect on the provider's own state, and the diagnostics it appends,
/// are likewise pure functions of that state, so that one probe has no
/// effect beyond what these functions say.
pub trait IoProvider: Sized {
    /// The answer to an output lookup of `name` in this state.
    spec fn output_name_answer(&self, name: Seq<u8>) -> Answer;

    /// The answer to a standard-output request in this state.
    spec fn stdout_answer(&self) -> Answer;

    /// The answer to an input lookup of `name` in this state.
    spec fn input_answer(&self, name: Seq<u8>) -> Answer;

    /// The provider state after an output lookup of `name`.
    spec fn output_name_post(&self, name: Seq<u8>) -> Self;

    /// The provider state after a standard-output request.
    spec fn stdout_post(&self) -> Self;

    /// The provider state after an input lookup of `name`.
    spec fn input_post(&self, name: Seq<u8>) -> Self;

    /// The diagnostics messages an input lookup of `name` appends.
    spec fn input_notes(&self, name: Seq<u8>) -> Seq<String>;

    /// Open `name` for output.
    fn output_open_name(&mut self, name: &[u8]) -> (r: OpenResult<OutputHandle>)
        ensures
            output_agrees(old(self).output_name_answer(name@), r, name@),
            *final(self) == old(self).output_name_post(name@),
    ;

    /// Open the process standard output; a handle served for it carries the
    /// empty name.
    fn output_open_stdout(&mut self) -> (r: OpenResult<OutputHandle>)
        ensures
            output_agrees(old(self).stdout_answer(), r, Seq::<u8>::empty()),
            *final(self) == old(self).stdout_post(),
    ;

    /// Open `name` for input, reporting progress to `status`: exactly the
    /// provider's notes for this lookup are appended, and nothing already
    /// collected is altered.
    fn input_open_name(&mut self, name: &[u8], status: &mut DiagnosticsSink) -> (r: OpenResult<
        InputHandle,
    >)
        ensures
            input_agrees(old(self).input_answer(name@), r),
            *final(self) == old(self).input_post(name@),
            final(status).messages@ == old(status).messages@ + old(self).input_notes(name@),
    ;
}

/// First-match lookup in a name-keyed table: the value of the earliest entry
/// whose key equals `name` byte for byte, if any.
pub open spec fn table_find<T>(entries: Seq<(Vec<u8>, T)>, name: Seq<u8>) -> Option<T>
    decreases entries.len(),
{
    if entries.len() == 0 {
        None
    } else if entries[0].0@ == name {
        Some(entries[0].1)
    } else {
        table_find(entries.skip(1), name)
    }
}

/// The earliest entry with a matching key decides a table lookup.
pub proof fn lemma_table_find_at<T>(entries: Seq<(Vec<u8>, T)>, name: Seq<u8>, i: int)
    requires
        0 <= i < entries.len(),
        entries[i].0@ == name,
        forall|j: int| 0 <= j < i ==> entries[j].0@ != name,
    ensures
        table_find(entries, name) == Some(entries[i].1),
    decreases i,
{
    if i == 0 {
    } else {
        assert(entries.skip(1)[i - 1] == entries[i]);
        assert(forall|j: int| 0 <= j < i - 1 ==> entries.skip(1)[j] == entries[j + 1]);
        lemma_table_find_at(entries.skip(1), name, i - 1);
    }
}

/// A table with no matching key finds nothing.
pub proof fn lemma_table_find_none<T>(entries: Seq<(Vec<u8>, T)>, name: Seq<u8>)
    requires
        forall|j: int| 0 <= j < entries.len() ==> entries[j].0@ != name,
    ensures
        table_find(entries, name) is None,
    decreases entries.len(),
{
    if entries.len() == 0 {
    } else {
        assert(forall|j: int| 0 <= j < entries.len() - 1 ==> entries.skip(1)[j] == entries[j + 1]);
        lemma_table_find_none(entries.skip(1), name);
    }
}

} // verus!
