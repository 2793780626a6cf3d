//! The diagnostics sink handed through every input lookup.
//!
//! A backend can report progress or warnings (say, while fetching a resource)
//! without the stack or the engine knowing backend internals. The sink only
//! collects messages; rendering them is someone else's concern.

use vstd::prelude::*;

verus! {

/// Collects progress and warning messages from providers, in order.
pub struct DiagnosticsSink {
    pub messages: Vec<String>,
}

impl DiagnosticsSink {
    /// An empty sink.
    pub fn new() -> (r: DiagnosticsSink)
        ensures
            r.messages@ == Seq::<String>::empty(),
    {
        DiagnosticsSink { messages: Vec::new() }
    }

    /// Append one message; nothing already collected is altered.
    pub fn note(&mut self, msg: String)
        ensures
            final(self).messages@ == old(self).messages@.push(msg),
    {
        self.messages.push(msg);
    }
}

} // verus!
