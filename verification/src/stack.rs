//! Ordered fallback composition of providers.
//!
//! A stack holds an ordered sequence of generic providers plus exactly one
//! designated standard-output provider that is never part of the generic
//! sequence. Input lookups and output lookups each probe the sequence in
//! their own order — both fixed at construction, and by default simply list
//! order — so the two shadowing precedences can be configured independently.
//! A named lookup probes the generic providers in its order and stops at the
//! first decisive answer: `Found` wins (an earlier layer shadows a later one) and
//! `HardError` is never bypassed (a broken resource must not be masked by a
//! lower layer that coincidentally also claims the name). Only an absent
//! answer lets the search continue. A standard-output request goes solely to
//! the designated provider; the generic sequence is never consulted for it.

use vstd::prelude::*;

use crate::OpenResult;
use crate::genuine_stdout::GenuineStdoutIo;
use crate::input::InputHandle;
use crate::memory::MemoryIo;
use crate::output::OutputHandle;
use crate::provider::Answer;
use crate::provider::IoProvider;
use crate::provider::input_agrees;
use crate::provider::output_agrees;
use crate::scripted::ScriptedIo;
use crate::status::DiagnosticsSink;

verus! {

/// The index of the earliest provider whose answer under `answer_of` is
/// decisive (anything but absent), if any.
pub open spec fn first_hit<P>(provs: Seq<P>, answer_of: spec_fn(P) -> Answer) -> Option<int>
    decreases provs.len(),
{
    if provs.len() == 0 {
        None
    } else if !(answer_of(provs[0]) is Absent) {
        Some(0)
    } else {
        match first_hit(provs.skip(1), answer_of) {
            None => None,
            Some(i) => Some(i + 1),
        }
    }
}

/// The earliest decisive provider decides the search: when everything before
/// `i` is absent and `i` is decisive, the search stops exactly at `i`.
pub proof fn lemma_first_hit_at<P>(provs: Seq<P>, answer_of: spec_fn(P) -> Answer, i: int)
    requires
        0 <= i < provs.len(),
        !(answer_of(provs[i]) is Absent),
        forall|j: int| 0 <= j < i ==> answer_of(#[trigger] provs[j]) is Absent,
    ensures
        first_hit(provs, answer_of) == Some(i),
    decreases i,
{
    if i == 0 {
    } else {
        assert(forall|j: int| 0 <= j < i - 1 ==> provs.skip(1)[j] == provs[j + 1]);
        assert(provs.skip(1)[i - 1] == provs[i]);
        lemma_first_hit_at(provs.skip(1), answer_of, i - 1);
    }
}

/// All-absent: when no provider is decisive, the search finds nothing.
pub proof fn lemma_first_hit_none<P>(provs: Seq<P>, answer_of: spec_fn(P) -> Answer)
    requires
        forall|j: int| 0 <= j < provs.len() ==> answer_of(#[trigger] provs[j]) is Absent,
    ensures
        first_hit(provs, answer_of) is None,
    decreases provs.len(),
{
    if provs.len() == 0 {
    } else {
        assert(forall|j: int| 0 <= j < provs.len() - 1 ==> provs.skip(1)[j] == provs[j + 1]);
        lemma_first_hit_none(provs.skip(1), answer_of);
    }
}

/// First-match-wins: when an earlier provider serves a name and everything
/// before it is absent, the search stops at that provider, so no later
/// provider is ever probed.
pub proof fn lemma_first_match_wins<P: IoProvider>(provs: Seq<P>, name: Seq<u8>, i: int)
    requires
        0 <= i < provs.len(),
        provs[i].input_answer(name) is Serve,
        forall|j: int| 0 <= j < i ==> (#[trigger] provs[j]).input_answer(name) is Absent,
    ensures
        first_hit(provs, |p: P| p.input_answer(name)) == Some(i),
{
    lemma_first_hit_at(provs, |p: P| p.input_answer(name), i);
}

/// Fail-fast on error: when an earlier provider fails hard on a name and
/// everything before it is absent, the search stops at that failure, so no
/// later provider can mask it.
pub proof fn lemma_fail_fast_on_error<P: IoProvider>(provs: Seq<P>, name: Seq<u8>, i: int)
    requires
        0 <= i < provs.len(),
        provs[i].input_answer(name) is Fail,
        forall|j: int| 0 <= j < i ==> (#[trigger] provs[j]).input_answer(name) is Absent,
    ensures
        first_hit(provs, |p: P| p.input_answer(name)) == Some(i),
{
    lemma_first_hit_at(provs, |p: P| p.input_answer(name), i);
}

/// All-absent: when every provider has no knowledge of a name, the search
/// finds nothing and the lookup answers `NotAvailable`.
pub proof fn lemma_all_absent<P: IoProvider>(provs: Seq<P>, name: Seq<u8>)
    requires
        forall|j: int| 0 <= j < provs.len() ==> (#[trigger] provs[j]).input_answer(name) is Absent,
    ensures
        first_hit(provs, |p: P| p.input_answer(name)) is None,
{
    lemma_first_hit_none(provs, |p: P| p.input_answer(name));
}

/// The diagnostics messages appended by probing the first `k` providers of
/// `provs` for an input lookup of `name`, in probe order.
pub open spec fn notes_through<P: IoProvider>(provs: Seq<P>, name: Seq<u8>, k: int) -> Seq<String>
    decreases k,
{
    if k <= 0 {
        Seq::empty()
    } else {
        notes_through(provs, name, k - 1) + provs[k - 1].input_notes(name)
    }
}

/// A probe order over `n` providers is valid when every index is in bounds
/// and no provider appears twice.
pub open spec fn order_wf(ord: Seq<usize>, n: int) -> bool {
    &&& forall|t: int| 0 <= t < ord.len() ==> (#[trigger] ord[t]) < n
    &&& forall|t1: int, t2: int| 0 <= t1 < t2 < ord.len() ==> ord[t1] != ord[t2]
}

/// The provider sequence after the first `k` probes of `ord` have each
/// advanced their provider's state by one application of `post_of`.
pub open spec fn probe_applied<P>(
    provs: Seq<P>,
    ord: Seq<usize>,
    k: int,
    post_of: spec_fn(P) -> P,
) -> Seq<P>
    decreases k,
{
    if k <= 0 {
        provs
    } else {
        let prev = probe_applied(provs, ord, k - 1, post_of);
        prev.update(ord[k - 1] as int, post_of(prev[ord[k - 1] as int]))
    }
}

/// Probing never changes how many providers there are.
pub proof fn lemma_probe_applied_len<P>(
    provs: Seq<P>,
    ord: Seq<usize>,
    k: int,
    post_of: spec_fn(P) -> P,
)
    requires
        0 <= k <= ord.len(),
        forall|t: int| 0 <= t < ord.len() ==> (#[trigger] ord[t]) < provs.len(),
    ensures
        probe_applied(provs, ord, k, post_of).len() == provs.len(),
    decreases k,
{
    if k > 0 {
        lemma_probe_applied_len(provs, ord, k - 1, post_of);
    }
}

/// A provider that the first `k` probes never name is untouched by them.
pub proof fn lemma_probe_applied_untouched<P>(
    provs: Seq<P>,
    ord: Seq<usize>,
    k: int,
    post_of: spec_fn(P) -> P,
    x: int,
)
    requires
        0 <= k <= ord.len(),
        forall|t: int| 0 <= t < ord.len() ==> (#[trigger] ord[t]) < provs.len(),
        0 <= x < provs.len(),
        forall|t: int| 0 <= t < k ==> (#[trigger] ord[t]) != x,
    ensures
        probe_applied(provs, ord, k, post_of)[x] == provs[x],
    decreases k,
{
    if k > 0 {
        lemma_probe_applied_len(provs, ord, k - 1, post_of);
        lemma_probe_applied_untouched(provs, ord, k - 1, post_of, x);
    }
}

/// An ordered sequence of generic providers plus the designated
/// standard-output provider, which is never part of the generic sequence.
/// Input and output lookups each follow their own probe order over the
/// sequence, fixed at construction; by default both are list order.
pub struct IoStack<P: IoProvider> {
    pub providers: Vec<P>,
    pub input_order: Vec<usize>,
    pub output_order: Vec<usize>,
    pub stdout_provider: P,
}

impl<P: IoProvider> IoStack<P> {
    /// Both probe orders name each provider once, within bounds.
    pub open spec fn wf(&self) -> bool {
        &&& order_wf(self.input_order@, self.providers@.len() as int)
        &&& order_wf(self.output_order@, self.providers@.len() as int)
    }

    /// The providers as an input lookup will probe them, in order.
    pub open spec fn input_seq(&self) -> Seq<P> {
        self.input_order@.map_values(|i: usize| self.providers@[i as int])
    }

    /// The providers as an output lookup will probe them, in order.
    pub open spec fn output_seq(&self) -> Seq<P> {
        self.output_order@.map_values(|i: usize| self.providers@[i as int])
    }

    /// A stack over `providers`, probed in list order for inputs and outputs
    /// alike, with `stdout_provider` as the sole owner of standard-output
    /// requests.
    pub fn new(providers: Vec<P>, stdout_provider: P) -> (r: IoStack<P>)
        ensures
            r.providers@ == providers@,
            r.stdout_provider == stdout_provider,
            r.input_order@.len() == providers@.len(),
            r.output_order@.len() == providers@.len(),
            forall|t: int| 0 <= t < providers@.len() ==> (#[trigger] r.input_order@[t]) == t,
            forall|t: int| 0 <= t < providers@.len() ==> (#[trigger] r.output_order@[t]) == t,
            r.wf(),
    {
        let n = providers.len();
        let mut input_order: Vec<usize> = Vec::new();
        let mut output_order: Vec<usize> = Vec::new();
        let mut i: usize = 0;
        while i < n
            invariant
                i <= n,
                input_order@.len() == i,
                output_order@.len() == i,
                forall|t: int| 0 <= t < i ==> (#[trigger] input_order@[t]) == t,
                forall|t: int| 0 <= t < i ==> (#[trigger] output_order@[t]) == t,
            decreases n - i,
        {
            input_order.push(i);
            output_order.push(i);
            i += 1;
        }
        IoStack { providers, input_order, output_order, stdout_provider }
    }

    /// A stack whose input lookups and output lookups each probe the
    /// providers in their own configured order.
    pub fn new_with_orders(
        providers: Vec<P>,
        input_order: Vec<usize>,
        output_order: Vec<usize>,
        stdout_provider: P,
    ) -> (r: IoStack<P>)
        requires
            order_wf(input_order@, providers@.len() as int),
            order_wf(output_order@, providers@.len() as int),
        ensures
            r.providers@ == providers@,
            r.input_order@ == input_order@,
            r.output_order@ == output_order@,
            r.stdout_provider == stdout_provider,
            r.wf(),
    {
        IoStack { providers, input_order, output_order, stdout_provider }
    }

    /// Open `name` for output: the first decisive provider in the output
    /// probe order decides. Each provider up to the decision is probed
    /// exactly once, in that order (its state advances by exactly one
    /// probe); the others are not probed at all.
    pub fn output_open_name(&mut self, name: &[u8]) -> (r: OpenResult<OutputHandle>)
        requires
            old(self).wf(),
        ensures
            final(self).wf(),
            final(self).stdout_provider == old(self).stdout_provider,
            final(self).providers@.len() == old(self).providers@.len(),
            final(self).input_order@ == old(self).input_order@,
            final(self).output_order@ == old(self).output_order@,
            ({
                let provs = old(self).providers@;
                let ord = old(self).output_order@;
                let probe_seq = old(self).output_seq();
                let probed: int = match first_hit(probe_seq, |p: P| p.output_name_answer(name@)) {
                    Some(i) => i + 1,
                    None => ord.len() as int,
                };
                &&& final(self).providers@ == probe_applied(
                    provs,
                    ord,
                    probed,
                    |p: P| p.output_name_post(name@),
                )
                &&& match first_hit(probe_seq, |p: P| p.output_name_answer(name@)) {
                    None => r is NotAvailable,
                    Some(i) => output_agrees(probe_seq[i].output_name_answer(name@), r, name@),
                }
            }),
    {
        let ghost provs0 = self.providers@;
        let ghost ord = self.output_order@;
        let ghost probe_seq = self.output_seq();
        let ghost answer_of = |p: P| p.output_name_answer(name@);
        let ghost post_of = |p: P| p.output_name_post(name@);
        let n = self.output_order.len();
        let mut k: usize = 0;
        while k < n
            invariant
                old(self).wf(),
                n == ord.len(),
                k <= n,
                self.providers@.len() == provs0.len(),
                self.stdout_provider == old(self).stdout_provider,
                self.input_order@ == old(self).input_order@,
                self.output_order@ == ord,
                provs0 == old(self).providers@,
                ord == old(self).output_order@,
                probe_seq == old(self).output_seq(),
                answer_of == (|p: P| p.output_name_answer(name@)),
                post_of == (|p: P| p.output_name_post(name@)),
                self.providers@ == probe_applied(provs0, ord, k as int, post_of),
                forall|t: int| 0 <= t < k ==> answer_of(#[trigger] probe_seq[t]) is Absent,
            decreases n - k,
        {
            let idx = self.output_order[k];
            proof {
                assert(forall|t: int| 0 <= t < k ==> (#[trigger] ord[t]) != ord[k as int]);
                lemma_probe_applied_untouched(provs0, ord, k as int, post_of, idx as int);
            }
            let ghost before = self.providers@;
            let mut p = self.providers.remove(idx);
            let r = p.output_open_name(name);
            self.providers.insert(idx, p);
            proof {
                assert(before[idx as int] == probe_seq[k as int]);
                assert(self.providers@ =~= before.update(idx as int, p));
                assert(self.providers@ =~= probe_applied(provs0, ord, k as int + 1, post_of));
            }
            match r {
                OpenResult::NotAvailable => {
                    k += 1;
                },
                decisive => {
                    proof {
                        lemma_first_hit_at(probe_seq, answer_of, k as int);
                    }
                    return decisive;
                },
            }
        }
        proof {
            lemma_first_hit_none(probe_seq, answer_of);
        }
        OpenResult::NotAvailable
    }

    /// Open the process standard output: delegated solely to the designated
    /// provider, whose result is returned verbatim and whose state advances
    /// by exactly that one probe; no generic provider is consulted, so the
    /// generic sequence is untouched.
    pub fn output_open_stdout(&mut self) -> (r: OpenResult<OutputHandle>)
        ensures
            final(self).providers@ == old(self).providers@,
            final(self).stdout_provider == old(self).stdout_provider.stdout_post(),
            output_agrees(old(self).stdout_provider.stdout_answer(), r, Seq::<u8>::empty()),
    {
        self.stdout_provider.output_open_stdout()
    }

    /// Open `name` for input: the first decisive provider in the input probe
    /// order decides. Each provider up to the decision is probed exactly
    /// once, in that order, with this name and this sink (its state advances
    /// by exactly one probe and exactly its notes are appended); the others
    /// are not probed at all.
    pub fn input_open_name(&mut self, name: &[u8], status: &mut DiagnosticsSink) -> (r: OpenResult<
        InputHandle,
    >)
        requires
            old(self).wf(),
        ensures
            final(self).wf(),
            final(self).stdout_provider == old(self).stdout_provider,
            final(self).providers@.len() == old(self).providers@.len(),
            final(self).input_order@ == old(self).input_order@,
            final(self).output_order@ == old(self).output_order@,
            ({
                let provs = old(self).providers@;
                let ord = old(self).input_order@;
                let probe_seq = old(self).input_seq();
                let probed: int = match first_hit(probe_seq, |p: P| p.input_answer(name@)) {
                    Some(i) => i + 1,
                    None => ord.len() as int,
                };
                &&& final(self).providers@ == probe_applied(
                    provs,
                    ord,
                    probed,
                    |p: P| p.input_post(name@),
                )
                &&& final(status).messages@ == old(status).messages@ + notes_through(
                    probe_seq,
                    name@,
                    probed,
                )
                &&& match first_hit(probe_seq, |p: P| p.input_answer(name@)) {
                    None => r is NotAvailable,
                    Some(i) => input_agrees(probe_seq[i].input_answer(name@), r),
                }
            }),
    {
        let ghost provs0 = self.providers@;
        let ghost ord = self.input_order@;
        let ghost probe_seq = self.input_seq();
        let ghost answer_of = |p: P| p.input_answer(name@);
        let ghost post_of = |p: P| p.input_post(name@);
        proof {
            assert(status.messages@ =~= status.messages@ + notes_through(probe_seq, name@, 0));
        }
        let n = self.input_order.len();
        let mut k: usize = 0;
        while k < n
            invariant
                old(self).wf(),
                n == ord.len(),
                k <= n,
                self.providers@.len() == provs0.len(),
                self.stdout_provider == old(self).stdout_provider,
                self.input_order@ == ord,
                self.output_order@ == old(self).output_order@,
                provs0 == old(self).providers@,
                ord == old(self).input_order@,
                probe_seq == old(self).input_seq(),
                answer_of == (|p: P| p.input_answer(name@)),
                post_of == (|p: P| p.input_post(name@)),
                self.providers@ == probe_applied(provs0, ord, k as int, post_of),
                forall|t: int| 0 <= t < k ==> answer_of(#[trigger] probe_seq[t]) is Absent,
                status.messages@ == old(status).messages@ + notes_through(
                    probe_seq,
                    name@,
                    k as int,
                ),
            decreases n - k,
        {
            let idx = self.input_order[k];
            proof {
                assert(forall|t: int| 0 <= t < k ==> (#[trigger] ord[t]) != ord[k as int]);
                lemma_probe_applied_untouched(provs0, ord, k as int, post_of, idx as int);
            }
            let ghost before = self.providers@;
            let mut p = self.providers.remove(idx);
            let r = p.input_open_name(name, status);
            self.providers.insert(idx, p);
            proof {
                assert(before[idx as int] == probe_seq[k as int]);
                assert(self.providers@ =~= before.update(idx as int, p));
                assert(self.providers@ =~= probe_applied(provs0, ord, k as int + 1, post_of));
                assert(status.messages@ =~= old(status).messages@ + notes_through(
                    probe_seq,
                    name@,
                    k as int + 1,
                ));
            }
            match r {
                OpenResult::NotAvailable => {
                    k += 1;
                },
                decisive => {
                    proof {
                        lemma_first_hit_at(probe_seq, answer_of, k as int);
                    }
                    return decisive;
                },
            }
        }
        proof {
            lemma_first_hit_none(probe_seq, answer_of);
        }
        OpenResult::NotAvailable
    }
}

/// A closed variant over the provider kinds of this crate, so that one stack
/// can compose heterogeneous backends.
pub enum Provider {
    Memory(MemoryIo),
    Scripted(ScriptedIo),
    Stdout(GenuineStdoutIo),
}

impl IoProvider for Provider {
    open spec fn output_name_answer(&self, name: Seq<u8>) -> Answer {
        match self {
            Provider::Memory(m) => m.output_name_answer(name),
            Provider::Scripted(s) => s.output_name_answer(name),
            Provider::Stdout(g) => g.output_name_answer(name),
        }
    }

    open spec fn stdout_answer(&self) -> Answer {
        match self {
            Provider::Memory(m) => m.stdout_answer(),
            Provider::Scripted(s) => s.stdout_answer(),
            Provider::Stdout(g) => g.stdout_answer(),
        }
    }

    open spec fn input_answer(&self, name: Seq<u8>) -> Answer {
        match self {
            Provider::Memory(m) => m.input_answer(name),
            Provider::Scripted(s) => s.input_answer(name),
            Provider::Stdout(g) => g.input_answer(name),
        }
    }

    open spec fn output_name_post(&self, name: Seq<u8>) -> Provider {
        match self {
            Provider::Memory(m) => Provider::Memory(m.output_name_post(name)),
            Provider::Scripted(s) => Provider::Scripted(s.output_name_post(name)),
            Provider::Stdout(g) => Provider::Stdout(g.output_name_post(name)),
        }
    }

    open spec fn stdout_post(&self) -> Provider {
        match self {
            Provider::Memory(m) => Provider::Memory(m.stdout_post()),
            Provider::Scripted(s) => Provider::Scripted(s.stdout_post()),
            Provider::Stdout(g) => Provider::Stdout(g.stdout_post()),
        }
    }

    open spec fn input_post(&self, name: Seq<u8>) -> Provider {
        match self {
            Provider::Memory(m) => Provider::Memory(m.input_post(name)),
            Provider::Scripted(s) => Provider::Scripted(s.input_post(name)),
            Provider::Stdout(g) => Provider::Stdout(g.input_post(name)),
        }
    }

    open spec fn input_notes(&self, name: Seq<u8>) -> Seq<String> {
        match self {
            Provider::Memory(m) => m.input_notes(name),
            Provider::Scripted(s) => s.input_notes(name),
            Provider::Stdout(g) => g.input_notes(name),
        }
    }

    /// Delegates to the wrapped provider kind.
    fn output_open_name(&mut self, name: &[u8]) -> (r: OpenResult<OutputHandle>) {
        match self {
            Provider::Memory(m) => m.output_open_name(name),
            Provider::Scripted(s) => s.output_open_name(name),
            Provider::Stdout(g) => g.output_open_name(name),
        }
    }

    /// Delegates to the wrapped provider kind.
    fn output_open_stdout(&mut self) -> (r: OpenResult<OutputHandle>) {
        match self {
            Provider::Memory(m) => m.output_open_stdout(),
            Provider::Scripted(s) => s.output_open_stdout(),
            Provider::Stdout(g) => g.output_open_stdout(),
        }
    }

    /// Delegates to the wrapped provider kind.
    fn input_open_name(&mut self, name: &[u8], status: &mut DiagnosticsSink) -> (r: OpenResult<
        InputHandle,
    >) {
        match self {
            Provider::Memory(m) => m.input_open_name(name, status),
            Provider::Scripted(s) => s.input_open_name(name, status),
            Provider::Stdout(g) => g.input_open_name(name, status),
        }
    }
}

} // verus!
