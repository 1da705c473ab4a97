//! The search for the line speed of a sensor whose baud rate is not known.
//!
//! The candidates are tried in a fixed order. For each, the caller opens the
//! line at that rate, runs the handshake and makes one short read; the first
//! rate at which the read brings any byte is taken.

use vstd::prelude::*;

verus! {

/// Read timeout of a probe, in milliseconds.
pub const PROBE_TIMEOUT_MS: u64 = 200;

/// Bytes asked for by the read of a probe.
pub const PROBE_READ_LEN: usize = 32;

/// Number of candidate rates.
pub const BAUD_CANDIDATES: usize = 10;

/// The candidate rates, in the order in which they are tried.
pub open spec fn baud_table() -> Seq<u32> {
    seq![2400u32, 4800, 9600, 19200, 38400, 57600, 115200, 230400, 460800, 921600]
}

/// The candidate rates, in the order in which they are tried.
pub fn candidate_bauds() -> (r: Vec<u32>)
    ensures
        r@ == baud_table(),
{
    let r = vec![2400u32, 4800, 9600, 19200, 38400, 57600, 115200, 230400, 460800, 921600];
    assert(r@ =~= baud_table());
    r
}

/// What came of probing one candidate.
#[derive(Debug, Clone, Copy, PartialEq, Eq, Structural)]
pub enum ProbeOutcome {
    /// The line could not be opened at this rate.
    OpenFailed,
    /// The line opened and the probe read brought this many bytes.
    Received(usize),
}

/// What the caller does next.
#[derive(Debug, Clone, Copy, PartialEq, Eq, Structural)]
pub enum ProbeAction {
    /// Open the line at this rate, run the handshake and read.
    Probe(u32),
    /// Keep the line just probed: it runs at this rate.
    Accept(u32),
    /// Every candidate failed.
    GiveUp,
}

/// The action for the candidate at `index`: probe it, or give up past the end.
pub open spec fn action_at(index: int) -> ProbeAction {
    if 0 <= index < baud_table().len() {
        ProbeAction::Probe(baud_table()[index])
    } else {
        ProbeAction::GiveUp
    }
}

/// The probe of a candidate brought at least one byte.
pub open spec fn answered(o: ProbeOutcome) -> bool {
    match o {
        ProbeOutcome::Received(n) => n > 0,
        ProbeOutcome::OpenFailed => false,
    }
}

/// One step of the search at `index`: the next index and the next action.
pub open spec fn step(index: int, o: ProbeOutcome) -> (int, ProbeAction) {
    if answered(o) {
        (index, ProbeAction::Accept(baud_table()[index]))
    } else {
        (index + 1, action_at(index + 1))
    }
}

/// Where a search that starts at `index` ends when the probe of candidate
/// `i` has outcome `outcomes[i]`; a search that runs out of outcomes is
/// still probing.
pub open spec fn run_from(index: int, outcomes: Seq<ProbeOutcome>) -> ProbeAction
    decreases baud_table().len() - index,
{
    if 0 <= index < baud_table().len() && index < outcomes.len() {
        let (next, a) = step(index, outcomes[index]);
        if a is Probe {
            run_from(next, outcomes)
        } else {
            a
        }
    } else {
        action_at(index)
    }
}

proof fn lemma_run_reaches_answer(i: int, k: int, outcomes: Seq<ProbeOutcome>)
    requires
        0 <= i <= k < baud_table().len(),
        k < outcomes.len(),
        answered(outcomes[k]),
        forall|j: int| 0 <= j < k ==> !answered(#[trigger] outcomes[j]),
    ensures
        run_from(i, outcomes) == ProbeAction::Accept(baud_table()[k]),
    decreases k - i,
{
    if i < k {
        lemma_run_reaches_answer(i + 1, k, outcomes);
    }
}

/// The search accepts the rate of the first candidate whose probe brought a
/// byte, never an earlier one.
pub proof fn lemma_search_accepts_first_answer(outcomes: Seq<ProbeOutcome>, k: int)
    requires
        0 <= k < baud_table().len(),
        k < outcomes.len(),
        answered(outcomes[k]),
        forall|j: int| 0 <= j < k ==> !answered(#[trigger] outcomes[j]),
    ensures
        run_from(0, outcomes) == ProbeAction::Accept(baud_table()[k]),
{
    lemma_run_reaches_answer(0, k, outcomes);
}

proof fn lemma_run_exhausts(i: int, outcomes: Seq<ProbeOutcome>)
    requires
        0 <= i <= baud_table().len(),
        outcomes.len() >= baud_table().len(),
        forall|j: int| 0 <= j < baud_table().len() ==> !answered(#[trigger] outcomes[j]),
    ensures
        run_from(i, outcomes) == ProbeAction::GiveUp,
    decreases baud_table().len() - i,
{
    if i < baud_table().len() {
        lemma_run_exhausts(i + 1, outcomes);
    }
}

/// Where no candidate answers, the search gives up after trying them all.
pub proof fn lemma_search_gives_up(outcomes: Seq<ProbeOutcome>)
    requires
        outcomes.len() >= baud_table().len(),
        forall|j: int| 0 <= j < baud_table().len() ==> !answered(#[trigger] outcomes[j]),
    ensures
        run_from(0, outcomes) == ProbeAction::GiveUp,
{
    lemma_run_exhausts(0, outcomes);
}

/// The position of a baud-rate search in the table of candidates.
pub struct BaudSearch {
    index: usize,
}

impl View for BaudSearch {
    type V = int;

    /// Index of the candidate being probed; the table's length once all failed.
    closed spec fn view(&self) -> int {
        self.index as int
    }
}

impl BaudSearch {
    pub closed spec fn wf(&self) -> bool {
        self.index <= BAUD_CANDIDATES
    }

    /// A search at the first candidate.
    pub fn new() -> (r: BaudSearch)
        ensures
            r@ == 0,
            r.wf(),
    {
        BaudSearch { index: 0 }
    }

    /// What to do at the current position.
    pub fn action(&self) -> (r: ProbeAction)
        requires
            self.wf(),
        ensures
            r == action_at(self@),
    {
        if self.index < BAUD_CANDIDATES {
            let table = candidate_bauds();
            ProbeAction::Probe(table[self.index])
        } else {
            ProbeAction::GiveUp
        }
    }

    /// Takes the outcome of probing the current candidate. Any byte read
    /// accepts it; otherwise the search moves to the next one.
    pub fn on_outcome(&mut self, outcome: ProbeOutcome) -> (r: ProbeAction)
        requires
            old(self).wf(),
            old(self)@ < baud_table().len(),
        ensures
            final(self).wf(),
            (final(self)@, r) == step(old(self)@, outcome),
    {
        match outcome {
            ProbeOutcome::Received(n) if n > 0 => {
                let table = candidate_bauds();
                ProbeAction::Accept(table[self.index])
            },
            _ => {
                self.index = self.index + 1;
                self.action()
            },
        }
    }
}

} // verus!
