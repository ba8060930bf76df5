//! The shared status accumulator.
//!
//! Every connection worker reports each completed request cycle here. A
//! cycle is classified successful exactly when at least one response byte
//! was read; everything else — a failed connect, a failed write, a failed
//! read, an empty response — counts as one failure. No counter is ever
//! decremented or reset during a run.
//!
//! [`StatusModel`] is the mathematical value of a [`Status`]: the same
//! four counters over unbounded integers, which the contracts and the
//! accounting laws below are stated over.

use vstd::prelude::*;

verus! {

/// Classification of one completed request cycle.
#[derive(Copy, Clone, Debug, PartialEq, Eq, Structural)]
pub enum CycleOutcome {
    /// The cycle read the given number of response bytes (at least one).
    Success(u64),
    /// The connect, write, or read failed, or the response was empty.
    Failure,
}

/// The classification rule for a completed cycle: a response must contain
/// at least one byte to count as a success.
pub open spec fn spec_classify(bytes_read: u64) -> CycleOutcome {
    if bytes_read == 0 {
        CycleOutcome::Failure
    } else {
        CycleOutcome::Success(bytes_read)
    }
}

/// Classifies a completed cycle from the number of response bytes it read.
pub fn classify(bytes_read: u64) -> (o: CycleOutcome)
    ensures
        o == spec_classify(bytes_read),
{
    if bytes_read == 0 {
        CycleOutcome::Failure
    } else {
        CycleOutcome::Success(bytes_read)
    }
}

/// Response bytes contributed by one outcome: a failure contributes none.
pub open spec fn outcome_bytes(o: CycleOutcome) -> nat {
    match o {
        CycleOutcome::Success(n) => n as nat,
        CycleOutcome::Failure => 0,
    }
}

/// Response bytes contributed by a whole run of outcomes, in order.
pub open spec fn total_bytes(outcomes: Seq<CycleOutcome>) -> nat
    decreases outcomes.len(),
{
    if outcomes.len() == 0 {
        0
    } else {
        outcome_bytes(outcomes[0]) + total_bytes(outcomes.drop_first())
    }
}

/// Run-wide counters shared by all workers and the controller.
///
/// The running process keeps these counters in atomic cells so that many
/// workers can update them; this type is the value such a cell group holds
/// at one observation instant, together with the verified update rules.
#[derive(Copy, Clone, Debug, PartialEq, Eq, Structural)]
pub struct Status {
    /// Set when an external interrupt was observed.
    pub interrupted: bool,
    /// Total response bytes over all successful cycles.
    pub received: u64,
    /// Number of cycles classified successful.
    pub success: u32,
    /// Number of cycles classified failed.
    pub failed: u32,
}

/// The mathematical value of a [`Status`].
pub ghost struct StatusModel {
    pub interrupted: bool,
    pub received: nat,
    pub success: nat,
    pub failed: nat,
}

impl StatusModel {
    /// Counters as first observed: everything zero.
    pub open spec fn zero() -> StatusModel {
        StatusModel { interrupted: false, received: 0, success: 0, failed: 0 }
    }

    /// Number of completed request cycles the counters account for.
    pub open spec fn completed(self) -> nat {
        self.success + self.failed
    }

    /// The counters after recording one completed cycle.
    pub open spec fn record(self, o: CycleOutcome) -> StatusModel {
        match o {
            CycleOutcome::Success(n) => StatusModel {
                received: self.received + n as nat,
                success: self.success + 1,
                ..self
            },
            CycleOutcome::Failure => StatusModel { failed: self.failed + 1, ..self },
        }
    }

    /// The counters after recording a whole run of completed cycles, in order.
    pub open spec fn record_all(self, outcomes: Seq<CycleOutcome>) -> StatusModel
        decreases outcomes.len(),
    {
        if outcomes.len() == 0 {
            self
        } else {
            self.record(outcomes[0]).record_all(outcomes.drop_first())
        }
    }
}

impl View for Status {
    type V = StatusModel;

    open spec fn view(&self) -> StatusModel {
        StatusModel {
            interrupted: self.interrupted,
            received: self.received as nat,
            success: self.success as nat,
            failed: self.failed as nat,
        }
    }
}

impl Status {
    /// Fresh counters, all zero.
    pub fn new() -> (s: Status)
        ensures
            s@ == StatusModel::zero(),
    {
        Status { interrupted: false, received: 0, success: 0, failed: 0 }
    }

    /// Whether one more `outcome` fits without overflowing a counter.
    pub open spec fn can_record(self, outcome: CycleOutcome) -> bool {
        match outcome {
            CycleOutcome::Success(n) => self.received + n <= u64::MAX && self.success
                < u32::MAX,
            CycleOutcome::Failure => self.failed < u32::MAX,
        }
    }

    /// Records one completed cycle: a success adds its byte count to
    /// `received` and one to `success`; a failure adds one to `failed`.
    pub fn record(&mut self, outcome: CycleOutcome)
        requires
            old(self).can_record(outcome),
        ensures
            final(self)@ == old(self)@.record(outcome),
    {
        match outcome {
            CycleOutcome::Success(n) => {
                self.received = self.received + n;
                self.success = self.success + 1;
            },
            CycleOutcome::Failure => {
                self.failed = self.failed + 1;
            },
        }
    }

    /// Notes that an external interrupt was observed; counters are untouched.
    pub fn set_interrupted(&mut self)
        ensures
            final(self)@ == (StatusModel { interrupted: true, ..old(self)@ }),
    {
        self.interrupted = true;
    }
}

impl Default for Status {
    /// Fresh counters, all zero.
    fn default() -> (s: Status)
        ensures
            s@ == StatusModel::zero(),
    {
        Status::new()
    }
}

/// Law: over any run, `success + failed` grows by exactly the number of
/// completed cycles, and no counter ever decreases; the interrupt flag is
/// not touched by cycle accounting.
pub proof fn lemma_counts_match_cycles(m: StatusModel, outcomes: Seq<CycleOutcome>)
    ensures
        m.record_all(outcomes).completed() == m.completed() + outcomes.len(),
        m.record_all(outcomes).success >= m.success,
        m.record_all(outcomes).failed >= m.failed,
        m.record_all(outcomes).received >= m.received,
        m.record_all(outcomes).interrupted == m.interrupted,
    decreases outcomes.len(),
{
    if outcomes.len() > 0 {
        lemma_counts_match_cycles(m.record(outcomes[0]), outcomes.drop_first());
    }
}

/// Recording a concatenated run is recording its parts in order.
pub proof fn lemma_record_all_append(m: StatusModel, a: Seq<CycleOutcome>, b: Seq<CycleOutcome>)
    ensures
        m.record_all(a + b) == m.record_all(a).record_all(b),
    decreases a.len(),
{
    if a.len() == 0 {
        assert(a + b =~= b);
    } else {
        assert((a + b).drop_first() =~= a.drop_first() + b);
        lemma_record_all_append(m.record(a[0]), a.drop_first(), b);
    }
}

/// Law: between any two observation points of a run, every counter is
/// monotonically non-decreasing, and at each point `success + failed`
/// equals the number of cycles completed so far.
pub proof fn lemma_counters_monotone(
    m: StatusModel,
    outcomes: Seq<CycleOutcome>,
    i: int,
    j: int,
)
    requires
        0 <= i <= j <= outcomes.len(),
    ensures
        m.record_all(outcomes.take(i)).completed() == m.completed() + i,
        m.record_all(outcomes.take(j)).completed() == m.completed() + j,
        m.record_all(outcomes.take(i)).success <= m.record_all(outcomes.take(j)).success,
        m.record_all(outcomes.take(i)).failed <= m.record_all(outcomes.take(j)).failed,
        m.record_all(outcomes.take(i)).received <= m.record_all(outcomes.take(j)).received,
{
    assert(outcomes.take(j) =~= outcomes.take(i) + outcomes.subrange(i, j));
    lemma_record_all_append(m, outcomes.take(i), outcomes.subrange(i, j));
    lemma_counts_match_cycles(m, outcomes.take(i));
    lemma_counts_match_cycles(m, outcomes.take(j));
    lemma_counts_match_cycles(m.record_all(outcomes.take(i)), outcomes.subrange(i, j));
}

/// Law: `received` grows by exactly the bytes of the successful cycles of
/// a run — a failed cycle contributes nothing.
pub proof fn lemma_bytes_from_successes(m: StatusModel, outcomes: Seq<CycleOutcome>)
    ensures
        m.record_all(outcomes).received == m.received + total_bytes(outcomes),
    decreases outcomes.len(),
{
    if outcomes.len() > 0 {
        lemma_bytes_from_successes(m.record(outcomes[0]), outcomes.drop_first());
    }
}

/// Law: a zero-byte response is classified as a failure — recording it
/// increments `failed` and leaves `received` and `success` unchanged.
pub proof fn lemma_zero_byte_response_is_failure(m: StatusModel)
    ensures
        spec_classify(0) is Failure,
        m.record(spec_classify(0)).failed == m.failed + 1,
        m.record(spec_classify(0)).received == m.received,
        m.record(spec_classify(0)).success == m.success,
{
}

} // verus!
