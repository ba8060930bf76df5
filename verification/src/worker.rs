//! The connection worker: a verified state machine.
//!
//! A worker repeatedly performs one request cycle — connect (or reuse an
//! open connection), send the request buffer, read the response — and
//! classifies each cycle as a success or a failure. The I/O itself is
//! performed by the surrounding process: it asks the worker which
//! [`Action`] to perform next, performs it, and feeds the observed
//! [`Event`] back through [`Worker::step`], which returns the completed
//! cycle's [`CycleOutcome`], if the event completed one.
//!
//! Both connection variants are one machine, switched by `keep_alive`:
//! in persistent mode a successful cycle returns to sending on the same
//! connection, while a failure — and, in one-shot mode, every cycle —
//! routes back to connecting.
//!
//! A failed connect is retried immediately, with no delay and no backoff:
//! under a sustained unreachable target the worker spins. This is a
//! deliberate simplicity tradeoff, kept as designed.

use vstd::prelude::*;

use crate::status::CycleOutcome;
use crate::status::StatusModel;
use crate::status::spec_classify;
use crate::status::classify;

verus! {

/// Size of the fixed read buffer; a read shorter than this is taken as
/// the end of the response.
pub const READ_BUF_LEN: usize = 1024;

/// Where a worker stands inside its current request cycle.
#[derive(Copy, Clone, Debug, PartialEq, Eq, Structural)]
pub enum WorkerState {
    /// No usable connection; the next step opens one.
    Connecting,
    /// A connection is open and `sent` bytes of the request have been
    /// written; the remaining suffix is still to be sent.
    Sending { sent: usize },
    /// The request is fully written and `acc` response bytes have been
    /// read so far in this cycle.
    Receiving { acc: u64 },
    /// Cancellation was observed; the worker takes no further steps.
    Finished,
}

/// What the surrounding process observed while performing the last action.
#[derive(Copy, Clone, Debug, PartialEq, Eq, Structural)]
pub enum Event {
    /// A connection was opened.
    Connected,
    /// No configured address could be connected to.
    ConnectFailed,
    /// A write call wrote this many bytes of the remaining suffix.
    Wrote(usize),
    /// A write call failed.
    WriteFailed,
    /// A read call returned this many bytes (possibly zero).
    Read(usize),
    /// A read call failed.
    ReadFailed,
    /// The cancellation signal was observed.
    Cancelled,
}

/// What the surrounding process is asked to perform next.
#[derive(Copy, Clone, Debug, PartialEq, Eq, Structural)]
pub enum Action {
    /// Abandon any open connection and connect to the first reachable
    /// configured address.
    Connect,
    /// Write the request suffix that starts at byte `from`.
    Write { from: usize },
    /// Read up to [`READ_BUF_LEN`] bytes of response.
    Read,
    /// Close any open connection and stop.
    Stop,
}

/// One connection worker: the per-cycle state plus the two run-long
/// parameters it was spawned with.
#[derive(Copy, Clone, Debug, PartialEq, Eq, Structural)]
pub struct Worker {
    /// Whether an open connection is reused across request cycles.
    pub keep_alive: bool,
    /// Length in bytes of the request buffer written each cycle.
    pub request_len: usize,
    /// Position inside the current cycle.
    pub state: WorkerState,
}

impl Worker {
    /// Well-formedness: the request buffer is non-empty, and a sending
    /// worker still has something left to send.
    pub open spec fn wf(self) -> bool {
        &&& self.request_len >= 1
        &&& match self.state {
            WorkerState::Sending { sent } => sent < self.request_len,
            _ => true,
        }
    }

    /// The state a worker is spawned in.
    pub open spec fn spec_initial(keep_alive: bool, request_len: usize) -> Worker {
        Worker { keep_alive, request_len, state: WorkerState::Connecting }
    }

    /// Spawns a worker for a request buffer of `request_len` bytes.
    pub fn new(keep_alive: bool, request_len: usize) -> (w: Worker)
        requires
            request_len >= 1,
        ensures
            w == Worker::spec_initial(keep_alive, request_len),
            w.wf(),
    {
        Worker { keep_alive, request_len, state: WorkerState::Connecting }
    }

    /// Which events the surrounding process may report in the current
    /// state: each state waits for the result of exactly one kind of
    /// call, and cancellation may arrive in any state still running.
    pub open spec fn accepts(self, event: Event) -> bool {
        match self.state {
            WorkerState::Connecting => match event {
                Event::Connected | Event::ConnectFailed | Event::Cancelled => true,
                _ => false,
            },
            WorkerState::Sending { sent } => match event {
                Event::Wrote(n) => 1 <= n <= self.request_len - sent,
                Event::WriteFailed | Event::Cancelled => true,
                _ => false,
            },
            WorkerState::Receiving { acc } => match event {
                Event::Read(n) => n <= READ_BUF_LEN && acc + n <= u64::MAX,
                Event::ReadFailed | Event::Cancelled => true,
                _ => false,
            },
            WorkerState::Finished => false,
        }
    }

    /// Executable form of [`Worker::accepts`].
    pub fn accepts_event(&self, event: &Event) -> (b: bool)
        ensures
            b == self.accepts(*event),
    {
        match self.state {
            WorkerState::Connecting => match event {
                Event::Connected | Event::ConnectFailed | Event::Cancelled => true,
                _ => false,
            },
            WorkerState::Sending { sent } => match event {
                Event::Wrote(n) => 1 <= *n && sent <= self.request_len && *n
                    <= self.request_len - sent,
                Event::WriteFailed | Event::Cancelled => true,
                _ => false,
            },
            WorkerState::Receiving { acc } => match event {
                Event::Read(n) => *n <= READ_BUF_LEN && *n as u64 <= u64::MAX - acc,
                Event::ReadFailed | Event::Cancelled => true,
                _ => false,
            },
            WorkerState::Finished => false,
        }
    }

    /// The worker after one step on `event`.
    pub open spec fn spec_next(self, event: Event) -> Worker
        recommends
            self.wf(),
            self.accepts(event),
    {
        match event {
            Event::Cancelled => Worker { state: WorkerState::Finished, ..self },
            Event::Connected => Worker { state: WorkerState::Sending { sent: 0 }, ..self },
            Event::ConnectFailed => Worker { state: WorkerState::Connecting, ..self },
            Event::Wrote(n) => match self.state {
                WorkerState::Sending { sent } => if sent + n < self.request_len {
                    Worker { state: WorkerState::Sending { sent: (sent + n) as usize }, ..self }
                } else {
                    Worker { state: WorkerState::Receiving { acc: 0 }, ..self }
                },
                _ => self,
            },
            Event::WriteFailed => Worker { state: WorkerState::Connecting, ..self },
            Event::Read(n) => match self.state {
                WorkerState::Receiving { acc } => if n == READ_BUF_LEN {
                    Worker { state: WorkerState::Receiving { acc: (acc + n) as u64 }, ..self }
                } else {
                    self.after_cycle(spec_classify((acc + n) as u64))
                },
                _ => self,
            },
            Event::ReadFailed => match self.state {
                WorkerState::Receiving { acc } => self.after_cycle(spec_classify(acc)),
                _ => self,
            },
        }
    }

    /// Loop-back after a completed cycle: a persistent worker returns to
    /// sending on the same connection after a success; a failure — and,
    /// in one-shot mode, every outcome — routes back to connecting.
    pub open spec fn after_cycle(self, outcome: CycleOutcome) -> Worker {
        if self.keep_alive && outcome is Success {
            Worker { state: WorkerState::Sending { sent: 0 }, ..self }
        } else {
            Worker { state: WorkerState::Connecting, ..self }
        }
    }

    /// The cycle outcome that one step on `event` completes, if any: a
    /// failed connect or write completes the cycle as a failure, and the
    /// read that ends a response completes it as classified by its
    /// accumulated byte count. Cancellation completes no cycle and
    /// changes no counter.
    pub open spec fn spec_outcome(self, event: Event) -> Option<CycleOutcome>
        recommends
            self.wf(),
            self.accepts(event),
    {
        match event {
            Event::ConnectFailed | Event::WriteFailed => Some(CycleOutcome::Failure),
            Event::Read(n) => match self.state {
                WorkerState::Receiving { acc } => if n == READ_BUF_LEN {
                    None
                } else {
                    Some(spec_classify((acc + n) as u64))
                },
                _ => None,
            },
            Event::ReadFailed => match self.state {
                WorkerState::Receiving { acc } => Some(spec_classify(acc)),
                _ => None,
            },
            _ => None,
        }
    }

    /// The action a worker in its current state is waiting to perform.
    pub open spec fn spec_pending(self) -> Action {
        match self.state {
            WorkerState::Connecting => Action::Connect,
            WorkerState::Sending { sent } => Action::Write { from: sent },
            WorkerState::Receiving { acc: _ } => Action::Read,
            WorkerState::Finished => Action::Stop,
        }
    }

    /// The action the surrounding process should perform next.
    pub fn next_action(&self) -> (a: Action)
        ensures
            a == self.spec_pending(),
    {
        match self.state {
            WorkerState::Connecting => Action::Connect,
            WorkerState::Sending { sent } => Action::Write { from: sent },
            WorkerState::Receiving { acc: _ } => Action::Read,
            WorkerState::Finished => Action::Stop,
        }
    }

    /// Takes one step on an observed event and returns the completed
    /// cycle's outcome, if the event completed one.
    pub fn step(&mut self, event: Event) -> (outcome: Option<CycleOutcome>)
        requires
            old(self).wf(),
            old(self).accepts(event),
        ensures
            *final(self) == old(self).spec_next(event),
            outcome == old(self).spec_outcome(event),
            final(self).wf(),
    {
        match event {
            Event::Cancelled => {
                self.state = WorkerState::Finished;
                None
            },
            Event::Connected => {
                self.state = WorkerState::Sending { sent: 0 };
                None
            },
            Event::ConnectFailed => {
                self.state = WorkerState::Connecting;
                Some(CycleOutcome::Failure)
            },
            Event::Wrote(n) => {
                let sent = match self.state {
                    WorkerState::Sending { sent } => sent,
                    _ => 0,
                };
                if sent + n < self.request_len {
                    self.state = WorkerState::Sending { sent: sent + n };
                } else {
                    self.state = WorkerState::Receiving { acc: 0 };
                }
                None
            },
            Event::WriteFailed => {
                self.state = WorkerState::Connecting;
                Some(CycleOutcome::Failure)
            },
            Event::Read(n) => {
                let acc = match self.state {
                    WorkerState::Receiving { acc } => acc,
                    _ => 0,
                };
                if n == READ_BUF_LEN {
                    self.state = WorkerState::Receiving { acc: acc + n as u64 };
                    None
                } else {
                    let total = acc + n as u64;
                    let outcome = classify(total);
                    self.finish_cycle(&outcome);
                    Some(outcome)
                }
            },
            Event::ReadFailed => {
                let acc = match self.state {
                    WorkerState::Receiving { acc } => acc,
                    _ => 0,
                };
                let outcome = classify(acc);
                self.finish_cycle(&outcome);
                Some(outcome)
            },
        }
    }

    /// The worker after a whole run of events, in order.
    pub open spec fn run(self, events: Seq<Event>) -> Worker
        decreases events.len(),
    {
        if events.len() == 0 {
            self
        } else {
            self.spec_next(events[0]).run(events.drop_first())
        }
    }

    /// Whether a run of events is acceptable step by step.
    pub open spec fn run_accepted(self, events: Seq<Event>) -> bool
        decreases events.len(),
    {
        events.len() == 0 || (self.accepts(events[0]) && self.spec_next(events[0]).run_accepted(
            events.drop_first(),
        ))
    }

    /// The outcomes of the cycles a run completes, in order.
    pub open spec fn run_outcomes(self, events: Seq<Event>) -> Seq<CycleOutcome>
        decreases events.len(),
    {
        if events.len() == 0 {
            Seq::empty()
        } else {
            let rest = self.spec_next(events[0]).run_outcomes(events.drop_first());
            match self.spec_outcome(events[0]) {
                Some(o) => seq![o] + rest,
                None => rest,
            }
        }
    }

    /// How many times a run asks the surrounding process to open a new
    /// connection.
    pub open spec fn run_connects(self, events: Seq<Event>) -> nat
        decreases events.len(),
    {
        if events.len() == 0 {
            0
        } else {
            (if self.spec_next(events[0]).spec_pending() is Connect {
                1nat
            } else {
                0nat
            }) + self.spec_next(events[0]).run_connects(events.drop_first())
        }
    }

    /// Applies the loop-back rule of [`Worker::after_cycle`].
    fn finish_cycle(&mut self, outcome: &CycleOutcome)
        requires
            old(self).request_len >= 1,
        ensures
            *final(self) == old(self).after_cycle(*outcome),
            final(self).wf(),
    {
        let success = match outcome {
            CycleOutcome::Success(_) => true,
            CycleOutcome::Failure => false,
        };
        if self.keep_alive && success {
            self.state = WorkerState::Sending { sent: 0 };
        } else {
            self.state = WorkerState::Connecting;
        }
    }
}

/// The events of one request cycle on an already-open connection against
/// a cooperative server that answers each request with `n` bytes (short
/// of the read buffer) and keeps the connection open: one full write,
/// then one short read.
pub open spec fn echo_cycle(request_len: usize, n: usize) -> Seq<Event> {
    seq![Event::Wrote(request_len), Event::Read(n)]
}

/// `k` such cycles in a row.
pub open spec fn echo_cycles(request_len: usize, n: usize, k: nat) -> Seq<Event>
    decreases k,
{
    if k == 0 {
        Seq::empty()
    } else {
        echo_cycle(request_len, n) + echo_cycles(request_len, n, (k - 1) as nat)
    }
}

/// The events of one request cycle that opens its own connection first.
pub open spec fn oneshot_cycle(request_len: usize, n: usize) -> Seq<Event> {
    seq![Event::Connected, Event::Wrote(request_len), Event::Read(n)]
}

/// `k` such cycles in a row.
pub open spec fn oneshot_cycles(request_len: usize, n: usize, k: nat) -> Seq<Event>
    decreases k,
{
    if k == 0 {
        Seq::empty()
    } else {
        oneshot_cycle(request_len, n) + oneshot_cycles(request_len, n, (k - 1) as nat)
    }
}

/// A run over concatenated events is the two runs in order: acceptance,
/// final state, completed cycles, and connection count all compose.
pub proof fn lemma_run_append(w: Worker, a: Seq<Event>, b: Seq<Event>)
    ensures
        w.run(a + b) == w.run(a).run(b),
        w.run_accepted(a + b) == (w.run_accepted(a) && w.run(a).run_accepted(b)),
        w.run_outcomes(a + b) =~= w.run_outcomes(a) + w.run(a).run_outcomes(b),
        w.run_connects(a + b) == w.run_connects(a) + w.run(a).run_connects(b),
    decreases a.len(),
{
    if a.len() == 0 {
        assert(a + b =~= b);
        assert(w.run_outcomes(a) + w.run(a).run_outcomes(b) =~= w.run(a).run_outcomes(b));
    } else {
        assert((a + b).len() > 0);
        assert((a + b)[0] == a[0]);
        assert((a + b).drop_first() =~= a.drop_first() + b);
        lemma_run_append(w.spec_next(a[0]), a.drop_first(), b);
        match w.spec_outcome(a[0]) {
            Some(o) => {
                assert(w.run_outcomes(a + b) =~= w.run_outcomes(a) + w.run(a).run_outcomes(b));
            },
            None => {},
        }
    }
}

/// One successful cycle on an already-open connection, step by step.
pub proof fn lemma_persistent_cycle(w: Worker, n: usize)
    requires
        w.wf(),
        w.keep_alive,
        w.state == (WorkerState::Sending { sent: 0 }),
        1 <= n < READ_BUF_LEN,
    ensures
        w.run_accepted(echo_cycle(w.request_len, n)),
        w.run(echo_cycle(w.request_len, n)) == w,
        w.run_connects(echo_cycle(w.request_len, n)) == 0,
        w.run_outcomes(echo_cycle(w.request_len, n)) =~= seq![CycleOutcome::Success(n as u64)],
{
    let events = echo_cycle(w.request_len, n);
    let tail = seq![Event::Read(n)];
    let none: Seq<Event> = Seq::empty();
    assert(events.len() == 2);
    assert(events[0] == Event::Wrote(w.request_len));
    assert(events.drop_first() =~= tail);
    assert(tail[0] == Event::Read(n));
    assert(tail.drop_first() =~= none);
    let w1 = w.spec_next(Event::Wrote(w.request_len));
    assert(w1.state == (WorkerState::Receiving { acc: 0u64 }));
    let w2 = w1.spec_next(Event::Read(n));
    assert(w2 == w);
    assert(w1.spec_outcome(Event::Read(n)) == Some(CycleOutcome::Success(n as u64)));
    assert(w2.run_accepted(none));
    assert(w1.run_accepted(tail));
    assert(w.run_accepted(events));
    assert(w2.run(none) == w2);
    assert(w1.run(tail) == w);
    assert(w.run(events) == w);
    assert(w2.run_connects(none) == 0);
    assert(w1.run_connects(tail) == 0);
    assert(w.run_connects(events) == 0);
    assert(w2.run_outcomes(none) =~= Seq::<CycleOutcome>::empty());
    assert(w1.run_outcomes(tail) =~= seq![CycleOutcome::Success(n as u64)]);
    assert(w.run_outcomes(events) =~= seq![CycleOutcome::Success(n as u64)]);
}

/// Law (persistent mode): a worker with an open connection, run against a
/// cooperative server that answers every request and never closes,
/// completes any number of successful cycles without ever asking for a
/// new connection, and ends ready to send on that same connection.
pub proof fn lemma_persistent_reuses_connection(w: Worker, n: usize, k: nat)
    requires
        w.wf(),
        w.keep_alive,
        w.state == (WorkerState::Sending { sent: 0 }),
        1 <= n < READ_BUF_LEN,
    ensures
        w.run_accepted(echo_cycles(w.request_len, n, k)),
        w.run(echo_cycles(w.request_len, n, k)) == w,
        w.run_connects(echo_cycles(w.request_len, n, k)) == 0,
        w.run_outcomes(echo_cycles(w.request_len, n, k)) =~= Seq::new(
            k,
            |i: int| CycleOutcome::Success(n as u64),
        ),
    decreases k,
{
    let events = echo_cycles(w.request_len, n, k);
    let want = Seq::new(k, |i: int| CycleOutcome::Success(n as u64));
    if k == 0 {
        assert(w.run_outcomes(events) =~= want);
    } else {
        let cycle = echo_cycle(w.request_len, n);
        let rest = echo_cycles(w.request_len, n, (k - 1) as nat);
        lemma_persistent_cycle(w, n);
        lemma_run_append(w, cycle, rest);
        lemma_persistent_reuses_connection(w, n, (k - 1) as nat);
        assert(w.run_outcomes(events) =~= want);
    }
}

/// One successful one-shot cycle, step by step: it opens its own
/// connection and ends asking for the next one.
pub proof fn lemma_oneshot_cycle(w: Worker, n: usize)
    requires
        w.wf(),
        !w.keep_alive,
        w.state is Connecting,
        1 <= n < READ_BUF_LEN,
    ensures
        w.run_accepted(oneshot_cycle(w.request_len, n)),
        w.run(oneshot_cycle(w.request_len, n)) == w,
        w.run_connects(oneshot_cycle(w.request_len, n)) == 1,
        w.run_outcomes(oneshot_cycle(w.request_len, n)) =~= seq![CycleOutcome::Success(n as u64)],
{
    let events = oneshot_cycle(w.request_len, n);
    let tail1 = seq![Event::Wrote(w.request_len), Event::Read(n)];
    let tail2 = seq![Event::Read(n)];
    let none: Seq<Event> = Seq::empty();
    assert(events.len() == 3);
    assert(events[0] == Event::Connected);
    assert(events.drop_first() =~= tail1);
    assert(tail1[0] == Event::Wrote(w.request_len));
    assert(tail1.drop_first() =~= tail2);
    assert(tail2[0] == Event::Read(n));
    assert(tail2.drop_first() =~= none);
    let w1 = w.spec_next(Event::Connected);
    assert(w1.state == (WorkerState::Sending { sent: 0 }));
    let w2 = w1.spec_next(Event::Wrote(w.request_len));
    assert(w2.state == (WorkerState::Receiving { acc: 0u64 }));
    let w3 = w2.spec_next(Event::Read(n));
    assert(w3 == w);
    assert(w2.spec_outcome(Event::Read(n)) == Some(CycleOutcome::Success(n as u64)));
    assert(w3.run_accepted(none));
    assert(w2.run_accepted(tail2));
    assert(w1.run_accepted(tail1));
    assert(w.run_accepted(events));
    assert(w3.run(none) == w3);
    assert(w2.run(tail2) == w);
    assert(w1.run(tail1) == w);
    assert(w.run(events) == w);
    assert(w3.spec_pending() is Connect);
    assert(w3.run_connects(none) == 0);
    assert(w2.run_connects(tail2) == 1);
    assert(w1.run_connects(tail1) == 1);
    assert(w.run_connects(events) == 1);
    assert(w3.run_outcomes(none) =~= Seq::<CycleOutcome>::empty());
    assert(w2.run_outcomes(tail2) =~= seq![CycleOutcome::Success(n as u64)]);
    assert(w1.run_outcomes(tail1) =~= seq![CycleOutcome::Success(n as u64)]);
    assert(w.run_outcomes(events) =~= seq![CycleOutcome::Success(n as u64)]);
}

/// Law (one-shot mode): the same cooperative scenario, but with a worker
/// that does not reuse connections: every cycle succeeds and every cycle
/// asks for exactly one fresh connection.
pub proof fn lemma_one_shot_connects_each_cycle(w: Worker, n: usize, k: nat)
    requires
        w.wf(),
        !w.keep_alive,
        w.state is Connecting,
        1 <= n < READ_BUF_LEN,
    ensures
        w.run_accepted(oneshot_cycles(w.request_len, n, k)),
        w.run(oneshot_cycles(w.request_len, n, k)) == w,
        w.run_connects(oneshot_cycles(w.request_len, n, k)) == k,
        w.run_outcomes(oneshot_cycles(w.request_len, n, k)) =~= Seq::new(
            k,
            |i: int| CycleOutcome::Success(n as u64),
        ),
    decreases k,
{
    let events = oneshot_cycles(w.request_len, n, k);
    let want = Seq::new(k, |i: int| CycleOutcome::Success(n as u64));
    if k == 0 {
        assert(w.run_outcomes(events) =~= want);
    } else {
        let cycle = oneshot_cycle(w.request_len, n);
        let rest = oneshot_cycles(w.request_len, n, (k - 1) as nat);
        lemma_oneshot_cycle(w, n);
        lemma_run_append(w, cycle, rest);
        lemma_one_shot_connects_each_cycle(w, n, (k - 1) as nat);
        assert(w.run_outcomes(events) =~= want);
    }
}

/// Law: a reachable server that accepts the connection and the whole
/// request but closes without sending a byte yields a failed cycle — the
/// counters gain one failure, and neither `received` nor `success` moves.
pub proof fn lemma_empty_response_is_failure(w: Worker, m: StatusModel)
    requires
        w.wf(),
        w.state is Connecting,
    ensures
        w.run_accepted(seq![Event::Connected, Event::Wrote(w.request_len), Event::Read(0)]),
        w.run_outcomes(seq![Event::Connected, Event::Wrote(w.request_len), Event::Read(0)])
            =~= seq![CycleOutcome::Failure],
        m.record_all(seq![CycleOutcome::Failure]) == (StatusModel { failed: m.failed + 1, ..m }),
{
    let events = seq![Event::Connected, Event::Wrote(w.request_len), Event::Read(0)];
    let tail1 = seq![Event::Wrote(w.request_len), Event::Read(0)];
    let tail2 = seq![Event::Read(0)];
    let none: Seq<Event> = Seq::empty();
    assert(events.len() == 3);
    assert(events[0] == Event::Connected);
    assert(events.drop_first() =~= tail1);
    assert(tail1[0] == Event::Wrote(w.request_len));
    assert(tail1.drop_first() =~= tail2);
    assert(tail2[0] == Event::Read(0));
    assert(tail2.drop_first() =~= none);
    let w1 = w.spec_next(Event::Connected);
    assert(w1.state == (WorkerState::Sending { sent: 0 }));
    let w2 = w1.spec_next(Event::Wrote(w.request_len));
    assert(w2.state == (WorkerState::Receiving { acc: 0u64 }));
    let w3 = w2.spec_next(Event::Read(0));
    assert(w2.spec_outcome(Event::Read(0)) == Some(CycleOutcome::Failure));
    assert(w3.run_accepted(none));
    assert(w2.run_accepted(tail2));
    assert(w1.run_accepted(tail1));
    assert(w.run_accepted(events));
    assert(w3.run_outcomes(none) =~= Seq::<CycleOutcome>::empty());
    assert(w2.run_outcomes(tail2) =~= seq![CycleOutcome::Failure]);
    assert(w1.run_outcomes(tail1) =~= seq![CycleOutcome::Failure]);
    assert(w.run_outcomes(events) =~= seq![CycleOutcome::Failure]);
    let outs = seq![CycleOutcome::Failure];
    assert(outs[0] == CycleOutcome::Failure);
    assert(outs.drop_first() =~= Seq::<CycleOutcome>::empty());
    assert(m.record(CycleOutcome::Failure).record_all(Seq::empty()) == m.record(
        CycleOutcome::Failure,
    ));
    assert(m.record_all(outs) == m.record(CycleOutcome::Failure));
}

/// Law: cancellation is not an error and ends the run — the cancelling
/// step completes no cycle, the worker is finished afterwards, its next
/// action is to stop, and no further event is accepted, so no later step
/// can change any counter.
pub proof fn lemma_cancel_stops_counting(w: Worker)
    requires
        w.accepts(Event::Cancelled),
    ensures
        w.spec_outcome(Event::Cancelled) is None,
        w.spec_next(Event::Cancelled).state is Finished,
        w.spec_next(Event::Cancelled).spec_pending() is Stop,
        forall|e: Event| !w.spec_next(Event::Cancelled).accepts(e),
{
}

/// A run completes at most one cycle per observed event; together with
/// the cycle-accounting law this bounds the final success count of any
/// run by the number of events it observed.
pub proof fn lemma_cycles_bounded_by_events(w: Worker, events: Seq<Event>)
    ensures
        w.run_outcomes(events).len() <= events.len(),
    decreases events.len(),
{
    if events.len() > 0 {
        lemma_cycles_bounded_by_events(w.spec_next(events[0]), events.drop_first());
    }
}

/// Law: folding a worker run's completed cycles into the counters grows
/// `success + failed` by exactly the number of completed cycles, which
/// is at most the number of observed events — so the success count of
/// any run is bounded by how many events the run could observe.
pub proof fn lemma_run_accounting(w: Worker, events: Seq<Event>, m: StatusModel)
    ensures
        m.record_all(w.run_outcomes(events)).completed() == m.completed() + w.run_outcomes(
            events,
        ).len(),
        m.record_all(w.run_outcomes(events)).success <= m.completed() + events.len(),
{
    crate::status::lemma_counts_match_cycles(m, w.run_outcomes(events));
    lemma_cycles_bounded_by_events(w, events);
}

} // verus!
