//! One write worker as a state machine.
//!
//! The worker itself neither waits nor writes. Its driver waits for the
//! timer, reads the stop flag, performs the write and sleeps between
//! attempts; after each of these it hands the worker an event and gets back
//! the next thing to do.

use crate::retry::{RetryDecision, RetryPolicy};
use crate::sequence::{next_value, value_at};
use vstd::prelude::*;

verus! {

/// Milliseconds between two progress reports.
pub const DEFAULT_REPORT_GAP_MS: u64 = 4000;

/// Milliseconds from a worker's start to its first progress report.
pub const FIRST_REPORT_AFTER_MS: u64 = 1000;

/// Why a worker ended with a fatal failure.
#[derive(Clone, Copy, Debug, PartialEq, Eq)]
pub enum WorkerFailure {
    /// A write failed on every attempt the retry policy allows.
    RetriesExhausted,
    /// The worker's next value no longer fits a 32-bit key.
    SequenceExhausted,
}

/// Where a worker stands.
#[derive(Clone, Copy, Debug, PartialEq, Eq)]
pub enum WorkerPhase {
    /// Running, between two writes: waiting for the next tick.
    AwaitingTick,
    /// Running, with attempt number `attempt` (counted from 1) of the write
    /// of `value` under way.
    Writing { value: i32, attempt: u32 },
    /// Stopped on request. Terminal.
    Stopped,
    /// Ended by a fatal failure. Terminal.
    Failed { failure: WorkerFailure },
}

/// What the driver tells the worker.
#[derive(Clone, Copy, Debug, PartialEq, Eq)]
pub enum WorkerEvent {
    /// The timer ticked. `stop_requested` is the stop flag as read after the
    /// tick, `elapsed_ms` the time since the worker started.
    Tick { stop_requested: bool, elapsed_ms: u64 },
    /// The attempt under way succeeded.
    WriteSucceeded,
    /// The attempt under way failed.
    WriteFailed,
}

/// What the worker tells the driver to do next.
#[derive(Clone, Copy, Debug, PartialEq, Eq)]
pub enum WorkerAction {
    /// Wait for the next tick, then report it.
    AwaitTick,
    /// Write `value` into all three columns and report the outcome. If
    /// `progress` is given, print it first: the rows written so far, roughly.
    Write { value: i32, progress: Option<u64> },
    /// Wait `delay_ms`, write `value` again and report the outcome.
    RetryAfter { value: i32, delay_ms: u64 },
    /// The worker has stopped: end its task.
    Halt,
    /// The worker cannot go on: end the whole run with this failure.
    Abort { failure: WorkerFailure },
    /// The event does not belong to the worker's phase; nothing changed.
    Ignore,
}

/// The state of a worker.
#[derive(Clone, Copy, Debug, PartialEq, Eq)]
pub struct WorkerState {
    /// The worker's number, below `worker_count`.
    pub id: u32,
    /// The number of workers that share the value sequence.
    pub worker_count: u32,
    /// The number of writes completed.
    pub iteration: u32,
    /// Where the worker stands.
    pub phase: WorkerPhase,
    /// How a failing write is retried.
    pub policy: RetryPolicy,
    /// Milliseconds between two progress reports.
    pub report_gap_ms: u64,
    /// A progress report is due once more than this many milliseconds have
    /// passed since the worker started.
    pub report_after_ms: u64,
}

impl WorkerState {
    /// The state is one that a worker can be in: its number lies below the
    /// number of workers, and a write under way is the one its iteration
    /// owns.
    pub open spec fn wf(self) -> bool {
        &&& self.id < self.worker_count
        &&& (self.phase matches WorkerPhase::Writing { value, attempt } ==> {
            &&& attempt >= 1
            &&& value == value_at(self.id as int, self.iteration as int, self.worker_count as int)
        })
    }

    /// The state in which a worker starts.
    pub open spec fn initial(
        id: u32,
        worker_count: u32,
        policy: RetryPolicy,
        report_gap_ms: u64,
    ) -> WorkerState {
        WorkerState {
            id,
            worker_count,
            iteration: 0,
            phase: WorkerPhase::AwaitingTick,
            policy,
            report_gap_ms,
            report_after_ms: FIRST_REPORT_AFTER_MS,
        }
    }

    /// The value of the write that the current iteration owns.
    pub open spec fn current_value(self) -> int {
        value_at(self.id as int, self.iteration as int, self.worker_count as int)
    }

    /// Whether a tick at `elapsed_ms` makes this worker report progress:
    /// only worker 0 reports, and only when the report is overdue.
    pub open spec fn progress_due(self, elapsed_ms: u64) -> bool {
        self.id == 0 && elapsed_ms > self.report_after_ms
    }

    /// The progress figure: completed iterations times workers.
    pub open spec fn progress_figure(self) -> int {
        self.iteration * self.worker_count
    }

    /// The time after which the report following one at `elapsed_ms` is due.
    pub open spec fn next_report_after(self, elapsed_ms: u64) -> u64 {
        if elapsed_ms + self.report_gap_ms <= u64::MAX {
            (elapsed_ms + self.report_gap_ms) as u64
        } else {
            u64::MAX
        }
    }

    /// Whether the worker has ended for good.
    pub open spec fn is_terminal(self) -> bool {
        self.phase is Stopped || self.phase is Failed
    }

    /// The state after `event`.
    pub open spec fn next(self, event: WorkerEvent) -> WorkerState {
        match (self.phase, event) {
            (WorkerPhase::AwaitingTick, WorkerEvent::Tick { stop_requested, elapsed_ms }) => {
                if stop_requested {
                    WorkerState { phase: WorkerPhase::Stopped, ..self }
                } else if self.current_value() > i32::MAX {
                    WorkerState {
                        phase: WorkerPhase::Failed { failure: WorkerFailure::SequenceExhausted },
                        ..self
                    }
                } else {
                    WorkerState {
                        phase: WorkerPhase::Writing {
                            value: self.current_value() as i32,
                            attempt: 1,
                        },
                        report_after_ms: if self.progress_due(elapsed_ms) {
                            self.next_report_after(elapsed_ms)
                        } else {
                            self.report_after_ms
                        },
                        ..self
                    }
                }
            },
            (WorkerPhase::Writing { value, attempt }, WorkerEvent::WriteSucceeded) => WorkerState {
                iteration: (self.iteration + 1) as u32,
                phase: WorkerPhase::AwaitingTick,
                ..self
            },
            (WorkerPhase::Writing { value, attempt }, WorkerEvent::WriteFailed) => {
                match self.policy.decision(attempt as int) {
                    RetryDecision::Retry { delay_ms } => WorkerState {
                        phase: WorkerPhase::Writing { value, attempt: (attempt + 1) as u32 },
                        ..self
                    },
                    RetryDecision::GiveUp => WorkerState {
                        phase: WorkerPhase::Failed { failure: WorkerFailure::RetriesExhausted },
                        ..self
                    },
                }
            },
            _ => self,
        }
    }

    /// What the driver is to do after `event`.
    pub open spec fn action(self, event: WorkerEvent) -> WorkerAction {
        match (self.phase, event) {
            (WorkerPhase::AwaitingTick, WorkerEvent::Tick { stop_requested, elapsed_ms }) => {
                if stop_requested {
                    WorkerAction::Halt
                } else if self.current_value() > i32::MAX {
                    WorkerAction::Abort { failure: WorkerFailure::SequenceExhausted }
                } else {
                    WorkerAction::Write {
                        value: self.current_value() as i32,
                        progress: if self.progress_due(elapsed_ms) {
                            Some(self.progress_figure() as u64)
                        } else {
                            None
                        },
                    }
                }
            },
            (WorkerPhase::Writing { value, attempt }, WorkerEvent::WriteSucceeded) => {
                WorkerAction::AwaitTick
            },
            (WorkerPhase::Writing { value, attempt }, WorkerEvent::WriteFailed) => {
                match self.policy.decision(attempt as int) {
                    RetryDecision::Retry { delay_ms } => WorkerAction::RetryAfter { value, delay_ms },
                    RetryDecision::GiveUp => WorkerAction::Abort {
                        failure: WorkerFailure::RetriesExhausted,
                    },
                }
            },
            (WorkerPhase::Stopped, _) => WorkerAction::Halt,
            (WorkerPhase::Failed { failure }, _) => WorkerAction::Abort { failure },
            _ => WorkerAction::Ignore,
        }
    }
}

/// `count` failed attempts in a row.
pub open spec fn failures(count: nat) -> Seq<WorkerEvent> {
    Seq::new(count, |i: int| WorkerEvent::WriteFailed)
}

/// One round for each of `ticks`: the tick at that time with the stop flag
/// lowered, then the success of the write.
pub open spec fn undisturbed_rounds(ticks: Seq<u64>) -> Seq<WorkerEvent>
    decreases ticks.len(),
{
    if ticks.len() == 0 {
        Seq::empty()
    } else {
        seq![
            WorkerEvent::Tick { stop_requested: false, elapsed_ms: ticks[0] },
            WorkerEvent::WriteSucceeded,
        ] + undisturbed_rounds(ticks.drop_first())
    }
}

impl WorkerState {
    /// The state after all of `events`, taken in order.
    pub open spec fn run(self, events: Seq<WorkerEvent>) -> WorkerState
        decreases events.len(),
    {
        if events.len() == 0 {
            self
        } else {
            self.next(events[0]).run(events.drop_first())
        }
    }

    /// The values of the writes begun while taking `events` in order: one
    /// for each `Write` action, retries not counted.
    pub open spec fn writes(self, events: Seq<WorkerEvent>) -> Seq<int>
        decreases events.len(),
    {
        if events.len() == 0 {
            Seq::empty()
        } else {
            let rest = self.next(events[0]).writes(events.drop_first());
            match self.action(events[0]) {
                WorkerAction::Write { value, progress } => seq![value as int] + rest,
                _ => rest,
            }
        }
    }

    /// The number of attempts at writing made while taking `events` in
    /// order: one for each `Write` and each `RetryAfter` action.
    pub open spec fn attempts(self, events: Seq<WorkerEvent>) -> nat
        decreases events.len(),
    {
        if events.len() == 0 {
            0
        } else {
            let rest = self.next(events[0]).attempts(events.drop_first());
            match self.action(events[0]) {
                WorkerAction::Write { value, progress } => 1 + rest,
                WorkerAction::RetryAfter { value, delay_ms } => 1 + rest,
                _ => rest,
            }
        }
    }

    /// The number of writes begun so far.
    pub open spec fn rounds_begun(self) -> int {
        if self.phase is Writing {
            self.iteration + 1
        } else {
            self.iteration as int
        }
    }

    /// Every event takes a well-formed state to a well-formed state.
    pub proof fn next_keeps_wf(self, event: WorkerEvent)
        requires
            self.wf(),
        ensures
            self.next(event).wf(),
            self.next(event).id == self.id,
            self.next(event).worker_count == self.worker_count,
            self.next(event).policy == self.policy,
    {
        if self.phase is Writing && event is WriteSucceeded {
            assert(self.iteration < u32::MAX) by (nonlinear_arith)
                requires
                    self.id + self.iteration * self.worker_count <= i32::MAX,
                    self.worker_count >= 1,
                    u32::MAX > i32::MAX,
            ;
        }
    }

    /// A run of events takes a well-formed state to a well-formed state.
    pub proof fn run_keeps_wf(self, events: Seq<WorkerEvent>)
        requires
            self.wf(),
        ensures
            self.run(events).wf(),
            self.run(events).id == self.id,
            self.run(events).worker_count == self.worker_count,
            self.run(events).policy == self.policy,
        decreases events.len(),
    {
        if events.len() > 0 {
            self.next_keeps_wf(events[0]);
            self.next(events[0]).run_keeps_wf(events.drop_first());
        }
    }

    /// A worker that waits for its tick and finds the stop flag raised
    /// stops at once: it begins no write, and its driver is told to halt.
    pub proof fn stop_request_halts(self, elapsed_ms: u64)
        requires
            self.phase is AwaitingTick,
        ensures
            self.next(WorkerEvent::Tick { stop_requested: true, elapsed_ms }).phase
                == WorkerPhase::Stopped,
            self.action(WorkerEvent::Tick { stop_requested: true, elapsed_ms })
                == WorkerAction::Halt,
    {
    }

    /// A worker that has ended stays as it is, whatever happens, and asks
    /// for no write: not a first attempt, and not a retry.
    pub proof fn ended_worker_stays_ended(self, event: WorkerEvent)
        requires
            self.is_terminal(),
        ensures
            self.next(event) == self,
            self.action(event) == (match self.phase {
                WorkerPhase::Failed { failure } => WorkerAction::Abort { failure },
                _ => WorkerAction::Halt,
            }),
    {
    }

    /// After a worker has ended, no run of events makes it write again.
    pub proof fn no_write_after_the_end(self, events: Seq<WorkerEvent>)
        requires
            self.is_terminal(),
        ensures
            self.run(events) == self,
            self.writes(events) == Seq::<int>::empty(),
            self.attempts(events) == 0,
        decreases events.len(),
    {
        if events.len() > 0 {
            self.ended_worker_stays_ended(events[0]);
            self.no_write_after_the_end(events.drop_first());
        }
    }

    /// From the tick on which a waiting worker sees the stop flag raised,
    /// it makes no attempt at writing, whatever follows.
    pub proof fn no_write_once_stop_is_seen(self, elapsed_ms: u64, rest: Seq<WorkerEvent>)
        requires
            self.phase is AwaitingTick,
        ensures
            self.writes(seq![WorkerEvent::Tick { stop_requested: true, elapsed_ms }] + rest)
                == Seq::<int>::empty(),
            self.attempts(seq![WorkerEvent::Tick { stop_requested: true, elapsed_ms }] + rest) == 0,
            self.run(seq![WorkerEvent::Tick { stop_requested: true, elapsed_ms }] + rest).phase
                == WorkerPhase::Stopped,
    {
        let tick = WorkerEvent::Tick { stop_requested: true, elapsed_ms };
        let events = seq![tick] + rest;
        assert(events[0] == tick);
        assert(events.drop_first() =~= rest);
        self.next(tick).no_write_after_the_end(rest);
    }

    /// A worker whose writes all succeed at the first attempt writes one
    /// value per tick: after the rounds of `ticks` it has written exactly
    /// the next `ticks.len()` values of its sequence, in order, and waits
    /// for its next tick.
    pub proof fn undisturbed_rounds_write_every_value(self, ticks: Seq<u64>)
        requires
            self.wf(),
            self.phase is AwaitingTick,
            value_at(
                self.id as int,
                self.iteration + ticks.len() - 1,
                self.worker_count as int,
            ) <= i32::MAX,
        ensures
            self.writes(undisturbed_rounds(ticks)) == Seq::new(
                ticks.len(),
                |j: int| value_at(self.id as int, self.iteration + j, self.worker_count as int),
            ),
            self.attempts(undisturbed_rounds(ticks)) == ticks.len(),
            self.run(undisturbed_rounds(ticks)).phase == WorkerPhase::AwaitingTick,
            self.run(undisturbed_rounds(ticks)).iteration == self.iteration + ticks.len(),
        decreases ticks.len(),
    {
        let events = undisturbed_rounds(ticks);
        let expected = Seq::new(
            ticks.len(),
            |j: int| value_at(self.id as int, self.iteration + j, self.worker_count as int),
        );
        if ticks.len() == 0 {
            assert(self.writes(events) =~= expected);
        } else {
            let tick = WorkerEvent::Tick { stop_requested: false, elapsed_ms: ticks[0] };
            let later = undisturbed_rounds(ticks.drop_first());
            assert(events[0] == tick);
            assert(events.drop_first()[0] == WorkerEvent::WriteSucceeded);
            assert(events.drop_first().drop_first() =~= later);
            assert(self.iteration * self.worker_count <= (self.iteration + ticks.len() - 1)
                * self.worker_count) by (nonlinear_arith)
                requires
                    ticks.len() >= 1,
                    self.worker_count >= 0,
            ;
            assert(self.iteration < u32::MAX) by (nonlinear_arith)
                requires
                    self.id + self.iteration * self.worker_count <= i32::MAX,
                    self.worker_count >= 1,
                    u32::MAX > i32::MAX,
            ;
            let writing = self.next(tick);
            let waiting = writing.next(WorkerEvent::WriteSucceeded);
            assert(waiting.iteration == self.iteration + 1);
            waiting.undisturbed_rounds_write_every_value(ticks.drop_first());
            let after_tick = events.drop_first();
            assert(self.action(tick) == (WorkerAction::Write {
                value: self.current_value() as i32,
                progress: if self.progress_due(ticks[0]) {
                    Some(self.progress_figure() as u64)
                } else {
                    None
                },
            }));
            assert(writing.action(WorkerEvent::WriteSucceeded) == WorkerAction::AwaitTick);
            assert(writing.writes(after_tick) == waiting.writes(later));
            assert(writing.attempts(after_tick) == waiting.attempts(later));
            assert(writing.run(after_tick) == waiting.run(later));
            assert(self.writes(events) == seq![self.current_value()] + writing.writes(after_tick));
            assert(self.attempts(events) == 1 + writing.attempts(after_tick));
            assert(self.run(events) == writing.run(after_tick));
            assert(self.writes(events) =~= expected);
        }
    }

    /// Every attempt of a write carries the value that the worker's
    /// iteration owns: the first attempt and each retry alike.
    pub proof fn attempts_carry_the_owned_value(self, event: WorkerEvent)
        requires
            self.wf(),
        ensures
            self.action(event) matches WorkerAction::Write { value, progress } ==> {
                &&& self.phase is AwaitingTick
                &&& value == self.current_value()
            },
            self.action(event) matches WorkerAction::RetryAfter { value, delay_ms } ==> {
                &&& self.phase matches WorkerPhase::Writing { value: under_way, attempt }
                &&& value == under_way
                &&& value == self.current_value()
                &&& delay_ms == self.policy.backoff_ms
            },
    {
    }

    /// The writes begun from a state onwards continue the worker's
    /// sequence where the state left it.
    pub proof fn writes_continue_the_sequence(self, events: Seq<WorkerEvent>)
        requires
            self.wf(),
        ensures
            forall|j: int|
                0 <= j < self.writes(events).len() ==> #[trigger] self.writes(events)[j]
                    == value_at(self.id as int, self.rounds_begun() + j, self.worker_count as int),
        decreases events.len(),
    {
        if events.len() > 0 {
            let after = self.next(events[0]);
            let rest = after.writes(events.drop_first());
            self.next_keeps_wf(events[0]);
            after.writes_continue_the_sequence(events.drop_first());
            if after.is_terminal() {
                after.no_write_after_the_end(events.drop_first());
            }
            if self.phase is Writing && events[0] is WriteSucceeded {
                assert(self.iteration < u32::MAX) by (nonlinear_arith)
                    requires
                        self.id + self.iteration * self.worker_count <= i32::MAX,
                        self.worker_count >= 1,
                        u32::MAX > i32::MAX,
                ;
            }
            assert forall|j: int| 0 <= j < self.writes(events).len() implies #[trigger] self.writes(
                events,
            )[j] == value_at(self.id as int, self.rounds_begun() + j, self.worker_count as int) by {
                match self.action(events[0]) {
                    WorkerAction::Write { value, progress } => {
                        assert(after.rounds_begun() == self.rounds_begun() + 1);
                        if j > 0 {
                            assert(self.writes(events)[j] == rest[j - 1]);
                        }
                    },
                    _ => {
                        assert(self.writes(events)[j] == rest[j]);
                        assert(after.rounds_begun() == self.rounds_begun());
                    },
                }
            }
        }
    }

    /// From its start, whatever happens, the `j`-th write a worker begins
    /// (counted from zero) has the value `id + j * worker_count`: it skips
    /// none of its values and repeats none.
    pub proof fn worker_writes_its_sequence(
        id: u32,
        worker_count: u32,
        policy: RetryPolicy,
        report_gap_ms: u64,
        events: Seq<WorkerEvent>,
    )
        requires
            id < worker_count,
        ensures
            forall|j: int|
                0 <= j < WorkerState::initial(id, worker_count, policy, report_gap_ms).writes(
                    events,
                ).len() ==> #[trigger] WorkerState::initial(
                    id,
                    worker_count,
                    policy,
                    report_gap_ms,
                ).writes(events)[j] == value_at(id as int, j, worker_count as int),
    {
        WorkerState::initial(id, worker_count, policy, report_gap_ms).writes_continue_the_sequence(
            events,
        );
    }

    /// With attempt number `attempt` of a write under way, `count` failures
    /// in a row: as long as the policy allows another attempt, each failure
    /// is answered by exactly one retry of the same value; the failure of
    /// the last attempt allowed is answered by none, and ends the worker
    /// with `RetriesExhausted`.
    pub proof fn permanent_failure_uses_every_attempt(self, value: i32, attempt: u32, count: nat)
        requires
            self.phase == (WorkerPhase::Writing { value, attempt }),
            1 <= attempt,
            attempt + count <= self.policy.attempts_on_permanent_failure() + 1,
            count >= 1,
        ensures
            attempt + count <= self.policy.attempts_on_permanent_failure() ==> {
                &&& self.run(failures(count)).phase == (WorkerPhase::Writing {
                    value,
                    attempt: (attempt + count) as u32,
                })
                &&& self.attempts(failures(count)) == count
            },
            attempt + count == self.policy.attempts_on_permanent_failure() + 1 ==> {
                &&& self.run(failures(count)).phase == (WorkerPhase::Failed {
                    failure: WorkerFailure::RetriesExhausted,
                })
                &&& self.attempts(failures(count)) == count - 1
            },
        decreases count,
    {
        let events = failures(count);
        let after = self.next(events[0]);
        assert(events[0] == WorkerEvent::WriteFailed);
        assert(events.drop_first() =~= failures((count - 1) as nat));
        if count == 1 {
            assert(after.run(events.drop_first()) == after);
            assert(after.attempts(events.drop_first()) == 0);
        } else {
            after.permanent_failure_uses_every_attempt(
                value,
                (attempt + 1) as u32,
                (count - 1) as nat,
            );
        }
    }

    /// A write that never succeeds: the worker begins it on a tick, makes
    /// every attempt that the policy allows and no more, and ends with
    /// `RetriesExhausted` on the failure of the last one. While fewer
    /// attempts have failed, it is still writing.
    pub proof fn permanent_failure_is_fatal_after_all_attempts(
        self,
        elapsed_ms: u64,
        failed: nat,
    )
        requires
            self.wf(),
            self.phase is AwaitingTick,
            self.current_value() <= i32::MAX,
            failed <= self.policy.attempts_on_permanent_failure(),
        ensures
            failed < self.policy.attempts_on_permanent_failure() ==> {
                &&& self.run(
                    seq![WorkerEvent::Tick { stop_requested: false, elapsed_ms }] + failures(failed),
                ).phase is Writing
                &&& self.attempts(
                    seq![WorkerEvent::Tick { stop_requested: false, elapsed_ms }] + failures(failed),
                ) == failed + 1
            },
            failed == self.policy.attempts_on_permanent_failure() ==> {
                &&& self.run(
                    seq![WorkerEvent::Tick { stop_requested: false, elapsed_ms }] + failures(failed),
                ).phase == (WorkerPhase::Failed { failure: WorkerFailure::RetriesExhausted })
                &&& self.attempts(
                    seq![WorkerEvent::Tick { stop_requested: false, elapsed_ms }] + failures(failed),
                ) == failed
            },
    {
        let tick = WorkerEvent::Tick { stop_requested: false, elapsed_ms };
        let events = seq![tick] + failures(failed);
        let writing = self.next(tick);
        assert(events[0] == tick);
        assert(events.drop_first() =~= failures(failed));
        if failed == 0 {
            assert(writing.run(failures(failed)) == writing);
            assert(writing.attempts(failures(failed)) == 0);
        } else {
            writing.permanent_failure_uses_every_attempt(self.current_value() as i32, 1, failed);
        }
    }
}

/// One write worker.
pub struct WriteWorker {
    state: WorkerState,
}

impl View for WriteWorker {
    type V = WorkerState;

    closed spec fn view(&self) -> WorkerState {
        self.state
    }
}

impl WriteWorker {
    #[verifier::type_invariant]
    spec fn well_formed(self) -> bool {
        self.state.wf()
    }

    /// A worker at its start: no write made, waiting for its first tick.
    /// `None` if `id` is not below `worker_count`.
    pub fn new(id: u32, worker_count: u32, policy: RetryPolicy, report_gap_ms: u64) -> (worker:
        Option<WriteWorker>)
        ensures
            id < worker_count ==> worker.is_some() && worker.unwrap()@ == WorkerState::initial(
                id,
                worker_count,
                policy,
                report_gap_ms,
            ),
            id >= worker_count ==> worker.is_none(),
    {
        if id < worker_count {
            Some(
                WriteWorker {
                    state: WorkerState {
                        id,
                        worker_count,
                        iteration: 0,
                        phase: WorkerPhase::AwaitingTick,
                        policy,
                        report_gap_ms,
                        report_after_ms: FIRST_REPORT_AFTER_MS,
                    },
                },
            )
        } else {
            None
        }
    }

    /// The worker's state.
    pub fn state(&self) -> (state: WorkerState)
        ensures
            state == self@,
            state.wf(),
    {
        proof {
            use_type_invariant(self);
        }
        self.state
    }

    /// Takes one event and says what to do next.
    pub fn step(&mut self, event: WorkerEvent) -> (action: WorkerAction)
        ensures
            final(self)@ == old(self)@.next(event),
            action == old(self)@.action(event),
            final(self)@.wf(),
    {
        proof {
            use_type_invariant(&*self);
        }
        let state = self.state;
        match (state.phase, event) {
            (WorkerPhase::AwaitingTick, WorkerEvent::Tick { stop_requested, elapsed_ms }) => {
                if stop_requested {
                    self.state = WorkerState { phase: WorkerPhase::Stopped, ..state };
                    WorkerAction::Halt
                } else {
                    match next_value(state.id, state.iteration, state.worker_count) {
                        None => {
                            let failure = WorkerFailure::SequenceExhausted;
                            self.state = WorkerState {
                                phase: WorkerPhase::Failed { failure },
                                ..state
                            };
                            WorkerAction::Abort { failure }
                        },
                        Some(value) => {
                            let due: bool = state.id == 0 && elapsed_ms > state.report_after_ms;
                            let mut progress: Option<u64> = None;
                            let mut report_after_ms: u64 = state.report_after_ms;
                            if due {
                                let iteration_wide: u64 = state.iteration as u64;
                                let count_wide: u64 = state.worker_count as u64;
                                assert(iteration_wide * count_wide <= 0xFFFF_FFFF * 0xFFFF_FFFF)
                                    by (nonlinear_arith)
                                    requires
                                        iteration_wide <= 0xFFFF_FFFF,
                                        count_wide <= 0xFFFF_FFFF,
                                ;
                                progress = Some(iteration_wide * count_wide);
                                report_after_ms = elapsed_ms.saturating_add(state.report_gap_ms);
                            }
                            self.state = WorkerState {
                                phase: WorkerPhase::Writing { value, attempt: 1 },
                                report_after_ms,
                                ..state
                            };
                            WorkerAction::Write { value, progress }
                        },
                    }
                }
            },
            (WorkerPhase::Writing { value, attempt }, WorkerEvent::WriteSucceeded) => {
                assert(state.iteration < u32::MAX) by (nonlinear_arith)
                    requires
                        state.id + state.iteration * state.worker_count <= i32::MAX,
                        state.worker_count >= 1,
                        u32::MAX > i32::MAX,
                ;
                self.state = WorkerState {
                    iteration: state.iteration + 1,
                    phase: WorkerPhase::AwaitingTick,
                    ..state
                };
                WorkerAction::AwaitTick
            },
            (WorkerPhase::Writing { value, attempt }, WorkerEvent::WriteFailed) => {
                match state.policy.after_failure(attempt) {
                    RetryDecision::Retry { delay_ms } => {
                        self.state = WorkerState {
                            phase: WorkerPhase::Writing { value, attempt: attempt + 1 },
                            ..state
                        };
                        WorkerAction::RetryAfter { value, delay_ms }
                    },
                    RetryDecision::GiveUp => {
                        let failure = WorkerFailure::RetriesExhausted;
                        self.state = WorkerState {
                            phase: WorkerPhase::Failed { failure },
                            ..state
                        };
                        WorkerAction::Abort { failure }
                    },
                }
            },
            (WorkerPhase::Stopped, _) => WorkerAction::Halt,
            (WorkerPhase::Failed { failure }, _) => WorkerAction::Abort { failure },
            _ => WorkerAction::Ignore,
        }
    }
}

} // verus!
