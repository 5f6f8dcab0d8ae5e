//! The batch queue: which task may start, and when a batch is done.
//!
//! The queue decides; whoever drives it does the waiting, the fetching and
//! the sleeping, and reports back what happened.

use crate::error::ConfigError;
use crate::interface::{task_models, InterfaceFetchParams, TaskModel};
use std::collections::VecDeque;
use vstd::prelude::*;

verus! {

/// The mathematical value of a queue.
pub struct QueueModel {
    /// The tasks that wait, the next to start first.
    pub waiting: Seq<TaskModel>,
    /// How many tasks were submitted since the counters were last reset.
    pub total: nat,
    /// How many of them have finished.
    pub completed: nat,
    /// How many are being worked on.
    pub in_flight: nat,
    /// How many permits are out: one for each task in flight and one for each
    /// that has finished and still cools down.
    pub held: nat,
    pub running: bool,
    pub rate_limit: nat,
    pub cooldown: nat,
}

/// What the driver is to do next.
pub enum StepModel {
    Stopped,
    Drained { total_completed: nat },
    AwaitPermit,
    AwaitWorkers,
    Dispatch(TaskModel),
}

impl QueueModel {
    /// Every submitted task waits, is in flight or has finished, and every
    /// task in flight holds a permit.
    pub open spec fn wf(self) -> bool {
        &&& self.total == self.completed + self.in_flight + self.waiting.len()
        &&& self.in_flight <= self.held
    }

    /// A queue without tasks that does not run.
    pub open spec fn new() -> QueueModel {
        QueueModel {
            waiting: Seq::empty(),
            total: 0,
            completed: 0,
            in_flight: 0,
            held: 0,
            running: false,
            rate_limit: 0,
            cooldown: 0,
        }
    }

    /// The queue with `task` appended.
    pub open spec fn submit(self, task: TaskModel) -> QueueModel {
        QueueModel { waiting: self.waiting.push(task), total: self.total + 1, ..self }
    }

    /// Whether a start with this rate limit takes effect: the limit is not
    /// zero and the queue does not run yet.
    pub open spec fn starts(self, rate_limit: nat) -> bool {
        rate_limit != 0 && !self.running
    }

    /// The queue after a start.
    pub open spec fn start(self, rate_limit: nat, cooldown: nat) -> QueueModel {
        if self.starts(rate_limit) {
            QueueModel { running: true, rate_limit, cooldown, ..self }
        } else {
            self
        }
    }

    /// The queue after a cancellation: nothing new is taken from it.
    pub open spec fn cancel(self) -> QueueModel {
        QueueModel { running: false, ..self }
    }

    /// Whether nothing waits and nothing is in flight.
    pub open spec fn drained(self) -> bool {
        self.in_flight == 0 && self.waiting.len() == 0 && self.completed == self.total
    }

    /// What one turn of the driver decides.
    pub open spec fn step(self) -> StepModel {
        if !self.running {
            StepModel::Stopped
        } else if self.drained() {
            StepModel::Drained { total_completed: self.completed }
        } else if self.held >= self.rate_limit {
            StepModel::AwaitPermit
        } else if self.waiting.len() == 0 {
            StepModel::AwaitWorkers
        } else {
            StepModel::Dispatch(self.waiting[0])
        }
    }

    /// The queue after one turn of the driver.
    pub open spec fn after_step(self) -> QueueModel {
        match self.step() {
            StepModel::Drained { .. } => QueueModel {
                running: false,
                total: 0,
                completed: 0,
                ..self
            },
            StepModel::Dispatch(_) => QueueModel {
                waiting: self.waiting.subrange(1, self.waiting.len() as int),
                in_flight: self.in_flight + 1,
                held: self.held + 1,
                ..self
            },
            _ => self,
        }
    }

    /// The queue after a task has finished; unchanged where none is in flight.
    pub open spec fn finish(self) -> QueueModel {
        if self.in_flight > 0 {
            QueueModel {
                completed: self.completed + 1,
                in_flight: (self.in_flight - 1) as nat,
                ..self
            }
        } else {
            self
        }
    }

    /// The queue after a finished task's cooldown; unchanged where no permit
    /// cools down.
    pub open spec fn release(self) -> QueueModel {
        if self.held > self.in_flight {
            QueueModel { held: (self.held - 1) as nat, ..self }
        } else {
            self
        }
    }
}

/// One operation on a queue.
pub enum QueueOp {
    Submit(TaskModel),
    Start { rate_limit: nat, cooldown: nat },
    Cancel,
    Step,
    Finish,
    Release,
}

impl QueueModel {
    /// The queue after one operation.
    pub open spec fn apply(self, op: QueueOp) -> QueueModel {
        match op {
            QueueOp::Submit(task) => self.submit(task),
            QueueOp::Start { rate_limit, cooldown } => self.start(rate_limit, cooldown),
            QueueOp::Cancel => self.cancel(),
            QueueOp::Step => self.after_step(),
            QueueOp::Finish => self.finish(),
            QueueOp::Release => self.release(),
        }
    }

    /// The queue after the operations `ops`, one after another.
    pub open spec fn run(self, ops: Seq<QueueOp>) -> QueueModel
        decreases ops.len(),
    {
        if ops.len() == 0 {
            self
        } else {
            self.run(ops.drop_last()).apply(ops.last())
        }
    }
}

/// Whether every start among `ops` asks for the rate limit `k`, or for zero
/// and is refused.
pub open spec fn starts_with_limit(ops: Seq<QueueOp>, k: nat) -> bool {
    forall|i: int|
        0 <= i < ops.len() ==> (#[trigger] ops[i] matches QueueOp::Start { rate_limit, .. }
            ==> rate_limit == k || rate_limit == 0)
}

/// Every operation keeps a consistent queue consistent.
pub proof fn lemma_apply_wf(s: QueueModel, op: QueueOp)
    requires
        s.wf(),
    ensures
        s.apply(op).wf(),
{
    if op is Step && s.step() is Dispatch {
        assert(s.waiting.subrange(1, s.waiting.len() as int).len() == s.waiting.len() - 1);
    }
}

/// Conservation: after any operations on a new queue every submitted task
/// waits, is in flight or has finished; and where the driver's next turn
/// reports the batch as done, every submitted task has finished, none waits
/// and none is in flight.
pub proof fn lemma_conservation(ops: Seq<QueueOp>)
    ensures
        QueueModel::new().run(ops).wf(),
        QueueModel::new().run(ops).step() matches StepModel::Drained { total_completed } ==> {
            let s = QueueModel::new().run(ops);
            &&& s.completed == s.total
            &&& s.waiting.len() == 0
            &&& s.in_flight == 0
            &&& total_completed == s.total
        },
    decreases ops.len(),
{
    if ops.len() > 0 {
        lemma_conservation(ops.drop_last());
        lemma_apply_wf(QueueModel::new().run(ops.drop_last()), ops.last());
    }
}

/// Bounded concurrency: where every start asks for the rate limit `k`, after
/// any operations on a new queue at most `k` permits are out, and so at most
/// `k` tasks are in flight.
pub proof fn lemma_bounded_concurrency(ops: Seq<QueueOp>, k: nat)
    requires
        starts_with_limit(ops, k),
    ensures
        QueueModel::new().run(ops).in_flight <= QueueModel::new().run(ops).held,
        QueueModel::new().run(ops).held <= k,
        QueueModel::new().run(ops).running ==> QueueModel::new().run(ops).rate_limit == k,
    decreases ops.len(),
{
    if ops.len() > 0 {
        let before = ops.drop_last();
        assert forall|i: int| 0 <= i < before.len() implies (#[trigger] before[i] matches QueueOp::Start {
            rate_limit,
            ..
        } ==> rate_limit == k || rate_limit == 0) by {
            assert(before[i] == ops[i]);
        }
        lemma_bounded_concurrency(before, k);
        lemma_conservation(before);
        lemma_apply_wf(QueueModel::new().run(before), ops.last());
        assert(ops.last() == ops[ops.len() - 1]);
    }
}

/// A cancelled queue starts nothing: its driver stops, and the tasks that
/// wait stay as they are through every later turn, finish and release.
pub proof fn lemma_cancel_contains(s: QueueModel)
    ensures
        s.cancel().step() is Stopped,
        s.cancel().after_step() == s.cancel(),
        s.cancel().waiting == s.waiting,
        s.cancel().finish().waiting == s.waiting,
        s.cancel().release().waiting == s.waiting,
        !s.cancel().finish().running,
        !s.cancel().release().running,
{
}

/// The counts of a queue at one instant.
#[derive(Clone, Copy, Debug, PartialEq, Eq, Structural)]
pub struct QueueSnapshot {
    pub waiting: usize,
    pub in_flight: usize,
    pub completed: usize,
    pub total: usize,
    pub running: bool,
}

/// What the driver is to do next.
#[derive(Debug, PartialEq)]
pub enum Step {
    /// The queue does not run: leave the loop.
    Stopped,
    /// Every submitted task has finished: report it and leave the loop.
    Drained { total_completed: usize },
    /// All permits are out: wait for one to come back, then ask again.
    AwaitPermit,
    /// Nothing waits, but tasks are in flight: wait for one, then ask again.
    AwaitWorkers,
    /// The task at the head of the queue, for a worker to start on.
    Dispatch(InterfaceFetchParams),
}

impl View for Step {
    type V = StepModel;

    open spec fn view(&self) -> StepModel {
        match self {
            Step::Stopped => StepModel::Stopped,
            Step::Drained { total_completed } => StepModel::Drained {
                total_completed: *total_completed as nat,
            },
            Step::AwaitPermit => StepModel::AwaitPermit,
            Step::AwaitWorkers => StepModel::AwaitWorkers,
            Step::Dispatch(task) => StepModel::Dispatch(task@),
        }
    }
}

/// The waiting tasks and the counters of a batch.
pub struct Queue {
    waiting_queue: VecDeque<InterfaceFetchParams>,
    completed_count: usize,
    in_flight_count: usize,
    held_permits: usize,
    running: bool,
    rate_limit: usize,
    break_seconds: u64,
}

impl View for Queue {
    type V = QueueModel;

    closed spec fn view(&self) -> QueueModel {
        QueueModel {
            waiting: task_models(self.waiting_queue@),
            total: self.completed_count as nat + self.in_flight_count as nat
                + self.waiting_queue@.len(),
            completed: self.completed_count as nat,
            in_flight: self.in_flight_count as nat,
            held: self.held_permits as nat,
            running: self.running,
            rate_limit: self.rate_limit as nat,
            cooldown: self.break_seconds as nat,
        }
    }
}

impl Queue {
    /// Every task in flight holds a permit, and the tasks can be counted.
    #[verifier::type_invariant]
    spec fn inv(self) -> bool {
        &&& self.in_flight_count <= self.held_permits
        &&& self.completed_count + self.in_flight_count + self.waiting_queue@.len() <= usize::MAX
    }

    /// A queue without tasks that does not run.
    pub fn new() -> (r: Queue)
        ensures
            r@ == QueueModel::new(),
    {
        let queue = Queue {
            waiting_queue: VecDeque::new(),
            completed_count: 0,
            in_flight_count: 0,
            held_permits: 0,
            running: false,
            rate_limit: 0,
            break_seconds: 0,
        };
        assert(queue@.waiting =~= Seq::<TaskModel>::empty());
        queue
    }

    /// Appends a task to the waiting queue.
    pub fn add_task(&mut self, interface_fetch_params: InterfaceFetchParams)
        requires
            old(self)@.total < usize::MAX,
        ensures
            final(self)@ == old(self)@.submit(interface_fetch_params@),
    {
        proof {
            use_type_invariant(&*self);
        }
        let ghost before = self@.waiting;
        let mut waiting = VecDeque::new();
        std::mem::swap(&mut waiting, &mut self.waiting_queue);
        waiting.push_back(interface_fetch_params);
        self.waiting_queue = waiting;
        assert(self@.waiting =~= before.push(interface_fetch_params@));
    }

    /// Starts the queue with a rate limit and a cooldown in seconds. A rate
    /// limit of zero is refused; a queue that runs already stays as it is.
    pub fn start_task(&mut self, rate_limit: usize, break_seconds: u64) -> (r: Result<
        (),
        ConfigError,
    >)
        ensures
            r is Err <==> rate_limit == 0,
            final(self)@ == old(self)@.start(rate_limit as nat, break_seconds as nat),
    {
        proof {
            use_type_invariant(&*self);
        }
        if rate_limit == 0 {
            return Err(ConfigError);
        }
        if !self.running {
            self.running = true;
            self.rate_limit = rate_limit;
            self.break_seconds = break_seconds;
        }
        Ok(())
    }

    /// Stops the queue from starting new tasks. Tasks in flight go on, and
    /// the tasks that wait stay where they are.
    pub fn cancel_execute(&mut self)
        ensures
            final(self)@ == old(self)@.cancel(),
    {
        proof {
            use_type_invariant(&*self);
        }
        self.running = false;
    }

    /// Decides one turn of the driver: to stop, to report that the batch is
    /// done, to wait, or to start the task at the head of the queue.
    pub fn next_step(&mut self) -> (r: Step)
        ensures
            r@ == old(self)@.step(),
            final(self)@ == old(self)@.after_step(),
    {
        proof {
            use_type_invariant(&*self);
        }
        if !self.running {
            return Step::Stopped;
        }
        if self.in_flight_count == 0 && self.waiting_queue.len() == 0 {
            let total_completed = self.completed_count;
            self.running = false;
            self.completed_count = 0;
            return Step::Drained { total_completed };
        }
        if self.held_permits >= self.rate_limit {
            return Step::AwaitPermit;
        }
        let ghost before = self@.waiting;
        let mut waiting = VecDeque::new();
        std::mem::swap(&mut waiting, &mut self.waiting_queue);
        let head = waiting.pop_front();
        self.waiting_queue = waiting;
        match head {
            Some(task) => {
                self.held_permits = self.held_permits + 1;
                self.in_flight_count = self.in_flight_count + 1;
                assert(self@.waiting =~= before.subrange(1, before.len() as int));
                Step::Dispatch(task)
            },
            None => {
                assert(self@.waiting =~= before);
                Step::AwaitWorkers
            },
        }
    }

    /// Records that a task in flight has finished, whatever its outcome.
    /// Returns whether one was in flight.
    pub fn finish_task(&mut self) -> (r: bool)
        ensures
            r == (old(self)@.in_flight > 0),
            final(self)@ == old(self)@.finish(),
    {
        proof {
            use_type_invariant(&*self);
        }
        if self.in_flight_count > 0 {
            self.in_flight_count = self.in_flight_count - 1;
            self.completed_count = self.completed_count + 1;
            true
        } else {
            false
        }
    }

    /// Takes back the permit of a finished task once its cooldown is over.
    /// Returns whether a permit was cooling down.
    pub fn release_permit(&mut self) -> (r: bool)
        ensures
            r == (old(self)@.held > old(self)@.in_flight),
            final(self)@ == old(self)@.release(),
    {
        proof {
            use_type_invariant(&*self);
        }
        if self.held_permits > self.in_flight_count {
            self.held_permits = self.held_permits - 1;
            true
        } else {
            false
        }
    }

    /// The cooldown in seconds that the queue was started with.
    pub fn break_seconds(&self) -> (r: u64)
        ensures
            r == self@.cooldown,
    {
        self.break_seconds
    }

    /// The counts of the queue, which are consistent.
    pub fn snapshot(&self) -> (r: QueueSnapshot)
        ensures
            self@.wf(),
            r.waiting == self@.waiting.len(),
            r.in_flight == self@.in_flight,
            r.completed == self@.completed,
            r.total == self@.total,
            r.running == self@.running,
    {
        proof {
            use_type_invariant(self);
        }
        QueueSnapshot {
            waiting: self.waiting_queue.len(),
            in_flight: self.in_flight_count,
            completed: self.completed_count,
            total: self.completed_count + self.in_flight_count + self.waiting_queue.len(),
            running: self.running,
        }
    }
}

} // verus!
