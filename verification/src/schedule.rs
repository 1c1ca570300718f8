//! Scheduling transfers so that only a fixed number run at any time.
//!
//! A [`DownloadScheduler`] decides which task may start and keeps count of
//! how the transfers ended. Whoever drives it carries the transfers out and
//! reports each one's end, in whatever order they end.

use vstd::prelude::*;
use crate::assets::{task_views, DownloadTask, TaskView};
use crate::error::AlbumError;
use crate::reply::Reply;

verus! {

/// How far one task has come.
#[derive(Debug, Clone, Copy, PartialEq, Eq, Structural)]
pub enum TaskState {
    /// Not started yet.
    Waiting,
    /// Started and not yet over.
    Running,
    /// Over; the photo was saved.
    Succeeded,
    /// Over; the photo was not saved.
    Failed,
}

/// How one transfer ended.
#[derive(Debug, Clone, Copy, PartialEq, Eq, Structural)]
pub enum TransferOutcome {
    /// The content was received and written to its file.
    Saved,
    /// The request could not be carried out, was answered with a status other
    /// than success, or the content could not be written.
    Failed,
}

impl TransferOutcome {
    /// The state of a task whose transfer ended this way.
    pub open spec fn state(self) -> TaskState {
        match self {
            TransferOutcome::Saved => TaskState::Succeeded,
            TransferOutcome::Failed => TaskState::Failed,
        }
    }
}

/// How the transfer ended that got `reply` to its request. The body of the
/// reply stands for the content: it is there where the content was received
/// and written to its file. A request that could not be carried out, a
/// status other than success and content that was not saved are failures.
pub open spec fn outcome_of(reply: Reply<()>) -> TransferOutcome {
    if reply.accepted() is Some {
        TransferOutcome::Saved
    } else {
        TransferOutcome::Failed
    }
}

/// Says how the transfer ended that got `reply` to its request.
pub fn transfer_outcome(reply: Reply<()>) -> (r: TransferOutcome)
    ensures
        r == outcome_of(reply),
{
    match reply.into_body() {
        Some(_) => TransferOutcome::Saved,
        None => TransferOutcome::Failed,
    }
}

/// How many photos were saved and how many were not.
#[derive(Debug, Clone, Copy, PartialEq, Eq, Structural)]
pub struct DownloadReport {
    pub succeeded: usize,
    pub failed: usize,
}

impl DownloadReport {
    /// The report as the result of the whole download: an error that carries
    /// the number of failures where there was any, the report itself otherwise.
    pub open spec fn result(self) -> Result<DownloadReport, AlbumError> {
        if self.failed > 0 {
            Err(AlbumError::PartialDownloadFailure(self.failed))
        } else {
            Ok(self)
        }
    }

    /// Turns the report into the result of the whole download.
    pub fn into_result(self) -> (r: Result<DownloadReport, AlbumError>)
        ensures
            r == self.result(),
    {
        if self.failed > 0 {
            Err(AlbumError::PartialDownloadFailure(self.failed))
        } else {
            Ok(self)
        }
    }
}

/// The number of tasks in `states` that are in state `s`.
pub open spec fn count_of(states: Seq<TaskState>, s: TaskState) -> nat
    decreases states.len(),
{
    if states.len() == 0 {
        0
    } else {
        count_of(states.drop_last(), s) + if states.last() == s {
            1nat
        } else {
            0nat
        }
    }
}

/// Changing the state of one task moves it from one count to another.
pub proof fn lemma_count_update(states: Seq<TaskState>, i: int, to: TaskState, s: TaskState)
    requires
        0 <= i < states.len(),
    ensures
        count_of(states.update(i, to), s) + (if states[i] == s {
            1nat
        } else {
            0nat
        }) == count_of(states, s) + (if to == s {
            1nat
        } else {
            0nat
        }),
    decreases states.len(),
{
    let after = states.update(i, to);
    if i == states.len() - 1 {
        assert(after.drop_last() == states.drop_last());
    } else {
        assert(after.drop_last() == states.drop_last().update(i, to));
        lemma_count_update(states.drop_last(), i, to, s);
    }
}

/// Every task is in exactly one state.
pub proof fn lemma_counts_total(states: Seq<TaskState>)
    ensures
        count_of(states, TaskState::Waiting) + count_of(states, TaskState::Running) + count_of(
            states,
            TaskState::Succeeded,
        ) + count_of(states, TaskState::Failed) == states.len(),
    decreases states.len(),
{
    if states.len() > 0 {
        lemma_counts_total(states.drop_last());
    }
}

/// No task is counted where no task is in that state.
pub proof fn lemma_count_none(states: Seq<TaskState>, s: TaskState)
    requires
        forall|i: int| 0 <= i < states.len() ==> states[i] != s,
    ensures
        count_of(states, s) == 0,
    decreases states.len(),
{
    if states.len() > 0 {
        lemma_count_none(states.drop_last(), s);
    }
}

/// A task in a state is counted.
pub proof fn lemma_count_some(states: Seq<TaskState>, i: int)
    requires
        0 <= i < states.len(),
    ensures
        count_of(states, states[i]) > 0,
    decreases states.len(),
{
    if i < states.len() - 1 {
        lemma_count_some(states.drop_last(), i);
    }
}

/// The states of `n` tasks of which none has started.
pub open spec fn all_waiting(n: nat) -> Seq<TaskState> {
    Seq::new(n, |i: int| TaskState::Waiting)
}

/// What can happen to a scheduler.
pub enum SchedulerEvent {
    /// It is asked to start a task.
    Start,
    /// It is told that the transfer of the task at `index` ended.
    End { index: int, outcome: TransferOutcome },
}

/// What a [`DownloadScheduler`] holds.
pub struct SchedulerView {
    /// The largest number of transfers that may run at a time.
    pub capacity: nat,
    /// The tasks, in the order in which they start.
    pub tasks: Seq<TaskView>,
    /// The state of each task.
    pub states: Seq<TaskState>,
}

impl SchedulerView {
    /// A scheduler for `tasks` of which none has started.
    pub open spec fn start(tasks: Seq<TaskView>, capacity: nat) -> SchedulerView {
        SchedulerView { capacity, tasks, states: all_waiting(tasks.len()) }
    }

    /// The number of transfers that are running.
    pub open spec fn in_flight(self) -> nat {
        count_of(self.states, TaskState::Running)
    }

    /// The number of tasks that have not started.
    pub open spec fn waiting(self) -> nat {
        count_of(self.states, TaskState::Waiting)
    }

    /// The number of photos saved so far.
    pub open spec fn succeeded(self) -> nat {
        count_of(self.states, TaskState::Succeeded)
    }

    /// The number of transfers that failed so far.
    pub open spec fn failed(self) -> nat {
        count_of(self.states, TaskState::Failed)
    }

    /// Whether every transfer is over.
    pub open spec fn finished(self) -> bool {
        self.waiting() == 0 && self.in_flight() == 0
    }

    /// Whether task `i` is the one to start next: the first that waits.
    pub open spec fn is_next(self, i: int) -> bool {
        &&& 0 <= i < self.states.len()
        &&& self.states[i] == TaskState::Waiting
        &&& forall|j: int| 0 <= j < i ==> self.states[j] != TaskState::Waiting
    }

    /// Whether a transfer may start: a task waits, and fewer transfers run
    /// than the capacity allows.
    pub open spec fn may_start(self) -> bool {
        self.waiting() > 0 && self.in_flight() < self.capacity
    }

    /// The same scheduler with task `i` in state `to`.
    pub open spec fn with_state(self, i: int, to: TaskState) -> SchedulerView {
        SchedulerView { states: self.states.update(i, to), ..self }
    }

    /// The position of the task to start next, meaningful where a task waits.
    pub open spec fn next_index(self) -> int {
        choose|i: int| self.is_next(i)
    }

    /// The scheduler after it was asked to start a task: the first task that
    /// waits is running if a transfer may start, and nothing has changed if
    /// none may.
    pub open spec fn started(self) -> SchedulerView {
        if self.may_start() {
            self.with_state(self.next_index(), TaskState::Running)
        } else {
            self
        }
    }

    /// Whether the transfer of task `i` is running.
    pub open spec fn is_running(self, i: int) -> bool {
        0 <= i < self.states.len() && self.states[i] == TaskState::Running
    }

    /// The scheduler after it was told that the transfer of task `i` ended:
    /// the task is over if its transfer was running, and nothing has changed
    /// if it was not.
    pub open spec fn ended(self, i: int, outcome: TransferOutcome) -> SchedulerView {
        if self.is_running(i) {
            self.with_state(i, outcome.state())
        } else {
            self
        }
    }

    /// The scheduler after `event`.
    pub open spec fn after(self, event: SchedulerEvent) -> SchedulerView {
        match event {
            SchedulerEvent::Start => self.started(),
            SchedulerEvent::End { index, outcome } => self.ended(index, outcome),
        }
    }

    /// The scheduler after `events`, in order.
    pub open spec fn after_all(self, events: Seq<SchedulerEvent>) -> SchedulerView
        decreases events.len(),
    {
        if events.len() == 0 {
            self
        } else {
            self.after_all(events.drop_last()).after(events.last())
        }
    }

    /// What holds of a scheduler at all times: each task has a state, no
    /// more transfers run than the capacity allows, and the tasks start in
    /// order, so that those that wait come after all others.
    pub open spec fn valid(self) -> bool {
        &&& self.states.len() == self.tasks.len()
        &&& self.in_flight() <= self.capacity
        &&& forall|i: int, j: int|
            0 <= i < j < self.states.len() && self.states[i] == TaskState::Waiting
                ==> self.states[j] == TaskState::Waiting
    }
}

/// A scheduler whose tasks all wait runs nothing and has counted nothing.
pub proof fn lemma_start_valid(tasks: Seq<TaskView>, capacity: nat)
    ensures
        SchedulerView::start(tasks, capacity).valid(),
        SchedulerView::start(tasks, capacity).in_flight() == 0,
        SchedulerView::start(tasks, capacity).succeeded() == 0,
        SchedulerView::start(tasks, capacity).failed() == 0,
        SchedulerView::start(tasks, capacity).waiting() == tasks.len(),
{
    let states = all_waiting(tasks.len());
    lemma_count_none(states, TaskState::Running);
    lemma_count_none(states, TaskState::Succeeded);
    lemma_count_none(states, TaskState::Failed);
    lemma_counts_total(states);
}

/// Only one task is the one to start next.
pub proof fn lemma_next_unique(s: SchedulerView, i: int)
    requires
        s.is_next(i),
    ensures
        s.next_index() == i,
{
    let n = s.next_index();
    assert(s.is_next(n));
    if n < i {
        assert(s.states[n] != TaskState::Waiting);
    }
    if i < n {
        assert(s.states[i] != TaskState::Waiting);
    }
}

/// The first task in state `Waiting` at or after `from`.
proof fn first_waiting(states: Seq<TaskState>, from: int) -> (i: int)
    requires
        0 <= from <= states.len(),
        forall|j: int| 0 <= j < from ==> states[j] != TaskState::Waiting,
        count_of(states, TaskState::Waiting) > 0,
    ensures
        0 <= i < states.len(),
        states[i] == TaskState::Waiting,
        forall|j: int| 0 <= j < i ==> states[j] != TaskState::Waiting,
    decreases states.len() - from,
{
    if from == states.len() {
        lemma_count_none(states, TaskState::Waiting);
        from
    } else if states[from] == TaskState::Waiting {
        from
    } else {
        first_waiting(states, from + 1)
    }
}

/// Where a task waits, there is one to start next.
pub proof fn lemma_next_exists(s: SchedulerView)
    requires
        s.waiting() > 0,
    ensures
        s.is_next(s.next_index()),
{
    let i = first_waiting(s.states, 0);
    assert(s.is_next(i));
}

/// Asking a scheduler to start a task never lets more transfers run than
/// the capacity allows: a task is started only while fewer run.
pub proof fn lemma_started_valid(s: SchedulerView)
    requires
        s.valid(),
    ensures
        s.started().valid(),
        s.started().in_flight() <= s.capacity,
        s.may_start() ==> {
            &&& s.is_next(s.next_index())
            &&& s.started().in_flight() == s.in_flight() + 1
            &&& s.started().waiting() == s.waiting() - 1
            &&& s.started().succeeded() == s.succeeded()
            &&& s.started().failed() == s.failed()
        },
{
    if s.may_start() {
        lemma_next_exists(s);
        let i = s.next_index();
        lemma_count_update(s.states, i, TaskState::Running, TaskState::Running);
        lemma_count_update(s.states, i, TaskState::Running, TaskState::Waiting);
        lemma_count_update(s.states, i, TaskState::Running, TaskState::Succeeded);
        lemma_count_update(s.states, i, TaskState::Running, TaskState::Failed);
    }
}

/// The end of a running transfer frees its place and is counted once, as a
/// success or as a failure; no other count changes.
pub proof fn lemma_ended_valid(s: SchedulerView, i: int, outcome: TransferOutcome)
    requires
        s.valid(),
    ensures
        s.ended(i, outcome).valid(),
        s.is_running(i) ==> {
            &&& s.ended(i, outcome).in_flight() == s.in_flight() - 1
            &&& s.ended(i, outcome).waiting() == s.waiting()
            &&& s.ended(i, outcome).succeeded() == s.succeeded() + if outcome
                == TransferOutcome::Saved {
                1nat
            } else {
                0nat
            }
            &&& s.ended(i, outcome).failed() == s.failed() + if outcome == TransferOutcome::Failed {
                1nat
            } else {
                0nat
            }
        },
{
    if s.is_running(i) {
        let to = outcome.state();
        lemma_count_update(s.states, i, to, TaskState::Running);
        lemma_count_update(s.states, i, to, TaskState::Waiting);
        lemma_count_update(s.states, i, to, TaskState::Succeeded);
        lemma_count_update(s.states, i, to, TaskState::Failed);
    }
}

/// Whatever happens to a scheduler, and in whatever order, it never lets
/// more transfers run than its capacity allows.
pub proof fn lemma_capacity_is_kept(
    tasks: Seq<TaskView>,
    capacity: nat,
    events: Seq<SchedulerEvent>,
)
    ensures
        SchedulerView::start(tasks, capacity).after_all(events).valid(),
        SchedulerView::start(tasks, capacity).after_all(events).in_flight() <= capacity,
        SchedulerView::start(tasks, capacity).after_all(events).capacity == capacity,
        SchedulerView::start(tasks, capacity).after_all(events).tasks == tasks,
    decreases events.len(),
{
    let start = SchedulerView::start(tasks, capacity);
    if events.len() == 0 {
        lemma_start_valid(tasks, capacity);
    } else {
        lemma_capacity_is_kept(tasks, capacity, events.drop_last());
        let before = start.after_all(events.drop_last());
        match events.last() {
            SchedulerEvent::Start => {
                lemma_started_valid(before);
            },
            SchedulerEvent::End { index, outcome } => {
                lemma_ended_valid(before, index, outcome);
            },
        }
    }
}

/// Once every transfer is over, each task has been counted exactly once.
pub proof fn lemma_finished_counts(s: SchedulerView)
    requires
        s.valid(),
        s.finished(),
    ensures
        s.succeeded() + s.failed() == s.tasks.len(),
{
    lemma_counts_total(s.states);
}

/// While transfers remain and at least one may run at a time, either a
/// task can start or a transfer is running: the download never stalls.
pub proof fn lemma_never_stalls(s: SchedulerView)
    requires
        s.valid(),
        s.capacity >= 1,
        !s.finished(),
    ensures
        s.may_start() || s.in_flight() >= 1,
{
}

/// Lets transfers start up to a fixed number at a time and counts how they end.
#[derive(Debug)]
pub struct DownloadScheduler {
    tasks: Vec<DownloadTask>,
    states: Vec<TaskState>,
    capacity: usize,
    next: usize,
    running: usize,
    succeeded: usize,
    failed: usize,
}

impl View for DownloadScheduler {
    type V = SchedulerView;

    closed spec fn view(&self) -> SchedulerView {
        SchedulerView {
            capacity: self.capacity as nat,
            tasks: task_views(self.tasks@),
            states: self.states@,
        }
    }
}

impl DownloadScheduler {
    #[verifier::type_invariant]
    spec fn well_formed(&self) -> bool {
        &&& self.states@.len() == self.tasks@.len()
        &&& self.next <= self.states@.len()
        &&& forall|i: int| 0 <= i < self.next ==> self.states@[i] != TaskState::Waiting
        &&& forall|i: int| self.next <= i < self.states@.len() ==> self.states@[i] == TaskState::Waiting
        &&& self.running == count_of(self.states@, TaskState::Running)
        &&& self.succeeded == count_of(self.states@, TaskState::Succeeded)
        &&& self.failed == count_of(self.states@, TaskState::Failed)
        &&& self.running <= self.capacity
    }

    /// A scheduler for `tasks`, none of them started, that lets at most
    /// `capacity` transfers run at a time. A capacity larger than the number
    /// of tasks lets them all run at once; with a capacity of zero no task
    /// ever starts.
    pub fn new(tasks: Vec<DownloadTask>, capacity: usize) -> (r: Self)
        ensures
            r@ == SchedulerView::start(task_views(tasks@), capacity as nat),
            r@.valid(),
            r@.waiting() == tasks@.len(),
            r@.in_flight() == 0,
            r@.succeeded() == 0,
            r@.failed() == 0,
    {
        let n: usize = tasks.len();
        let mut states: Vec<TaskState> = Vec::new();
        let mut i: usize = 0;
        while i < n
            invariant
                i <= n,
                states@ == all_waiting(i as nat),
            decreases n - i,
        {
            states.push(TaskState::Waiting);
            i += 1;
            assert(states@ =~= all_waiting(i as nat));
        }
        proof {
            lemma_start_valid(task_views(tasks@), capacity as nat);
        }
        DownloadScheduler { tasks, states, capacity, next: 0, running: 0, succeeded: 0, failed: 0 }
    }

    /// A scheduler without tasks and without capacity: nothing waits, runs or is counted.
    fn idle() -> (r: Self)
        ensures
            r@ == SchedulerView::start(Seq::empty(), 0),
            r@.valid(),
            r@.finished(),
            r@.succeeded() == 0,
            r@.failed() == 0,
    {
        let tasks: Vec<DownloadTask> = Vec::new();
        let states: Vec<TaskState> = Vec::new();
        proof {
            lemma_start_valid(Seq::empty(), 0);
            assert(task_views(tasks@) =~= Seq::empty());
            assert(states@ =~= all_waiting(0));
        }
        DownloadScheduler { tasks, states, capacity: 0, next: 0, running: 0, succeeded: 0, failed: 0 }
    }

    /// The number of tasks.
    pub fn len(&self) -> (r: usize)
        ensures
            r == self@.tasks.len(),
            self@.valid(),
    {
        proof {
            use_type_invariant(self);
        }
        self.tasks.len()
    }

    /// The task at `index`, where there is one.
    pub fn task(&self, index: usize) -> (r: Option<&DownloadTask>)
        ensures
            match r {
                Some(task) => index < self@.tasks.len() && task@ == self@.tasks[index as int],
                None => index >= self@.tasks.len(),
            },
    {
        if index < self.tasks.len() {
            Some(&self.tasks[index])
        } else {
            None
        }
    }

    /// The task at `index`.
    pub fn task_at(&self, index: usize) -> (r: &DownloadTask)
        requires
            index < self@.tasks.len(),
        ensures
            r@ == self@.tasks[index as int],
    {
        &self.tasks[index]
    }

    /// The number of transfers that are running.
    pub fn in_flight(&self) -> (r: usize)
        ensures
            r == self@.in_flight(),
            self@.valid(),
    {
        proof {
            use_type_invariant(self);
        }
        self.running
    }

    /// Whether every transfer is over.
    pub fn is_finished(&self) -> (r: bool)
        ensures
            r == self@.finished(),
            self@.valid(),
    {
        proof {
            use_type_invariant(self);
            if self.next < self.states@.len() {
                lemma_count_some(self.states@, self.next as int);
            } else {
                lemma_count_none(self.states@, TaskState::Waiting);
            }
        }
        self.next == self.states.len() && self.running == 0
    }

    /// The transfers that have ended so far, counted by how they ended.
    /// Once every transfer is over, each task is counted exactly once.
    pub fn report(&self) -> (r: DownloadReport)
        ensures
            r.succeeded == self@.succeeded(),
            r.failed == self@.failed(),
            self@.finished() ==> r.succeeded + r.failed == self@.tasks.len(),
    {
        proof {
            use_type_invariant(self);
            lemma_counts_total(self.states@);
        }
        DownloadReport { succeeded: self.succeeded, failed: self.failed }
    }

    /// The result of the whole download, once every transfer is over.
    pub fn outcome(&self) -> (r: Option<Result<DownloadReport, AlbumError>>)
        ensures
            r == if self@.finished() {
                Some(
                    (DownloadReport {
                        succeeded: self@.succeeded() as usize,
                        failed: self@.failed() as usize,
                    }).result(),
                )
            } else {
                None
            },
    {
        if self.is_finished() {
            Some(self.report().into_result())
        } else {
            None
        }
    }

    /// Starts the next task if a transfer may start: the first task that
    /// waits, provided that fewer transfers run than the capacity allows.
    /// Returns the position of the started task.
    pub fn start_next(&mut self) -> (r: Option<usize>)
        ensures
            final(self)@ == old(self)@.started(),
            final(self)@.valid(),
            match r {
                Some(i) => old(self)@.may_start() && old(self)@.is_next(i as int),
                None => !old(self)@.may_start(),
            },
    {
        proof {
            use_type_invariant(&*self);
            lemma_started_valid(self@);
            if self.next < self.states@.len() {
                lemma_count_some(self.states@, self.next as int);
                lemma_next_unique(self@, self.next as int);
            } else {
                lemma_count_none(self.states@, TaskState::Waiting);
            }
        }
        if self.next < self.states.len() && self.running < self.capacity {
            let mut taken = Self::idle();
            core::mem::swap(self, &mut taken);
            let DownloadScheduler { tasks, mut states, capacity, next, running, succeeded, failed } =
                taken;
            states.set(next, TaskState::Running);
            *self = DownloadScheduler {
                tasks,
                states,
                capacity,
                next: next + 1,
                running: running + 1,
                succeeded,
                failed,
            };
            Some(next)
        } else {
            None
        }
    }

    /// Records how the transfer of the task at `index` ended. Only a task
    /// that is running can end: for any other position nothing changes, and
    /// the result is `false`.
    pub fn complete(&mut self, index: usize, outcome: TransferOutcome) -> (r: bool)
        ensures
            final(self)@ == old(self)@.ended(index as int, outcome),
            final(self)@.valid(),
            r == old(self)@.is_running(index as int),
    {
        proof {
            use_type_invariant(&*self);
            lemma_ended_valid(self@, index as int, outcome);
        }
        if index >= self.states.len() {
            return false;
        }
        match self.states[index] {
            TaskState::Running => {},
            _ => {
                return false;
            },
        }
        let mut taken = Self::idle();
        core::mem::swap(self, &mut taken);
        let DownloadScheduler { tasks, mut states, capacity, next, running, succeeded, failed } =
            taken;
        let to: TaskState = match outcome {
            TransferOutcome::Saved => TaskState::Succeeded,
            TransferOutcome::Failed => TaskState::Failed,
        };
        proof {
            lemma_counts_total(states@.update(index as int, to));
        }
        states.set(index, to);
        *self = match outcome {
            TransferOutcome::Saved => DownloadScheduler {
                tasks,
                states,
                capacity,
                next,
                running: running - 1,
                succeeded: succeeded + 1,
                failed,
            },
            TransferOutcome::Failed => DownloadScheduler {
                tasks,
                states,
                capacity,
                next,
                running: running - 1,
                succeeded,
                failed: failed + 1,
            },
        };
        true
    }
}

} // verus!
