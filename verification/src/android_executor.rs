//! A cooperative scheduler for one thread that a host can drive step by
//! step. It decides which task is polled next; polling itself, and whatever
//! the polled future does, is the host's part.
use std::collections::VecDeque;
use vstd::prelude::*;

verus! {

/// How many tasks may wait in the ready queue at once. A queue that is full
/// means a system that is stuck, so none is made larger.
pub const MAX_QUEUED_TASKS: usize = 10_000;

/// The name of a task of one executor.
#[derive(Clone, Copy, Debug, PartialEq, Eq, Structural)]
pub struct TaskId {
    pub index: usize,
}

/// Where a task stands.
#[derive(Clone, Copy, Debug, PartialEq, Eq, Structural)]
pub enum TaskState {
    /// Its future is stored and waits to be polled.
    Pending,
    /// Its future is out, being polled.
    Polling,
    /// Its future has resolved or was discarded; it is never polled again.
    Completed,
}

/// Why the executor refused.
#[derive(Clone, Copy, Debug, PartialEq, Eq, Structural)]
pub enum ExecutorError {
    /// The ready queue is full. This is fatal: the host is to abort.
    QueueOverflow,
    /// The task is none of this executor.
    UnknownTask,
}

/// What the host is to do next.
#[derive(Clone, Copy, Debug, PartialEq, Eq, Structural)]
pub enum Step {
    /// Nothing: no task was staged, or the staged one has no future to poll.
    Idle,
    /// Poll the future of the named task once and report with `finish_poll`.
    Poll(TaskId),
    /// Drop the future of the named task unpolled: it was cancelled.
    Discard(TaskId),
}

/// What the executor knows of one task.
pub struct TaskInfo {
    pub state: TaskState,
    pub cancelled: bool,
}

/// An executor, as contracts see it.
#[verifier::ext_equal]
pub struct ExecutorState {
    /// The tasks that are ready to be polled, the one woken first in front.
    pub queue: Seq<TaskId>,
    /// How many tasks the queue takes.
    pub capacity: nat,
    /// Every task that was spawned, by its index.
    pub tasks: Seq<TaskInfo>,
    /// The task that was received and not polled yet.
    pub staged: Option<TaskId>,
}

impl ExecutorState {
    /// Whether `task` is one of this executor.
    pub open spec fn knows(self, task: TaskId) -> bool {
        task.index < self.tasks.len()
    }

    /// Whether the queue has no room.
    pub open spec fn is_full(self) -> bool {
        self.queue.len() >= self.capacity
    }

    /// The queue holds no more than its capacity.
    pub open spec fn bounded(self) -> bool {
        self.queue.len() <= self.capacity
    }

    /// The executor with `task` in the state `state`.
    pub open spec fn with_state(self, task: TaskId, state: TaskState) -> ExecutorState {
        ExecutorState {
            tasks: self.tasks.update(
                task.index as int,
                TaskInfo { state, cancelled: self.tasks[task.index as int].cancelled },
            ),
            ..self
        }
    }

    /// The executor with `task` at the back of the queue.
    pub open spec fn enqueued(self, task: TaskId) -> ExecutorState {
        ExecutorState { queue: self.queue.push(task), ..self }
    }

    /// After a task was spawned: it is the newest, and its first poll is
    /// under way.
    pub open spec fn spawned(self) -> ExecutorState {
        ExecutorState {
            tasks: self.tasks.push(TaskInfo { state: TaskState::Polling, cancelled: false }),
            ..self
        }
    }

    /// Whether `task` is being polled.
    pub open spec fn is_polling(self, task: TaskId) -> bool {
        self.knows(task) && self.tasks[task.index as int].state is Polling
    }

    /// After the poll of `task` came back. A future that resolved completes
    /// its task; one that did not is stored again. A report for a task that
    /// is not being polled changes nothing.
    pub open spec fn poll_finished(self, task: TaskId, ready: bool) -> ExecutorState {
        if !self.is_polling(task) {
            self
        } else if ready {
            self.with_state(task, TaskState::Completed)
        } else {
            self.with_state(task, TaskState::Pending)
        }
    }

    /// After the first poll of a spawned task came back: as after any poll,
    /// and a task that is still pending goes to the back of the queue if
    /// there is room.
    pub open spec fn spawn_settled(self, task: TaskId, ready: bool) -> ExecutorState {
        let next = self.poll_finished(task, ready);
        if self.is_polling(task) && !ready && !self.is_full() {
            next.enqueued(task)
        } else {
            next
        }
    }

    /// After `task` was woken: it is at the back of the queue, once more
    /// than before, unless it is unknown or the queue is full.
    pub open spec fn woken(self, task: TaskId) -> ExecutorState {
        if self.knows(task) && !self.is_full() {
            self.enqueued(task)
        } else {
            self
        }
    }

    /// After the host asked for the next ready task: the front of the queue
    /// is staged, in place of whatever was staged before. Nothing changes
    /// where the queue is empty.
    pub open spec fn received(self) -> ExecutorState {
        if self.queue.len() == 0 {
            self
        } else {
            ExecutorState {
                queue: self.queue.subrange(1, self.queue.len() as int),
                staged: Some(self.queue[0]),
                ..self
            }
        }
    }

    /// What the host is told when it polls the staged task.
    pub open spec fn poll_order(self) -> Step {
        match self.staged {
            None => Step::Idle,
            Some(task) => if !self.knows(task) || !(self.tasks[task.index as int].state
                is Pending) {
                Step::Idle
            } else if self.tasks[task.index as int].cancelled {
                Step::Discard(task)
            } else {
                Step::Poll(task)
            },
        }
    }

    /// After the host polled the staged task: nothing is staged, and the
    /// task is being polled, or completed where it was discarded.
    pub open spec fn poll_begun(self) -> ExecutorState {
        let cleared = ExecutorState { staged: None, ..self };
        match self.poll_order() {
            Step::Idle => cleared,
            Step::Poll(task) => cleared.with_state(task, TaskState::Polling),
            Step::Discard(task) => cleared.with_state(task, TaskState::Completed),
        }
    }

    /// After `task` was cancelled: it is marked, and woken so that the next
    /// tick can discard it.
    pub open spec fn cancelled(self, task: TaskId) -> ExecutorState {
        if !self.knows(task) {
            self
        } else {
            (ExecutorState {
                tasks: self.tasks.update(
                    task.index as int,
                    TaskInfo { state: self.tasks[task.index as int].state, cancelled: true },
                ),
                ..self
            }).woken(task)
        }
    }

    /// The answer to waking `task`.
    pub open spec fn wake_answer(self, task: TaskId) -> Result<(), ExecutorError> {
        if !self.knows(task) {
            Err(ExecutorError::UnknownTask)
        } else if self.is_full() {
            Err(ExecutorError::QueueOverflow)
        } else {
            Ok(())
        }
    }
}

struct Task {
    state: TaskState,
    cancelled: bool,
}

/// The executor: a bounded queue of ready tasks, what is known of every
/// task, and a slot for the task that the host received.
pub struct AndroidExecutor {
    ready_queue: VecDeque<TaskId>,
    capacity: usize,
    tasks: Vec<Task>,
    staging_task: Option<TaskId>,
}

impl View for AndroidExecutor {
    type V = ExecutorState;

    closed spec fn view(&self) -> ExecutorState {
        ExecutorState {
            queue: self.ready_queue@,
            capacity: self.capacity as nat,
            tasks: Seq::new(
                self.tasks@.len(),
                |i: int| TaskInfo { state: self.tasks@[i].state, cancelled: self.tasks@[i].cancelled },
            ),
            staged: self.staging_task,
        }
    }
}

/// An executor without tasks whose queue takes `MAX_QUEUED_TASKS`. It is
/// its own spawner: whoever holds it can spawn on it.
pub fn new_executor_and_spawner() -> (executor: AndroidExecutor)
    ensures
        executor@ == (ExecutorState {
            queue: Seq::empty(),
            capacity: MAX_QUEUED_TASKS as nat,
            tasks: Seq::empty(),
            staged: None,
        }),
{
    AndroidExecutor::with_capacity(MAX_QUEUED_TASKS)
}

impl AndroidExecutor {
    /// An executor without tasks whose queue takes `capacity`.
    pub fn with_capacity(capacity: usize) -> (executor: AndroidExecutor)
        ensures
            executor@ == (ExecutorState {
                queue: Seq::empty(),
                capacity: capacity as nat,
                tasks: Seq::empty(),
                staged: None,
            }),
    {
        let executor = AndroidExecutor {
            ready_queue: VecDeque::new(),
            capacity,
            tasks: Vec::new(),
            staging_task: None,
        };
        assert(executor@.tasks =~= Seq::empty());
        executor
    }

    /// How many tasks wait in the queue.
    pub fn queued(&self) -> (n: usize)
        ensures
            n == self@.queue.len(),
    {
        self.ready_queue.len()
    }

    /// How many tasks the queue takes.
    pub fn capacity(&self) -> (n: usize)
        ensures
            n == self@.capacity,
    {
        self.capacity
    }

    /// The task that was received and not polled yet.
    pub fn staged(&self) -> (task: Option<TaskId>)
        ensures
            task == self@.staged,
    {
        self.staging_task
    }

    /// Where `task` stands, or `None` where it is unknown.
    pub fn state(&self, task: TaskId) -> (r: Option<TaskState>)
        ensures
            r == if self@.knows(task) {
                Some(self@.tasks[task.index as int].state)
            } else {
                None
            },
    {
        if task.index < self.tasks.len() {
            Some(self.tasks[task.index].state)
        } else {
            None
        }
    }

    /// Whether `task` was cancelled; `false` where it is unknown.
    pub fn is_cancelled(&self, task: TaskId) -> (b: bool)
        ensures
            b == (self@.knows(task) && self@.tasks[task.index as int].cancelled),
    {
        task.index < self.tasks.len() && self.tasks[task.index].cancelled
    }

    fn push_ready(&mut self, task: TaskId)
        ensures
            final(self)@ == old(self)@.enqueued(task),
    {
        self.ready_queue.push_back(task);
    }

    fn set_state(&mut self, task: TaskId, state: TaskState)
        requires
            old(self)@.knows(task),
        ensures
            final(self)@ == old(self)@.with_state(task, state),
    {
        let cancelled: bool = self.tasks[task.index].cancelled;
        self.tasks.set(task.index, Task { state, cancelled });
        assert(self@.tasks =~= old(self)@.with_state(task, state).tasks);
    }

    /// Registers a task whose future the host polls right away, once, with a
    /// waker bound to the task; `settle_spawn` takes the outcome.
    pub fn spawn(&mut self) -> (task: TaskId)
        ensures
            task.index == old(self)@.tasks.len(),
            final(self)@ == old(self)@.spawned(),
    {
        let index: usize = self.tasks.len();
        self.tasks.push(Task { state: TaskState::Polling, cancelled: false });
        assert(self@.tasks =~= old(self)@.spawned().tasks);
        TaskId { index }
    }

    /// Takes the outcome of the first poll of a spawned task. A task that is
    /// still pending is queued once; where the queue has no room for it the
    /// call fails with `QueueOverflow`, and the task stays pending, unqueued.
    /// A report for a task that is not being polled passes and changes
    /// nothing.
    pub fn settle_spawn(&mut self, task: TaskId, ready: bool) -> (r: Result<(), ExecutorError>)
        ensures
            final(self)@ == old(self)@.spawn_settled(task, ready),
            r == if old(self)@.is_polling(task) && !ready && old(self)@.is_full() {
                Err::<(), ExecutorError>(ExecutorError::QueueOverflow)
            } else {
                Ok::<(), ExecutorError>(())
            },
    {
        if !(task.index < self.tasks.len()) {
            return Ok(());
        }
        match self.tasks[task.index].state {
            TaskState::Polling => {},
            _ => {
                return Ok(());
            },
        }
        if ready {
            self.set_state(task, TaskState::Completed);
            Ok(())
        } else {
            let full: bool = self.ready_queue.len() >= self.capacity;
            self.set_state(task, TaskState::Pending);
            if full {
                Err(ExecutorError::QueueOverflow)
            } else {
                self.push_ready(task);
                Ok(())
            }
        }
    }

    /// Takes the outcome of a poll that `poll_staged_task` ordered. A report
    /// for a task that is not being polled changes nothing.
    pub fn finish_poll(&mut self, task: TaskId, ready: bool)
        ensures
            final(self)@ == old(self)@.poll_finished(task, ready),
    {
        if !(task.index < self.tasks.len()) {
            return ;
        }
        match self.tasks[task.index].state {
            TaskState::Polling => {},
            _ => {
                return ;
            },
        }
        if ready {
            self.set_state(task, TaskState::Completed);
        } else {
            self.set_state(task, TaskState::Pending);
        }
    }

    /// Puts `task` at the back of the ready queue, whether or not it waits
    /// there already. Fails with `UnknownTask` for a task of another
    /// executor and with `QueueOverflow` where the queue is full; the queue
    /// is then as it was, so no task that waits is lost.
    pub fn wake(&mut self, task: TaskId) -> (r: Result<(), ExecutorError>)
        ensures
            final(self)@ == old(self)@.woken(task),
            r == old(self)@.wake_answer(task),
    {
        if !(task.index < self.tasks.len()) {
            Err(ExecutorError::UnknownTask)
        } else if self.ready_queue.len() >= self.capacity {
            Err(ExecutorError::QueueOverflow)
        } else {
            self.push_ready(task);
            Ok(())
        }
    }

    /// Stages the task at the front of the ready queue and says `true`, or
    /// says `false` where none is ready: the host then waits for a wake.
    pub fn receive_next_ready_task(&mut self) -> (got: bool)
        ensures
            final(self)@ == old(self)@.received(),
            got == (old(self)@.queue.len() > 0),
    {
        match self.ready_queue.pop_front() {
            Some(task) => {
                self.staging_task = Some(task);
                true
            },
            None => false,
        }
    }

    /// Takes the staged task and tells the host what to do with it: poll its
    /// future, drop it because the task was cancelled, or nothing because
    /// the task has no future to poll.
    pub fn poll_staged_task(&mut self) -> (step: Step)
        ensures
            step == old(self)@.poll_order(),
            final(self)@ == old(self)@.poll_begun(),
    {
        let task: TaskId = match self.staging_task.take() {
            None => {
                return Step::Idle;
            },
            Some(task) => task,
        };
        if !(task.index < self.tasks.len()) {
            return Step::Idle;
        }
        match self.tasks[task.index].state {
            TaskState::Pending => {},
            _ => {
                return Step::Idle;
            },
        }
        if self.tasks[task.index].cancelled {
            self.set_state(task, TaskState::Completed);
            Step::Discard(task)
        } else {
            self.set_state(task, TaskState::Polling);
            Step::Poll(task)
        }
    }

    /// One turn of the run loop: receives the next ready task and polls it.
    /// `None` where no task is ready.
    pub fn run(&mut self) -> (r: Option<Step>)
        ensures
            final(self)@ == if old(self)@.queue.len() == 0 {
                old(self)@
            } else {
                old(self)@.received().poll_begun()
            },
            r == if old(self)@.queue.len() == 0 {
                None
            } else {
                Some(old(self)@.received().poll_order())
            },
    {
        if self.receive_next_ready_task() {
            Some(self.poll_staged_task())
        } else {
            None
        }
    }

    /// Cancels `task`: it is marked and woken, so that the next tick drops
    /// its future instead of polling it. The answer is that of the wake; the
    /// mark is set whenever the task is known.
    pub fn cancel(&mut self, task: TaskId) -> (r: Result<(), ExecutorError>)
        ensures
            final(self)@ == old(self)@.cancelled(task),
            r == old(self)@.wake_answer(task),
    {
        if !(task.index < self.tasks.len()) {
            return Err(ExecutorError::UnknownTask);
        }
        let state: TaskState = self.tasks[task.index].state;
        self.tasks.set(task.index, Task { state, cancelled: true });
        assert(self@.tasks =~= old(self)@.tasks.update(
            task.index as int,
            TaskInfo { state: old(self)@.tasks[task.index as int].state, cancelled: true },
        ));
        self.wake(task)
    }
}

/// The right to cancel a spawned task. A handle that is released cancels
/// its task unless it was leaked; a leaked one keeps the task alive until it
/// is discarded.
#[derive(Debug)]
pub struct CancellationHandle {
    task: Option<TaskId>,
    leaked: bool,
}

impl CancellationHandle {
    /// The task that the handle cancels, if it was spawned at all.
    pub closed spec fn target(&self) -> Option<TaskId> {
        self.task
    }

    /// Whether the handle was leaked.
    pub closed spec fn leaked(&self) -> bool {
        self.leaked
    }

    /// The task that the handle cancels, if it was spawned at all.
    pub fn task(&self) -> (task: Option<TaskId>)
        ensures
            task == self.target(),
    {
        self.task
    }

    /// Whether the handle was leaked.
    pub fn is_leaked(&self) -> (b: bool)
        ensures
            b == self.leaked(),
    {
        self.leaked
    }

    /// Detaches the task from the life of the handle: releasing the handle
    /// no longer cancels it.
    pub fn leak(self) -> (handle: CancellationHandle)
        ensures
            handle.target() == self.target(),
            handle.leaked(),
    {
        CancellationHandle { task: self.task, leaked: true }
    }
}

/// Spawns a task on the executor of this thread, if one is set up: the host
/// polls its future once and reports with `settle_spawn`. Without an
/// executor nothing is spawned.
pub fn spawn_local(spawner: &mut Option<AndroidExecutor>) -> (task: Option<TaskId>)
    ensures
        match *old(spawner) {
            None => task is None && *final(spawner) == *old(spawner),
            Some(executor) => {
                &&& task == Some(TaskId { index: executor@.tasks.len() as usize })
                &&& task->0.index == executor@.tasks.len()
                &&& *final(spawner) matches Some(after)
                &&& after@ == executor@.spawned()
            },
        },
{
    match spawner {
        None => None,
        Some(executor) => Some(executor.spawn()),
    }
}

/// Spawns a task as `spawn_local` does and hands back the right to cancel
/// it.
pub fn spawn_future(spawner: &mut Option<AndroidExecutor>) -> (handle: CancellationHandle)
    ensures
        !handle.leaked(),
        match *old(spawner) {
            None => handle.target() is None && *final(spawner) == *old(spawner),
            Some(executor) => {
                &&& handle.target() matches Some(task)
                &&& task.index == executor@.tasks.len()
                &&& *final(spawner) matches Some(after)
                &&& after@ == executor@.spawned()
            },
        },
{
    CancellationHandle { task: spawn_local(spawner), leaked: false }
}

impl AndroidExecutor {
    /// Takes a handle that its owner let go. The task of a handle that was
    /// not leaked is cancelled, with the answer of [`AndroidExecutor::cancel`];
    /// a leaked handle, or one without a task, changes nothing.
    pub fn release(&mut self, handle: CancellationHandle) -> (r: Result<(), ExecutorError>)
        ensures
            match handle.target() {
                Some(task) if !handle.leaked() => final(self)@ == old(self)@.cancelled(task) && r
                    == old(self)@.wake_answer(task),
                _ => final(self)@ == old(self)@ && r == Ok::<(), ExecutorError>(()),
            },
    {
        match handle.task {
            Some(task) => {
                if handle.leaked {
                    Ok(())
                } else {
                    self.cancel(task)
                }
            },
            None => Ok(()),
        }
    }

    /// Ends the task of a handle, leaked or not: it is cancelled, with the
    /// answer of [`AndroidExecutor::cancel`]. A handle without a task changes
    /// nothing.
    pub fn discard(&mut self, handle: CancellationHandle) -> (r: Result<(), ExecutorError>)
        ensures
            match handle.target() {
                Some(task) => final(self)@ == old(self)@.cancelled(task) && r == old(
                    self,
                )@.wake_answer(task),
                None => final(self)@ == old(self)@ && r == Ok::<(), ExecutorError>(()),
            },
    {
        match handle.task {
            Some(task) => self.cancel(task),
            None => Ok(()),
        }
    }
}

/// One call into the executor.
pub enum Event {
    Spawn,
    SettleSpawn(TaskId, bool),
    FinishPoll(TaskId, bool),
    Wake(TaskId),
    Receive,
    PollStaged,
    Cancel(TaskId),
}

impl ExecutorState {
    /// The executor after `event`.
    pub open spec fn after(self, event: Event) -> ExecutorState {
        match event {
            Event::Spawn => self.spawned(),
            Event::SettleSpawn(task, ready) => self.spawn_settled(task, ready),
            Event::FinishPoll(task, ready) => self.poll_finished(task, ready),
            Event::Wake(task) => self.woken(task),
            Event::Receive => self.received(),
            Event::PollStaged => self.poll_begun(),
            Event::Cancel(task) => self.cancelled(task),
        }
    }

    /// What the host is told to do by `event`.
    pub open spec fn order(self, event: Event) -> Step {
        match event {
            Event::PollStaged => self.poll_order(),
            _ => Step::Idle,
        }
    }

    /// The executor after each of `events` in turn.
    pub open spec fn after_all(self, events: Seq<Event>) -> ExecutorState
        decreases events.len(),
    {
        if events.len() == 0 {
            self
        } else {
            self.after_all(events.drop_last()).after(events.last())
        }
    }

    /// Whether `task` is marked as cancelled.
    pub open spec fn is_cancelled(self, task: TaskId) -> bool {
        self.knows(task) && self.tasks[task.index as int].cancelled
    }

    /// Whether `task` has completed.
    pub open spec fn is_completed(self, task: TaskId) -> bool {
        self.knows(task) && self.tasks[task.index as int].state is Completed
    }
}

/// The queue never holds more than its capacity, whatever is asked of the
/// executor.
pub proof fn law_queue_stays_bounded(s: ExecutorState, event: Event)
    requires
        s.bounded(),
    ensures
        s.after(event).bounded(),
{
}

/// A wake on a full queue is refused with `QueueOverflow`, and only there;
/// refused or not, every task that waited still waits, in the same order.
pub proof fn law_wake_loses_no_task(s: ExecutorState, task: TaskId)
    requires
        s.knows(task),
    ensures
        s.wake_answer(task) == Err::<(), ExecutorError>(ExecutorError::QueueOverflow)
            <==> s.is_full(),
        s.is_full() ==> s.woken(task) == s,
        !s.is_full() ==> s.woken(task).queue == s.queue.push(task),
        s.woken(task).queue.take(s.queue.len() as int) == s.queue,
{
    assert(s.woken(task).queue.take(s.queue.len() as int) =~= s.queue);
}

/// A task leaves the queue only from its front, into the staging slot: no
/// call drops a waiting task in silence.
pub proof fn law_queue_is_first_in_first_out(s: ExecutorState, event: Event)
    ensures
        ({
            let next = s.after(event);
            ||| next.queue == s.queue
            ||| exists|task: TaskId| next.queue == #[trigger] s.queue.push(task)
            ||| (s.queue.len() > 0 && next.queue == s.queue.subrange(1, s.queue.len() as int)
                && next.staged == Some(s.queue[0]))
        }),
{
    let next = s.after(event);
    match event {
        Event::SettleSpawn(task, ready) => {
            if next.queue != s.queue {
                assert(next.queue == s.queue.push(task));
            }
        },
        Event::Wake(task) => {
            if next.queue != s.queue {
                assert(next.queue == s.queue.push(task));
            }
        },
        Event::Cancel(task) => {
            if next.queue != s.queue {
                assert(next.queue == s.queue.push(task));
            }
        },
        _ => {},
    }
}

/// With `n` tasks waiting in a queue of capacity `n`, one task more is the
/// overflow: however the queue was filled, the next wake fails.
pub proof fn law_overflow_at_capacity(s: ExecutorState, tasks: Seq<TaskId>, extra: TaskId)
    requires
        s.queue.len() == 0,
        tasks.len() == s.capacity,
        s.knows(extra),
        forall|i: int| 0 <= i < tasks.len() ==> s.knows(#[trigger] tasks[i]),
    ensures
        s.after_all(tasks.map(|i: int, t: TaskId| Event::Wake(t))).queue == tasks,
        s.after_all(tasks.map(|i: int, t: TaskId| Event::Wake(t))).wake_answer(extra) == Err::<
            (),
            ExecutorError,
        >(ExecutorError::QueueOverflow),
{
    lemma_wakes_fill_queue(s, tasks, tasks.len());
    assert(tasks.take(tasks.len() as int) =~= tasks);
}

/// The first `n` of a run of wakes, none of which overflows, stand in the
/// queue in their order.
proof fn lemma_wakes_fill_queue(s: ExecutorState, tasks: Seq<TaskId>, n: nat)
    requires
        s.queue.len() == 0,
        n <= tasks.len() <= s.capacity,
        forall|i: int| 0 <= i < tasks.len() ==> s.knows(#[trigger] tasks[i]),
    ensures
        ({
            let next = s.after_all(tasks.take(n as int).map(|i: int, t: TaskId| Event::Wake(t)));
            &&& next.queue == tasks.take(n as int)
            &&& next.tasks == s.tasks
            &&& next.capacity == s.capacity
        }),
    decreases n,
{
    let events = tasks.take(n as int).map(|i: int, t: TaskId| Event::Wake(t));
    if n == 0 {
        assert(tasks.take(0) =~= Seq::<TaskId>::empty());
        assert(s.queue =~= Seq::<TaskId>::empty());
    } else {
        lemma_wakes_fill_queue(s, tasks, (n - 1) as nat);
        let before = tasks.take(n - 1).map(|i: int, t: TaskId| Event::Wake(t));
        assert(events.drop_last() =~= before);
        assert(events.last() == Event::Wake(tasks[n - 1]));
        assert(tasks.take(n - 1).push(tasks[n - 1]) =~= tasks.take(n as int));
    }
}

/// Cancelling is for good, and so is completing: no call takes the mark
/// from a task or brings a completed task back.
pub proof fn law_marks_stay(s: ExecutorState, task: TaskId, events: Seq<Event>)
    ensures
        s.knows(task) ==> s.after_all(events).knows(task),
        s.is_cancelled(task) ==> s.after_all(events).is_cancelled(task),
        s.is_completed(task) ==> s.after_all(events).is_completed(task),
    decreases events.len(),
{
    if events.len() > 0 {
        law_marks_stay(s, task, events.drop_last());
    }
}

/// Once a task is cancelled, the host is never again told to poll it:
/// whatever calls follow, and in whatever order, none of them orders a poll
/// of the task. A poll that is under way at the time is not cut short.
pub proof fn law_cancelled_is_never_polled(
    s: ExecutorState,
    task: TaskId,
    events: Seq<Event>,
    i: int,
)
    requires
        s.is_cancelled(task),
        0 <= i < events.len(),
    ensures
        s.after_all(events.take(i)).order(events[i]) != Step::Poll(task),
{
    law_marks_stay(s, task, events.take(i));
}

/// A task that has completed is never polled again: a wake that comes
/// late has no effect but an idle tick.
pub proof fn law_completed_is_never_polled(
    s: ExecutorState,
    task: TaskId,
    events: Seq<Event>,
    i: int,
)
    requires
        s.is_completed(task),
        0 <= i < events.len(),
    ensures
        s.after_all(events.take(i)).order(events[i]) != Step::Poll(task),
        s.after_all(events.take(i)).order(events[i]) != Step::Discard(task),
{
    law_marks_stay(s, task, events.take(i));
}

/// Polls do not overlap on one task: while a task is out for polling, no
/// tick orders another poll of it, and a poll is ordered only for a task
/// that is pending.
pub proof fn law_one_poll_at_a_time(s: ExecutorState, task: TaskId)
    ensures
        s.is_polling(task) ==> s.poll_order() != Step::Poll(task),
        s.poll_order() == Step::Poll(task) ==> s.knows(task) && s.tasks[task.index as int].state
            is Pending && s.poll_begun().is_polling(task),
{
}

/// The tick that follows a cancellation drops the future: when a cancelled
/// task that is pending is staged, the host is told to discard it, and the
/// task is completed.
pub proof fn law_cancelled_is_discarded(s: ExecutorState, task: TaskId)
    requires
        s.is_cancelled(task),
        s.staged == Some(task),
        s.tasks[task.index as int].state is Pending,
    ensures
        s.poll_order() == Step::Discard(task),
        s.poll_begun().is_completed(task),
{
}

} // verus!
