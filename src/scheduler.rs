//! The single-threaded cooperative scheduler: a ready-queue of task ids and
//! the state of each task's exclusive-access cell.
//!
//! The host drives it: it hands each new unit of work to `spawn`, delivers
//! every notifier invocation to `wake`, and resumes the task that
//! `pop_ready` names, reporting the outcome to `finish`.
use std::collections::VecDeque;
use vstd::prelude::*;

verus! {

/// The state of one task.
#[derive(Clone, Copy, Debug, PartialEq, Eq, Structural)]
pub enum TaskState {
    /// Not being resumed and not finished: queued or waiting for a wake.
    Idle,
    /// Being resumed: its access cell is held.
    Running,
    /// Finished: its unit of work has been dropped.
    Done,
}

/// Abstract state of a [`MiniTokio`].
pub struct SchedulerModel {
    /// The ready-queue, front first.
    pub ready: Seq<usize>,
    /// The state of each spawned task, indexed by task id.
    pub tasks: Seq<TaskState>,
    /// The task being resumed, if any.
    pub current: Option<usize>,
}

impl SchedulerModel {
    /// Every queued id names a spawned task, and a task is running exactly
    /// when it is the one being resumed.
    pub open spec fn wf(self) -> bool {
        &&& forall|i: int| 0 <= i < self.ready.len() ==> #[trigger] self.ready[i] < self.tasks.len()
        &&& forall|i: int|
            0 <= i < self.tasks.len() ==> (#[trigger] self.tasks[i] == TaskState::Running
                <==> self.current == Some(i as usize))
        &&& self.current matches Some(c) ==> c < self.tasks.len()
        &&& self.tasks.len() <= usize::MAX
    }

    /// Every spawned task has finished.
    pub open spec fn all_done(self) -> bool {
        forall|i: int| 0 <= i < self.tasks.len() ==> #[trigger] self.tasks[i] == TaskState::Done
    }

    /// Nothing is being resumed and no task is left to run or to wait for.
    pub open spec fn finished(self) -> bool {
        self.current is None && self.all_done()
    }
}

/// An empty scheduler.
pub open spec fn empty_model() -> SchedulerModel {
    SchedulerModel { ready: Seq::empty(), tasks: Seq::empty(), current: None }
}

/// Spawning: the new task takes the next id and is queued at once.
pub open spec fn spawn_step(m: SchedulerModel) -> (SchedulerModel, usize) {
    (
        SchedulerModel {
            ready: m.ready.push(m.tasks.len() as usize),
            tasks: m.tasks.push(TaskState::Idle),
            ..m
        },
        m.tasks.len() as usize,
    )
}

/// A notifier invocation for task `id`: the task enters the queue once more.
pub open spec fn wake_step(m: SchedulerModel, id: usize) -> SchedulerModel {
    SchedulerModel { ready: m.ready.push(id), ..m }
}

/// The queue once its leading entries for finished tasks are dropped.
pub open spec fn skip_done(ready: Seq<usize>, tasks: Seq<TaskState>) -> Seq<usize>
    decreases ready.len(),
{
    if ready.len() == 0 {
        ready
    } else if tasks[ready[0] as int] == TaskState::Done {
        skip_done(ready.drop_first(), tasks)
    } else {
        ready
    }
}

/// Taking the next task to resume: the first queued task that has not
/// finished, which then holds its access cell.
pub open spec fn pop_step(m: SchedulerModel) -> (SchedulerModel, Option<usize>) {
    let s = skip_done(m.ready, m.tasks);
    if s.len() == 0 {
        (SchedulerModel { ready: s, ..m }, None)
    } else {
        (
            SchedulerModel {
                ready: s.drop_first(),
                tasks: m.tasks.update(s[0] as int, TaskState::Running),
                current: Some(s[0]),
            },
            Some(s[0]),
        )
    }
}

/// What the drive loop does next.
#[derive(Clone, Copy, Debug, PartialEq, Eq, Structural)]
pub enum Turn {
    /// Poll the task with the given id; it holds its access cell until `finish`.
    Run(usize),
    /// Block until a notifier is invoked: some task still waits for a wake.
    Wait,
    /// Return: every task has finished.
    Stop,
}

/// The drive loop's decision: resume the next queued unfinished task; with
/// none queued, stop once every task has finished and wait otherwise.
pub open spec fn turn_step(m: SchedulerModel) -> (SchedulerModel, Turn) {
    let (m1, r) = pop_step(m);
    (m1, match r {
        Some(id) => Turn::Run(id),
        None => if m1.finished() { Turn::Stop } else { Turn::Wait },
    })
}

/// The end of a resumption of task `id`: it finished, or it waits for a wake.
pub open spec fn finish_step(m: SchedulerModel, id: usize, done: bool) -> SchedulerModel {
    SchedulerModel {
        tasks: m.tasks.update(id as int, if done { TaskState::Done } else { TaskState::Idle }),
        current: None,
        ..m
    }
}

/// How many times `x` occurs in `s`.
pub open spec fn occurrences(s: Seq<usize>, x: usize) -> nat
    decreases s.len(),
{
    if s.len() == 0 {
        0
    } else {
        occurrences(s.drop_last(), x) + if s.last() == x { 1nat } else { 0nat }
    }
}

/// The entries left after dropping leading finished tasks are a suffix of
/// the queue, led by an unfinished task.
pub proof fn lemma_skip_done(ready: Seq<usize>, tasks: Seq<TaskState>)
    requires
        forall|i: int| 0 <= i < ready.len() ==> #[trigger] ready[i] < tasks.len(),
    ensures
        skip_done(ready, tasks).len() <= ready.len(),
        skip_done(ready, tasks) =~= ready.subrange(
            ready.len() - skip_done(ready, tasks).len(),
            ready.len() as int,
        ),
        skip_done(ready, tasks).len() > 0 ==> tasks[skip_done(ready, tasks)[0] as int]
            != TaskState::Done,
    decreases ready.len(),
{
    if ready.len() > 0 && tasks[ready[0] as int] == TaskState::Done {
        let rest = ready.drop_first();
        assert forall|i: int| 0 <= i < rest.len() implies #[trigger] rest[i] < tasks.len() by {
            assert(rest[i] == ready[i + 1]);
        }
        lemma_skip_done(rest, tasks);
    }
}

/// Each notifier invocation puts its task into the ready-queue exactly once
/// more, and no other task.
pub proof fn lemma_wake_requeues_once(m: SchedulerModel, id: usize, other: usize)
    requires
        other != id,
    ensures
        occurrences(wake_step(m, id).ready, id) == occurrences(m.ready, id) + 1,
        occurrences(wake_step(m, id).ready, other) == occurrences(m.ready, other),
        wake_step(m, id).tasks == m.tasks,
{
    assert(m.ready.push(id).drop_last() =~= m.ready);
}

/// At most one task is being resumed at any time, and the task that is
/// taken for resumption was not in the middle of one: it was idle, and it
/// alone is now running.
pub proof fn lemma_single_resumer(m: SchedulerModel)
    requires
        m.wf(),
        m.current is None,
    ensures
        forall|i: int, j: int|
            0 <= i < m.tasks.len() && 0 <= j < m.tasks.len() && m.tasks[i] == TaskState::Running
                && m.tasks[j] == TaskState::Running ==> i == j,
        pop_step(m).1 matches Some(id) ==> {
            &&& m.tasks[id as int] == TaskState::Idle
            &&& forall|i: int|
                0 <= i < m.tasks.len() ==> (pop_step(m).0.tasks[i] == TaskState::Running <==> i
                    == id)
        },
        pop_step(m).0.wf(),
{
    lemma_skip_done(m.ready, m.tasks);
    let s = skip_done(m.ready, m.tasks);
    let m1 = pop_step(m).0;
    if s.len() > 0 {
        assert(s[0] == m.ready[m.ready.len() - s.len()]);
        assert forall|i: int| 0 <= i < m1.ready.len() implies #[trigger] m1.ready[i]
            < m1.tasks.len() by {
            assert(m1.ready[i] == m.ready[m.ready.len() - s.len() + 1 + i]);
        }
    } else {
        assert(m1.ready.len() == 0);
    }
}

/// The scheduler's bookkeeping: ready-queue and task states.
pub struct MiniTokio {
    ready: VecDeque<usize>,
    tasks: Vec<TaskState>,
    current: Option<usize>,
}

impl View for MiniTokio {
    type V = SchedulerModel;

    closed spec fn view(&self) -> SchedulerModel {
        SchedulerModel { ready: self.ready@, tasks: self.tasks@, current: self.current }
    }
}

impl MiniTokio {
    /// A scheduler with no tasks.
    pub fn new() -> (r: MiniTokio)
        ensures
            r@ == empty_model(),
            r@.wf(),
    {
        MiniTokio { ready: VecDeque::new(), tasks: Vec::new(), current: None }
    }

    /// Registers a new task and queues it; returns its id.
    pub fn spawn(&mut self) -> (r: usize)
        requires
            old(self)@.wf(),
            old(self)@.tasks.len() < usize::MAX,
        ensures
            (final(self)@, r) == spawn_step(old(self)@),
            final(self)@.wf(),
    {
        let id = self.tasks.len();
        self.tasks.push(TaskState::Idle);
        self.ready.push_back(id);
        proof {
            assert(self@.ready =~= spawn_step(old(self)@).0.ready);
        }
        id
    }

    /// Delivers one invocation of task `id`'s notifier: the task is queued
    /// once more.
    pub fn wake(&mut self, id: usize)
        requires
            old(self)@.wf(),
            id < old(self)@.tasks.len(),
        ensures
            final(self)@ == wake_step(old(self)@, id),
            final(self)@.wf(),
    {
        self.ready.push_back(id);
    }

    /// Whether a task is being resumed.
    pub fn is_resuming(&self) -> (r: bool)
        ensures
            r == self@.current is Some,
    {
        self.current.is_some()
    }

    /// The number of tasks spawned so far.
    pub fn task_count(&self) -> (r: usize)
        requires
            self@.wf(),
        ensures
            r == self@.tasks.len(),
    {
        self.tasks.len()
    }

    /// The state of task `id`.
    pub fn state(&self, id: usize) -> (r: TaskState)
        requires
            id < self@.tasks.len(),
        ensures
            r == self@.tasks[id as int],
    {
        self.tasks[id]
    }

    /// Whether nothing is being resumed and every task has finished.
    pub fn is_finished(&self) -> (r: bool)
        ensures
            r == self@.finished(),
    {
        if self.current.is_some() {
            return false;
        }
        let mut i: usize = 0;
        while i < self.tasks.len()
            invariant
                0 <= i <= self.tasks@.len(),
                forall|j: int| 0 <= j < i ==> #[trigger] self.tasks@[j] == TaskState::Done,
            decreases self.tasks@.len() - i,
        {
            match self.tasks[i] {
                TaskState::Done => {},
                _ => {
                    return false;
                },
            }
            i = i + 1;
        }
        true
    }

    /// Takes the next task to resume from the front of the queue, dropping
    /// entries of finished tasks; the task taken holds its access cell until
    /// `finish`. `None` when the queue holds no unfinished task.
    pub fn pop_ready(&mut self) -> (r: Option<usize>)
        requires
            old(self)@.wf(),
            old(self)@.current is None,
        ensures
            (final(self)@, r) == pop_step(old(self)@),
            final(self)@.wf(),
    {
        let ghost start = self@;
        loop
            invariant
                self@.wf(),
                self@.current is None,
                self@.tasks == start.tasks,
                start == old(self)@,
                start.current is None,
                skip_done(self@.ready, self@.tasks) == skip_done(start.ready, start.tasks),
            decreases self@.ready.len(),
        {
            let ghost before = self@;
            match self.ready.pop_front() {
                None => {
                    proof {
                        assert(self@.ready =~= skip_done(start.ready, start.tasks));
                    }
                    return None;
                },
                Some(id) => {
                    proof {
                        assert(self@.ready =~= before.ready.drop_first());
                        assert(before.ready[0] < before.tasks.len());
                    }
                    match self.tasks[id] {
                        TaskState::Done => {
                            proof {
                                assert(skip_done(before.ready, before.tasks) == skip_done(
                                    self@.ready,
                                    self@.tasks,
                                ));
                            }
                        },
                        _ => {
                            proof {
                                assert(skip_done(before.ready, before.tasks) == before.ready);
                            }
                            self.tasks.set(id, TaskState::Running);
                            self.current = Some(id);
                            proof {
                                assert(self@.tasks =~= before.tasks.update(id as int, TaskState::Running));
                            }
                            return Some(id);
                        },
                    }
                },
            }
        }
    }

    /// Takes the drive loop's next turn: see [`turn_step`].
    pub fn next_turn(&mut self) -> (r: Turn)
        requires
            old(self)@.wf(),
            old(self)@.current is None,
        ensures
            (final(self)@, r) == turn_step(old(self)@),
            final(self)@.wf(),
    {
        match self.pop_ready() {
            Some(id) => Turn::Run(id),
            None => if self.is_finished() {
                Turn::Stop
            } else {
                Turn::Wait
            },
        }
    }

    /// Ends the resumption of task `id`: `done` when its unit reported
    /// completion, after which the unit is dropped and later wakes of the
    /// task are discarded.
    pub fn finish(&mut self, id: usize, done: bool)
        requires
            old(self)@.wf(),
            old(self)@.current == Some(id),
        ensures
            final(self)@ == finish_step(old(self)@, id, done),
            final(self)@.wf(),
    {
        let s = if done { TaskState::Done } else { TaskState::Idle };
        proof {
            assert(id < self.tasks@.len());
        }
        self.tasks.set(id, s);
        self.current = None;
    }
}

} // verus!
