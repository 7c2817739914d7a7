//! The two-lane task scheduler.
//!
//! The scheduler owns one pending queue per lane ("micro" and "macro") and
//! a registry of tasks whose commands are in flight.  The embedding
//! program runs one dispatch loop per lane: it takes the next pending task,
//! asks `begin_execution` what to do with it, launches the returned command
//! concurrently, and reports how the command ended through
//! `finish_execution`, which says what must still run — the success
//! continuation and the cleanup hooks, each handed out at most once.
//!
//! Cancellation is asymmetric, on purpose: `cancel` settles a known task
//! and still hands out its cleanup hooks, while a command that dies because
//! its own token was signalled mid-flight is abandoned without hooks.

use vstd::prelude::*;

use tokio_util::sync::CancellationToken;

use crate::cancel::token_cancel;
use crate::cancel::token_clone;
use crate::cancel::token_new;
use crate::hooks::Hook;
use crate::queue::TaskQueue;
use crate::task::Continuation;
use crate::task::Task;
use crate::task::TaskId;
use crate::task::TaskStage;

verus! {

/// The registry keeps one entry per in-flight task, keyed by task id.
pub open spec fn reg_has_id(s: Seq<(TaskId, Task)>, id: TaskId) -> bool {
    exists|j: int| 0 <= j < s.len() && (#[trigger] s[j]).0 == id
}

/// `j` is the position of the first entry for `id`.
pub open spec fn reg_first_match(s: Seq<(TaskId, Task)>, id: TaskId, j: int) -> bool {
    &&& 0 <= j < s.len()
    &&& s[j].0 == id
    &&& forall|k: int| 0 <= k < j ==> (#[trigger] s[k]).0 != id
}

/// No two entries share an id.
pub open spec fn reg_wf(s: Seq<(TaskId, Task)>) -> bool {
    forall|i: int, j: int| 0 <= i < j < s.len() ==> (#[trigger] s[i]).0 != (#[trigger] s[j]).0
}

/// Removing a task's entry removes its id for good: the registry holds no
/// second entry for it.  Together with the contracts of
/// `Scheduler::finish_execution` and `Scheduler::cancel`, which settle a
/// task only by removing its entry, this is why a task's continuation and
/// hooks can be handed out at most once, however completion and
/// cancellation interleave.
pub proof fn lemma_settled_at_most_once(s: Seq<(TaskId, Task)>, id: TaskId, j: int)
    requires
        reg_wf(s),
        0 <= j < s.len(),
        s[j].0 == id,
    ensures
        reg_wf(s.remove(j)),
        !reg_has_id(s.remove(j), id),
{
    let t = s.remove(j);
    assert forall|k: int| 0 <= k < t.len() implies (#[trigger] t[k]).0 != id by {
        if k < j {
            assert(t[k] == s[k]);
        } else {
            assert(t[k] == s[k + 1]);
        }
    }
    assert forall|a: int, b: int| 0 <= a < b < t.len() implies (#[trigger] t[a]).0 != (
    #[trigger] t[b]).0 by {
        let sa = if a < j {
            a
        } else {
            a + 1
        };
        let sb = if b < j {
            b
        } else {
            b + 1
        };
        assert(t[a] == s[sa]);
        assert(t[b] == s[sb]);
    }
}

/// Appending an entry whose id is absent keeps ids unique.
proof fn lemma_push_fresh(s: Seq<(TaskId, Task)>, id: TaskId, t: Task)
    requires
        reg_wf(s),
        !reg_has_id(s, id),
    ensures
        reg_wf(s.push((id, t))),
{
    let p = s.push((id, t));
    assert forall|a: int, b: int| 0 <= a < b < p.len() implies (#[trigger] p[a]).0 != (
    #[trigger] p[b]).0 by {
        if b < s.len() {
            assert(p[a] == s[a] && p[b] == s[b]);
        } else {
            assert(p[a] == s[a] && p[b] == (id, t));
        }
    }
}

/// The in-flight tasks, keyed by task id.  The execution handles that go
/// with them live with the embedder, which aborts them when an entry is
/// removed.
#[derive(Debug)]
pub struct Ongoing {
    pub all: Vec<(TaskId, Task)>,
}

impl Ongoing {
    pub fn new() -> (r: Ongoing)
        ensures
            r.all@ == Seq::<(TaskId, Task)>::empty(),
    {
        Ongoing { all: Vec::new() }
    }

    /// The position of the entry for `id`, if one is present.
    fn find_index(&self, id: &TaskId) -> (r: Option<usize>)
        ensures
            match r {
                Some(j) => reg_first_match(self.all@, *id, j as int),
                None => !reg_has_id(self.all@, *id),
            },
    {
        let mut j: usize = 0;
        while j < self.all.len()
            invariant
                0 <= j <= self.all@.len(),
                forall|k: int| 0 <= k < j ==> (#[trigger] self.all@[k]).0 != *id,
            decreases self.all@.len() - j,
        {
            if self.all[j].0 == *id {
                return Some(j);
            }
            j = j + 1;
        }
        None
    }

    /// Remove and return the task registered under `id`.
    pub fn remove(&mut self, id: &TaskId) -> (r: Option<Task>)
        requires
            reg_wf(old(self).all@),
        ensures
            reg_wf(final(self).all@),
            match r {
                Some(t) => {
                    &&& exists|j: int|
                        #[trigger] reg_first_match(old(self).all@, *id, j) && t == old(self).all@[j].1 && final(self).all@ == old(self).all@.remove(j)
                    &&& !reg_has_id(final(self).all@, *id)
                },
                None => {
                    &&& !reg_has_id(old(self).all@, *id)
                    &&& final(self).all@ == old(self).all@
                },
            },
    {
        match self.find_index(id) {
            Some(j) => {
                let ghost s = self.all@;
                let entry = self.all.remove(j);
                proof {
                    lemma_settled_at_most_once(s, *id, j as int);
                }
                Some(entry.1)
            },
            None => None,
        }
    }

    /// Register a task under its id, replacing any entry that already
    /// carries the same id.
    pub(crate) fn insert(&mut self, task: Task)
        requires
            reg_wf(old(self).all@),
        ensures
            reg_wf(final(self).all@),
            reg_has_id(old(self).all@, task.id) ==> exists|j: int|
                #[trigger] reg_first_match(old(self).all@, task.id, j) && final(self).all@ == old(self).all@.remove(j).push((task.id, task)),
            !reg_has_id(old(self).all@, task.id) ==> final(self).all@ == old(self).all@.push(
                (task.id, task),
            ),
    {
        let ghost s = self.all@;
        let id = task.id;
        match self.find_index(&id) {
            Some(j) => {
                self.all.remove(j);
                proof {
                    lemma_settled_at_most_once(s, id, j as int);
                    lemma_push_fresh(s.remove(j as int), id, task);
                }
            },
            None => {
                proof {
                    lemma_push_fresh(s, id, task);
                }
            },
        }
        self.all.push((id, task));
    }

    pub fn len(&self) -> (n: usize)
        ensures
            n == self.all@.len(),
    {
        self.all.len()
    }
}

/// How a launched command ended, as observed by the embedder's execution
/// unit.
#[derive(Debug)]
pub enum ExecOutcome {
    /// The task's token was signalled while the command ran; the child
    /// process was killed and reaped, and no output survives.
    Cancelled,
    /// The command ran to completion with this exit code and captured
    /// standard output.
    Exited { code: i32, stdout: String },
    /// The command could not be spawned or its output could not be read.
    SpawnFailed,
}

/// What `begin_execution` asks the embedder to do with a dequeued task.
#[derive(Debug)]
pub enum StartPlan {
    /// The task was already cancelled while pending; drop it silently.
    Discarded,
    /// The task has no command to run; drop it.
    NothingToRun,
    /// Launch the command concurrently, racing it against `token`, and
    /// report the outcome to `finish_execution` under `id`.
    Launch { id: TaskId, program: String, args: Vec<String>, current_dir: String, token: CancellationToken },
}

/// What still has to run after a task settled.
#[derive(Debug)]
pub struct CompletionPlan {
    /// The success continuation, with the captured standard output it is
    /// owed.  Present exactly when a registered task exited with code zero.
    pub on_success: Option<(Continuation, String)>,
    /// The task's cleanup hooks, in insertion order.
    pub hooks: Vec<Hook>,
    /// Whether the settling is a reportable failure (non-zero exit or a
    /// spawn error) rather than success or silent cancellation.
    pub failed: bool,
}

/// What a `CompletionPlan` must hold after settling task `t` with
/// `outcome`.
pub open spec fn plan_for(t: Task, outcome: ExecOutcome, plan: CompletionPlan) -> bool {
    match outcome {
        ExecOutcome::Exited { code, stdout } => if code == 0 {
            &&& plan.on_success == (match t.task_on_success {
                Some(c) => Some((c, stdout)),
                None => None,
            })
            &&& plan.hooks@ == t.hooks@
            &&& !plan.failed
        } else {
            plan.on_success == None::<(Continuation, String)> && plan.hooks@ == Seq::<
                Hook,
            >::empty() && plan.failed
        },
        ExecOutcome::SpawnFailed => plan.on_success == None::<(Continuation, String)>
            && plan.hooks@ == Seq::<Hook>::empty() && plan.failed,
        ExecOutcome::Cancelled => plan.on_success == None::<(Continuation, String)> && plan.hooks@
            == Seq::<Hook>::empty() && !plan.failed,
    }
}

/// A plan that runs nothing and reports nothing.
pub open spec fn empty_plan(plan: CompletionPlan) -> bool {
    plan.on_success == None::<(Continuation, String)> && plan.hooks@ == Seq::<Hook>::empty()
        && !plan.failed
}

/// The two-lane scheduler: pending queues, the in-flight registry, and the
/// token that halts both dispatch loops on shutdown.
#[derive(Debug)]
pub struct Scheduler {
    pub micro_queue: TaskQueue,
    pub macro_queue: TaskQueue,
    pub ongoing: Ongoing,
    pub cancel_token: CancellationToken,
}

impl Scheduler {
    pub open spec fn wf(&self) -> bool {
        reg_wf(self.ongoing.all@)
    }

    pub fn new() -> (r: Scheduler)
        ensures
            r.wf(),
            r.micro_queue@ == Seq::<Task>::empty(),
            r.macro_queue@ == Seq::<Task>::empty(),
            r.ongoing.all@ == Seq::<(TaskId, Task)>::empty(),
    {
        Scheduler {
            micro_queue: TaskQueue::new(),
            macro_queue: TaskQueue::new(),
            ongoing: Ongoing::new(),
            cancel_token: token_new(),
        }
    }

    /// A token the dispatch loops watch; `shutdown` signals it.
    pub fn shutdown_signal(&self) -> CancellationToken {
        token_clone(&self.cancel_token)
    }

    /// Enqueue a task into the micro lane.  Enqueueing never blocks on
    /// execution.
    pub fn dispatch_micro(&mut self, task: Task)
        ensures
            final(self).micro_queue@ == old(self).micro_queue@.push(task),
            final(self).macro_queue@ == old(self).macro_queue@,
            final(self).ongoing == old(self).ongoing,
            final(self).cancel_token == old(self).cancel_token,
    {
        self.micro_queue.enqueue(task);
    }

    /// Enqueue a task into the macro lane.  Enqueueing never blocks on
    /// execution.
    pub fn dispatch_macro(&mut self, task: Task)
        ensures
            final(self).macro_queue@ == old(self).macro_queue@.push(task),
            final(self).micro_queue@ == old(self).micro_queue@,
            final(self).ongoing == old(self).ongoing,
            final(self).cancel_token == old(self).cancel_token,
    {
        self.macro_queue.enqueue(task);
    }

    /// Take the next task of one lane: the earliest-enqueued pending task
    /// of maximal priority, or nothing if the lane is idle.
    pub fn next_task(&mut self, micro: bool) -> (r: Option<Task>)
        ensures
            final(self).ongoing == old(self).ongoing,
            final(self).cancel_token == old(self).cancel_token,
            micro ==> final(self).macro_queue@ == old(self).macro_queue@,
            !micro ==> final(self).micro_queue@ == old(self).micro_queue@,
            (micro && old(self).micro_queue@.len() == 0) ==> r == None::<Task> && final(self).micro_queue@ == old(self).micro_queue@,
            (micro && old(self).micro_queue@.len() > 0) ==> (exists|i: int|
                #[trigger] TaskQueue::picks(old(self).micro_queue@, i) && r == Some(
                    old(self).micro_queue@[i],
                ) && final(self).micro_queue@ == old(self).micro_queue@.remove(i)),
            (!micro && old(self).macro_queue@.len() == 0) ==> r == None::<Task> && final(self).macro_queue@ == old(self).macro_queue@,
            (!micro && old(self).macro_queue@.len() > 0) ==> (exists|i: int|
                #[trigger] TaskQueue::picks(old(self).macro_queue@, i) && r == Some(
                    old(self).macro_queue@[i],
                ) && final(self).macro_queue@ == old(self).macro_queue@.remove(i)),
    {
        if micro {
            self.micro_queue.dequeue()
        } else {
            self.macro_queue.dequeue()
        }
    }

    /// Decide what to do with a task taken from a lane, given the value its
    /// cancellation flag showed: a task already cancelled while pending is
    /// discarded silently, a task without a command is dropped, and any
    /// other task is marked dispatched, registered as in flight, and handed
    /// back as a command to launch.
    pub fn begin_execution(&mut self, task: Task, already_cancelled: bool) -> (r: StartPlan)
        requires
            old(self).wf(),
        ensures
            final(self).wf(),
            final(self).micro_queue@ == old(self).micro_queue@,
            final(self).macro_queue@ == old(self).macro_queue@,
            final(self).cancel_token == old(self).cancel_token,
            (already_cancelled || task.cmds@.len() == 0) ==> final(self).ongoing == old(self).ongoing,
            already_cancelled ==> r is Discarded,
            (!already_cancelled && task.cmds@.len() == 0) ==> r is NothingToRun,
            (!already_cancelled && task.cmds@.len() > 0) ==> (match r {
                StartPlan::Launch { id, program, args, current_dir, token } => {
                    &&& id == task.id
                    &&& program == task.cmds@[0]
                    &&& args@.len() == task.cmds@.len() - 1
                    &&& (forall|i: int| 0 <= i < args@.len() ==> args@[i] == task.cmds@[i + 1])
                    &&& current_dir == task.current_dir
                    &&& ({
                        let entry = (task.id, Task { stage: TaskStage::Dispatched, ..task });
                        if reg_has_id(old(self).ongoing.all@, task.id) {
                            exists|j: int|
                                #[trigger] reg_first_match(old(self).ongoing.all@, task.id, j)
                                    && final(self).ongoing.all@ == old(self).ongoing.all@.remove(
                                    j,
                                ).push(entry)
                        } else {
                            final(self).ongoing.all@ == old(self).ongoing.all@.push(entry)
                        }
                    })
                },
                _ => false,
            }),
    {
        if already_cancelled {
            return StartPlan::Discarded;
        }
        if task.cmds.len() == 0 {
            return StartPlan::NothingToRun;
        }
        let mut task = task;
        task.dispatch();
        let id = task.id;
        let token = token_clone(&task.cancel_token);
        let program = task.cmds[0].clone();
        let mut args: Vec<String> = Vec::new();
        let mut i: usize = 1;
        while i < task.cmds.len()
            invariant
                1 <= i <= task.cmds@.len(),
                args@.len() == i - 1,
                forall|k: int| 0 <= k < args@.len() ==> args@[k] == task.cmds@[k + 1],
            decreases task.cmds@.len() - i,
        {
            args.push(task.cmds[i].clone());
            i = i + 1;
        }
        let current_dir = task.current_dir.clone();
        self.ongoing.insert(task);
        StartPlan::Launch { id, program, args, current_dir, token }
    }

    /// Settle a task whose command ended.  A task that exited with code
    /// zero hands out its continuation (at most one exists) and all of its
    /// hooks, exactly once; a non-zero exit or a spawn failure is reported
    /// with nothing to run; a command cancelled mid-flight is abandoned
    /// silently, without hooks.  A task no longer registered — settled
    /// before, or cancelled through `cancel` — yields the empty plan.
    pub fn finish_execution(&mut self, id: TaskId, outcome: ExecOutcome) -> (plan: CompletionPlan)
        requires
            old(self).wf(),
        ensures
            final(self).wf(),
            final(self).micro_queue@ == old(self).micro_queue@,
            final(self).macro_queue@ == old(self).macro_queue@,
            final(self).cancel_token == old(self).cancel_token,
            !reg_has_id(old(self).ongoing.all@, id) ==> final(self).ongoing.all@ == old(self).ongoing.all@ && empty_plan(plan),
            reg_has_id(old(self).ongoing.all@, id) ==> exists|j: int|
                #[trigger] reg_first_match(old(self).ongoing.all@, id, j) && final(self).ongoing.all@
                    == old(self).ongoing.all@.remove(j) && plan_for(
                    old(self).ongoing.all@[j].1,
                    outcome,
                    plan,
                ),
            !reg_has_id(final(self).ongoing.all@, id),
    {
        match self.ongoing.remove(&id) {
            None => CompletionPlan { on_success: None, hooks: Vec::new(), failed: false },
            Some(t) => {
                let mut t = t;
                match outcome {
                    ExecOutcome::Exited { code, stdout } => {
                        if code == 0 {
                            let on_success = match t.take_task_on_success() {
                                Some(c) => Some((c, stdout)),
                                None => None,
                            };
                            let hooks = t.hooks.run_all();
                            CompletionPlan { on_success, hooks, failed: false }
                        } else {
                            CompletionPlan { on_success: None, hooks: Vec::new(), failed: true }
                        }
                    },
                    ExecOutcome::SpawnFailed => CompletionPlan {
                        on_success: None,
                        hooks: Vec::new(),
                        failed: true,
                    },
                    ExecOutcome::Cancelled => CompletionPlan {
                        on_success: None,
                        hooks: Vec::new(),
                        failed: false,
                    },
                }
            },
        }
    }

    /// Cancel a registered task: remove it, signal its token (the embedder
    /// aborts the execution handle), and hand out its cleanup hooks, which
    /// must run even on this path.  A task not registered yields nothing.
    pub fn cancel(&mut self, id: TaskId) -> (r: Option<Vec<Hook>>)
        requires
            old(self).wf(),
        ensures
            final(self).wf(),
            final(self).micro_queue@ == old(self).micro_queue@,
            final(self).macro_queue@ == old(self).macro_queue@,
            final(self).cancel_token == old(self).cancel_token,
            !reg_has_id(old(self).ongoing.all@, id) ==> final(self).ongoing.all@ == old(self).ongoing.all@ && r == None::<Vec<Hook>>,
            reg_has_id(old(self).ongoing.all@, id) ==> exists|j: int|
                #[trigger] reg_first_match(old(self).ongoing.all@, id, j) && final(self).ongoing.all@
                    == old(self).ongoing.all@.remove(j) && (match r {
                    Some(hooks) => hooks@ == old(self).ongoing.all@[j].1.hooks@,
                    None => false,
                }),
            !reg_has_id(final(self).ongoing.all@, id),
    {
        match self.ongoing.remove(&id) {
            None => None,
            Some(t) => {
                let mut t = t;
                t.cancel();
                let hooks = t.hooks.run_all();
                Some(hooks)
            },
        }
    }

    /// Cancel everything in flight: signal every registered task's token,
    /// drain every task's hooks, and empty the registry.  The result pairs
    /// each task id with its hooks, in registry order; the embedder aborts
    /// the handles and runs the hooks, once each.
    pub fn cancel_all(&mut self) -> (r: Vec<(TaskId, Vec<Hook>)>)
        requires
            old(self).wf(),
        ensures
            final(self).wf(),
            final(self).micro_queue@ == old(self).micro_queue@,
            final(self).macro_queue@ == old(self).macro_queue@,
            final(self).cancel_token == old(self).cancel_token,
            final(self).ongoing.all@ == Seq::<(TaskId, Task)>::empty(),
            r@.len() == old(self).ongoing.all@.len(),
            forall|i: int|
                0 <= i < r@.len() ==> (#[trigger] r@[i]).0 == old(self).ongoing.all@[i].0
                    && r@[i].1@ == old(self).ongoing.all@[i].1.hooks@,
    {
        let ghost s = self.ongoing.all@;
        let ghost mq = self.micro_queue;
        let ghost aq = self.macro_queue;
        let ghost tok = self.cancel_token;
        let mut plans: Vec<(TaskId, Vec<Hook>)> = Vec::new();
        while self.ongoing.all.len() > 0
            invariant
                self.micro_queue == mq,
                self.macro_queue == aq,
                self.cancel_token == tok,
                plans@.len() + self.ongoing.all@.len() == s.len(),
                self.ongoing.all@ == s.subrange(plans@.len() as int, s.len() as int),
                forall|i: int|
                    0 <= i < plans@.len() ==> (#[trigger] plans@[i]).0 == s[i].0 && plans@[i].1@
                        == s[i].1.hooks@,
            decreases self.ongoing.all@.len(),
        {
            let (id, t) = self.ongoing.all.remove(0);
            let mut t = t;
            t.cancel();
            let hooks = t.hooks.run_all();
            plans.push((id, hooks));
            proof {
                assert(self.ongoing.all@ =~= s.subrange(plans@.len() as int, s.len() as int));
            }
        }
        plans
    }

    /// The ids of every in-flight task, in registry order.
    pub fn get_ongoing_tasks(&self) -> (r: Vec<TaskId>)
        ensures
            r@.len() == self.ongoing.all@.len(),
            forall|i: int| 0 <= i < r@.len() ==> r@[i] == (#[trigger] self.ongoing.all@[i]).0,
    {
        let mut ids: Vec<TaskId> = Vec::new();
        let mut j: usize = 0;
        while j < self.ongoing.all.len()
            invariant
                0 <= j <= self.ongoing.all@.len(),
                ids@.len() == j,
                forall|i: int| 0 <= i < j ==> ids@[i] == (#[trigger] self.ongoing.all@[i]).0,
            decreases self.ongoing.all@.len() - j,
        {
            ids.push(self.ongoing.all[j].0);
            j = j + 1;
        }
        ids
    }

    /// Whether a task is registered as in flight.
    pub fn has_task(&self, id: &TaskId) -> (r: bool)
        ensures
            r == reg_has_id(self.ongoing.all@, *id),
    {
        let mut j: usize = 0;
        while j < self.ongoing.all.len()
            invariant
                0 <= j <= self.ongoing.all@.len(),
                forall|k: int| 0 <= k < j ==> (#[trigger] self.ongoing.all@[k]).0 != *id,
            decreases self.ongoing.all@.len() - j,
        {
            if self.ongoing.all[j].0 == *id {
                return true;
            }
            j = j + 1;
        }
        false
    }

    /// Cancel everything in flight and halt both dispatch loops.
    pub fn shutdown(&mut self) -> (r: Vec<(TaskId, Vec<Hook>)>)
        requires
            old(self).wf(),
        ensures
            final(self).wf(),
            final(self).ongoing.all@ == Seq::<(TaskId, Task)>::empty(),
            r@.len() == old(self).ongoing.all@.len(),
            forall|i: int|
                0 <= i < r@.len() ==> (#[trigger] r@[i]).0 == old(self).ongoing.all@[i].0
                    && r@[i].1@ == old(self).ongoing.all@[i].1.hooks@,
    {
        let plans = self.cancel_all();
        token_cancel(&self.cancel_token);
        plans
    }
}

} // verus!
