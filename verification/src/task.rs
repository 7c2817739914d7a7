//! A cancellable unit of work.
//!
//! A task bundles an external command, the directory to run it in, a
//! priority used to pick among pending tasks within one scheduler lane, a
//! cancellation token shared with whoever may want to stop it, an optional
//! success continuation, and a list of completion hooks.

use vstd::prelude::*;

use tokio_util::sync::CancellationToken;

use crate::cancel::token_cancel;
use crate::cancel::token_is_cancelled;
use crate::cancel::token_new;
use crate::hooks::Hooks;

verus! {

/// Observability marker for where a task stands in its life cycle.
#[derive(Debug, Clone, PartialEq, Eq, Structural)]
pub enum TaskStage {
    Pending,
    Dispatched,
    Hooked,
}

/// Scheduling priority, totally ordered: Low < Normal < High.
#[derive(Debug, Clone, Copy, PartialEq, Eq, Structural)]
pub enum Priority {
    Low,
    Normal,
    High,
}

impl Priority {
    /// The position of this priority in the total order.
    pub open spec fn rank_spec(self) -> int {
        match self {
            Priority::Low => 0,
            Priority::Normal => 1,
            Priority::High => 2,
        }
    }

    pub fn rank(&self) -> (r: u8)
        ensures
            r == self.rank_spec(),
    {
        match self {
            Priority::Low => 0,
            Priority::Normal => 1,
            Priority::High => 2,
        }
    }
}

/// What to do with the captured standard output of a task that exited
/// successfully.  The embedding program interprets the action; the
/// scheduler only guarantees when it is handed out.
#[derive(Debug, Clone, PartialEq, Eq)]
pub enum Continuation {
    /// Parse the output as a target listing for `path` and deliver it.
    DeliverDirectoryTargets { path: String, generation: u64 },
    /// Parse the output as details for the target at `index` under `path`
    /// and deliver them.
    DeliverTargetDetails { path: String, index: usize, generation: u64 },
}

pub type TaskId = u128;

/// Relies on uuid::Uuid::new_v4 and uuid::Uuid::as_u128: a random
/// version-4 identifier, read out as its 128-bit value.  Nothing is
/// promised of a random value.
#[verifier::external_body]
fn fresh_task_id() -> TaskId {
    uuid::Uuid::new_v4().as_u128()
}

/// A unit of work: an external command, run once, cancellable, with an
/// optional continuation and cleanup hooks.
#[derive(Debug)]
pub struct Task {
    pub id: TaskId,
    pub stage: TaskStage,
    pub priority: Priority,
    pub hooks: Hooks,
    pub task_on_success: Option<Continuation>,
    pub cmds: Vec<String>,
    pub current_dir: String,
    pub cancel_token: CancellationToken,
}

impl Task {
    pub fn new(
        priority: Priority,
        cmds: Vec<String>,
        current_dir: String,
        task_on_success: Continuation,
    ) -> (r: Task)
        ensures
            r.stage == TaskStage::Pending,
            r.priority == priority,
            r.hooks@ == Seq::<crate::hooks::Hook>::empty(),
            r.task_on_success == Some(task_on_success),
            r.cmds@ == cmds@,
            r.current_dir == current_dir,
    {
        Task {
            id: fresh_task_id(),
            stage: TaskStage::Pending,
            priority,
            hooks: Hooks::new(),
            task_on_success: Some(task_on_success),
            cmds,
            current_dir,
            cancel_token: token_new(),
        }
    }

    /// Record that the task left the queue and entered execution.
    pub fn dispatch(&mut self)
        ensures
            *final(self) == (Task { stage: TaskStage::Dispatched, ..*old(self) }),
    {
        self.stage = TaskStage::Dispatched;
    }

    /// Record that the task's hooks were handed out.
    pub fn hook(&mut self)
        ensures
            *final(self) == (Task { stage: TaskStage::Hooked, ..*old(self) }),
    {
        self.stage = TaskStage::Hooked;
    }

    /// Remove and return the success continuation, so that it can run at
    /// most once.
    pub(crate) fn take_task_on_success(&mut self) -> (r: Option<Continuation>)
        ensures
            r == old(self).task_on_success,
            *final(self) == (Task { task_on_success: None, ..*old(self) }),
    {
        let mut taken: Option<Continuation> = None;
        core::mem::swap(&mut self.task_on_success, &mut taken);
        taken
    }

    /// Signal the task's cancellation token.  Everything holding this
    /// token or a clone of it observes the signal.
    pub fn cancel(&self) {
        token_cancel(&self.cancel_token);
    }

    /// Read the shared cancellation flag.  Non-blocking; the flag may be
    /// signalled by another holder at any moment, so nothing is promised
    /// of the result.
    pub fn is_cancelled(&self) -> bool {
        token_is_cancelled(&self.cancel_token)
    }
}

} // verus!
