//! Deferred completion actions.
//!
//! A task carries an ordered list of hooks: cleanup actions that run after
//! the task reaches a terminal state.  A hook is a tagged action that the
//! embedding program interprets — either run at once or awaited — rather
//! than a captured closure, so the registry itself is plain data.
//!
//! `run_all` swaps the whole pending list out atomically: an action added
//! while a drained batch is still being executed lands in the next batch,
//! never in both, and never in neither.

use vstd::prelude::*;

verus! {

/// One deferred action, identified by a label the embedder interprets.
#[derive(Debug, Clone, PartialEq, Eq)]
pub enum Hook {
    /// Run synchronously, completing at once.
    Immediate(String),
    /// Awaited before the next hook starts.
    Awaited(String),
}

/// An ordered, drain-once list of deferred actions.
#[derive(Debug)]
pub struct Hooks {
    pending: Vec<Hook>,
}

impl View for Hooks {
    type V = Seq<Hook>;

    closed spec fn view(&self) -> Seq<Hook> {
        self.pending@
    }
}

impl Hooks {
    pub fn new() -> (r: Hooks)
        ensures
            r@ == Seq::<Hook>::empty(),
    {
        Hooks { pending: Vec::new() }
    }

    /// Append a synchronous action.
    pub fn add_sync(&mut self, action: String)
        ensures
            final(self)@ == old(self)@.push(Hook::Immediate(action)),
    {
        self.pending.push(Hook::Immediate(action));
    }

    /// Append an awaited action.
    pub fn add_async(&mut self, action: String)
        ensures
            final(self)@ == old(self)@.push(Hook::Awaited(action)),
    {
        self.pending.push(Hook::Awaited(action));
    }

    /// Hand back every pending hook, in insertion order, and leave the
    /// registry empty.  The embedder executes the drained actions one at a
    /// time, awaiting each `Awaited` action before starting the next.
    /// Draining again before anything is added hands back nothing, so each
    /// enqueued hook is delivered exactly once.
    pub fn run_all(&mut self) -> (drained: Vec<Hook>)
        ensures
            drained@ == old(self)@,
            final(self)@ == Seq::<Hook>::empty(),
    {
        let drained: Vec<Hook> = self.pending.split_off(0);
        drained
    }

    /// How many hooks are waiting to run.
    pub fn pending_count(&self) -> (n: usize)
        ensures
            n == self@.len(),
    {
        self.pending.len()
    }
}

impl Default for Hooks {
    fn default() -> (r: Hooks)
        ensures
            r@ == Seq::<Hook>::empty(),
    {
        Hooks::new()
    }
}

} // verus!
