//! The rename sequencer's state machine. The sequencer owns a plan of
//! rename operations and walks it step by step: the embedding program asks
//! for the next operation, performs the rename, and reports whether it
//! succeeded. On a failure the walk stops, and the sequencer hands out the
//! best-effort rollback: the completed steps, reversed, in reverse order.

use vstd::prelude::*;
use vstd::string::*;

use crate::types::RenameOp;

verus! {

/// A plan of rename operations together with how far it has run: the first
/// `completed` operations are done; `failed` says the one after them was
/// attempted and refused.
pub struct Sequencer {
    pub plan: Vec<RenameOp>,
    pub completed: usize,
    pub failed: bool,
}

impl Sequencer {
    /// The states the sequencer can be in: never past the end of the plan,
    /// and failed only at a step that exists.
    pub open spec fn wf(&self) -> bool {
        self.completed <= self.plan@.len() && (self.failed ==> self.completed < self.plan@.len())
    }

    /// True when every step of the plan ran and none was refused.
    pub open spec fn is_complete(&self) -> bool {
        !self.failed && self.completed == self.plan@.len()
    }

    /// A sequencer at the start of the given plan.
    pub fn new(plan: Vec<RenameOp>) -> (r: Sequencer)
        ensures
            r.wf(),
            r.plan@ == plan@,
            r.completed == 0,
            !r.failed,
    {
        Sequencer { plan, completed: 0, failed: false }
    }

    /// The next rename to perform: the first operation not yet completed,
    /// or nothing when the plan has finished or failed.
    pub fn next_op(&self) -> (r: Option<RenameOp>)
        requires
            self.wf(),
        ensures
            match r {
                Some(op) => {
                    &&& !self.failed
                    &&& self.completed < self.plan@.len()
                    &&& op.from@ == self.plan@[self.completed as int].from@
                    &&& op.to@ == self.plan@[self.completed as int].to@
                },
                None => self.failed || self.is_complete(),
            },
    {
        if self.failed || self.completed >= self.plan.len() {
            return None;
        }
        let op = &self.plan[self.completed];
        Some(RenameOp { from: op.from.clone(), to: op.to.clone() })
    }

    /// Record that the pending operation was performed.
    pub fn record_success(&mut self)
        requires
            old(self).wf(),
            !old(self).failed,
            old(self).completed < old(self).plan@.len(),
        ensures
            final(self).wf(),
            final(self).plan@ == old(self).plan@,
            final(self).completed == old(self).completed + 1,
            !final(self).failed,
    {
        let n = self.plan.len();
        proof {
            assert(self.completed < n);
        }
        self.completed = self.completed + 1;
    }

    /// Record that the pending operation was refused.
    pub fn record_failure(&mut self)
        requires
            old(self).wf(),
            !old(self).failed,
            old(self).completed < old(self).plan@.len(),
        ensures
            final(self).wf(),
            final(self).plan@ == old(self).plan@,
            final(self).completed == old(self).completed,
            final(self).failed,
    {
        self.failed = true;
    }

    /// True when a step was refused.
    pub fn has_failed(&self) -> (r: bool)
        ensures
            r == self.failed,
    {
        self.failed
    }

    /// The best-effort rollback of the completed steps: each completed
    /// rename reversed, last first, so that carrying them out restores the
    /// names the plan had already moved.
    pub fn rollback_ops(&self) -> (r: Vec<RenameOp>)
        requires
            self.wf(),
        ensures
            r@.len() == self.completed,
            forall|i: int|
                0 <= i < r@.len() ==> r@[i].from@ == self.plan@[self.completed - 1 - i].to@
                    && r@[i].to@ == self.plan@[self.completed - 1 - i].from@,
    {
        let mut r: Vec<RenameOp> = Vec::new();
        let mut i: usize = self.completed;
        while i > 0
            invariant
                i <= self.completed,
                self.completed <= self.plan@.len(),
                r@.len() == self.completed - i,
                forall|j: int|
                    0 <= j < r@.len() ==> r@[j].from@ == self.plan@[self.completed - 1 - j].to@
                        && r@[j].to@ == self.plan@[self.completed - 1 - j].from@,
            decreases i,
        {
            i = i - 1;
            let op = &self.plan[i];
            r.push(RenameOp { from: op.to.clone(), to: op.from.clone() });
        }
        r
    }
}

} // verus!
