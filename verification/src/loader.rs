//! The cancelable async task runner's decision core: starting a task
//! supersedes (and reports for abortion) the previous one, each start gets a
//! strictly increasing sequence number, and a completion clears the busy
//! state only when its task is still the most recently started one.

use vstd::prelude::*;

verus! {

/// The runner's state: the next sequence number to hand out, and the sequence
/// number of the task currently in flight, if any.
pub struct AsyncLoader {
    pub next_id: u64,
    pub active: Option<u64>,
}

impl AsyncLoader {
    /// Every started task's number is below the next one to hand out.
    pub open spec fn wf(&self) -> bool {
        self.active matches Some(id) ==> id < self.next_id
    }

    /// The state after starting a task: the fresh number becomes active.
    pub open spec fn spec_load(self) -> AsyncLoader
        recommends
            self.next_id < u64::MAX,
    {
        AsyncLoader { next_id: (self.next_id + 1) as u64, active: Some(self.next_id) }
    }

    /// The state after the work of task `id` finishes: the busy state clears
    /// only if `id` is still the most recently started task; a stale
    /// completion changes nothing.
    pub open spec fn spec_complete(self, id: u64) -> AsyncLoader {
        if self.active == Some(id) {
            AsyncLoader { next_id: self.next_id, active: None }
        } else {
            self
        }
    }

    /// A fresh runner: idle, numbering from zero.
    pub fn new() -> (r: AsyncLoader)
        ensures
            r.active is None,
            r.next_id == 0,
            r.wf(),
    {
        AsyncLoader { next_id: 0, active: None }
    }

    /// Start a new task. Returns the started task's sequence number and the
    /// number of the superseded task, if one was in flight — the caller must
    /// abort that task's underlying work and its in-flight network request.
    pub fn load(&mut self) -> (r: (u64, Option<u64>))
        requires
            old(self).wf(),
            old(self).next_id < u64::MAX,
        ensures
            *final(self) == old(self).spec_load(),
            r.0 == old(self).next_id,
            r.1 == old(self).active,
            final(self).wf(),
    {
        let superseded = self.active;
        let id = self.next_id;
        self.next_id = self.next_id + 1;
        self.active = Some(id);
        (id, superseded)
    }

    /// Record that task `id`'s underlying work completed. Clears the busy
    /// state and returns true only if `id` is still the current task; a
    /// superseded task's completion is silently discarded.
    pub fn complete(&mut self, id: u64) -> (cleared: bool)
        ensures
            *final(self) == old(self).spec_complete(id),
            cleared == (old(self).active == Some(id)),
            old(self).wf() ==> final(self).wf(),
    {
        let still_current = match self.active {
            Some(current) => current == id,
            None => false,
        };
        if still_current {
            self.active = None;
        }
        still_current
    }

    /// Whether a not-yet-superseded task is in flight: the one observable
    /// other components read before starting dependent actions.
    pub fn is_busy(&self) -> (r: bool)
        ensures
            r == (self.active is Some),
    {
        match self.active {
            Some(_) => true,
            None => false,
        }
    }
}

impl Default for AsyncLoader {
    fn default() -> (r: Self)
        ensures
            r.active is None,
            r.next_id == 0,
            r.wf(),
    {
        AsyncLoader::new()
    }
}

/// Supersession law: start task A, then task B before A's work resolves. The
/// two tasks get distinct numbers, and when A's deferred completion fires it
/// is stale — the busy state still reflects B, and only B's own completion
/// clears it.
pub proof fn lemma_stale_completion_is_noop(l0: AsyncLoader)
    requires
        l0.wf(),
        l0.next_id + 1 < u64::MAX,
    ensures
        ({
            let a = l0.next_id;
            let l1 = l0.spec_load();
            let b = l1.next_id;
            let l2 = l1.spec_load();
            let l3 = l2.spec_complete(a);
            &&& a != b
            &&& l3 == l2
            &&& l3.active == Some(b)
            &&& l3.spec_complete(b).active is None
        }),
{
}

} // verus!
