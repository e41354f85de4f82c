//! The ready queue. Scheduling is round-robin, and happens where a trap returns; the
//! context switch itself is in `crate::state`.

use vstd::prelude::*;

use crate::cap::TcbId;
use crate::limits::MAX_TCBS;
use crate::queue::ArrayQueue;

verus! {

pub struct Scheduler {
    /// The threads that wait for the hart, the next to run first.
    pub ready: ArrayQueue<TcbId, MAX_TCBS>,
    pub current: Option<TcbId>,
}

impl Scheduler {
    pub open spec fn wf(&self) -> bool {
        self.ready.wf()
    }

    pub fn new() -> (scheduler: Self)
        ensures
            scheduler.wf(),
            scheduler.ready@ == Seq::<TcbId>::empty(),
            scheduler.current == None::<TcbId>,
    {
        Scheduler { ready: ArrayQueue::new(), current: None }
    }

    pub fn has_ready(&self) -> (any: bool)
        ensures
            any == (self.ready@.len() > 0),
    {
        !self.ready.is_empty()
    }
}

/// A ready queue after `id` has joined it; a full queue stays as it is.
pub open spec fn enqueued(ready: Seq<TcbId>, id: TcbId) -> Seq<TcbId> {
    if ready.len() < MAX_TCBS {
        ready.push(id)
    } else {
        ready
    }
}

impl Default for Scheduler {
    fn default() -> (scheduler: Self)
        ensures
            scheduler.wf(),
            scheduler.ready@ == Seq::<TcbId>::empty(),
            scheduler.current == None::<TcbId>,
    {
        Scheduler::new()
    }
}

} // verus!
