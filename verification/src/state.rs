//! The kernel state: every object pool and the scheduler in one place. The kernel has
//! a single stack and is never re-entered, so ordinary exclusive access is all the
//! synchronisation that it needs.

use vstd::prelude::*;

use crate::cap::{CNode, CPtr, Capability, TcbId};
use crate::error::SyscallError;
use crate::limits::{
    MAX_CNODES, MAX_ENDPOINTS, MAX_FRAMES, MAX_NOTIFICATIONS, MAX_SCHED_CONTEXTS, MAX_TCBS,
    MAX_UNTYPEDS, MAX_VSPACES,
};
use crate::model::{group_views, views, KernelModel};
use crate::object::{
    Endpoint, Frame, Notification, SavedContext, SchedulingContext, Tcb, ThreadState, Untyped,
    VSpace,
};
use crate::pool::Pool;
use crate::scheduler::Scheduler;
use crate::trap::TrapFrame;

verus! {

pub struct KernelState {
    pub cnodes: Pool<CNode, MAX_CNODES>,
    pub tcbs: Pool<Tcb, MAX_TCBS>,
    pub endpoints: Pool<Endpoint, MAX_ENDPOINTS>,
    pub notifications: Pool<Notification, MAX_NOTIFICATIONS>,
    pub untypeds: Pool<Untyped, MAX_UNTYPEDS>,
    pub sched_contexts: Pool<SchedulingContext, MAX_SCHED_CONTEXTS>,
    pub vspaces: Pool<VSpace, MAX_VSPACES>,
    pub frames: Pool<Frame, MAX_FRAMES>,
    pub scheduler: Scheduler,
    /// The root page table that the hart has to activate before it leaves the trap;
    /// `None` where the active one can stay.
    pub activation: Option<usize>,
}

impl View for KernelState {
    type V = KernelModel;

    open spec fn view(&self) -> KernelModel {
        KernelModel {
            cnodes: views(self.cnodes@),
            tcbs: views(self.tcbs@),
            endpoints: views(self.endpoints@),
            notifications: views(self.notifications@),
            untypeds: self.untypeds@,
            sched_contexts: self.sched_contexts@,
            vspaces: self.vspaces@,
            frames: self.frames@,
            ready: self.scheduler.ready@,
            current: self.scheduler.current,
            activation: self.activation,
        }
    }
}

impl KernelState {
    /// Every pool, every endpoint, every notification and the scheduler is in order.
    pub open spec fn wf(&self) -> bool {
        &&& self.cnodes.wf()
        &&& self.tcbs.wf()
        &&& self.endpoints.wf()
        &&& self.notifications.wf()
        &&& self.untypeds.wf()
        &&& self.sched_contexts.wf()
        &&& self.vspaces.wf()
        &&& self.frames.wf()
        &&& self.scheduler.wf()
        &&& forall|i: int|
            0 <= i < MAX_ENDPOINTS ==> (#[trigger] self.endpoints@[i] matches Some(endpoint)
                ==> endpoint.wf())
        &&& forall|i: int|
            0 <= i < MAX_NOTIFICATIONS ==> (#[trigger] self.notifications@[i] matches Some(
                notification,
            ) ==> notification.wf())
    }

    pub fn new() -> (state: Self)
        ensures
            state.wf(),
            state@ == KernelModel::initial(),
    {
        let state = KernelState {
            cnodes: Pool::new(),
            tcbs: Pool::new(),
            endpoints: Pool::new(),
            notifications: Pool::new(),
            untypeds: Pool::new(),
            sched_contexts: Pool::new(),
            vspaces: Pool::new(),
            frames: Pool::new(),
            scheduler: Scheduler::new(),
            activation: None,
        };
        assert(state@ =~= KernelModel::initial());
        state
    }

    /// Hands the hart to `next`: puts the running thread's registers away and loads
    /// `next`'s.
    ///
    /// `next` should come out of a wait structure that the caller has just taken it
    /// from, not out of the ready queue: its entry there would stay behind.
    pub fn switch_to(&mut self, frame: &mut TrapFrame, next: TcbId)
        requires
            old(self).wf(),
        ensures
            final(self).wf(),
            final(self)@ == old(self)@.switched(old(frame)@, next).kernel,
            final(frame)@ == old(self)@.switched(old(frame)@, next).regs,
    {
        self.save_current(frame);
        self.resume(frame, next);
    }

    /// Blocks the running thread, whose state the caller has set and which the caller
    /// has enqueued wherever it waits: the next ready thread runs, and the result is
    /// `true`. With nobody ready, nothing changes and the result is `false`; a caller
    /// asks `Scheduler::has_ready` before it commits to blocking.
    pub fn block_current(&mut self, frame: &mut TrapFrame) -> (switched: bool)
        requires
            old(self).wf(),
        ensures
            final(self).wf(),
            switched == (old(self)@.ready.len() > 0),
            final(self)@ == if switched {
                old(self)@.yielded(old(frame)@).kernel
            } else {
                old(self)@
            },
            final(frame)@ == if switched {
                old(self)@.yielded(old(frame)@).regs
            } else {
                old(frame)@
            },
    {
        match self.scheduler.ready.pop_front() {
            Some(next) => {
                self.save_current(frame);
                self.resume(frame, next);
                true
            },
            None => false,
        }
    }

    /// Loads `id` as the very first thread that this hart runs. There is no running
    /// thread to put away.
    pub fn enter_first(&mut self, frame: &mut TrapFrame, id: TcbId)
        requires
            old(self).wf(),
        ensures
            final(self).wf(),
            final(self)@ == old(self)@.resumed(id),
            final(frame)@ == old(self)@.registers_of(id, old(frame)@),
    {
        self.resume(frame, id);
    }

    /// Lets `id` wait for the hart: admits a thread that was just configured, or wakes
    /// one that was blocked.
    pub fn make_ready(&mut self, id: TcbId)
        requires
            old(self).wf(),
        ensures
            final(self).wf(),
            final(self)@ == old(self)@.made_ready(id),
    {
        self.set_thread_state(id, ThreadState::Ready);
        self.scheduler.ready.push_back(id);
    }

    /// Resolves `cptr` in `thread`'s CSpace.
    pub fn lookup_cap(&self, thread: TcbId, cptr: CPtr) -> (cap: Result<Capability, SyscallError>)
        ensures
            cap == self@.lookup(thread, cptr),
    {
        broadcast use group_views;

        let tcb = match self.tcbs.get(thread.0 as usize) {
            Some(tcb) => tcb,
            None => return Err(SyscallError::FailedLookup),
        };
        let cspace = match tcb.cspace {
            Some(id) => id,
            None => return Err(SyscallError::FailedLookup),
        };
        let cnode = match self.cnodes.get(cspace.0 as usize) {
            Some(cnode) => cnode,
            None => return Err(SyscallError::FailedLookup),
        };
        match cnode.get(cptr) {
            None => Err(SyscallError::FailedLookup),
            Some(Capability::Null) => Err(SyscallError::InvalidCapability),
            Some(cap) => Ok(cap),
        }
    }

    /// Moves the thread `id`, if there is one, to `state`.
    pub(crate) fn set_thread_state(&mut self, id: TcbId, state: ThreadState)
        requires
            old(self).wf(),
        ensures
            final(self).wf(),
            final(self)@ == old(self)@.with_state(id, state),
    {
        broadcast use group_views;

        if let Some(tcb) = self.tcbs.get_mut(id.0 as usize) {
            tcb.state = state;
        }
    }

    fn save_current(&mut self, frame: &TrapFrame)
        requires
            old(self).wf(),
        ensures
            final(self).wf(),
            final(self)@ == old(self)@.saved(frame@),
    {
        broadcast use group_views;

        if let Some(current) = self.scheduler.current {
            if let Some(tcb) = self.tcbs.get_mut(current.0 as usize) {
                tcb.context = SavedContext::save_from(frame);
            }
        }
    }

    fn resume(&mut self, frame: &mut TrapFrame, next: TcbId)
        requires
            old(self).wf(),
        ensures
            final(self).wf(),
            final(self)@ == old(self)@.resumed(next),
            final(frame)@ == old(self)@.registers_of(next, old(frame)@),
    {
        broadcast use group_views;

        if let Some(tcb) = self.tcbs.get_mut(next.0 as usize) {
            tcb.context.restore_into(frame);
            tcb.state = ThreadState::Running;
            if tcb.address_space.is_some() {
                self.activation = tcb.address_space;
            }
        }
        self.scheduler.current = Some(next);
    }
}

/// A kernel state that is in order is a model that is.
pub proof fn law_state_models_are_wf(state: KernelState)
    requires
        state.wf(),
    ensures
        state@.wf(),
{
    broadcast use {group_views, Pool::lemma_capacity, SavedContext::lemma_wf, CNode::lemma_capacity};
    broadcast use crate::queue::ArrayQueue::lemma_capacity;

    let k = state@;
    assert forall|i: int| 0 <= i < MAX_ENDPOINTS implies (#[trigger] k.endpoints[i] matches Some(
        endpoint,
    ) ==> endpoint.wf()) by {
        assert(state.endpoints@[i] is Some ==> state.endpoints@[i]->0.wf());
    }
    assert forall|i: int| 0 <= i < MAX_NOTIFICATIONS implies (#[trigger] k.notifications[i] matches Some(
        notification,
    ) ==> notification.waiters.len() <= MAX_TCBS) by {
        assert(state.notifications@[i] is Some ==> state.notifications@[i]->0.wf());
    }
}

impl Default for KernelState {
    fn default() -> (state: Self)
        ensures
            state.wf(),
            state@ == KernelModel::initial(),
    {
        KernelState::new()
    }
}

} // verus!
