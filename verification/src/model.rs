//! The kernel state as mathematical values, and the elementary changes that syscalls
//! are made of.

use vstd::prelude::*;

use crate::cap::{
    slot, CNode, CNodeId, CPtr, Capability, EndpointId, FrameId, NotificationId, TcbId, UntypedId,
    VSpaceId,
};
use crate::error::SyscallError;
use crate::limits::{
    CNODE_SLOTS, MAX_CNODES, MAX_ENDPOINTS, MAX_FRAMES, MAX_NOTIFICATIONS, MAX_SCHED_CONTEXTS,
    MAX_TCBS, MAX_UNTYPEDS, MAX_VSPACES,
};
use crate::object::{
    EndpointModel, Frame, NotificationModel, SchedulingContext, TcbModel, ThreadState, Untyped,
    VSpace,
};
use crate::pool::{entry, is_exhausted, is_first_free, overwrite};
use crate::scheduler::enqueued;
use crate::trap::Registers;

verus! {

/// The slots of a pool, each object replaced by its view.
pub open spec fn views<T: View>(slots: Seq<Option<T>>) -> Seq<Option<T::V>> {
    Seq::new(
        slots.len(),
        |i: int|
            match slots[i] {
                Some(object) => Some(object@),
                None => None,
            },
    )
}

pub broadcast proof fn lemma_views_update<T: View>(slots: Seq<Option<T>>, index: int, object: T)
    requires
        0 <= index < slots.len(),
    ensures
        #[trigger] views(slots.update(index, Some(object))) == views(slots).update(
            index,
            Some(object@),
        ),
{
    assert(views(slots.update(index, Some(object))) =~= views(slots).update(index, Some(object@)));
}

pub broadcast proof fn lemma_views_entry<T: View>(slots: Seq<Option<T>>, index: int)
    ensures
        #[trigger] entry(views(slots), index) == match entry(slots, index) {
            Some(object) => Some(object@),
            None => None,
        },
{
}

pub broadcast proof fn lemma_views_first_free<T: View>(slots: Seq<Option<T>>, index: int)
    ensures
        #[trigger] is_first_free(slots, index) <==> is_first_free(views(slots), index),
{
    if is_first_free(views(slots), index) {
        assert forall|j: int| 0 <= j < index implies slots[j] is Some by {
            assert(views(slots)[j] is Some);
        }
    }
}

pub broadcast proof fn lemma_views_exhausted<T: View>(slots: Seq<Option<T>>)
    ensures
        #[trigger] is_exhausted(slots) <==> is_exhausted(views(slots)),
{
    if is_exhausted(views(slots)) {
        assert forall|j: int| 0 <= j < slots.len() implies slots[j] is Some by {
            assert(views(slots)[j] is Some);
        }
    }
}

pub broadcast group group_views {
    lemma_views_update,
    lemma_views_entry,
    lemma_views_first_free,
    lemma_views_exhausted,
}

/// Every kernel object, and who runs.
#[verifier::ext_equal]
pub struct KernelModel {
    pub cnodes: Seq<Option<Seq<Capability>>>,
    pub tcbs: Seq<Option<TcbModel>>,
    pub endpoints: Seq<Option<EndpointModel>>,
    pub notifications: Seq<Option<NotificationModel>>,
    pub untypeds: Seq<Option<Untyped>>,
    pub sched_contexts: Seq<Option<SchedulingContext>>,
    pub vspaces: Seq<Option<VSpace>>,
    pub frames: Seq<Option<Frame>>,
    pub ready: Seq<TcbId>,
    pub current: Option<TcbId>,
    pub activation: Option<usize>,
}

/// What a syscall leaves behind: the kernel, the registers of the thread that runs
/// next, and whether it succeeded.
#[verifier::ext_equal]
pub struct Step {
    pub kernel: KernelModel,
    pub regs: Registers,
    pub result: Result<(), SyscallError>,
}

impl KernelModel {
    /// A kernel without any object.
    pub open spec fn initial() -> KernelModel {
        KernelModel {
            cnodes: Seq::new(MAX_CNODES as nat, |i: int| None),
            tcbs: Seq::new(MAX_TCBS as nat, |i: int| None),
            endpoints: Seq::new(MAX_ENDPOINTS as nat, |i: int| None),
            notifications: Seq::new(MAX_NOTIFICATIONS as nat, |i: int| None),
            untypeds: Seq::new(MAX_UNTYPEDS as nat, |i: int| None),
            sched_contexts: Seq::new(MAX_SCHED_CONTEXTS as nat, |i: int| None),
            vspaces: Seq::new(MAX_VSPACES as nat, |i: int| None),
            frames: Seq::new(MAX_FRAMES as nat, |i: int| None),
            ready: Seq::empty(),
            current: None,
            activation: None,
        }
    }

    /// Pools have their capacity, CNodes and register files their size, endpoints keep
    /// a side only while somebody waits on it, and no queue outgrows the number of
    /// threads.
    pub open spec fn wf(self) -> bool {
        &&& self.cnodes.len() == MAX_CNODES
        &&& self.tcbs.len() == MAX_TCBS
        &&& self.endpoints.len() == MAX_ENDPOINTS
        &&& self.notifications.len() == MAX_NOTIFICATIONS
        &&& self.untypeds.len() == MAX_UNTYPEDS
        &&& self.sched_contexts.len() == MAX_SCHED_CONTEXTS
        &&& self.vspaces.len() == MAX_VSPACES
        &&& self.frames.len() == MAX_FRAMES
        &&& self.ready.len() <= MAX_TCBS
        &&& forall|i: int|
            0 <= i < MAX_CNODES ==> (#[trigger] self.cnodes[i] matches Some(slots) ==> slots.len()
                == CNODE_SLOTS)
        &&& forall|i: int|
            0 <= i < MAX_TCBS ==> (#[trigger] self.tcbs[i] matches Some(tcb) ==> tcb.context.wf())
        &&& forall|i: int|
            0 <= i < MAX_ENDPOINTS ==> (#[trigger] self.endpoints[i] matches Some(endpoint)
                ==> endpoint.wf())
        &&& forall|i: int|
            0 <= i < MAX_NOTIFICATIONS ==> (#[trigger] self.notifications[i] matches Some(
                notification,
            ) ==> notification.waiters.len() <= MAX_TCBS)
    }

    pub open spec fn cnode(self, id: CNodeId) -> Option<Seq<Capability>> {
        entry(self.cnodes, id.0 as int)
    }

    pub open spec fn tcb(self, id: TcbId) -> Option<TcbModel> {
        entry(self.tcbs, id.0 as int)
    }

    pub open spec fn endpoint(self, id: EndpointId) -> Option<EndpointModel> {
        entry(self.endpoints, id.0 as int)
    }

    pub open spec fn notification(self, id: NotificationId) -> Option<NotificationModel> {
        entry(self.notifications, id.0 as int)
    }

    pub open spec fn untyped(self, id: UntypedId) -> Option<Untyped> {
        entry(self.untypeds, id.0 as int)
    }

    pub open spec fn vspace(self, id: VSpaceId) -> Option<VSpace> {
        entry(self.vspaces, id.0 as int)
    }

    pub open spec fn frame(self, id: FrameId) -> Option<Frame> {
        entry(self.frames, id.0 as int)
    }

    pub open spec fn with_cnode(self, id: CNodeId, slots: Seq<Capability>) -> KernelModel {
        KernelModel { cnodes: overwrite(self.cnodes, id.0 as int, slots), ..self }
    }

    pub open spec fn with_tcb(self, id: TcbId, tcb: TcbModel) -> KernelModel {
        KernelModel { tcbs: overwrite(self.tcbs, id.0 as int, tcb), ..self }
    }

    pub open spec fn with_endpoint(self, id: EndpointId, endpoint: EndpointModel) -> KernelModel {
        KernelModel { endpoints: overwrite(self.endpoints, id.0 as int, endpoint), ..self }
    }

    pub open spec fn with_notification(
        self,
        id: NotificationId,
        notification: NotificationModel,
    ) -> KernelModel {
        KernelModel { notifications: overwrite(self.notifications, id.0 as int, notification), ..self
        }
    }

    pub open spec fn with_untyped(self, id: UntypedId, untyped: Untyped) -> KernelModel {
        KernelModel { untypeds: overwrite(self.untypeds, id.0 as int, untyped), ..self }
    }

    pub open spec fn with_frame(self, id: FrameId, frame: Frame) -> KernelModel {
        KernelModel { frames: overwrite(self.frames, id.0 as int, frame), ..self }
    }

    /// The kernel after `cap` was written into a slot of the CNode `id`.
    pub open spec fn with_cap(self, id: CNodeId, cptr: CPtr, cap: Capability) -> KernelModel {
        match self.cnode(id) {
            Some(slots) => self.with_cnode(id, slots.update(cptr as int, cap)),
            None => self,
        }
    }

    /// The kernel after the thread `id` entered `state`.
    pub open spec fn with_state(self, id: TcbId, state: ThreadState) -> KernelModel {
        match self.tcb(id) {
            Some(tcb) => self.with_tcb(id, TcbModel { state, ..tcb }),
            None => self,
        }
    }

    /// The kernel after the saved registers of the thread `id` were replaced.
    pub open spec fn with_context(self, id: TcbId, context: Registers) -> KernelModel {
        match self.tcb(id) {
            Some(tcb) => self.with_tcb(id, TcbModel { context, ..tcb }),
            None => self,
        }
    }

    /// The kernel after the reply link of the thread `id` was set or cleared.
    pub open spec fn with_reply_to(self, id: TcbId, reply_to: Option<TcbId>) -> KernelModel {
        match self.tcb(id) {
            Some(tcb) => self.with_tcb(id, TcbModel { reply_to, ..tcb }),
            None => self,
        }
    }

    /// What `cptr` designates to `thread`. The lookup fails for a thread without a
    /// CSpace and for a slot past the end of it; an empty slot is no capability.
    pub open spec fn lookup(self, thread: TcbId, cptr: CPtr) -> Result<Capability, SyscallError> {
        match self.cspace(thread) {
            None => Err(SyscallError::FailedLookup),
            Some(id) => match self.cnode(id) {
                None => Err(SyscallError::FailedLookup),
                Some(slots) => match slot(slots, cptr) {
                    None => Err(SyscallError::FailedLookup),
                    Some(Capability::Null) => Err(SyscallError::InvalidCapability),
                    Some(cap) => Ok(cap),
                },
            },
        }
    }

    /// The CNode that `thread` looks its capabilities up in.
    pub open spec fn cspace(self, thread: TcbId) -> Option<CNodeId> {
        match self.tcb(thread) {
            Some(tcb) => tcb.cspace,
            None => None,
        }
    }

    /// The kernel after `id` joined the ready queue.
    pub open spec fn made_ready(self, id: TcbId) -> KernelModel {
        KernelModel {
            ready: enqueued(self.ready, id),
            ..self.with_state(id, ThreadState::Ready)
        }
    }

    /// The kernel after the registers of the running thread were put away.
    pub open spec fn saved(self, regs: Registers) -> KernelModel {
        match self.current {
            Some(current) => self.with_context(current, regs),
            None => self,
        }
    }

    /// The kernel after `next` became the running thread. Its address space, if it has
    /// one, is to be activated.
    pub open spec fn resumed(self, next: TcbId) -> KernelModel {
        KernelModel {
            current: Some(next),
            activation: match self.tcb(next) {
                Some(tcb) if tcb.address_space is Some => tcb.address_space,
                _ => self.activation,
            },
            ..self.with_state(next, ThreadState::Running)
        }
    }

    /// The registers that the hart holds once `next` runs: its saved ones.
    pub open spec fn registers_of(self, next: TcbId, regs: Registers) -> Registers {
        match self.tcb(next) {
            Some(tcb) => tcb.context,
            None => regs,
        }
    }

    /// The running thread is put away and `next` runs.
    pub open spec fn switched(self, regs: Registers, next: TcbId) -> Step {
        Step {
            kernel: self.saved(regs).resumed(next),
            regs: self.saved(regs).registers_of(next, regs),
            result: Ok(()),
        }
    }

    /// The running thread is put away and the first of the ready queue runs. There must
    /// be one.
    pub open spec fn yielded(self, regs: Registers) -> Step {
        KernelModel { ready: self.ready.skip(1), ..self }.switched(regs, self.ready[0])
    }

    /// A syscall that changes nothing but fails with `error`.
    pub open spec fn refused(self, regs: Registers, error: SyscallError) -> Step {
        Step { kernel: self, regs, result: Err(error) }
    }

    /// A syscall that succeeds with this kernel and leaves the running thread its
    /// registers, the error bit cleared.
    pub open spec fn done(self, regs: Registers) -> Step {
        Step { kernel: self, regs: regs.succeeded(), result: Ok(()) }
    }
}

} // verus!
