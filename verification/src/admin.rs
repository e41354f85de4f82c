//! Making objects out of untyped memory, and configuring threads.

use vstd::prelude::*;

use crate::abi;
use crate::cap::{
    slot, CNode, CNodeId, CPtr, Capability, EndpointId, FrameId, NotificationId, ObjectType,
    Rights, SchedContextId, TcbId, UntypedId, VSpaceId,
};
use crate::cnode::{cnode_named, write_slot};
use crate::error::SyscallError;
use crate::model::{group_views, KernelModel, Step};
use crate::object::{
    Endpoint, EndpointModel, Frame, FrameSize, Notification, NotificationModel, SchedulingContext,
    Tcb, TcbModel, ThreadState, Untyped, VSpace, PAGE_SIZE,
};
use crate::pool::{allocated, law_first_free, Pool};
use crate::state::KernelState;
use crate::trap::{Registers, TrapFrame};

verus! {

/// What making an object leaves behind: the kernel with it, and a capability with all
/// rights to it. Physical memory that was taken for an object whose pool turns out to be
/// full stays taken.
pub struct Creation {
    pub kernel: KernelModel,
    pub cap: Result<Capability, SyscallError>,
}

impl KernelModel {
    /// An object of type `object_type` is made, with physical memory, where it needs
    /// any, out of the untyped memory `source`. Untyped memory itself is not made.
    pub open spec fn created(self, source: UntypedId, object_type: ObjectType) -> Creation {
        let full = Creation { kernel: self, cap: Err(SyscallError::NotEnoughMemory) };
        match object_type {
            ObjectType::CNode => match allocated(self.cnodes, CNode::spec_empty()) {
                None => full,
                Some((cnodes, i)) => Creation {
                    kernel: KernelModel { cnodes, ..self },
                    cap: Ok(Capability::CNode(CNodeId(i))),
                },
            },
            ObjectType::Endpoint => match allocated(self.endpoints, EndpointModel::Empty) {
                None => full,
                Some((endpoints, i)) => Creation {
                    kernel: KernelModel { endpoints, ..self },
                    cap: Ok(
                        Capability::Endpoint { id: EndpointId(i), badge: 0, rights: Rights::all() },
                    ),
                },
            },
            ObjectType::Notification => match allocated(
                self.notifications,
                NotificationModel::fresh(),
            ) {
                None => full,
                Some((notifications, i)) => Creation {
                    kernel: KernelModel { notifications, ..self },
                    cap: Ok(
                        Capability::Notification {
                            id: NotificationId(i),
                            badge: 0,
                            rights: Rights::all(),
                        },
                    ),
                },
            },
            ObjectType::Tcb => match allocated(self.tcbs, TcbModel::fresh()) {
                None => full,
                Some((tcbs, i)) => Creation {
                    kernel: KernelModel { tcbs, ..self },
                    cap: Ok(Capability::Tcb { id: TcbId(i), rights: Rights::all() }),
                },
            },
            ObjectType::SchedContext => match allocated(
                self.sched_contexts,
                SchedulingContext { budget: 1, period: 1 },
            ) {
                None => full,
                Some((sched_contexts, i)) => Creation {
                    kernel: KernelModel { sched_contexts, ..self },
                    cap: Ok(
                        Capability::SchedContext { id: SchedContextId(i), rights: Rights::all() },
                    ),
                },
            },
            ObjectType::VSpace => match self.block(source, PAGE_SIZE) {
                None => full,
                Some((root, taken)) => match allocated(taken.vspaces, VSpace { root, source }) {
                    None => Creation { kernel: taken, ..full },
                    Some((vspaces, i)) => Creation {
                        kernel: KernelModel { vspaces, ..taken },
                        cap: Ok(Capability::VSpace { id: VSpaceId(i), rights: Rights::all() }),
                    },
                },
            },
            ObjectType::FrameSmall => self.frame_created(source, FrameSize::Small),
            ObjectType::FrameMega => self.frame_created(source, FrameSize::Mega),
            ObjectType::Untyped => Creation {
                kernel: self,
                cap: Err(SyscallError::InvalidArgument),
            },
        }
    }

    pub open spec fn frame_created(self, source: UntypedId, size: FrameSize) -> Creation {
        match self.block(source, size.bytes()) {
            None => Creation { kernel: self, cap: Err(SyscallError::NotEnoughMemory) },
            Some((paddr, taken)) => match allocated(
                taken.frames,
                Frame::new(paddr, size),
            ) {
                None => Creation { kernel: taken, cap: Err(SyscallError::NotEnoughMemory) },
                Some((frames, i)) => Creation {
                    kernel: KernelModel { frames, ..taken },
                    cap: Ok(Capability::Frame { id: FrameId(i), rights: Rights::all() }),
                },
            },
        }
    }

    /// The start of a block of `size` bytes, aligned to its size, out of the untyped
    /// memory `source`, and the kernel after it was taken; `None` where there is none.
    pub open spec fn block(self, source: UntypedId, size: usize) -> Option<(usize, KernelModel)> {
        match self.untyped(source) {
            Some(untyped) => match untyped.bump_start(size, size) {
                Some(start) => Some(
                    (start, self.with_untyped(source, untyped.bumped(size, size))),
                ),
                None => None,
            },
            None => None,
        }
    }

    /// The kernel after one object was charged to the untyped memory `id`.
    pub open spec fn charged(self, id: UntypedId) -> KernelModel {
        match self.untyped(id) {
            Some(untyped) => self.with_untyped(
                id,
                Untyped { remaining: (untyped.remaining - 1) as usize, ..untyped },
            ),
            None => self,
        }
    }

    /// The CNode that a new capability goes to: `current`'s own, whose slot `dest` must
    /// be empty.
    pub open spec fn vacancy(self, current: TcbId, dest: CPtr) -> Result<CNodeId, SyscallError> {
        match self.cspace(current) {
            None => Err(SyscallError::FailedLookup),
            Some(id) => match self.cnode(id) {
                None => Err(SyscallError::FailedLookup),
                Some(slots) => match slot(slots, dest) {
                    None => Err(SyscallError::RangeError),
                    Some(Capability::Null) => Ok(id),
                    Some(_) => Err(SyscallError::IllegalOperation),
                },
            },
        }
    }
}

/// The untyped memory that `cptr` designates to `thread`, provided that it may be used,
/// the object type that `mr1` asks for, and the CNode whose slot `mr2` the new
/// capability goes to.
pub open spec fn retype_request(k: KernelModel, current: TcbId, cptr: CPtr, regs: Registers) -> Result<
    (UntypedId, ObjectType, CNodeId),
    SyscallError,
> {
    match k.lookup(current, cptr) {
        Err(error) => Err(error),
        Ok(Capability::Untyped { id, rights }) => if !rights.contains(Rights::write()) {
            Err(SyscallError::IllegalOperation)
        } else {
            match ObjectType::from_usize(regs.mrs[1]) {
                None => Err(SyscallError::InvalidArgument),
                Some(object_type) => match k.untyped(id) {
                    None => Err(SyscallError::InvalidCapability),
                    Some(untyped) => if untyped.remaining == 0 {
                        Err(SyscallError::NotEnoughMemory)
                    } else {
                        match k.vacancy(current, regs.mrs[2]) {
                            Err(error) => Err(error),
                            Ok(cspace) => Ok((id, object_type, cspace)),
                        }
                    },
                },
            }
        },
        Ok(_) => Err(SyscallError::InvalidCapability),
    }
}

/// A retype. Everything is checked before anything is made, so that no object is left
/// without a capability to it.
pub open spec fn retype_step(k: KernelModel, current: TcbId, cptr: CPtr, regs: Registers) -> Step {
    match retype_request(k, current, cptr, regs) {
        Err(error) => k.refused(regs, error),
        Ok((source, object_type, cspace)) => {
            let made = k.created(source, object_type);
            match made.cap {
                Err(error) => made.kernel.refused(regs, error),
                Ok(cap) => made.kernel.with_cap(cspace, regs.mrs[2], cap).charged(source).done(regs),
            }
        },
    }
}

/// What a thread is configured with.
pub struct Configuration {
    pub target: TcbId,
    pub cspace: CNodeId,
    pub sched_context: SchedContextId,
    pub address_space: Option<usize>,
}

/// The thread that `cptr` designates to `current`, provided that it may be configured.
pub open spec fn thread_named(k: KernelModel, current: TcbId, cptr: CPtr) -> Result<
    TcbId,
    SyscallError,
> {
    match k.lookup(current, cptr) {
        Err(error) => Err(error),
        Ok(Capability::Tcb { id, rights }) => if rights.contains(Rights::write()) {
            Ok(id)
        } else {
            Err(SyscallError::IllegalOperation)
        },
        Ok(_) => Err(SyscallError::InvalidCapability),
    }
}

/// The scheduling context that `cptr` designates to `current`.
pub open spec fn sched_context_named(k: KernelModel, current: TcbId, cptr: CPtr) -> Result<
    SchedContextId,
    SyscallError,
> {
    match k.lookup(current, cptr) {
        Err(error) => Err(error),
        Ok(Capability::SchedContext { id, .. }) => Ok(id),
        Ok(_) => Err(SyscallError::InvalidCapability),
    }
}

/// The address space that `cptr` designates to `current`, provided that it may be
/// written to.
pub open spec fn vspace_named(k: KernelModel, current: TcbId, cptr: CPtr) -> Result<
    VSpaceId,
    SyscallError,
> {
    match k.lookup(current, cptr) {
        Err(error) => Err(error),
        Ok(Capability::VSpace { id, rights }) => if rights.contains(Rights::write()) {
            Ok(id)
        } else {
            Err(SyscallError::IllegalOperation)
        },
        Ok(_) => Err(SyscallError::InvalidCapability),
    }
}

/// The address space that the argument `cptr` of a configuration asks for. Zero asks for
/// none, whatever slot zero holds.
pub open spec fn address_space_named(k: KernelModel, current: TcbId, cptr: CPtr) -> Result<
    Option<usize>,
    SyscallError,
> {
    if cptr == 0 {
        Ok(None)
    } else {
        match vspace_named(k, current, cptr) {
            Err(error) => Err(error),
            Ok(id) => match k.vspace(id) {
                None => Err(SyscallError::InvalidCapability),
                Some(vspace) => Ok(Some(vspace.root)),
            },
        }
    }
}

/// What a configuration asks for: `cptr` names the thread, `mr1` its CSpace, `mr2` its
/// scheduling context and `mr3` its address space.
pub open spec fn configuration(k: KernelModel, current: TcbId, cptr: CPtr, regs: Registers) -> Result<
    Configuration,
    SyscallError,
> {
    match thread_named(k, current, cptr) {
        Err(error) => Err(error),
        Ok(target) => match cnode_named(k, current, regs.mrs[1]) {
            Err(error) => Err(error),
            Ok(cspace) => match sched_context_named(k, current, regs.mrs[2]) {
                Err(error) => Err(error),
                Ok(sched_context) => match address_space_named(k, current, regs.mrs[3]) {
                    Err(error) => Err(error),
                    Ok(address_space) => Ok(
                        Configuration { target, cspace, sched_context, address_space },
                    ),
                },
            },
        },
    }
}

/// A configuration. The first one makes the thread ready.
pub open spec fn configure_step(k: KernelModel, current: TcbId, cptr: CPtr, regs: Registers) -> Step {
    match configuration(k, current, cptr, regs) {
        Err(error) => k.refused(regs, error),
        Ok(wanted) => match k.tcb(wanted.target) {
            None => k.refused(regs, SyscallError::InvalidCapability),
            Some(tcb) => {
                let configured = k.with_tcb(
                    wanted.target,
                    TcbModel {
                        cspace: Some(wanted.cspace),
                        sched_context: Some(wanted.sched_context),
                        address_space: wanted.address_space,
                        ..tcb
                    },
                );
                if tcb.state == ThreadState::Inactive {
                    configured.made_ready(wanted.target)
                } else {
                    configured
                }.done(regs)
            },
        },
    }
}

/// Takes a block of `size` bytes, aligned to its size, out of untyped memory.
fn take_block(state: &mut KernelState, source: UntypedId, size: usize) -> (start: Option<usize>)
    requires
        old(state).wf(),
        size > 0,
    ensures
        final(state).wf(),
        match old(state)@.block(source, size) {
            Some((paddr, taken)) => start == Some(paddr) && final(state)@ == taken,
            None => start is None && final(state)@ == old(state)@,
        },
{
    let start = match state.untypeds.get_mut(source.0 as usize) {
        Some(untyped) => untyped.bump(size, size),
        None => None,
    };
    assert(state@ =~= match old(state)@.block(source, size) {
        Some((_, taken)) => taken,
        None => old(state)@,
    });
    start
}

fn create_frame(state: &mut KernelState, source: UntypedId, size: FrameSize) -> (cap: Result<
    Capability,
    SyscallError,
>)
    requires
        old(state).wf(),
    ensures
        final(state).wf(),
        (Creation { kernel: final(state)@, cap }) == old(state)@.frame_created(source, size),
{
    let paddr = match take_block(state, source, size.bytes()) {
        Some(paddr) => paddr,
        None => return Err(SyscallError::NotEnoughMemory),
    };
    let ghost taken = state@;
    match state.frames.allocate(Frame::new(paddr, size)) {
        Some(index) => {
            proof {
                law_first_free(taken.frames, index as int);
            }
            Ok(Capability::Frame { id: FrameId(index as u16), rights: Rights::all() })
        },
        None => Err(SyscallError::NotEnoughMemory),
    }
}

/// Makes an object and returns a capability with all rights to it.
fn create(state: &mut KernelState, source: UntypedId, object_type: ObjectType) -> (cap: Result<
    Capability,
    SyscallError,
>)
    requires
        old(state).wf(),
    ensures
        final(state).wf(),
        (Creation { kernel: final(state)@, cap }) == old(state)@.created(source, object_type),
{
    broadcast use {group_views, Pool::lemma_capacity};

    match object_type {
        ObjectType::CNode => match state.cnodes.allocate(CNode::empty()) {
            Some(index) => {
                proof {
                    law_first_free(old(state)@.cnodes, index as int);
                }
                Ok(Capability::CNode(CNodeId(index as u16)))
            },
            None => Err(SyscallError::NotEnoughMemory),
        },
        ObjectType::Endpoint => match state.endpoints.allocate(Endpoint::new()) {
            Some(index) => {
                proof {
                    law_first_free(old(state)@.endpoints, index as int);
                }
                Ok(
                    Capability::Endpoint {
                        id: EndpointId(index as u16),
                        badge: 0,
                        rights: Rights::all(),
                    },
                )
            },
            None => Err(SyscallError::NotEnoughMemory),
        },
        ObjectType::Notification => match state.notifications.allocate(Notification::new()) {
            Some(index) => {
                proof {
                    law_first_free(old(state)@.notifications, index as int);
                }
                Ok(
                    Capability::Notification {
                        id: NotificationId(index as u16),
                        badge: 0,
                        rights: Rights::all(),
                    },
                )
            },
            None => Err(SyscallError::NotEnoughMemory),
        },
        ObjectType::Tcb => match state.tcbs.allocate(Tcb::new()) {
            Some(index) => {
                proof {
                    law_first_free(old(state)@.tcbs, index as int);
                }
                Ok(Capability::Tcb { id: TcbId(index as u16), rights: Rights::all() })
            },
            None => Err(SyscallError::NotEnoughMemory),
        },
        ObjectType::SchedContext => match state.sched_contexts.allocate(SchedulingContext::new(1)) {
            Some(index) => {
                proof {
                    law_first_free(old(state)@.sched_contexts, index as int);
                }
                Ok(
                    Capability::SchedContext {
                        id: SchedContextId(index as u16),
                        rights: Rights::all(),
                    },
                )
            },
            None => Err(SyscallError::NotEnoughMemory),
        },
        ObjectType::VSpace => {
            let root = match take_block(state, source, PAGE_SIZE) {
                Some(root) => root,
                None => return Err(SyscallError::NotEnoughMemory),
            };
            let ghost taken = state@;
            match state.vspaces.allocate(VSpace { root, source }) {
                Some(index) => {
                    proof {
                        law_first_free(taken.vspaces, index as int);
                    }
                    Ok(Capability::VSpace { id: VSpaceId(index as u16), rights: Rights::all() })
                },
                None => Err(SyscallError::NotEnoughMemory),
            }
        },
        ObjectType::FrameSmall => create_frame(state, source, FrameSize::Small),
        ObjectType::FrameMega => create_frame(state, source, FrameSize::Mega),
        ObjectType::Untyped => Err(SyscallError::InvalidArgument),
    }
}

/// The CNode that a new capability goes to.
fn vacant_cspace(state: &KernelState, current: TcbId, dest: CPtr) -> (cspace: Result<
    CNodeId,
    SyscallError,
>)
    ensures
        cspace == state@.vacancy(current, dest),
{
    broadcast use group_views;

    let cspace = match state.tcbs.get(current.0 as usize) {
        Some(tcb) => tcb.cspace,
        None => None,
    };
    let id = match cspace {
        Some(id) => id,
        None => return Err(SyscallError::FailedLookup),
    };
    match state.cnodes.get(id.0 as usize) {
        None => Err(SyscallError::FailedLookup),
        Some(cnode) => match cnode.get(dest) {
            None => Err(SyscallError::RangeError),
            Some(Capability::Null) => Ok(id),
            Some(_) => Err(SyscallError::IllegalOperation),
        },
    }
}

/// Makes one object out of the budget of the untyped memory that `cptr` names, and puts
/// a capability with all rights to it into the caller's CSpace. `mr1` is the type of the
/// object, `mr2` the slot.
pub fn untyped_retype(
    state: &mut KernelState,
    current: TcbId,
    cptr: CPtr,
    frame: &mut TrapFrame,
) -> (result: Result<(), SyscallError>)
    requires
        old(state).wf(),
    ensures
        final(state).wf(),
        (Step { kernel: final(state)@, regs: final(frame)@, result }) == retype_step(
            old(state)@,
            current,
            cptr,
            old(frame)@,
        ),
{
    let source = match state.lookup_cap(current, cptr)? {
        Capability::Untyped { id, rights } => if rights.contains(Rights::write()) {
            id
        } else {
            return Err(SyscallError::IllegalOperation);
        },
        _ => return Err(SyscallError::InvalidCapability),
    };
    let object_type = match ObjectType::from_usize(frame.mr(1)) {
        Some(object_type) => object_type,
        None => return Err(SyscallError::InvalidArgument),
    };
    let dest = frame.mr(2);
    match state.untypeds.get(source.0 as usize) {
        None => return Err(SyscallError::InvalidCapability),
        Some(untyped) => {
            if untyped.remaining == 0 {
                return Err(SyscallError::NotEnoughMemory);
            }
        },
    }
    let cspace = vacant_cspace(state, current, dest)?;
    let cap = create(state, source, object_type)?;
    proof {
        lemma_creation_keeps_others(old(state)@, source, object_type);
    }
    write_slot(state, cspace, dest, cap);
    if let Some(untyped) = state.untypeds.get_mut(source.0 as usize) {
        untyped.remaining = untyped.remaining - 1;
    }
    abi::reply_success(frame);
    Ok(())
}

/// Making an object leaves every CNode that was there as it was, and the untyped memory
/// its budget.
proof fn lemma_creation_keeps_others(k: KernelModel, source: UntypedId, object_type: ObjectType)
    ensures
        forall|id: CNodeId|
            k.cnode(id) is Some ==> #[trigger] k.created(source, object_type).kernel.cnode(id)
                == k.cnode(id),
        match (k.untyped(source), k.created(source, object_type).kernel.untyped(source)) {
            (Some(before), Some(after)) => before.remaining == after.remaining,
            (None, None) => true,
            _ => false,
        },
{
    crate::pool::law_first_free_exists(k.cnodes);
}

/// Sets the CSpace, the scheduling context and the address space of the thread that
/// `cptr` names, and makes it ready the first time.
///
/// `mr3` is zero for a thread without an address space of its own. Zero never means slot
/// zero; any other number must name an address space.
pub fn configure(
    state: &mut KernelState,
    current: TcbId,
    cptr: CPtr,
    frame: &mut TrapFrame,
) -> (result: Result<(), SyscallError>)
    requires
        old(state).wf(),
    ensures
        final(state).wf(),
        (Step { kernel: final(state)@, regs: final(frame)@, result }) == configure_step(
            old(state)@,
            current,
            cptr,
            old(frame)@,
        ),
{
    broadcast use group_views;

    let target = match state.lookup_cap(current, cptr)? {
        Capability::Tcb { id, rights } => if rights.contains(Rights::write()) {
            id
        } else {
            return Err(SyscallError::IllegalOperation);
        },
        _ => return Err(SyscallError::InvalidCapability),
    };
    let cspace = match state.lookup_cap(current, frame.mr(1))? {
        Capability::CNode(id) => id,
        _ => return Err(SyscallError::InvalidCapability),
    };
    let sched_context = match state.lookup_cap(current, frame.mr(2))? {
        Capability::SchedContext { id, .. } => id,
        _ => return Err(SyscallError::InvalidCapability),
    };
    let vspace_arg = frame.mr(3);
    let address_space = if vspace_arg == 0 {
        None
    } else {
        let id = resolve_vspace(state, current, vspace_arg)?;
        match state.vspaces.get(id.0 as usize) {
            Some(vspace) => Some(vspace.root),
            None => return Err(SyscallError::InvalidCapability),
        }
    };
    let was_inactive = match state.tcbs.get_mut(target.0 as usize) {
        None => return Err(SyscallError::InvalidCapability),
        Some(tcb) => {
            tcb.cspace = Some(cspace);
            tcb.sched_context = Some(sched_context);
            tcb.address_space = address_space;
            tcb.state == ThreadState::Inactive
        },
    };
    if was_inactive {
        state.make_ready(target);
    }
    abi::reply_success(frame);
    Ok(())
}

/// Resolves `cptr` as an address space that `current` may write to.
pub(crate) fn resolve_vspace(state: &KernelState, current: TcbId, cptr: CPtr) -> (vspace: Result<
    VSpaceId,
    SyscallError,
>)
    ensures
        vspace == vspace_named(state@, current, cptr),
{
    match state.lookup_cap(current, cptr)? {
        Capability::VSpace { id, rights } => if rights.contains(Rights::write()) {
            Ok(id)
        } else {
            Err(SyscallError::IllegalOperation)
        },
        _ => Err(SyscallError::InvalidCapability),
    }
}

} // verus!
