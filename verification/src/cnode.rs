//! Administering CNodes: mint, copy, move, delete, copy across, revoke, told apart by
//! the label of the message tag.
//!
//! `mr0` names the CNode to work on. Holding a capability to a CNode is full access to
//! its slots; a thread that administers its own CSpace needs such a capability too.

use vstd::prelude::*;

use crate::abi;
use crate::cap::{slot, CNode, CNodeId, CPtr, Capability, Rights, TcbId};
use crate::error::SyscallError;
use crate::model::{group_views, KernelModel, Step};
use crate::state::KernelState;
use crate::trap::{Registers, TrapFrame};

verus! {

pub const LABEL_MINT: u32 = 1;

pub const LABEL_COPY: u32 = 2;

pub const LABEL_MOVE: u32 = 3;

pub const LABEL_DELETE: u32 = 4;

pub const LABEL_REVOKE: u32 = 5;

/// Copies from another CNode than the one that is written to.
pub const LABEL_COPY_CROSS: u32 = 6;

impl KernelModel {
    /// The capability in slot `src` of the CNode `id`, which must not be empty.
    pub open spec fn held(self, id: CNodeId, src: CPtr) -> Result<Capability, SyscallError> {
        match self.cnode(id) {
            None => Err(SyscallError::InvalidCapability),
            Some(slots) => match slot(slots, src) {
                None => Err(SyscallError::RangeError),
                Some(Capability::Null) => Err(SyscallError::InvalidCapability),
                Some(cap) => Ok(cap),
            },
        }
    }

    /// The kernel after `cap` was put into slot `dest` of the CNode `id`, which must be
    /// empty.
    pub open spec fn filled(self, id: CNodeId, dest: CPtr, cap: Capability) -> Result<
        KernelModel,
        SyscallError,
    > {
        match self.cnode(id) {
            None => Err(SyscallError::InvalidCapability),
            Some(slots) => match slot(slots, dest) {
                None => Err(SyscallError::RangeError),
                Some(Capability::Null) => Ok(self.with_cap(id, dest, cap)),
                Some(_) => Err(SyscallError::IllegalOperation),
            },
        }
    }
}

/// `source` with other rights and, where it has one, another badge. CNodes cannot be
/// minted: they carry no rights to narrow.
pub open spec fn attenuated(source: Capability, rights: Rights, badge: u64) -> Result<
    Capability,
    SyscallError,
> {
    match source {
        Capability::Untyped { id, .. } => Ok(Capability::Untyped { id, rights }),
        Capability::Endpoint { id, .. } => Ok(Capability::Endpoint { id, badge, rights }),
        Capability::Notification { id, .. } => Ok(Capability::Notification { id, badge, rights }),
        Capability::Tcb { id, .. } => Ok(Capability::Tcb { id, rights }),
        Capability::SchedContext { id, .. } => Ok(Capability::SchedContext { id, rights }),
        Capability::VSpace { id, .. } => Ok(Capability::VSpace { id, rights }),
        Capability::Frame { id, .. } => Ok(Capability::Frame { id, rights }),
        Capability::CNode(_) | Capability::Null | Capability::Reply { .. } => Err(
            SyscallError::IllegalOperation,
        ),
    }
}

/// The capability that minting makes of `source`: with the rights in the low byte of
/// `packed`, none of which may be new, and the badge in the rest of it.
pub open spec fn minted(source: Capability, packed: usize) -> Result<Capability, SyscallError> {
    let rights = Rights::from_bits_truncate((packed & 0xFF) as u8);
    if !rights.is_subset_of(source.rights()) {
        Err(SyscallError::IllegalOperation)
    } else {
        attenuated(source, rights, (packed >> 8) as u64)
    }
}

impl KernelModel {
    pub open spec fn after_mint(self, id: CNodeId, src: CPtr, dest: CPtr, packed: usize) -> Result<
        KernelModel,
        SyscallError,
    > {
        match self.held(id, src) {
            Err(error) => Err(error),
            Ok(source) => match minted(source, packed) {
                Err(error) => Err(error),
                Ok(cap) => self.filled(id, dest, cap),
            },
        }
    }

    pub open spec fn after_copy(self, id: CNodeId, src: CPtr, dest: CPtr) -> Result<
        KernelModel,
        SyscallError,
    > {
        match self.held(id, src) {
            Err(error) => Err(error),
            Ok(cap) => self.filled(id, dest, cap),
        }
    }

    pub open spec fn after_move(self, id: CNodeId, src: CPtr, dest: CPtr) -> Result<
        KernelModel,
        SyscallError,
    > {
        match self.after_copy(id, src, dest) {
            Err(error) => Err(error),
            Ok(copied) => Ok(copied.with_cap(id, src, Capability::Null)),
        }
    }

    pub open spec fn after_delete(self, id: CNodeId, src: CPtr) -> Result<
        KernelModel,
        SyscallError,
    > {
        match self.held(id, src) {
            Err(error) => Err(error),
            Ok(_) => Ok(self.with_cap(id, src, Capability::Null)),
        }
    }

    pub open spec fn after_copy_cross(
        self,
        current: TcbId,
        id: CNodeId,
        source_cnode: CPtr,
        source_slot: CPtr,
        dest: CPtr,
    ) -> Result<KernelModel, SyscallError> {
        match cnode_named(self, current, source_cnode) {
            Err(error) => Err(error),
            Ok(source) => match self.held(source, source_slot) {
                Err(error) => Err(error),
                Ok(cap) => self.filled(id, dest, cap),
            },
        }
    }
}

/// The CNode that `cptr` designates to `thread`.
pub open spec fn cnode_named(k: KernelModel, thread: TcbId, cptr: CPtr) -> Result<
    CNodeId,
    SyscallError,
> {
    match k.lookup(thread, cptr) {
        Ok(Capability::CNode(id)) => Ok(id),
        Ok(_) => Err(SyscallError::InvalidCapability),
        Err(error) => Err(error),
    }
}

/// What the label and the message words of an invocation ask of the CNode `id`.
pub open spec fn administered(
    k: KernelModel,
    current: TcbId,
    id: CNodeId,
    regs: Registers,
) -> Result<KernelModel, SyscallError> {
    let (label, a, b, c) = (regs.tag.label, regs.mrs[1], regs.mrs[2], regs.mrs[3]);
    if label == LABEL_MINT {
        k.after_mint(id, a, b, c)
    } else if label == LABEL_COPY {
        k.after_copy(id, a, b)
    } else if label == LABEL_MOVE {
        k.after_move(id, a, b)
    } else if label == LABEL_DELETE {
        k.after_delete(id, a)
    } else if label == LABEL_COPY_CROSS {
        k.after_copy_cross(current, id, a, b, c)
    } else if label == LABEL_REVOKE {
        Err(SyscallError::IllegalOperation)
    } else {
        Err(SyscallError::InvalidArgument)
    }
}

/// An invocation of a CNode.
pub open spec fn invoke_step(k: KernelModel, current: TcbId, cptr: CPtr, regs: Registers) -> Step {
    match cnode_named(k, current, cptr) {
        Err(error) => k.refused(regs, error),
        Ok(id) => match administered(k, current, id, regs) {
            Err(error) => k.refused(regs, error),
            Ok(after) => after.done(regs),
        },
    }
}

/// Administers the CNode that `cptr` names. Revoking is refused: the kernel does not
/// keep track of what was derived from what.
pub fn invoke(
    state: &mut KernelState,
    current: TcbId,
    cptr: CPtr,
    frame: &mut TrapFrame,
) -> (result: Result<(), SyscallError>)
    requires
        old(state).wf(),
    ensures
        final(state).wf(),
        (Step { kernel: final(state)@, regs: final(frame)@, result }) == invoke_step(
            old(state)@,
            current,
            cptr,
            old(frame)@,
        ),
{
    let target = match state.lookup_cap(current, cptr)? {
        Capability::CNode(id) => id,
        _ => return Err(SyscallError::InvalidCapability),
    };
    let label: u32 = frame.tag().label;
    let src = frame.mr(1);
    let dest = frame.mr(2);
    let arg3 = frame.mr(3);
    if label == LABEL_MINT {
        mint(state, target, src, dest, arg3)?;
    } else if label == LABEL_COPY {
        copy(state, target, src, dest)?;
    } else if label == LABEL_MOVE {
        move_cap(state, target, src, dest)?;
    } else if label == LABEL_DELETE {
        delete(state, target, src)?;
    } else if label == LABEL_COPY_CROSS {
        copy_cross(state, current, target, src, dest, arg3)?;
    } else if label == LABEL_REVOKE {
        return Err(SyscallError::IllegalOperation);
    } else {
        return Err(SyscallError::InvalidArgument);
    }
    abi::reply_success(frame);
    Ok(())
}

fn held_cap(state: &KernelState, id: CNodeId, src: CPtr) -> (cap: Result<Capability, SyscallError>)
    ensures
        cap == state@.held(id, src),
{
    broadcast use group_views;

    match state.cnodes.get(id.0 as usize) {
        None => Err(SyscallError::InvalidCapability),
        Some(cnode) => match cnode.get(src) {
            None => Err(SyscallError::RangeError),
            Some(Capability::Null) => Err(SyscallError::InvalidCapability),
            Some(cap) => Ok(cap),
        },
    }
}

/// Writes into a slot of a CNode that both exist.
pub(crate) fn write_slot(state: &mut KernelState, id: CNodeId, cptr: CPtr, cap: Capability)
    requires
        old(state).wf(),
        old(state)@.cnode(id) matches Some(slots) && slot(slots, cptr) is Some,
    ensures
        final(state).wf(),
        final(state)@ == old(state)@.with_cap(id, cptr, cap),
{
    broadcast use group_views;

    if let Some(cnode) = state.cnodes.get_mut(id.0 as usize) {
        if let Some(slot) = cnode.slot_mut(cptr) {
            *slot = cap;
        }
    }
}

fn fill_slot(state: &mut KernelState, id: CNodeId, dest: CPtr, cap: Capability) -> (result: Result<
    (),
    SyscallError,
>)
    requires
        old(state).wf(),
    ensures
        final(state).wf(),
        match old(state)@.filled(id, dest, cap) {
            Ok(after) => result == Ok::<(), SyscallError>(()) && final(state)@ == after,
            Err(error) => result == Err::<(), SyscallError>(error) && final(state)@ == old(state)@,
        },
{
    broadcast use group_views;

    match state.cnodes.get(id.0 as usize) {
        None => return Err(SyscallError::InvalidCapability),
        Some(cnode) => match cnode.get(dest) {
            None => return Err(SyscallError::RangeError),
            Some(Capability::Null) => {},
            Some(_) => return Err(SyscallError::IllegalOperation),
        },
    }
    write_slot(state, id, dest, cap);
    Ok(())
}

/// `packed` holds the new rights in its low byte and the new badge in the rest. Types
/// without a badge ignore it.
fn mint(state: &mut KernelState, target: CNodeId, src: CPtr, dest: CPtr, packed: usize) -> (result:
    Result<(), SyscallError>)
    requires
        old(state).wf(),
    ensures
        final(state).wf(),
        match old(state)@.after_mint(target, src, dest, packed) {
            Ok(after) => result == Ok::<(), SyscallError>(()) && final(state)@ == after,
            Err(error) => result == Err::<(), SyscallError>(error) && final(state)@ == old(state)@,
        },
{
    let rights = Rights::from_bits_truncate((packed & 0xFF) as u8);
    let badge: u64 = (packed >> 8) as u64;
    let source = held_cap(state, target, src)?;
    if !rights.is_subset_of(source.rights()) {
        return Err(SyscallError::IllegalOperation);
    }
    let cap = attenuate(source, rights, badge)?;
    fill_slot(state, target, dest, cap)
}

fn attenuate(source: Capability, rights: Rights, badge: u64) -> (cap: Result<
    Capability,
    SyscallError,
>)
    ensures
        cap == attenuated(source, rights, badge),
{
    match source {
        Capability::Untyped { id, .. } => Ok(Capability::Untyped { id, rights }),
        Capability::Endpoint { id, .. } => Ok(Capability::Endpoint { id, badge, rights }),
        Capability::Notification { id, .. } => Ok(Capability::Notification { id, badge, rights }),
        Capability::Tcb { id, .. } => Ok(Capability::Tcb { id, rights }),
        Capability::SchedContext { id, .. } => Ok(Capability::SchedContext { id, rights }),
        Capability::VSpace { id, .. } => Ok(Capability::VSpace { id, rights }),
        Capability::Frame { id, .. } => Ok(Capability::Frame { id, rights }),
        Capability::CNode(_) | Capability::Null | Capability::Reply { .. } => Err(
            SyscallError::IllegalOperation,
        ),
    }
}

fn copy(state: &mut KernelState, target: CNodeId, src: CPtr, dest: CPtr) -> (result: Result<
    (),
    SyscallError,
>)
    requires
        old(state).wf(),
    ensures
        final(state).wf(),
        match old(state)@.after_copy(target, src, dest) {
            Ok(after) => result == Ok::<(), SyscallError>(()) && final(state)@ == after,
            Err(error) => result == Err::<(), SyscallError>(error) && final(state)@ == old(state)@,
        },
{
    let source = held_cap(state, target, src)?;
    fill_slot(state, target, dest, source)
}

fn move_cap(state: &mut KernelState, target: CNodeId, src: CPtr, dest: CPtr) -> (result: Result<
    (),
    SyscallError,
>)
    requires
        old(state).wf(),
    ensures
        final(state).wf(),
        match old(state)@.after_move(target, src, dest) {
            Ok(after) => result == Ok::<(), SyscallError>(()) && final(state)@ == after,
            Err(error) => result == Err::<(), SyscallError>(error) && final(state)@ == old(state)@,
        },
{
    copy(state, target, src, dest)?;
    write_slot(state, target, src, Capability::Null);
    Ok(())
}

/// Empties the slot. The object itself stays, even where this was the last capability to
/// it: nothing counts references.
fn delete(state: &mut KernelState, target: CNodeId, src: CPtr) -> (result: Result<
    (),
    SyscallError,
>)
    requires
        old(state).wf(),
    ensures
        final(state).wf(),
        match old(state)@.after_delete(target, src) {
            Ok(after) => result == Ok::<(), SyscallError>(()) && final(state)@ == after,
            Err(error) => result == Err::<(), SyscallError>(error) && final(state)@ == old(state)@,
        },
{
    held_cap(state, target, src)?;
    write_slot(state, target, src, Capability::Null);
    Ok(())
}

/// Copies from a slot of the CNode that `source_cnode` names in the caller's CSpace into
/// slot `dest` of `target`. This is how a program comes by its first capability, before
/// it can receive any in a message; it takes access to both CNodes, and no right to
/// grant what is copied.
fn copy_cross(
    state: &mut KernelState,
    current: TcbId,
    target: CNodeId,
    source_cnode: CPtr,
    source_slot: CPtr,
    dest: CPtr,
) -> (result: Result<(), SyscallError>)
    requires
        old(state).wf(),
    ensures
        final(state).wf(),
        match old(state)@.after_copy_cross(current, target, source_cnode, source_slot, dest) {
            Ok(after) => result == Ok::<(), SyscallError>(()) && final(state)@ == after,
            Err(error) => result == Err::<(), SyscallError>(error) && final(state)@ == old(state)@,
        },
{
    let source_id = match state.lookup_cap(current, source_cnode)? {
        Capability::CNode(id) => id,
        _ => return Err(SyscallError::InvalidCapability),
    };
    let source = held_cap(state, source_id, source_slot)?;
    fill_slot(state, target, dest, source)
}

} // verus!
