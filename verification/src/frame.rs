//! Mapping and unmapping frames, told apart by the label of the message tag.
//!
//! Page tables live in physical memory, which this crate does not touch. An invocation
//! that needs them says so in its result, a `PagingAction`. Mapping takes two steps: the
//! first finds out which address must be free, and the second, `map_translated`, is
//! told what the page tables have there.
//!
//! `mr1` names the address space to map into, `mr2` is the virtual address, and `mr3`
//! holds the permissions of the page: bit 0 readable, bit 1 writable, bit 2 executable,
//! bit 3 accessible to user code. They are independent of the rights of the frame
//! capability, which decide whether it may be mapped at all.
//!
//! A frame can be mapped into two address spaces at once, for two programs to share, but
//! not into a third, and not twice into one. To unmap, `mr1` names the address space that
//! loses it; zero, unless slot zero names one, stands for the only one that there is.

use vstd::prelude::*;

use crate::abi;
use crate::admin::{resolve_vspace, vspace_named};
use crate::cap::{CPtr, Capability, FrameId, Rights, TcbId, UntypedId, VSpaceId};
use crate::error::SyscallError;
use crate::model::KernelModel;
use crate::object::{Frame, FrameSize, Untyped, PAGE_SIZE};
use crate::state::KernelState;
use crate::trap::{Registers, TrapFrame};

verus! {

pub const LABEL_MAP: u32 = 1;

pub const LABEL_UNMAP: u32 = 2;

pub const PERM_READ: usize = 1;

pub const PERM_WRITE: usize = 2;

pub const PERM_EXECUTE: usize = 4;

pub const PERM_USER: usize = 8;

/// What a page allows.
#[derive(Clone, Copy, PartialEq, Eq, Structural, Debug)]
pub struct PagePermissions {
    pub readable: bool,
    pub writable: bool,
    pub executable: bool,
    pub user: bool,
}

impl PagePermissions {
    pub open spec fn spec_from_bits(bits: usize) -> PagePermissions {
        PagePermissions {
            readable: bits & PERM_READ != 0,
            writable: bits & PERM_WRITE != 0,
            executable: bits & PERM_EXECUTE != 0,
            user: bits & PERM_USER != 0,
        }
    }

    #[verifier::when_used_as_spec(spec_from_bits)]
    pub fn from_bits(bits: usize) -> (permissions: PagePermissions)
        ensures
            permissions == PagePermissions::spec_from_bits(bits),
    {
        PagePermissions {
            readable: bits & PERM_READ != 0,
            writable: bits & PERM_WRITE != 0,
            executable: bits & PERM_EXECUTE != 0,
            user: bits & PERM_USER != 0,
        }
    }
}

/// A page table entry to make.
#[derive(Clone, Copy, PartialEq, Eq, Structural, Debug)]
pub struct PageMapping {
    pub root: usize,
    pub vaddr: usize,
    pub paddr: usize,
    pub size: FrameSize,
    pub permissions: PagePermissions,
    /// A fresh page for the first page table that turns out to be missing on the way to
    /// the entry.
    pub spare: usize,
    /// A fresh page for the second; a megapage needs no second.
    pub second_spare: Option<usize>,
}

/// What has to be done with the page tables.
#[derive(Clone, Copy, PartialEq, Eq, Structural, Debug)]
pub enum PagingAction {
    Done,
    /// Look up `vaddr` and go on with `map_translated`. Nothing has changed so far.
    Translate { root: usize, vaddr: usize },
    MapPage(PageMapping),
    UnmapPage { root: usize, vaddr: usize },
}

/// What an invocation of a frame leaves behind.
#[verifier::ext_equal]
pub struct PagedStep {
    pub kernel: KernelModel,
    pub regs: Registers,
    pub result: Result<PagingAction, SyscallError>,
}

/// A page that is to be mapped, and where.
#[derive(Clone, Copy, PartialEq, Eq, Structural, Debug)]
pub struct MapTarget {
    pub frame: FrameId,
    pub vspace: VSpaceId,
    pub root: usize,
    pub source: UntypedId,
    pub vaddr: usize,
    pub paddr: usize,
    pub size: FrameSize,
}

/// The frame that `cptr` designates to `current`, provided that it may be mapped.
pub open spec fn frame_named(k: KernelModel, current: TcbId, cptr: CPtr) -> Result<
    FrameId,
    SyscallError,
> {
    match k.lookup(current, cptr) {
        Err(error) => Err(error),
        Ok(Capability::Frame { id, rights }) => if rights.contains(Rights::write()) {
            Ok(id)
        } else {
            Err(SyscallError::IllegalOperation)
        },
        Ok(_) => Err(SyscallError::InvalidCapability),
    }
}

/// What a map asks for. The frame must not be mapped into that address space yet, nor into
/// two others, and the address must be a multiple of its size.
pub open spec fn map_target(k: KernelModel, current: TcbId, frame: FrameId, regs: Registers) -> Result<
    MapTarget,
    SyscallError,
> {
    let vaddr = regs.mrs[2];
    match vspace_named(k, current, regs.mrs[1]) {
        Err(error) => Err(error),
        Ok(vspace) => match k.frame(frame) {
            None => Err(SyscallError::InvalidCapability),
            Some(f) => if f.mapping_in(vspace) is Some || f.is_shared() {
                Err(SyscallError::IllegalOperation)
            } else if vaddr % f.size.bytes() != 0 {
                Err(SyscallError::AlignmentError)
            } else {
                match k.vspace(vspace) {
                    None => Err(SyscallError::InvalidCapability),
                    Some(v) => Ok(
                        MapTarget {
                            frame,
                            vspace,
                            root: v.root,
                            source: v.source,
                            vaddr,
                            paddr: f.paddr,
                            size: f.size,
                        },
                    ),
                }
            },
        },
    }
}

impl KernelModel {
    /// The kernel after it was noted that the frame `id` is mapped into `vspace`.
    pub open spec fn with_mapping(self, id: FrameId, vspace: VSpaceId, vaddr: usize) -> KernelModel {
        match self.frame(id) {
            Some(frame) => self.with_frame(id, frame.with_mapping(vspace, vaddr)),
            None => self,
        }
    }

    /// The kernel after it was noted that the frame `id` is not mapped into `vspace`.
    pub open spec fn without_mapping(self, id: FrameId, vspace: VSpaceId) -> KernelModel {
        match self.frame(id) {
            Some(frame) => self.with_frame(id, frame.without_mapping(vspace)),
            None => self,
        }
    }

    pub open spec fn paged_refusal(self, regs: Registers, error: SyscallError) -> PagedStep {
        PagedStep { kernel: self, regs, result: Err(error) }
    }

    pub open spec fn paged(self, regs: Registers, action: PagingAction) -> PagedStep {
        PagedStep { kernel: self, regs: regs.succeeded(), result: Ok(action) }
    }
}

/// The pages set aside for missing page tables, and the untyped memory after they were
/// taken: two for a small frame, one for a mega frame. A page that was taken before the
/// memory ran out stays taken.
pub open spec fn spare_tables(untyped: Untyped, size: FrameSize) -> (
    Untyped,
    Option<(usize, Option<usize>)>,
) {
    match untyped.bump_start(PAGE_SIZE, PAGE_SIZE) {
        None => (untyped, None),
        Some(first) => {
            let rest = untyped.bumped(PAGE_SIZE, PAGE_SIZE);
            match size {
                FrameSize::Mega => (rest, Some((first, None))),
                FrameSize::Small => match rest.bump_start(PAGE_SIZE, PAGE_SIZE) {
                    None => (rest, None),
                    Some(second) => (
                        rest.bumped(PAGE_SIZE, PAGE_SIZE),
                        Some((first, Some(second))),
                    ),
                },
            }
        },
    }
}

/// The first step of an invocation of a frame. An unmap is done with it; a map wants to
/// know what the page tables have at the address.
pub open spec fn invoke_step(k: KernelModel, current: TcbId, cptr: CPtr, regs: Registers) -> PagedStep {
    match frame_named(k, current, cptr) {
        Err(error) => k.paged_refusal(regs, error),
        Ok(id) => if regs.tag.label == LABEL_MAP {
            match map_target(k, current, id, regs) {
                Err(error) => k.paged_refusal(regs, error),
                Ok(target) => PagedStep {
                    kernel: k,
                    regs,
                    result: Ok(
                        PagingAction::Translate { root: target.root, vaddr: target.vaddr },
                    ),
                },
            }
        } else if regs.tag.label == LABEL_UNMAP {
            match unmapped(k, current, id, regs) {
                Err(error) => k.paged_refusal(regs, error),
                Ok((after, action)) => after.paged(regs, action),
            }
        } else {
            k.paged_refusal(regs, SyscallError::InvalidArgument)
        },
    }
}

/// Whether `mr1` names no address space and is not meant to: it is zero, and slot zero has
/// no capability to one.
pub open spec fn names_none(k: KernelModel, current: TcbId, regs: Registers) -> bool {
    regs.mrs[1] == 0 && !(k.lookup(current, 0) matches Ok(cap) && cap is VSpace)
}

/// The address space that an unmap of `frame` is about: the one that `mr1` names. Where it
/// names none, that is the only one that the frame is mapped into, if it is mapped at all;
/// with two there is no answer.
pub open spec fn unmap_target(k: KernelModel, current: TcbId, frame: Frame, regs: Registers) -> Result<
    Option<VSpaceId>,
    SyscallError,
> {
    if !names_none(k, current, regs) {
        match vspace_named(k, current, regs.mrs[1]) {
            Err(error) => Err(error),
            Ok(vspace) => Ok(Some(vspace)),
        }
    } else {
        match (frame.mapped_at, frame.also_mapped_at) {
            (None, None) => Ok(None),
            (Some((vspace, _)), None) => Ok(Some(vspace)),
            (None, Some((vspace, _))) => Ok(Some(vspace)),
            (Some(_), Some(_)) => Err(SyscallError::IllegalOperation),
        }
    }
}

/// An unmap. A frame that is not mapped into the address space is left alone.
pub open spec fn unmapped(k: KernelModel, current: TcbId, id: FrameId, regs: Registers) -> Result<
    (KernelModel, PagingAction),
    SyscallError,
> {
    match k.frame(id) {
        None => Err(SyscallError::InvalidCapability),
        Some(frame) => match unmap_target(k, current, frame, regs) {
            Err(error) => Err(error),
            Ok(None) => Ok((k, PagingAction::Done)),
            Ok(Some(vspace)) => match frame.mapping_in(vspace) {
                None => Ok((k, PagingAction::Done)),
                Some(vaddr) => match k.vspace(vspace) {
                    None => Err(SyscallError::InvalidCapability),
                    Some(v) => Ok(
                        (
                            k.without_mapping(id, vspace),
                            PagingAction::UnmapPage { root: v.root, vaddr },
                        ),
                    ),
                },
            },
        },
    }
}

/// The second step of a map, given what the page tables have at the address. Nothing
/// must be there.
pub open spec fn map_step(
    k: KernelModel,
    current: TcbId,
    cptr: CPtr,
    regs: Registers,
    translated: Option<usize>,
) -> PagedStep {
    match frame_named(k, current, cptr) {
        Err(error) => k.paged_refusal(regs, error),
        Ok(id) => match map_target(k, current, id, regs) {
            Err(error) => k.paged_refusal(regs, error),
            Ok(target) => if translated is Some {
                k.paged_refusal(regs, SyscallError::IllegalOperation)
            } else {
                match k.untyped(target.source) {
                    None => k.paged_refusal(regs, SyscallError::InvalidCapability),
                    Some(untyped) => {
                        let (rest, spares) = spare_tables(untyped, target.size);
                        let taken = k.with_untyped(target.source, rest);
                        match spares {
                            None => taken.paged_refusal(regs, SyscallError::NotEnoughMemory),
                            Some((spare, second_spare)) => taken.with_mapping(
                                id,
                                target.vspace,
                                target.vaddr,
                            ).paged(
                                regs,
                                PagingAction::MapPage(
                                    PageMapping {
                                        root: target.root,
                                        vaddr: target.vaddr,
                                        paddr: target.paddr,
                                        size: target.size,
                                        permissions: PagePermissions::from_bits(regs.mrs[3]),
                                        spare,
                                        second_spare,
                                    },
                                ),
                            ),
                        }
                    },
                }
            },
        },
    }
}

fn resolve_frame(state: &KernelState, current: TcbId, cptr: CPtr) -> (frame: Result<
    FrameId,
    SyscallError,
>)
    ensures
        frame == frame_named(state@, current, cptr),
{
    match state.lookup_cap(current, cptr)? {
        Capability::Frame { id, rights } => if rights.contains(Rights::write()) {
            Ok(id)
        } else {
            Err(SyscallError::IllegalOperation)
        },
        _ => Err(SyscallError::InvalidCapability),
    }
}

/// Maps or unmaps the frame that `cptr` names. See the module's introduction for what a
/// caller does with the result.
pub fn invoke(
    state: &mut KernelState,
    current: TcbId,
    cptr: CPtr,
    frame: &mut TrapFrame,
) -> (result: Result<PagingAction, SyscallError>)
    requires
        old(state).wf(),
    ensures
        final(state).wf(),
        (PagedStep { kernel: final(state)@, regs: final(frame)@, result }) == invoke_step(
            old(state)@,
            current,
            cptr,
            old(frame)@,
        ),
{
    let id = resolve_frame(state, current, cptr)?;
    let label: u32 = frame.tag().label;
    if label == LABEL_MAP {
        let target = resolve_target(state, current, id, frame)?;
        Ok(PagingAction::Translate { root: target.root, vaddr: target.vaddr })
    } else if label == LABEL_UNMAP {
        let action = unmap(state, current, id, frame)?;
        abi::reply_success(frame);
        Ok(action)
    } else {
        Err(SyscallError::InvalidArgument)
    }
}

/// Checks all that can be checked of a map without the page tables.
fn resolve_target(state: &KernelState, current: TcbId, id: FrameId, frame: &TrapFrame) -> (target:
    Result<MapTarget, SyscallError>)
    ensures
        target == map_target(state@, current, id, frame@),
{
    let vspace_id = resolve_vspace(state, current, frame.mr(1))?;
    let vaddr = frame.mr(2);
    let f = match state.frames.get(id.0 as usize) {
        Some(f) => *f,
        None => return Err(SyscallError::InvalidCapability),
    };
    if f.mapping_in(vspace_id).is_some() || f.is_shared() {
        return Err(SyscallError::IllegalOperation);
    }
    if vaddr % f.size.bytes() != 0 {
        return Err(SyscallError::AlignmentError);
    }
    match state.vspaces.get(vspace_id.0 as usize) {
        Some(vspace) => Ok(
            MapTarget {
                frame: id,
                vspace: vspace_id,
                root: vspace.root,
                source: vspace.source,
                vaddr,
                paddr: f.paddr,
                size: f.size,
            },
        ),
        None => Err(SyscallError::InvalidCapability),
    }
}

fn note_mapping(state: &mut KernelState, id: FrameId, vspace: VSpaceId, vaddr: usize)
    requires
        old(state).wf(),
    ensures
        final(state).wf(),
        final(state)@ == old(state)@.with_mapping(id, vspace, vaddr),
{
    if let Some(f) = state.frames.get_mut(id.0 as usize) {
        f.note_mapping(vspace, vaddr);
    }
}

fn forget_mapping(state: &mut KernelState, id: FrameId, vspace: VSpaceId)
    requires
        old(state).wf(),
    ensures
        final(state).wf(),
        final(state)@ == old(state)@.without_mapping(id, vspace),
{
    if let Some(f) = state.frames.get_mut(id.0 as usize) {
        f.forget_mapping(vspace);
    }
}

/// Takes the pages that mapping a frame of this size may need for page tables. All of
/// them are taken before any is used, so that running out of memory is an ordinary
/// error; a page that turns out not to be needed is not given back.
fn take_spares(state: &mut KernelState, source: UntypedId, size: FrameSize) -> (spares: Result<
    (usize, Option<usize>),
    SyscallError,
>)
    requires
        old(state).wf(),
    ensures
        final(state).wf(),
        match old(state)@.untyped(source) {
            None => spares == Err::<(usize, Option<usize>), SyscallError>(
                SyscallError::InvalidCapability,
            ) && final(state)@ == old(state)@,
            Some(untyped) => {
                &&& final(state)@ == old(state)@.with_untyped(
                    source,
                    spare_tables(untyped, size).0,
                )
                &&& spares == match spare_tables(untyped, size).1 {
                    Some(pages) => Ok(pages),
                    None => Err(SyscallError::NotEnoughMemory),
                }
            },
        },
{
    let untyped = match state.untypeds.get_mut(source.0 as usize) {
        Some(untyped) => untyped,
        None => return Err(SyscallError::InvalidCapability),
    };
    let first = untyped.bump(PAGE_SIZE, PAGE_SIZE);
    let spares = match first {
        None => Err(SyscallError::NotEnoughMemory),
        Some(first) => match size {
            FrameSize::Mega => Ok((first, None)),
            FrameSize::Small => match untyped.bump(PAGE_SIZE, PAGE_SIZE) {
                None => Err(SyscallError::NotEnoughMemory),
                Some(second) => Ok((first, Some(second))),
            },
        },
    };
    spares
}

/// Goes on with a map after the page tables were consulted: `translated` is what they
/// have at the address.
pub fn map_translated(
    state: &mut KernelState,
    current: TcbId,
    cptr: CPtr,
    frame: &mut TrapFrame,
    translated: Option<usize>,
) -> (result: Result<PagingAction, SyscallError>)
    requires
        old(state).wf(),
    ensures
        final(state).wf(),
        (PagedStep { kernel: final(state)@, regs: final(frame)@, result }) == map_step(
            old(state)@,
            current,
            cptr,
            old(frame)@,
            translated,
        ),
{
    let id = resolve_frame(state, current, cptr)?;
    let target = resolve_target(state, current, id, frame)?;
    if translated.is_some() {
        return Err(SyscallError::IllegalOperation);
    }
    let permissions = PagePermissions::from_bits(frame.mr(3));
    let (spare, second_spare) = take_spares(state, target.source, target.size)?;
    note_mapping(state, id, target.vspace, target.vaddr);
    abi::reply_success(frame);
    Ok(
        PagingAction::MapPage(
            PageMapping {
                root: target.root,
                vaddr: target.vaddr,
                paddr: target.paddr,
                size: target.size,
                permissions,
                spare,
                second_spare,
            },
        ),
    )
}

/// Finds out which address space an unmap of `f` is about.
fn resolve_unmap(state: &KernelState, current: TcbId, f: Frame, frame: &TrapFrame) -> (vspace:
    Result<Option<VSpaceId>, SyscallError>)
    ensures
        vspace == unmap_target(state@, current, f, frame@),
{
    let vspace_arg = frame.mr(1);
    let named = vspace_arg != 0 || matches!(
        state.lookup_cap(current, vspace_arg),
        Ok(Capability::VSpace { .. }),
    );
    if named {
        let vspace = resolve_vspace(state, current, vspace_arg)?;
        return Ok(Some(vspace));
    }
    match (f.mapped_at, f.also_mapped_at) {
        (None, None) => Ok(None),
        (Some((vspace, _)), None) => Ok(Some(vspace)),
        (None, Some((vspace, _))) => Ok(Some(vspace)),
        (Some(_), Some(_)) => Err(SyscallError::IllegalOperation),
    }
}

/// Takes the frame `id` out of one address space. The other one, if there is one, keeps it.
fn unmap(state: &mut KernelState, current: TcbId, id: FrameId, frame: &TrapFrame) -> (result:
    Result<PagingAction, SyscallError>)
    requires
        old(state).wf(),
    ensures
        final(state).wf(),
        match unmapped(old(state)@, current, id, frame@) {
            Ok((after, action)) => result == Ok::<PagingAction, SyscallError>(action)
                && final(state)@ == after,
            Err(error) => result == Err::<PagingAction, SyscallError>(error) && final(state)@
                == old(state)@,
        },
{
    let f = match state.frames.get(id.0 as usize) {
        Some(f) => *f,
        None => return Err(SyscallError::InvalidCapability),
    };
    let vspace_id = match resolve_unmap(state, current, f, frame)? {
        Some(vspace) => vspace,
        None => return Ok(PagingAction::Done),
    };
    let vaddr = match f.mapping_in(vspace_id) {
        Some(vaddr) => vaddr,
        None => return Ok(PagingAction::Done),
    };
    let root = match state.vspaces.get(vspace_id.0 as usize) {
        Some(vspace) => vspace.root,
        None => return Err(SyscallError::InvalidCapability),
    };
    forget_mapping(state, id, vspace_id);
    Ok(PagingAction::UnmapPage { root, vaddr })
}

} // verus!
