//! What mapping and unmapping frames brings about: which page table entry is asked for, with
//! which permissions, what the kernel notes, and what is refused.

use vstd::prelude::*;

use crate::cap::{FrameId, Rights, TcbId, UntypedId, VSpaceId};
use crate::frame::PagingAction;
use crate::grants::{after_block, first_block, has_vspace, lemma_block, vspace_objection};
use crate::model::KernelModel;
use crate::object::{Frame, Untyped};
use crate::syscall::{law_syscall_numbers, translated_step, trap_step, SyscallNumber, Trap};
use crate::terms::{lemma_asked, permits, reads, without_error, WRITE_BIT};
use crate::trap::Registers;

verus! {

/// Whether the frame is mapped into `vspace`, at `vaddr`.
pub open spec fn is_mapped(frame: Frame, vspace: VSpaceId, vaddr: usize) -> bool {
    frame.mapped_at == Some((vspace, vaddr)) || frame.also_mapped_at == Some((vspace, vaddr))
}

/// Whether there is a frame `id`.
pub open spec fn has_frame(k: KernelModel, id: FrameId) -> bool {
    id.0 < k.frames.len() && k.frames[id.0 as int] is Some
}

/// The code of the error for which `mr0` names no frame that may be mapped, or the label asks
/// for nothing that is offered, if any. Label 1 is a map, 2 an unmap.
pub open spec fn frame_objection(k: KernelModel, current: TcbId, regs: Registers) -> Option<usize> {
    let cap = k.seen(current, regs.mrs[0]);
    if !k.sees(current, regs.mrs[0]) {
        Some(6)
    } else if !(cap is Frame) {
        Some(1)
    } else if !permits(cap, WRITE_BIT) {
        Some(3)
    } else if regs.tag.label != 1 && regs.tag.label != 2 {
        Some(2)
    } else {
        None
    }
}

/// The code of the error for which the frame `id` cannot be mapped with these registers, if
/// any: `mr1` names no address space that may be written to, the frame is mapped there
/// already or in two others, or the address in `mr2` is no multiple of its size.
pub open spec fn mapping_objection(k: KernelModel, current: TcbId, regs: Registers, id: FrameId) -> Option<
    usize,
> {
    let vspace = k.seen(current, regs.mrs[1])->VSpace_id;
    let frame = k.frames[id.0 as int]->Some_0;
    if vspace_objection(k, current, regs.mrs[1]) is Some {
        vspace_objection(k, current, regs.mrs[1])
    } else if !has_frame(k, id) {
        Some(1)
    } else if (exists|vaddr: usize| is_mapped(frame, vspace, vaddr)) || (frame.mapped_at is Some
        && frame.also_mapped_at is Some) {
        Some(3)
    } else if regs.mrs[2] % (if frame.size is Mega {
        0x20_0000
    } else {
        0x1000usize
    }) != 0 {
        Some(5)
    } else if !has_vspace(k, vspace) {
        Some(1)
    } else {
        None
    }
}

/// The invocation of a frame is refused, and nothing changes, for a reason that can be seen;
/// a map that is not refused asks what the page tables have under the root of the address
/// space at the address, and has changed nothing so far.
pub proof fn law_a_map_first_asks_what_is_there(
    k: KernelModel,
    current: TcbId,
    regs: Registers,
    id: FrameId,
    translated: Option<usize>,
    code: usize,
)
    requires
        k.current == Some(current),
        regs.syscall_number == 13,
    ensures
        ({
            let trap = trap_step(k, regs);
            let vspace = k.seen(current, regs.mrs[1])->VSpace_id;
            &&& frame_objection(k, current, regs) == Some(code) ==> trap.refuses(k, regs, code)
                && translated_step(k, regs, translated).refuses(k, regs, code)
            &&& frame_objection(k, current, regs) is None && regs.tag.label == 1 && k.seen(
                current,
                regs.mrs[0],
            )->Frame_id == id ==> {
                &&& mapping_objection(k, current, regs, id) == Some(code) ==> trap.refuses(
                    k,
                    regs,
                    code,
                ) && translated_step(k, regs, translated).refuses(k, regs, code)
                &&& mapping_objection(k, current, regs, id) is None ==> trap == (Trap {
                    kernel: k,
                    regs,
                    action: PagingAction::Translate {
                        root: k.vspaces[vspace.0 as int]->Some_0.root,
                        vaddr: regs.mrs[2],
                    },
                })
            }
        }),
{
    broadcast use Rights::lemma_of;

    lemma_asked(k, current, SyscallNumber::FrameInvoke, regs);
    lemma_mapped(k.frames[id.0 as int]->Some_0, k.seen(current, regs.mrs[1])->VSpace_id);
}

/// Where a frame is mapped is what the kernel finds.
proof fn lemma_mapped(frame: Frame, vspace: VSpaceId)
    ensures
        frame.mapping_in(vspace) matches Some(vaddr) ==> is_mapped(frame, vspace, vaddr),
        forall|vaddr: usize| #[trigger]
            is_mapped(frame, vspace, vaddr) ==> frame.mapping_in(vspace) is Some,
{
}

/// A trap that asks for nothing to be mapped is done without a translation.
pub proof fn law_only_a_map_needs_a_translation(
    k: KernelModel,
    regs: Registers,
    translated: Option<usize>,
)
    requires
        regs.syscall_number != 13 || regs.tag.label != 1 || k.current is None,
    ensures
        translated_step(k, regs, translated) == trap_step(k, regs),
        !(trap_step(k, regs).action is MapPage),
        !(trap_step(k, regs).action is Translate),
{
    if let Some(syscall) = SyscallNumber::from_usize(regs.syscall_number) {
        law_syscall_numbers(syscall, regs.syscall_number);
    }
}

/// The page that `mr2` and `mr3` ask for is mapped: the trap asks for an entry under the root
/// of the address space, at the address in `mr2`, that leads to the frame and allows exactly
/// what the four lowest bits of `mr3` say. The frame is noted as mapped there, beside where
/// it was mapped before, `rest` is what is left of the untyped memory `source`, and nothing
/// else has changed.
pub open spec fn maps_as_asked(
    k: KernelModel,
    trap: Trap,
    current: TcbId,
    regs: Registers,
    id: FrameId,
    source: UntypedId,
    rest: Untyped,
    spare: usize,
    second_spare: Option<usize>,
) -> bool {
    let vspace = k.seen(current, regs.mrs[1])->VSpace_id;
    let frame = k.frames[id.0 as int]->Some_0;
    let there = Some((vspace, regs.mrs[2]));
    &&& trap.action is MapPage
    &&& {
        let page = trap.action->MapPage_0;
        &&& page.root == k.vspaces[vspace.0 as int]->Some_0.root
        &&& page.vaddr == regs.mrs[2]
        &&& page.paddr == frame.paddr
        &&& page.size == frame.size
        &&& page.permissions.readable <==> regs.mrs[3] & 1 != 0
        &&& page.permissions.writable <==> regs.mrs[3] & 2 != 0
        &&& page.permissions.executable <==> regs.mrs[3] & 4 != 0
        &&& page.permissions.user <==> regs.mrs[3] & 8 != 0
        &&& page.spare == spare
        &&& page.second_spare == second_spare
    }
    &&& reads(regs, trap.regs, regs.mrs, without_error(regs.tag))
    &&& trap.kernel == (KernelModel {
        untypeds: k.untypeds.update(source.0 as int, Some(rest)),
        frames: k.frames.update(
            id.0 as int,
            Some(
                Frame {
                    paddr: frame.paddr,
                    size: frame.size,
                    mapped_at: if frame.mapped_at is None {
                        there
                    } else {
                        frame.mapped_at
                    },
                    also_mapped_at: if frame.mapped_at is None {
                        frame.also_mapped_at
                    } else {
                        there
                    },
                },
            ),
        ),
        ..k
    })
}

/// A map goes through where the page tables have nothing at the address: the page has the
/// permissions that were asked for. The pages for missing page tables are the first that the
/// memory of the address space has, one for a mega frame and two for a small one; where it
/// has too few, there is not enough memory, and only those it had have been taken.
pub proof fn law_a_page_has_the_permissions_asked_for(
    k: KernelModel,
    current: TcbId,
    regs: Registers,
    translated: Option<usize>,
    id: FrameId,
    source: UntypedId,
    first: usize,
    second: usize,
)
    requires
        k.current == Some(current),
        regs.syscall_number == 13,
        regs.tag.label == 1,
        frame_objection(k, current, regs) is None,
        k.seen(current, regs.mrs[0])->Frame_id == id,
        mapping_objection(k, current, regs, id) is None,
        ({
            let vspace = k.seen(current, regs.mrs[1])->VSpace_id;
            k.vspaces[vspace.0 as int]->Some_0.source == source
        }),
    ensures
        ({
            let trap = translated_step(k, regs, translated);
            let untyped = k.untypeds[source.0 as int]->Some_0;
            let rest = after_block(untyped, 0x1000, first);
            let taken = KernelModel {
                untypeds: k.untypeds.update(source.0 as int, Some(rest)),
                ..k
            };
            let mega = k.frames[id.0 as int]->Some_0.size is Mega;
            let present = source.0 < k.untypeds.len() && k.untypeds[source.0 as int] is Some;
            &&& translated is Some ==> trap.refuses(k, regs, 3)
            &&& translated is None && !present ==> trap.refuses(k, regs, 1)
            &&& translated is None && present ==> {
                &&& (forall|at: usize| !first_block(untyped, 0x1000, at)) ==> trap.refuses(
                    k,
                    regs,
                    8,
                )
                &&& first_block(untyped, 0x1000, first) && mega ==> maps_as_asked(
                    k,
                    trap,
                    current,
                    regs,
                    id,
                    source,
                    rest,
                    first,
                    None,
                )
                &&& first_block(untyped, 0x1000, first) && !mega && (forall|at: usize|
                    !first_block(rest, 0x1000, at)) ==> trap.refuses(taken, regs, 8)
                &&& first_block(untyped, 0x1000, first) && !mega && first_block(
                    rest,
                    0x1000,
                    second,
                ) ==> maps_as_asked(
                    k,
                    trap,
                    current,
                    regs,
                    id,
                    source,
                    after_block(rest, 0x1000, second),
                    first,
                    Some(second),
                )
            }
        }),
{
    broadcast use Rights::lemma_of;

    lemma_asked(k, current, SyscallNumber::FrameInvoke, regs);
    let frame = k.frames[id.0 as int]->Some_0;
    lemma_mapped(frame, k.seen(current, regs.mrs[1])->VSpace_id);
    let untyped = k.untypeds[source.0 as int]->Some_0;
    lemma_block(untyped, 0x1000, first);
    lemma_block(after_block(untyped, 0x1000, first), 0x1000, second);
    assert(k.with_untyped(source, untyped).untypeds =~= k.untypeds);
}

/// Whether an unmap names no address space: `mr1` is zero, and slot zero has none.
pub open spec fn leaves_it_open(k: KernelModel, current: TcbId, regs: Registers) -> bool {
    regs.mrs[1] == 0 && !(k.sees(current, 0) && k.seen(current, 0) is VSpace)
}

/// The entry of the frame `id` at `vaddr` of `vspace` goes, and of what the kernel notes only
/// that; `left` is the frame without it.
pub open spec fn unmaps(
    k: KernelModel,
    trap: Trap,
    regs: Registers,
    id: FrameId,
    vspace: VSpaceId,
    vaddr: usize,
    left: Frame,
) -> bool {
    if has_vspace(k, vspace) {
        &&& trap.action == PagingAction::UnmapPage {
            root: k.vspaces[vspace.0 as int]->Some_0.root,
            vaddr,
        }
        &&& reads(regs, trap.regs, regs.mrs, without_error(regs.tag))
        &&& trap.kernel == (KernelModel {
            frames: k.frames.update(id.0 as int, Some(left)),
            ..k
        })
    } else {
        trap.refuses(k, regs, 1)
    }
}

/// An unmap removes the entry of the frame in the address space that `mr1` names; where it
/// names none, the only entry that there is, and with two it is refused. A frame that is not
/// mapped there is left alone. Nothing else changes.
pub proof fn law_an_unmap_removes_the_entry(
    k: KernelModel,
    current: TcbId,
    regs: Registers,
    id: FrameId,
    vaddr: usize,
    other: VSpaceId,
    code: usize,
)
    requires
        k.current == Some(current),
        regs.syscall_number == 13,
        regs.tag.label == 2,
        frame_objection(k, current, regs) is None,
        k.seen(current, regs.mrs[0])->Frame_id == id,
    ensures
        ({
            let trap = trap_step(k, regs);
            let frame = k.frames[id.0 as int]->Some_0;
            let vspace = k.seen(current, regs.mrs[1])->VSpace_id;
            let first_gone = Frame { mapped_at: None, ..frame };
            let second_gone = Frame { also_mapped_at: None, ..frame };
            &&& !has_frame(k, id) ==> trap.refuses(k, regs, 1)
            &&& has_frame(k, id) && leaves_it_open(k, current, regs) ==> {
                &&& frame.mapped_at is Some && frame.also_mapped_at is Some ==> trap.refuses(
                    k,
                    regs,
                    3,
                )
                &&& frame.mapped_at is None && frame.also_mapped_at is None ==> trap.kernel == k
                    && trap.reports_success(regs)
                &&& frame.mapped_at == Some((other, vaddr)) && frame.also_mapped_at is None
                    ==> unmaps(k, trap, regs, id, other, vaddr, first_gone)
                &&& frame.mapped_at is None && frame.also_mapped_at == Some((other, vaddr))
                    ==> unmaps(k, trap, regs, id, other, vaddr, second_gone)
            }
            &&& has_frame(k, id) && !leaves_it_open(k, current, regs) ==> {
                &&& vspace_objection(k, current, regs.mrs[1]) == Some(code) ==> trap.refuses(
                    k,
                    regs,
                    code,
                )
                &&& vspace_objection(k, current, regs.mrs[1]) is None ==> {
                    &&& (forall|at: usize| !is_mapped(frame, vspace, at)) ==> trap.kernel == k
                        && trap.reports_success(regs)
                    &&& frame.mapped_at == Some((vspace, vaddr)) ==> unmaps(
                        k,
                        trap,
                        regs,
                        id,
                        vspace,
                        vaddr,
                        first_gone,
                    )
                    &&& frame.also_mapped_at == Some((vspace, vaddr)) && (frame.mapped_at matches Some(
                        (id, _),
                    ) ==> id != vspace) ==> unmaps(
                        k,
                        trap,
                        regs,
                        id,
                        vspace,
                        vaddr,
                        second_gone,
                    )
                }
            }
        }),
{
    broadcast use Rights::lemma_of;

    lemma_asked(k, current, SyscallNumber::FrameInvoke, regs);
    let frame = k.frames[id.0 as int]->Some_0;
    lemma_mapped(frame, k.seen(current, regs.mrs[1])->VSpace_id);
}

} // verus!
