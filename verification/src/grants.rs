//! What administering capabilities and threads brings about: which slot holds what after an
//! invocation of a CNode, what a retype makes and where it lies, and what a configuration
//! gives a thread.

use vstd::prelude::*;

use crate::cap::{
    law_object_type_numbers, CNodeId, CPtr, Capability, EndpointId, FrameId, NotificationId,
    ObjectType, Rights, SchedContextId, TcbId, UntypedId, VSpaceId,
};
use crate::consistency::{law_there_is_always_room, Place};
use crate::limits::CNODE_SLOTS;
use crate::model::KernelModel;
use crate::object::{
    fits_first_at, law_bump_takes_the_first_fit, EndpointModel, Frame, FrameSize, MemoryRange,
    NotificationModel, SchedulingContext, TcbModel, Untyped, VSpace,
};
use crate::pool::{first_free, law_first_free};
use crate::syscall::{trap_step, SyscallNumber};
use crate::terms::{lemma_asked, permits, rights_bits, WRITE_BIT};
use crate::trap::{MessageTag, Registers};

verus! {

/// The code of the error for which nothing can be taken from slot `src` of the CNode `id`, if
/// any.
pub open spec fn source_objection(k: KernelModel, id: CNodeId, src: CPtr) -> Option<usize> {
    if id.0 >= k.cnodes.len() || k.cnodes[id.0 as int] is None {
        Some(1)
    } else {
        let slots = k.cnodes[id.0 as int]->Some_0;
        if src >= slots.len() {
            Some(4)
        } else if slots[src as int] is Null {
            Some(1)
        } else {
            None
        }
    }
}

/// The code of the error for which nothing can be put into slot `dest` of the CNode `id`, if
/// any.
pub open spec fn target_objection(k: KernelModel, id: CNodeId, dest: CPtr) -> Option<usize> {
    if id.0 >= k.cnodes.len() || k.cnodes[id.0 as int] is None {
        Some(1)
    } else {
        let slots = k.cnodes[id.0 as int]->Some_0;
        if dest >= slots.len() {
            Some(4)
        } else if !(slots[dest as int] is Null) {
            Some(3)
        } else {
            None
        }
    }
}

/// What slot `src` of the CNode `id` holds.
pub open spec fn content(k: KernelModel, id: CNodeId, src: CPtr) -> Capability {
    let slots = k.cnodes[id.0 as int]->Some_0;
    slots[src as int]
}

/// The code of the error for which `source` cannot be minted with `packed`, if any: a right
/// among the lowest bits of `packed` that `source` does not have, or a kind that carries no
/// rights.
pub open spec fn minting_objection(source: Capability, packed: usize) -> Option<usize> {
    if (packed & 7) as u8 & !rights_bits(source) != 0 {
        Some(3)
    } else if source is CNode || source is Reply || source is Null {
        Some(3)
    } else {
        None
    }
}

/// `cap` designates what `source` does, with exactly the rights in the lowest bits of
/// `packed` and, where it has a badge, the badge that starts at bit 8 of `packed`.
pub open spec fn is_minted(source: Capability, packed: usize, cap: Capability) -> bool {
    &&& rights_bits(cap) == (packed & 7) as u8
    &&& match source {
        Capability::Untyped { id, .. } => cap is Untyped && cap->Untyped_id == id,
        Capability::Endpoint { id, .. } => {
            &&& cap is Endpoint && cap->Endpoint_id == id
            &&& cap->Endpoint_badge == packed >> 8
        },
        Capability::Notification { id, .. } => {
            &&& cap is Notification && cap->Notification_id == id
            &&& cap->Notification_badge == packed >> 8
        },
        Capability::Tcb { id, .. } => cap is Tcb && cap->Tcb_id == id,
        Capability::SchedContext { id, .. } => cap is SchedContext && cap->SchedContext_id == id,
        Capability::VSpace { id, .. } => cap is VSpace && cap->VSpace_id == id,
        Capability::Frame { id, .. } => cap is Frame && cap->Frame_id == id,
        _ => false,
    }
}

/// The first of two objections.
pub open spec fn first_of(a: Option<usize>, b: Option<usize>) -> Option<usize> {
    if a is Some {
        a
    } else {
        b
    }
}

/// The code of the error for which the CNode `id` cannot be administered with these
/// registers, if any. By the label, 1 is a mint, 2 a copy, 3 a move, 4 a deletion, 5 a
/// revocation, which is not offered, and 6 a copy from another CNode.
pub open spec fn administering_objection(
    k: KernelModel,
    current: TcbId,
    regs: Registers,
    id: CNodeId,
) -> Option<usize> {
    let (label, a, b, c) = (regs.tag.label, regs.mrs[1], regs.mrs[2], regs.mrs[3]);
    if label == 1 {
        first_of(
            source_objection(k, id, a),
            first_of(minting_objection(content(k, id, a), c), target_objection(k, id, b)),
        )
    } else if label == 2 || label == 3 {
        first_of(source_objection(k, id, a), target_objection(k, id, b))
    } else if label == 4 {
        source_objection(k, id, a)
    } else if label == 6 {
        if !k.sees(current, a) {
            Some(6)
        } else if !(k.seen(current, a) is CNode) {
            Some(1)
        } else {
            first_of(
                source_objection(k, k.seen(current, a)->CNode_0, b),
                target_objection(k, id, c),
            )
        }
    } else if label == 5 {
        Some(3)
    } else {
        Some(2)
    }
}

/// Slot `dest` of the CNode `id` holds `cap`, and nothing else has changed.
pub open spec fn puts(
    k: KernelModel,
    after: KernelModel,
    id: CNodeId,
    dest: CPtr,
    cap: Capability,
) -> bool {
    let slots = k.cnodes[id.0 as int]->Some_0;
    after == (KernelModel {
        cnodes: k.cnodes.update(id.0 as int, Some(slots.update(dest as int, cap))),
        ..k
    })
}

/// An invocation of a CNode does what its label says. A mint leaves in the destination a
/// capability to the same object with the rights and the badge that were asked for; a copy,
/// also one from another CNode, leaves there what the source holds; a move also empties the
/// source; a deletion empties it. No other slot changes, nor anything else. It is refused
/// exactly for a reason that can be seen, and then nothing changes.
pub proof fn law_a_cnode_holds_what_was_put_there(
    k: KernelModel,
    current: TcbId,
    regs: Registers,
    id: CNodeId,
    code: usize,
)
    requires
        k.current == Some(current),
        regs.syscall_number == 9,
    ensures
        ({
            let trap = trap_step(k, regs);
            let after = trap.kernel;
            let named = k.seen(current, regs.mrs[0]);
            let (label, a, b, c) = (regs.tag.label, regs.mrs[1], regs.mrs[2], regs.mrs[3]);
            &&& !k.sees(current, regs.mrs[0]) ==> trap.refuses(k, regs, 6)
            &&& k.sees(current, regs.mrs[0]) && !(named is CNode) ==> trap.refuses(k, regs, 1)
            &&& k.sees(current, regs.mrs[0]) && named == Capability::CNode(id) ==> {
                let objection = administering_objection(k, current, regs, id);
                &&& objection == Some(code) ==> trap.refuses(k, regs, code)
                &&& objection is None ==> {
                    let slots = k.cnodes[id.0 as int]->Some_0;
                    &&& trap.reports_success(regs)
                    &&& label == 1 ==> {
                        let cap = content(after, id, b);
                        is_minted(content(k, id, a), c, cap) && puts(k, after, id, b, cap)
                    }
                    &&& label == 2 ==> puts(k, after, id, b, content(k, id, a))
                    &&& label == 3 ==> after == (KernelModel {
                        cnodes: k.cnodes.update(
                            id.0 as int,
                            Some(
                                slots.update(b as int, slots[a as int]).update(
                                    a as int,
                                    Capability::Null,
                                ),
                            ),
                        ),
                        ..k
                    })
                    &&& label == 4 ==> puts(k, after, id, a, Capability::Null)
                    &&& label == 6 ==> puts(
                        k,
                        after,
                        id,
                        c,
                        content(k, k.seen(current, a)->CNode_0, b),
                    )
                }
            }
        }),
{
    broadcast use Rights::lemma_of;

    lemma_asked(k, current, SyscallNumber::CNodeInvoke, regs);
    let packed = regs.mrs[3];
    assert((((packed & 0xFF) as u8) & 7u8) == (packed & 7) as u8) by (bit_vector);
    if k.sees(current, regs.mrs[0]) && k.seen(current, regs.mrs[0]) == Capability::CNode(id) {
        if administering_objection(k, current, regs, id) is None && regs.tag.label == 3 {
            let slots = k.cnodes[id.0 as int]->Some_0;
            let moved = slots.update(regs.mrs[2] as int, slots[regs.mrs[1] as int]).update(
                regs.mrs[1] as int,
                Capability::Null,
            );
            assert(trap_step(k, regs).kernel.cnodes =~= k.cnodes.update(id.0 as int, Some(moved)));
        }
    }
}

/// The code of the error for which `cptr` names no address space that may be written to, if
/// any.
pub open spec fn vspace_objection(k: KernelModel, current: TcbId, cptr: CPtr) -> Option<usize> {
    if !k.sees(current, cptr) {
        Some(6)
    } else if !(k.seen(current, cptr) is VSpace) {
        Some(1)
    } else if !permits(k.seen(current, cptr), WRITE_BIT) {
        Some(3)
    } else {
        None
    }
}

/// Whether there is an address space `id`.
pub open spec fn has_vspace(k: KernelModel, id: VSpaceId) -> bool {
    id.0 < k.vspaces.len() && k.vspaces[id.0 as int] is Some
}

/// The code of the error for which a configuration with these registers is refused, if any.
pub open spec fn configuring_objection(k: KernelModel, current: TcbId, regs: Registers) -> Option<
    usize,
> {
    let target = k.seen(current, regs.mrs[0]);
    let vspace = k.seen(current, regs.mrs[3])->VSpace_id;
    if !k.sees(current, regs.mrs[0]) {
        Some(6)
    } else if !(target is Tcb) {
        Some(1)
    } else if !permits(target, WRITE_BIT) {
        Some(3)
    } else if !k.sees(current, regs.mrs[1]) {
        Some(6)
    } else if !(k.seen(current, regs.mrs[1]) is CNode) {
        Some(1)
    } else if !k.sees(current, regs.mrs[2]) {
        Some(6)
    } else if !(k.seen(current, regs.mrs[2]) is SchedContext) {
        Some(1)
    } else if regs.mrs[3] != 0 && vspace_objection(k, current, regs.mrs[3]) is Some {
        vspace_objection(k, current, regs.mrs[3])
    } else if regs.mrs[3] != 0 && !has_vspace(k, vspace) {
        Some(1)
    } else if !k.has_thread(target->Tcb_id) {
        Some(1)
    } else {
        None
    }
}

/// A configuration gives the thread that `mr0` names the CNode that `mr1` names as its CSpace,
/// the scheduling context that `mr2` names, and the root of the address space that `mr3`
/// names, or none for zero. A thread that was never configured joins the end of the ready
/// queue; any other goes on as it was. Nothing else changes. It is refused exactly for a
/// reason that can be seen, and then nothing changes.
pub proof fn law_a_thread_has_what_it_was_configured_with(
    k: KernelModel,
    current: TcbId,
    regs: Registers,
    code: usize,
)
    requires
        k.consistent(),
        k.current == Some(current),
        regs.syscall_number == 11,
    ensures
        ({
            let trap = trap_step(k, regs);
            let after = trap.kernel;
            let target = k.seen(current, regs.mrs[0])->Tcb_id;
            let vspace = k.seen(current, regs.mrs[3])->VSpace_id;
            let is = after.thread(target);
            let was = k.thread(target);
            let objection = configuring_objection(k, current, regs);
            &&& objection == Some(code) ==> trap.refuses(k, regs, code)
            &&& objection is None ==> {
                &&& trap.reports_success(regs)
                &&& after.has_thread(target)
                &&& is.cspace == Some(k.seen(current, regs.mrs[1])->CNode_0)
                &&& is.sched_context == Some(k.seen(current, regs.mrs[2])->SchedContext_id)
                &&& is.address_space == if regs.mrs[3] == 0 {
                    None
                } else {
                    Some(k.vspaces[vspace.0 as int]->Some_0.root)
                }
                &&& is.context == was.context
                &&& is.reply_to == was.reply_to
                &&& was.state is Inactive ==> is.state is Ready && after.ready == k.ready.push(target)
                &&& !(was.state is Inactive) ==> is.state == was.state && after.ready == k.ready
                &&& k.keeps_threads(after, target, target)
                &&& after == (KernelModel { tcbs: after.tcbs, ready: after.ready, ..k })
            }
        }),
{
    broadcast use Rights::lemma_of;

    lemma_asked(k, current, SyscallNumber::TCBConfigure, regs);
    if configuring_objection(k, current, regs) is None {
        let target = k.seen(current, regs.mrs[0])->Tcb_id;
        if k.thread(target).state is Inactive {
            assert(!k.is_at(target, Place::Ready));
            law_there_is_always_room(k, Place::Ready, target);
        }
    }
}

/// `index` is the lowest place in a pool that is free.
pub open spec fn is_lowest_free<T>(pool: Seq<Option<T>>, index: u16) -> bool {
    &&& index < pool.len()
    &&& pool[index as int] is None
    &&& forall|j: int| 0 <= j < index ==> pool[j] is Some
}

/// No place in a pool is free.
pub open spec fn has_no_room<T>(pool: Seq<Option<T>>) -> bool {
    forall|j: int| 0 <= j < pool.len() ==> pool[j] is Some
}

/// The code of the error for which nothing can be made with these registers, whatever it is,
/// if any: `mr0` names no untyped memory that may be written to, `mr1` no type, the budget is
/// spent, or slot `mr2` cannot take the capability.
pub open spec fn retyping_objection(k: KernelModel, current: TcbId, regs: Registers) -> Option<usize> {
    let cap = k.seen(current, regs.mrs[0]);
    let id = cap->Untyped_id;
    if !k.sees(current, regs.mrs[0]) {
        Some(6)
    } else if !(cap is Untyped) {
        Some(1)
    } else if !permits(cap, WRITE_BIT) {
        Some(3)
    } else if regs.mrs[1] > 8 {
        Some(2)
    } else if id.0 >= k.untypeds.len() || k.untypeds[id.0 as int] is None {
        Some(1)
    } else if k.untypeds[id.0 as int]->Some_0.remaining == 0 {
        Some(8)
    } else if regs.mrs[2] >= k.slots(current).len() {
        Some(4)
    } else if !(k.seen(current, regs.mrs[2]) is Null) {
        Some(3)
    } else if regs.mrs[1] == 1 {
        Some(2)
    } else {
        None
    }
}

/// The kernel `made`, in which a new object is, has become `after`: slot `mr2` of `current`
/// holds `cap`, one unit of the budget of the untyped memory that `mr0` names is spent, and
/// nothing else has changed.
pub open spec fn is_handed_out(
    made: KernelModel,
    after: KernelModel,
    current: TcbId,
    regs: Registers,
    cap: Capability,
) -> bool {
    let source = made.seen(current, regs.mrs[0])->Untyped_id;
    let untyped = made.untypeds[source.0 as int]->Some_0;
    let cspace = made.thread(current).cspace->Some_0;
    after == (KernelModel {
        cnodes: made.cnodes.update(
            cspace.0 as int,
            Some(made.slots(current).update(regs.mrs[2] as int, cap)),
        ),
        untypeds: made.untypeds.update(
            source.0 as int,
            Some(Untyped { remaining: (untyped.remaining - 1) as usize, memory: untyped.memory }),
        ),
        ..made
    })
}

/// A thread that was never configured: inactive, without anything, and with all registers
/// zero.
pub open spec fn is_blank(tcb: TcbModel) -> bool {
    &&& tcb.state is Inactive
    &&& tcb.cspace is None
    &&& tcb.sched_context is None
    &&& tcb.address_space is None
    &&& tcb.reply_to is None
    &&& tcb.context.syscall_number == 0
    &&& tcb.context.tag == (MessageTag { label: 0, length: 0, extra_caps: 0, flags: 0 })
    &&& tcb.context.mrs == Seq::new(4, |i: int| 0usize)
    &&& tcb.context.raw == Seq::new(32, |i: int| 0usize)
}

/// A retype is refused, and nothing changes, for a reason that can be seen.
pub proof fn law_bad_retypes_are_refused(k: KernelModel, current: TcbId, regs: Registers, code: usize)
    requires
        k.current == Some(current),
        regs.syscall_number == 10,
        retyping_objection(k, current, regs) == Some(code),
    ensures
        trap_step(k, regs).refuses(k, regs, code),
{
    broadcast use Rights::lemma_of;

    lemma_asked(k, current, SyscallNumber::UntypedRetype, regs);
    law_object_type_numbers(ObjectType::Untyped, regs.mrs[1]);
}

/// A retype to a CNode, an endpoint, a notification, a thread or a scheduling context makes
/// one in the lowest place that is free, as good as new, and hands it out with all rights and
/// no badge. Where no place is free, there is not enough memory, and nothing changes.
pub proof fn law_a_new_object_is_blank(
    k: KernelModel,
    current: TcbId,
    regs: Registers,
    i: u16,
    blank: TcbModel,
)
    requires
        k.wf(),
        k.current == Some(current),
        regs.syscall_number == 10,
        retyping_objection(k, current, regs) is None,
        is_blank(blank),
    ensures
        ({
            let trap = trap_step(k, regs);
            let after = trap.kernel;
            let kind = regs.mrs[1];
            let all = Rights::of(7);
            &&& kind == 0 && is_lowest_free(k.cnodes, i) ==> {
                &&& trap.reports_success(regs)
                &&& is_handed_out(
                    KernelModel {
                        cnodes: k.cnodes.update(
                            i as int,
                            Some(Seq::new(CNODE_SLOTS as nat, |j: int| Capability::Null)),
                        ),
                        ..k
                    },
                    after,
                    current,
                    regs,
                    Capability::CNode(CNodeId(i)),
                )
            }
            &&& kind == 2 && is_lowest_free(k.endpoints, i) ==> {
                &&& trap.reports_success(regs)
                &&& is_handed_out(
                    KernelModel {
                        endpoints: k.endpoints.update(i as int, Some(EndpointModel::Empty)),
                        ..k
                    },
                    after,
                    current,
                    regs,
                    Capability::Endpoint { id: EndpointId(i), badge: 0, rights: all },
                )
            }
            &&& kind == 3 && is_lowest_free(k.notifications, i) ==> {
                &&& trap.reports_success(regs)
                &&& is_handed_out(
                    KernelModel {
                        notifications: k.notifications.update(
                            i as int,
                            Some(NotificationModel { signals: 0, waiters: Seq::empty() }),
                        ),
                        ..k
                    },
                    after,
                    current,
                    regs,
                    Capability::Notification { id: NotificationId(i), badge: 0, rights: all },
                )
            }
            &&& kind == 4 && is_lowest_free(k.tcbs, i) ==> {
                &&& trap.reports_success(regs)
                &&& is_handed_out(
                    KernelModel { tcbs: k.tcbs.update(i as int, Some(blank)), ..k },
                    after,
                    current,
                    regs,
                    Capability::Tcb { id: TcbId(i), rights: all },
                )
            }
            &&& kind == 5 && is_lowest_free(k.sched_contexts, i) ==> {
                &&& trap.reports_success(regs)
                &&& is_handed_out(
                    KernelModel {
                        sched_contexts: k.sched_contexts.update(
                            i as int,
                            Some(SchedulingContext { budget: 1, period: 1 }),
                        ),
                        ..k
                    },
                    after,
                    current,
                    regs,
                    Capability::SchedContext { id: SchedContextId(i), rights: all },
                )
            }
            &&& {
                ||| kind == 0 && has_no_room(k.cnodes)
                ||| kind == 2 && has_no_room(k.endpoints)
                ||| kind == 3 && has_no_room(k.notifications)
                ||| kind == 4 && has_no_room(k.tcbs)
                ||| kind == 5 && has_no_room(k.sched_contexts)
            } ==> trap.refuses(k, regs, 8)
        }),
{
    broadcast use Rights::lemma_of;

    lemma_asked(k, current, SyscallNumber::UntypedRetype, regs);
    law_object_type_numbers(ObjectType::CNode, regs.mrs[1]);
    if regs.mrs[1] == 0 {
        lemma_first(k.cnodes, i);
    } else if regs.mrs[1] == 2 {
        lemma_first(k.endpoints, i);
    } else if regs.mrs[1] == 3 {
        lemma_first(k.notifications, i);
    } else if regs.mrs[1] == 4 {
        lemma_first(k.tcbs, i);
        assert(blank =~= TcbModel::fresh());
    } else if regs.mrs[1] == 5 {
        lemma_first(k.sched_contexts, i);
    }
}

/// The lowest free place is the one that is filled.
proof fn lemma_first<T>(pool: Seq<Option<T>>, i: u16)
    ensures
        is_lowest_free(pool, i) ==> first_free(pool) == Some(i as int),
        has_no_room(pool) ==> first_free(pool) is None,
{
    if is_lowest_free(pool, i) {
        law_first_free(pool, i as int);
    }
}

/// How many bytes the type with the number `kind` takes: a page for an address space and for
/// a small frame, a megapage for a mega frame.
pub open spec fn bytes_for(kind: usize) -> usize {
    if kind == 8 {
        0x20_0000
    } else {
        0x1000
    }
}

/// The free memory of `untyped` has a block of `size` bytes, and the first one that is
/// aligned to its size starts at `start`.
pub open spec fn first_block(untyped: Untyped, size: usize, start: usize) -> bool {
    untyped.memory matches Some(range) && {
        &&& range.next <= start < range.next + size
        &&& start % size == 0
        &&& start + size <= range.end
    }
}

/// `untyped` after everything up to the end of that block was taken.
pub open spec fn after_block(untyped: Untyped, size: usize, start: usize) -> Untyped {
    Untyped {
        remaining: untyped.remaining,
        memory: Some(
            MemoryRange { next: (start + size) as usize, end: untyped.memory->Some_0.end },
        ),
    }
}

/// What the untyped memory does where it has that block, or none.
pub(crate) proof fn lemma_block(untyped: Untyped, size: usize, start: usize)
    requires
        size > 0,
    ensures
        first_block(untyped, size, start) ==> untyped.bump_start(size, size) == Some(start)
            && untyped.bumped(size, size) == after_block(untyped, size, start),
        (forall|at: usize| !first_block(untyped, size, at)) ==> untyped.bump_start(size, size) is None
            && untyped.bumped(size, size) == untyped,
{
    law_bump_takes_the_first_fit(untyped, size, size, start);
    assert forall|at: usize| #[trigger] fits_first_at(untyped, size, size, at) implies first_block(
        untyped,
        size,
        at,
    ) by {}
}

/// A retype to an address space or a frame takes the first block of its size, aligned to its
/// size, out of the untyped memory, makes the object in the lowest place that is free, and
/// hands it out with all rights. The block is the root page table of an address space, which
/// is empty and takes further page tables from the same memory; or it is the frame, which is
/// mapped nowhere. Without such a block there is not enough memory, and nothing changes;
/// without a place there is not, and only the block has been taken.
pub proof fn law_a_new_page_is_the_next_block(
    k: KernelModel,
    current: TcbId,
    regs: Registers,
    source: UntypedId,
    untyped: Untyped,
    start: usize,
    i: u16,
)
    requires
        k.wf(),
        k.current == Some(current),
        regs.syscall_number == 10,
        retyping_objection(k, current, regs) is None,
        6 <= regs.mrs[1] <= 8,
        k.seen(current, regs.mrs[0])->Untyped_id == source,
        k.untypeds[source.0 as int] == Some(untyped),
    ensures
        ({
            let trap = trap_step(k, regs);
            let kind = regs.mrs[1];
            let size = bytes_for(kind);
            let all = Rights::of(7);
            let taken = KernelModel {
                untypeds: k.untypeds.update(
                    source.0 as int,
                    Some(after_block(untyped, size, start)),
                ),
                ..k
            };
            &&& (forall|at: usize| !first_block(untyped, size, at)) ==> trap.refuses(k, regs, 8)
            &&& first_block(untyped, size, start) ==> {
                &&& kind == 6 && has_no_room(k.vspaces) ==> trap.refuses(taken, regs, 8)
                &&& kind != 6 && has_no_room(k.frames) ==> trap.refuses(taken, regs, 8)
                &&& kind == 6 && is_lowest_free(k.vspaces, i) ==> {
                    &&& trap.reports_success(regs)
                    &&& is_handed_out(
                        KernelModel {
                            vspaces: k.vspaces.update(
                                i as int,
                                Some(VSpace { root: start, source }),
                            ),
                            ..taken
                        },
                        trap.kernel,
                        current,
                        regs,
                        Capability::VSpace { id: VSpaceId(i), rights: all },
                    )
                }
                &&& kind != 6 && is_lowest_free(k.frames, i) ==> {
                    &&& trap.reports_success(regs)
                    &&& is_handed_out(
                        KernelModel {
                            frames: k.frames.update(
                                i as int,
                                Some(
                                    Frame {
                                        paddr: start,
                                        size: if kind == 8 {
                                            FrameSize::Mega
                                        } else {
                                            FrameSize::Small
                                        },
                                        mapped_at: None,
                                        also_mapped_at: None,
                                    },
                                ),
                            ),
                            ..taken
                        },
                        trap.kernel,
                        current,
                        regs,
                        Capability::Frame { id: FrameId(i), rights: all },
                    )
                }
            }
        }),
{
    broadcast use Rights::lemma_of;

    lemma_asked(k, current, SyscallNumber::UntypedRetype, regs);
    law_object_type_numbers(ObjectType::VSpace, regs.mrs[1]);
    lemma_block(untyped, bytes_for(regs.mrs[1]), start);
    if regs.mrs[1] == 6 {
        lemma_first(k.vspaces, i);
    } else {
        lemma_first(k.frames, i);
    }
}

} // verus!
