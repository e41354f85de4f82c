//! What holds of objects, capabilities and mappings over several syscalls.

use vstd::prelude::*;

use crate::admin::{configure_step, retype_request, retype_step, vspace_named};
use crate::authority::law_mint_never_amplifies;
use crate::cap::{
    CNodeId, CPtr, Capability, FrameId, ObjectType, Rights, TcbId, UntypedId, VSpaceId,
};
use crate::cnode;
use crate::error::SyscallError;
use crate::frame::{
    frame_named, invoke_step, map_step, names_none, spare_tables, PagingAction, LABEL_MAP, LABEL_UNMAP,
};
use crate::ipc::{
    call_step, poll_step, recv_step, reply_step, send_step, signal_step, wait_step,
};
use crate::model::KernelModel;
use crate::object::{FrameSize, Untyped};
use crate::pool::law_first_free_exists;
use crate::syscall::{asks_to_map, translated_step, trap_step, yield_step, SyscallNumber};
use crate::trap::Registers;

verus! {

/// A retype that succeeds gives its caller what it asked for: a capability with all rights
/// to an object that was not there before, of the type that was asked for, in the slot
/// that was named, for one unit of the budget. It makes no other object, and no other budget
/// changes.
pub proof fn law_retype_gives_what_was_asked(
    k: KernelModel,
    current: TcbId,
    cptr: CPtr,
    regs: Registers,
)
    requires
        k.wf(),
        retype_step(k, current, cptr, regs).result is Ok,
    ensures
        ({
            let after = retype_step(k, current, cptr, regs).kernel;
            let (source, object_type, _) = retype_request(k, current, cptr, regs)->Ok_0;
            let cap = after.lookup(current, regs.mrs[2])->Ok_0;
            &&& ObjectType::from_usize(regs.mrs[1]) == Some(object_type)
            &&& after.lookup(current, regs.mrs[2]) is Ok
            &&& k.lacks(cap) && !after.lacks(cap)
            &&& cap is CNode || cap.rights() == Rights::all()
            &&& match cap {
                Capability::Frame { id, .. } => {
                    let frame = after.frame(id)->0;
                    &&& frame.mapped_at is None && frame.also_mapped_at is None
                    &&& object_type == match frame.size {
                        FrameSize::Small => ObjectType::FrameSmall,
                        FrameSize::Mega => ObjectType::FrameMega,
                    }
                },
                _ => cap.object_type() == Some(object_type),
            }
            &&& forall|other: Capability| #[trigger]
                k.lacks(other) && !after.lacks(other) ==> other.same_object(cap)
            &&& forall|other: Capability| #[trigger] after.lacks(other) ==> k.lacks(other)
            &&& after.untyped(source)->0.remaining == k.untyped(source)->0.remaining - 1
            &&& forall|other: UntypedId|
                other != source ==> #[trigger] after.untyped(other) == k.untyped(other)
        }),
{
    law_first_free_exists(k.tcbs);
    law_first_free_exists(k.cnodes);
    law_first_free_exists(k.endpoints);
    law_first_free_exists(k.notifications);
    law_first_free_exists(k.sched_contexts);
    law_first_free_exists(k.vspaces);
    law_first_free_exists(k.frames);
    let (source, object_type, cspace) = retype_request(k, current, cptr, regs)->Ok_0;
    let made = k.created(source, object_type);
    assert(made.kernel.cnode(cspace) == k.cnode(cspace));
    assert(made.kernel.untyped(source)->0.remaining == k.untyped(source)->0.remaining);
    assert(k.cspace(current) == Some(cspace));
    assert(made.kernel.tcb(current) == k.tcb(current));
    let cap = made.cap->Ok_0;
    assert forall|other: Capability| #[trigger]
        k.lacks(other) && !made.kernel.lacks(other) implies other.same_object(cap) by {}
    assert forall|other: Capability| #[trigger] made.kernel.lacks(other) implies k.lacks(
        other,
    ) by {}
    let after = retype_step(k, current, cptr, regs).kernel;
    assert forall|other: Capability| #[trigger] after.lacks(other) == made.kernel.lacks(
        other,
    ) by {}
}

/// Nothing but a retype makes objects or spends a budget.
pub proof fn law_objects_come_from_retype(
    k: KernelModel,
    regs: Registers,
    translated: Option<usize>,
)
    requires
        SyscallNumber::from_usize(regs.syscall_number) != Some(SyscallNumber::UntypedRetype),
    ensures
        k.same_objects(trap_step(k, regs).kernel),
        k.same_objects(translated_step(k, regs, translated).kernel),
{
    if let Some(current) = k.current {
        let cptr = regs.mrs[0];
        if let Some(syscall) = SyscallNumber::from_usize(regs.syscall_number) {
            match syscall {
                SyscallNumber::Send => lemma_send(k, current, cptr, regs, false),
                SyscallNumber::NBSend => lemma_send(k, current, cptr, regs, true),
                SyscallNumber::Recv => lemma_recv(k, current, cptr, regs),
                SyscallNumber::Call => lemma_call(k, current, cptr, regs),
                SyscallNumber::Reply => lemma_reply(k, current, regs),
                _ => lemma_others(k, current, cptr, regs),
            }
        }
        lemma_paging(k, current, cptr, regs, translated);
    }
}

/// The same slots hold an object in both.
pub open spec fn same_occupancy<T>(before: Seq<Option<T>>, after: Seq<Option<T>>) -> bool {
    &&& after.len() == before.len()
    &&& forall|i: int| 0 <= i < before.len() ==> (#[trigger] after[i] is Some <==> before[i] is Some)
}

impl KernelModel {
    /// The same objects exist, and every budget is as it was.
    pub open spec fn same_objects(self, after: KernelModel) -> bool {
        &&& same_occupancy(self.cnodes, after.cnodes)
        &&& same_occupancy(self.tcbs, after.tcbs)
        &&& same_occupancy(self.endpoints, after.endpoints)
        &&& same_occupancy(self.notifications, after.notifications)
        &&& same_occupancy(self.untypeds, after.untypeds)
        &&& same_occupancy(self.sched_contexts, after.sched_contexts)
        &&& same_occupancy(self.vspaces, after.vspaces)
        &&& same_occupancy(self.frames, after.frames)
        &&& forall|i: int|
            0 <= i < self.untypeds.len() ==> (#[trigger] after.untypeds[i] matches Some(untyped)
                ==> untyped.remaining == self.untypeds[i]->0.remaining)
    }
}

proof fn lemma_send(k: KernelModel, current: TcbId, cptr: CPtr, regs: Registers, nonblocking: bool)
    ensures
        k.same_objects(send_step(k, current, cptr, regs, nonblocking).kernel),
        send_step(k, current, cptr, regs, nonblocking).kernel.frames == k.frames,
{
}

proof fn lemma_recv(k: KernelModel, current: TcbId, cptr: CPtr, regs: Registers)
    ensures
        k.same_objects(recv_step(k, current, cptr, regs).kernel),
        recv_step(k, current, cptr, regs).kernel.frames == k.frames,
{
}

proof fn lemma_call(k: KernelModel, current: TcbId, cptr: CPtr, regs: Registers)
    ensures
        k.same_objects(call_step(k, current, cptr, regs).kernel),
        call_step(k, current, cptr, regs).kernel.frames == k.frames,
{
}

proof fn lemma_reply(k: KernelModel, current: TcbId, regs: Registers)
    ensures
        k.same_objects(reply_step(k, current, regs).kernel),
        reply_step(k, current, regs).kernel.frames == k.frames,
{
}

proof fn lemma_paging(
    k: KernelModel,
    current: TcbId,
    cptr: CPtr,
    regs: Registers,
    translated: Option<usize>,
)
    ensures
        k.same_objects(invoke_step(k, current, cptr, regs).kernel),
        k.same_objects(map_step(k, current, cptr, regs, translated).kernel),
{
}

proof fn lemma_others(k: KernelModel, current: TcbId, cptr: CPtr, regs: Registers)
    ensures
        k.same_objects(signal_step(k, current, cptr, regs).kernel),
        signal_step(k, current, cptr, regs).kernel.frames == k.frames,
        k.same_objects(wait_step(k, current, cptr, regs).kernel),
        wait_step(k, current, cptr, regs).kernel.frames == k.frames,
        k.same_objects(poll_step(k, current, cptr, regs).kernel),
        poll_step(k, current, cptr, regs).kernel.frames == k.frames,
        k.same_objects(cnode::invoke_step(k, current, cptr, regs).kernel),
        cnode::invoke_step(k, current, cptr, regs).kernel.frames == k.frames,
        k.same_objects(configure_step(k, current, cptr, regs).kernel),
        configure_step(k, current, cptr, regs).kernel.frames == k.frames,
        k.same_objects(yield_step(k, current, regs).kernel),
        yield_step(k, current, regs).kernel.frames == k.frames,
{
}

/// Whether a map of the frame `id`, which `cptr` names, into the address space `vspace` has
/// all it needs besides a frame that can take it: an aligned address, and memory for page
/// tables.
pub open spec fn can_map(
    k: KernelModel,
    current: TcbId,
    cptr: CPtr,
    regs: Registers,
    id: FrameId,
    vspace: VSpaceId,
) -> bool {
    &&& frame_named(k, current, cptr) == Ok::<FrameId, SyscallError>(id)
    &&& vspace_named(k, current, regs.mrs[1]) == Ok::<VSpaceId, SyscallError>(vspace)
    &&& k.frame(id) matches Some(f) && regs.mrs[2] % f.size.bytes() == 0 && (k.vspace(
        vspace,
    ) matches Some(v) && (k.untyped(v.source) matches Some(untyped) && spare_tables(
        untyped,
        f.size,
    ).1 is Some))
}

/// A frame can be shared by two address spaces. Mapped nowhere, or into one other, it can be
/// mapped where nothing is mapped yet: the page table entry goes under the root of that
/// address space and leads to the frame, and what was mapped before stays so.
pub proof fn law_a_frame_can_be_shared(
    k: KernelModel,
    current: TcbId,
    cptr: CPtr,
    regs: Registers,
    id: FrameId,
    vspace: VSpaceId,
    other: VSpaceId,
)
    requires
        can_map(k, current, cptr, regs, id, vspace),
        !k.frame(id)->0.is_shared(),
        k.frame(id)->0.mapping_in(vspace) is None,
        other != vspace,
    ensures
        ({
            let step = map_step(k, current, cptr, regs, None);
            let (before, after) = (k.frame(id)->0, step.kernel.frame(id)->0);
            &&& regs.tag.label == LABEL_MAP ==> invoke_step(k, current, cptr, regs).result == Ok::<
                PagingAction,
                SyscallError,
            >(PagingAction::Translate { root: k.vspace(vspace)->0.root, vaddr: regs.mrs[2] })
            &&& step.result matches Ok(PagingAction::MapPage(mapping)) && {
                &&& mapping.root == k.vspace(vspace)->0.root
                &&& mapping.vaddr == regs.mrs[2]
                &&& mapping.paddr == before.paddr
                &&& mapping.size == before.size
            }
            &&& after.mapping_in(vspace) == Some(regs.mrs[2])
            &&& after.mapping_in(other) == before.mapping_in(other)
            &&& before.mapped_at is Some ==> after.mapped_at == before.mapped_at
            &&& before.also_mapped_at is Some ==> after.also_mapped_at == before.also_mapped_at
            &&& after.paddr == before.paddr && after.size == before.size
        }),
{
}

/// A frame that two address spaces share can be mapped nowhere else, whatever the page
/// tables have there; nor can a frame be mapped twice into one. Nothing changes.
pub proof fn law_a_third_mapping_is_refused(
    k: KernelModel,
    current: TcbId,
    cptr: CPtr,
    regs: Registers,
    translated: Option<usize>,
    id: FrameId,
)
    requires
        frame_named(k, current, cptr) == Ok::<FrameId, SyscallError>(id),
        k.frame(id) matches Some(f) && (f.is_shared() || (vspace_named(
            k,
            current,
            regs.mrs[1],
        ) matches Ok(vspace) && f.mapping_in(vspace) is Some)),
    ensures
        ({
            let error = match vspace_named(k, current, regs.mrs[1]) {
                Ok(_) => SyscallError::IllegalOperation,
                Err(error) => error,
            };
            &&& map_step(k, current, cptr, regs, translated) == k.paged_refusal(regs, error)
            &&& regs.tag.label == LABEL_MAP ==> invoke_step(k, current, cptr, regs)
                == k.paged_refusal(regs, error)
        }),
{
}

/// An unmap undoes a map: it removes the page table entry that the map has asked for, and
/// the frame is as it was before. The address space is named, or it is the only one. A
/// second unmap has nothing to do.
pub proof fn law_unmap_undoes_map(
    k: KernelModel,
    current: TcbId,
    cptr: CPtr,
    regs: Registers,
    unmapping: Registers,
)
    requires
        map_step(k, current, cptr, regs, None).result is Ok,
        unmapping.tag.label == LABEL_UNMAP,
        unmapping.mrs[1] == regs.mrs[1] || names_none(k, current, unmapping),
        names_none(k, current, unmapping) ==> (k.frame(frame_named(k, current, cptr)->Ok_0) matches Some(f)
            && f.mapped_at is None && f.also_mapped_at is None),
    ensures
        ({
            let first = map_step(k, current, cptr, regs, None);
            let second = invoke_step(first.kernel, current, cptr, unmapping);
            let third = invoke_step(second.kernel, current, cptr, unmapping);
            let id = frame_named(k, current, cptr)->Ok_0;
            &&& first.result matches Ok(PagingAction::MapPage(mapping)) && second.result == Ok::<
                PagingAction,
                SyscallError,
            >(PagingAction::UnmapPage { root: mapping.root, vaddr: mapping.vaddr })
            &&& second.kernel.frame(id) == k.frame(id)
            &&& third.result == Ok::<PagingAction, SyscallError>(PagingAction::Done)
            &&& third.kernel == second.kernel
        }),
{
    let first = map_step(k, current, cptr, regs, None);
    let mapped = first.kernel;
    assert(mapped.cnodes == k.cnodes && mapped.tcbs == k.tcbs && mapped.vspaces == k.vspaces);
    assert(mapped.lookup(current, cptr) == k.lookup(current, cptr));
    assert(mapped.lookup(current, regs.mrs[1]) == k.lookup(current, regs.mrs[1]));
    assert(mapped.lookup(current, 0) == k.lookup(current, 0));
    let id = frame_named(k, current, cptr)->Ok_0;
    let second = invoke_step(mapped, current, cptr, unmapping);
    assert(second.kernel.cnodes == k.cnodes && second.kernel.tcbs == k.tcbs);
    assert(second.kernel.lookup(current, cptr) == k.lookup(current, cptr));
    assert(second.kernel.lookup(current, regs.mrs[1]) == k.lookup(current, regs.mrs[1]));
    assert(second.kernel.lookup(current, 0) == k.lookup(current, 0));
    assert(second.kernel.frame(id) == k.frame(id));
}

/// An unmap takes a frame out of the address space that it names and out of no other. With
/// two to choose from, one that names none is refused.
pub proof fn law_unmap_leaves_the_other(
    k: KernelModel,
    current: TcbId,
    cptr: CPtr,
    regs: Registers,
    id: FrameId,
    vspace: VSpaceId,
    other: VSpaceId,
)
    requires
        frame_named(k, current, cptr) == Ok::<FrameId, SyscallError>(id),
        regs.tag.label == LABEL_UNMAP,
        k.frame(id) matches Some(f) && f.mapping_in(vspace) is Some && f.mapping_in(other) is Some,
        vspace != other,
        k.vspace(vspace) is Some,
    ensures
        ({
            let step = invoke_step(k, current, cptr, regs);
            let (before, after) = (k.frame(id)->0, step.kernel.frame(id)->0);
            &&& names_none(k, current, regs) ==> step == k.paged_refusal(regs, SyscallError::IllegalOperation)
            &&& vspace_named(k, current, regs.mrs[1]) == Ok::<
                VSpaceId,
                SyscallError,
            >(vspace) ==> {
                &&& step.result == Ok::<PagingAction, SyscallError>(
                    PagingAction::UnmapPage {
                        root: k.vspace(vspace)->0.root,
                        vaddr: before.mapping_in(vspace)->0,
                    },
                )
                &&& after.mapping_in(vspace) is None
                &&& after.mapping_in(other) == before.mapping_in(other)
            }
        }),
{
}

impl KernelModel {
    /// No frame is mapped twice into one address space.
    pub open spec fn mappings_are_apart(self) -> bool {
        forall|id: FrameId|
            (#[trigger] self.frame(id)) matches Some(f) ==> match (f.mapped_at, f.also_mapped_at) {
                (Some((a, _)), Some((b, _))) => a != b,
                _ => true,
            }
    }
}

/// A kernel without objects has no frame mapped twice, and memory that is brought in is not
/// mapped.
pub proof fn law_initial_mappings_are_apart(k: KernelModel, untypeds: Seq<Option<Untyped>>)
    ensures
        KernelModel::initial().mappings_are_apart(),
        k.mappings_are_apart() ==> (KernelModel { untypeds, ..k }).mappings_are_apart(),
{
    if k.mappings_are_apart() {
        lemma_same_frames(k, KernelModel { untypeds, ..k });
    }
}

/// Every trap keeps the two mappings of a frame in different address spaces.
pub proof fn law_traps_keep_mappings_apart(
    k: KernelModel,
    regs: Registers,
    translated: Option<usize>,
)
    requires
        k.wf(),
        k.mappings_are_apart(),
    ensures
        trap_step(k, regs).kernel.mappings_are_apart(),
        translated_step(k, regs, translated).kernel.mappings_are_apart(),
{
    if let Some(current) = k.current {
        let cptr = regs.mrs[0];
        if let Some(syscall) = SyscallNumber::from_usize(regs.syscall_number) {
            match syscall {
                SyscallNumber::Send => lemma_send(k, current, cptr, regs, false),
                SyscallNumber::NBSend => lemma_send(k, current, cptr, regs, true),
                SyscallNumber::Recv => lemma_recv(k, current, cptr, regs),
                SyscallNumber::Call => lemma_call(k, current, cptr, regs),
                SyscallNumber::Reply => lemma_reply(k, current, regs),
                SyscallNumber::UntypedRetype => lemma_retype_maps_nothing(k, current, cptr, regs),
                SyscallNumber::FrameInvoke => {},
                _ => lemma_others(k, current, cptr, regs),
            }
            if syscall != SyscallNumber::UntypedRetype && syscall != SyscallNumber::FrameInvoke {
                lemma_same_frames(k, trap_step(k, regs).kernel);
            }
        }
        lemma_paging_keeps_apart(k, current, cptr, regs, translated);
    }
}

proof fn lemma_same_frames(k: KernelModel, after: KernelModel)
    requires
        k.mappings_are_apart(),
        after.frames == k.frames,
    ensures
        after.mappings_are_apart(),
{
    assert forall|id: FrameId| (#[trigger] after.frame(id)) == k.frame(id) by {}
}

proof fn lemma_retype_maps_nothing(k: KernelModel, current: TcbId, cptr: CPtr, regs: Registers)
    requires
        k.wf(),
        k.mappings_are_apart(),
    ensures
        retype_step(k, current, cptr, regs).kernel.mappings_are_apart(),
{
    law_first_free_exists(k.frames);
    let after = retype_step(k, current, cptr, regs).kernel;
    assert forall|id: FrameId| (#[trigger] after.frame(id)) matches Some(f) implies after.frame(id)
        == k.frame(id) || after.frame(id)->0.mapped_at is None by {}
}

proof fn lemma_paging_keeps_apart(
    k: KernelModel,
    current: TcbId,
    cptr: CPtr,
    regs: Registers,
    translated: Option<usize>,
)
    requires
        k.mappings_are_apart(),
    ensures
        invoke_step(k, current, cptr, regs).kernel.mappings_are_apart(),
        map_step(k, current, cptr, regs, translated).kernel.mappings_are_apart(),
{
    let first = invoke_step(k, current, cptr, regs).kernel;
    let second = map_step(k, current, cptr, regs, translated).kernel;
    if let Ok(id) = frame_named(k, current, cptr) {
        assert forall|x: FrameId| x != id implies #[trigger] first.frame(x) == k.frame(x) by {}
        assert forall|x: FrameId| x != id implies #[trigger] second.frame(x) == k.frame(x) by {}
        assert(k.frame(id) is Some || k.frame(id) is None);
    }
}

/// Asking for a translation commits to nothing: the kernel and the registers are as they
/// were, and the answer decides.
pub proof fn law_translation_comes_first(k: KernelModel, regs: Registers)
    requires
        trap_step(k, regs).action is Translate,
    ensures
        trap_step(k, regs).kernel == k,
        trap_step(k, regs).regs == regs,
        asks_to_map(regs),
{
}

/// A mint makes one capability and changes nothing else. It needs an empty destination,
/// which after it designates the object of the source, with the rights that were asked for;
/// asking for a right that the source does not have is refused.
pub proof fn law_mint_makes_one_capability(
    k: KernelModel,
    id: CNodeId,
    src: CPtr,
    dest: CPtr,
    packed: usize,
    other_cnode: CNodeId,
    other_slot: CPtr,
)
    ensures
        ({
            let rights = Rights::from_bits_truncate((packed & 0xFF) as u8);
            &&& k.after_mint(id, src, dest, packed) matches Ok(after) ==> {
                &&& k.in_slot(id, dest) == Some(Capability::Null)
                &&& k.in_slot(id, src) matches Some(source) && after.in_slot(id, dest) matches Some(
                    cap,
                ) && cap.derives_from(source) && cap.rights() == rights && rights.is_subset_of(
                    source.rights(),
                )
                &&& (other_cnode, other_slot) != (id, dest) ==> after.in_slot(
                    other_cnode,
                    other_slot,
                ) == k.in_slot(other_cnode, other_slot)
                &&& after == (KernelModel { cnodes: after.cnodes, ..k })
            }
            &&& k.held(id, src) matches Ok(source) ==> (!rights.is_subset_of(source.rights())
                ==> k.after_mint(id, src, dest, packed) == Err::<KernelModel, SyscallError>(
                SyscallError::IllegalOperation,
            ))
        }),
{
    if let Ok(source) = k.held(id, src) {
        law_mint_never_amplifies(source, packed);
    }
}

/// A deletion undoes a copy.
pub proof fn law_delete_undoes_copy(k: KernelModel, id: CNodeId, src: CPtr, dest: CPtr)
    requires
        k.after_copy(id, src, dest) is Ok,
    ensures
        ({
            let copied = k.after_copy(id, src, dest)->Ok_0;
            &&& copied.in_slot(id, dest) == k.in_slot(id, src)
            &&& copied.in_slot(id, src) == k.in_slot(id, src)
            &&& copied.after_delete(id, dest) == Ok::<KernelModel, SyscallError>(k)
        }),
{
    let copied = k.after_copy(id, src, dest)->Ok_0;
    let slots = k.cnode(id)->0;
    let cap = slots[src as int];
    assert(slots.update(dest as int, cap).update(dest as int, Capability::Null) =~= slots);
    assert(copied.cnode(id) == Some(slots.update(dest as int, cap)));
    let deleted = copied.after_delete(id, dest)->Ok_0;
    assert(deleted.cnodes =~= k.cnodes);
}

/// A move is a copy and a deletion of the source, and moving back undoes it.
pub proof fn law_move_is_copy_and_delete(k: KernelModel, id: CNodeId, src: CPtr, dest: CPtr)
    requires
        k.after_move(id, src, dest) is Ok,
    ensures
        k.after_copy(id, src, dest)->Ok_0.after_delete(id, src) == k.after_move(id, src, dest),
        k.after_move(id, src, dest)->Ok_0.after_move(id, dest, src) == Ok::<
            KernelModel,
            SyscallError,
        >(k),
{
    let slots = k.cnode(id)->0;
    let cap = slots[src as int];
    let copied = k.after_copy(id, src, dest)->Ok_0;
    assert(copied.cnode(id) == Some(slots.update(dest as int, cap)));
    assert(copied.held(id, src) is Ok);
    let moved = k.after_move(id, src, dest)->Ok_0;
    let there = slots.update(dest as int, cap).update(src as int, Capability::Null);
    assert(moved.cnode(id) == Some(there));
    let back = moved.after_move(id, dest, src)->Ok_0;
    assert(there.update(src as int, cap).update(dest as int, Capability::Null) =~= slots);
    assert(back.cnodes =~= k.cnodes);
}

/// A move neither loses nor doubles a capability. It needs an empty destination, after it
/// the destination has what the source had and the source is empty, and no other slot of
/// any CNode changes. Onto itself a capability cannot be moved.
pub proof fn law_move_relocates(
    k: KernelModel,
    id: CNodeId,
    src: CPtr,
    dest: CPtr,
    other_cnode: CNodeId,
    other_slot: CPtr,
)
    ensures
        k.after_move(id, src, dest) matches Ok(after) ==> {
            &&& src != dest
            &&& k.in_slot(id, dest) == Some(Capability::Null)
            &&& k.in_slot(id, src) is Some && k.in_slot(id, src) != Some(Capability::Null)
            &&& after.in_slot(id, dest) == k.in_slot(id, src)
            &&& after.in_slot(id, src) == Some(Capability::Null)
            &&& (other_cnode, other_slot) != (id, src) && (other_cnode, other_slot) != (id, dest)
                ==> after.in_slot(other_cnode, other_slot) == k.in_slot(other_cnode, other_slot)
            &&& after == (KernelModel { cnodes: after.cnodes, ..k })
        },
        src == dest && k.held(id, src) is Ok ==> k.after_move(id, src, dest) == Err::<
            KernelModel,
            SyscallError,
        >(SyscallError::IllegalOperation),
{
}

} // verus!
