//! Physical memory is handed out once: what frames, address spaces and page tables were
//! made of never overlaps, and none of it is still to be handed out.

use vstd::prelude::*;

use crate::admin::{configure_step, retype_request, retype_step};
use crate::cap::{CPtr, FrameId, ObjectType, TcbId, UntypedId, VSpaceId};
use crate::cnode;
use crate::frame::{
    frame_named, invoke_step, map_step, map_target, spare_tables, PagingAction,
};
use crate::ipc::{
    call_step, poll_step, recv_step, reply_step, send_step, signal_step, wait_step,
};
use crate::model::KernelModel;
use crate::object::{law_bump_is_aligned_and_in_range, FrameSize, Untyped, PAGE_SIZE};
use crate::pool::{first_free, is_first_free, law_first_free_exists};
use crate::syscall::{syscall_step, translated_step, trap_step, yield_step, SyscallNumber};
use crate::trap::Registers;

verus! {

/// What physical memory belongs to.
pub enum Holder {
    /// Memory that is still to be handed out.
    Free(UntypedId),
    /// The root page table of an address space.
    Root(VSpaceId),
    Page(FrameId),
}

/// The addresses from `start` up to, not including, `end`.
pub struct Span {
    pub start: int,
    pub end: int,
}

impl Span {
    pub open spec fn is_apart_from(self, other: Span) -> bool {
        self.end <= other.start || other.end <= self.start
    }

    pub open spec fn is_within(self, other: Span) -> bool {
        other.start <= self.start && self.end <= other.end
    }
}

impl KernelModel {
    /// The memory that belongs to `holder`, where there is any.
    pub open spec fn span(self, holder: Holder) -> Option<Span> {
        match holder {
            Holder::Free(id) => match self.untyped(id) {
                Some(Untyped { memory: Some(range), .. }) => Some(
                    Span { start: range.next as int, end: range.end as int },
                ),
                _ => None,
            },
            Holder::Root(id) => match self.vspace(id) {
                Some(vspace) => Some(
                    Span { start: vspace.root as int, end: vspace.root + PAGE_SIZE },
                ),
                None => None,
            },
            Holder::Page(id) => match self.frame(id) {
                Some(frame) => Some(
                    Span { start: frame.paddr as int, end: frame.paddr + frame.size.bytes() },
                ),
                None => None,
            },
        }
    }

    /// No two holders share memory.
    pub open spec fn memory_is_apart(self) -> bool {
        forall|a: Holder, b: Holder|
            #![trigger self.span(a), self.span(b)]
            a != b && self.span(a) is Some && self.span(b) is Some ==> self.span(
                a,
            )->0.is_apart_from(self.span(b)->0)
    }

    /// Whether nobody has any of `span`, and it is not to be handed out. That is how it is
    /// with a page that has become a page table.
    pub open spec fn is_nobodys(self, span: Span) -> bool {
        forall|holder: Holder|
            (#[trigger] self.span(holder)) matches Some(held) ==> held.is_apart_from(span)
    }

    /// What was nobody's in this kernel is nobody's in `after`.
    pub open spec fn never_regains(self, after: KernelModel) -> bool {
        forall|span: Span| #[trigger] self.is_nobodys(span) ==> after.is_nobodys(span)
    }

    /// A block came off the memory of `source`: what is left of that, and what `made` got
    /// of it, are apart, and nobody else's memory changed.
    spec fn carved(self, after: KernelModel, source: UntypedId, made: Holder) -> bool {
        &&& forall|other: Holder|
            other != Holder::Free(source) && other != made ==> #[trigger] after.span(other)
                == self.span(other)
        &&& after.span(Holder::Free(source)) == self.span(Holder::Free(source)) || (self.span(
            Holder::Free(source),
        ) is Some && after.span(Holder::Free(source)) is Some && after.span(
            Holder::Free(source),
        )->0.is_within(self.span(Holder::Free(source))->0))
        &&& made != Holder::Free(source) && after.span(made) != self.span(made) ==> {
            &&& self.span(Holder::Free(source)) is Some
            &&& after.span(Holder::Free(source)) is Some
            &&& after.span(made) is Some
            &&& after.span(made)->0.is_within(self.span(Holder::Free(source))->0)
            &&& after.span(made)->0.is_apart_from(after.span(Holder::Free(source))->0)
        }
    }
}

proof fn lemma_carved(k: KernelModel, after: KernelModel, source: UntypedId, made: Holder)
    requires
        k.memory_is_apart(),
        k.carved(after, source, made),
    ensures
        after.memory_is_apart(),
        k.never_regains(after),
{
    let free = Holder::Free(source);
    assert forall|span: Span| #[trigger] k.is_nobodys(span) implies after.is_nobodys(span) by {
        assert forall|holder: Holder| (#[trigger] after.span(holder)) matches Some(held) implies
            after.span(holder)->0.is_apart_from(span) by {
            let (was, was_free) = (k.span(holder), k.span(free));
        }
    }
    assert forall|a: Holder, b: Holder|
        #![trigger after.span(a), after.span(b)]
        a != b && after.span(a) is Some && after.span(b) is Some implies after.span(
        a,
    )->0.is_apart_from(after.span(b)->0) by {
        let (was_a, was_b, was_free) = (k.span(a), k.span(b), k.span(free));
    }
}

proof fn lemma_created(k: KernelModel, source: UntypedId, object_type: ObjectType)
    requires
        k.wf(),
        k.memory_is_apart(),
    ensures
        k.created(source, object_type).kernel.memory_is_apart(),
        k.never_regains(k.created(source, object_type).kernel),
{
    let after = k.created(source, object_type).kernel;
    law_first_free_exists(k.vspaces);
    law_first_free_exists(k.frames);
    let free = Holder::Free(source);
    let (made, size) = match object_type {
        ObjectType::VSpace => match first_free(k.vspaces) {
            Some(i) => (Holder::Root(VSpaceId(i as u16)), PAGE_SIZE),
            None => (free, PAGE_SIZE),
        },
        ObjectType::FrameSmall => match first_free(k.frames) {
            Some(i) => (Holder::Page(FrameId(i as u16)), FrameSize::Small.bytes()),
            None => (free, FrameSize::Small.bytes()),
        },
        ObjectType::FrameMega => match first_free(k.frames) {
            Some(i) => (Holder::Page(FrameId(i as u16)), FrameSize::Mega.bytes()),
            None => (free, FrameSize::Mega.bytes()),
        },
        _ => (free, PAGE_SIZE),
    };
    if let Some(untyped) = k.untyped(source) {
        law_bump_is_aligned_and_in_range(untyped, size, size);
    }
    assert(k.carved(after, source, made));
    lemma_carved(k, after, source, made);
}

proof fn lemma_retype(k: KernelModel, current: TcbId, cptr: CPtr, regs: Registers)
    requires
        k.wf(),
        k.memory_is_apart(),
    ensures
        retype_step(k, current, cptr, regs).kernel.memory_is_apart(),
        k.never_regains(retype_step(k, current, cptr, regs).kernel),
{
    if let Ok((source, object_type, cspace)) = retype_request(k, current, cptr, regs) {
        lemma_created(k, source, object_type);
        let made = k.created(source, object_type);
        if let Ok(cap) = made.cap {
            let after = retype_step(k, current, cptr, regs).kernel;
            assert(made.kernel.carved(after, source, Holder::Free(source)));
            lemma_carved(made.kernel, after, source, Holder::Free(source));
        }
    }
}

proof fn lemma_spare_tables(untyped: Untyped, size: FrameSize)
    ensures
        ({
            let (rest, spares) = spare_tables(untyped, size);
            match (untyped.memory, rest.memory) {
                (None, None) => spares is None,
                (Some(before), Some(after)) => {
                    &&& before.next <= after.next && after.end == before.end
                    &&& spares matches Some((spare, second)) ==> {
                        &&& before.next <= spare
                        &&& match second {
                            None => spare + PAGE_SIZE <= after.next,
                            Some(second) => spare + PAGE_SIZE <= second && second + PAGE_SIZE
                                <= after.next,
                        }
                        &&& after.next <= after.end
                    }
                },
                _ => false,
            }
        }),
{
    law_bump_is_aligned_and_in_range(untyped, PAGE_SIZE, PAGE_SIZE);
    let rest = untyped.bumped(PAGE_SIZE, PAGE_SIZE);
    law_bump_is_aligned_and_in_range(rest, PAGE_SIZE, PAGE_SIZE);
}

proof fn lemma_map(
    k: KernelModel,
    current: TcbId,
    cptr: CPtr,
    regs: Registers,
    translated: Option<usize>,
)
    requires
        k.memory_is_apart(),
    ensures
        map_step(k, current, cptr, regs, translated).kernel.memory_is_apart(),
        k.never_regains(map_step(k, current, cptr, regs, translated).kernel),
{
    if let Ok(id) = frame_named(k, current, cptr) {
        if let Ok(target) = map_target(k, current, id, regs) {
            if let Some(untyped) = k.untyped(target.source) {
                lemma_spare_tables(untyped, target.size);
                let after = map_step(k, current, cptr, regs, translated).kernel;
                assert(k.carved(after, target.source, Holder::Free(target.source)));
                lemma_carved(k, after, target.source, Holder::Free(target.source));
            }
        }
    }
}

/// The pages that a map sets aside for page tables were free until then: they come off the
/// memory of the address space's own source, apart from each other and from every page that
/// became a page table before. From then on they are nobody's.
pub proof fn law_page_tables_are_fresh(
    k: KernelModel,
    current: TcbId,
    cptr: CPtr,
    regs: Registers,
    earlier: Span,
)
    requires
        k.memory_is_apart(),
        k.is_nobodys(earlier),
    ensures
        ({
            let step = map_step(k, current, cptr, regs, None);
            step.result matches Ok(PagingAction::MapPage(mapping)) ==> {
                let first = Span { start: mapping.spare as int, end: mapping.spare + PAGE_SIZE };
                &&& step.kernel.is_nobodys(first)
                &&& first.is_apart_from(earlier)
                &&& mapping.second_spare matches Some(spare) ==> {
                    let second = Span { start: spare as int, end: spare + PAGE_SIZE };
                    &&& step.kernel.is_nobodys(second)
                    &&& second.is_apart_from(earlier)
                    &&& first.is_apart_from(second)
                }
            }
        }),
{
    let step = map_step(k, current, cptr, regs, None);
    if let Ok(PagingAction::MapPage(mapping)) = step.result {
        let id = frame_named(k, current, cptr)->Ok_0;
        let target = map_target(k, current, id, regs)->Ok_0;
        let untyped = k.untyped(target.source)->0;
        lemma_spare_tables(untyped, target.size);
        let free = Holder::Free(target.source);
        assert(k.span(free) is Some);
        assert forall|holder: Holder| #[trigger] step.kernel.span(holder) == k.span(holder)
            || holder == free by {}
        assert forall|holder: Holder| (#[trigger] step.kernel.span(holder)) matches Some(held) implies
            step.kernel.span(holder)->0.is_apart_from(
            Span { start: mapping.spare as int, end: mapping.spare + PAGE_SIZE },
        ) && (mapping.second_spare matches Some(spare) ==> step.kernel.span(
            holder,
        )->0.is_apart_from(Span { start: spare as int, end: spare + PAGE_SIZE })) by {
            let (was, was_free) = (k.span(holder), k.span(free));
        }
    }
}

impl KernelModel {
    /// Whoever has memory has it where it was.
    spec fn same_memory(self, after: KernelModel) -> bool {
        forall|holder: Holder| #[trigger] after.span(holder) == self.span(holder)
    }
}

proof fn lemma_same_memory(k: KernelModel, after: KernelModel)
    requires
        k.memory_is_apart(),
        k.same_memory(after),
    ensures
        after.memory_is_apart(),
        k.never_regains(after),
{
    lemma_carved(k, after, UntypedId(0), Holder::Free(UntypedId(0)));
}

proof fn lemma_send(k: KernelModel, current: TcbId, cptr: CPtr, regs: Registers, nonblocking: bool)
    ensures
        k.same_memory(send_step(k, current, cptr, regs, nonblocking).kernel),
{
}

proof fn lemma_recv(k: KernelModel, current: TcbId, cptr: CPtr, regs: Registers)
    ensures
        k.same_memory(recv_step(k, current, cptr, regs).kernel),
{
}

proof fn lemma_call(k: KernelModel, current: TcbId, cptr: CPtr, regs: Registers)
    ensures
        k.same_memory(call_step(k, current, cptr, regs).kernel),
{
}

proof fn lemma_reply(k: KernelModel, current: TcbId, regs: Registers)
    ensures
        k.same_memory(reply_step(k, current, regs).kernel),
{
}

proof fn lemma_frame_invoke(k: KernelModel, current: TcbId, cptr: CPtr, regs: Registers)
    ensures
        k.same_memory(invoke_step(k, current, cptr, regs).kernel),
{
}

proof fn lemma_others(k: KernelModel, current: TcbId, cptr: CPtr, regs: Registers)
    ensures
        k.same_memory(signal_step(k, current, cptr, regs).kernel),
        k.same_memory(wait_step(k, current, cptr, regs).kernel),
        k.same_memory(poll_step(k, current, cptr, regs).kernel),
        k.same_memory(cnode::invoke_step(k, current, cptr, regs).kernel),
        k.same_memory(configure_step(k, current, cptr, regs).kernel),
        k.same_memory(yield_step(k, current, regs).kernel),
{
}

/// A kernel without objects has its memory apart: there is none.
pub proof fn law_initial_memory_is_apart()
    ensures
        KernelModel::initial().memory_is_apart(),
{
    assert forall|holder: Holder| #[trigger] KernelModel::initial().span(holder) is None by {}
}

/// Memory that nobody has can be brought in. Untyped memory goes into a free slot, by its
/// kernel's boot code, and memory stays apart if what it brings was apart from all there is.
/// What was nobody's stays so, if none of it was brought.
pub proof fn law_new_memory_stays_apart(k: KernelModel, index: int, untyped: Untyped)
    requires
        k.wf(),
        k.memory_is_apart(),
        is_first_free(k.untypeds, index),
        untyped.memory matches Some(range) ==> forall|holder: Holder|
            (#[trigger] k.span(holder)) matches Some(span) ==> span.is_apart_from(
                Span { start: range.next as int, end: range.end as int },
            ),
    ensures
        (KernelModel {
            untypeds: k.untypeds.update(index, Some(untyped)),
            ..k
        }).memory_is_apart(),
        forall|span: Span|
            #![trigger k.is_nobodys(span)]
            k.is_nobodys(span) && (untyped.memory matches Some(range) ==> span.is_apart_from(
                Span { start: range.next as int, end: range.end as int },
            )) ==> (KernelModel {
                untypeds: k.untypeds.update(index, Some(untyped)),
                ..k
            }).is_nobodys(span),
{
    let after = KernelModel { untypeds: k.untypeds.update(index, Some(untyped)), ..k };
    let brought = Holder::Free(UntypedId(index as u16));
    assert forall|holder: Holder| holder != brought implies #[trigger] after.span(holder) == k.span(
        holder,
    ) by {}
    assert forall|a: Holder, b: Holder|
        #![trigger after.span(a), after.span(b)]
        a != b && after.span(a) is Some && after.span(b) is Some implies after.span(
        a,
    )->0.is_apart_from(after.span(b)->0) by {
        let (was_a, was_b) = (k.span(a), k.span(b));
    }
}

/// Every trap keeps memory apart: no two frames or address spaces come to share physical
/// memory, and nothing that was handed out is handed out again. What has become a page
/// table, and so is nobody's, stays that: no later trap makes a frame, an address space or
/// free memory of it.
pub proof fn law_traps_keep_memory_apart(
    k: KernelModel,
    regs: Registers,
    translated: Option<usize>,
)
    requires
        k.wf(),
        k.memory_is_apart(),
    ensures
        trap_step(k, regs).kernel.memory_is_apart(),
        translated_step(k, regs, translated).kernel.memory_is_apart(),
        k.never_regains(trap_step(k, regs).kernel),
        k.never_regains(translated_step(k, regs, translated).kernel),
{
    if let Some(current) = k.current {
        let cptr = regs.mrs[0];
        if let Some(syscall) = SyscallNumber::from_usize(regs.syscall_number) {
            lemma_syscall(k, current, syscall, regs);
        }
        lemma_map(k, current, cptr, regs, translated);
    }
}

proof fn lemma_syscall(k: KernelModel, current: TcbId, syscall: SyscallNumber, regs: Registers)
    requires
        k.wf(),
        k.memory_is_apart(),
    ensures
        syscall_step(k, current, syscall, regs).kernel.memory_is_apart(),
        k.never_regains(syscall_step(k, current, syscall, regs).kernel),
{
    let cptr = regs.mrs[0];
    let after = syscall_step(k, current, syscall, regs).kernel;
    match syscall {
        SyscallNumber::UntypedRetype => lemma_retype(k, current, cptr, regs),
        SyscallNumber::Send => lemma_send(k, current, cptr, regs, false),
        SyscallNumber::NBSend => lemma_send(k, current, cptr, regs, true),
        SyscallNumber::Recv => lemma_recv(k, current, cptr, regs),
        SyscallNumber::Call => lemma_call(k, current, cptr, regs),
        SyscallNumber::Reply => lemma_reply(k, current, regs),
        SyscallNumber::FrameInvoke => lemma_frame_invoke(k, current, cptr, regs),
        _ => lemma_others(k, current, cptr, regs),
    }
    if syscall != SyscallNumber::UntypedRetype {
        lemma_same_memory(k, after);
    }
}

} // verus!
