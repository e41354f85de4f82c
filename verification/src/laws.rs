//! What syscalls promise when they are taken together.

use vstd::prelude::*;

use crate::admin::{configure_step, retype_request, retype_step};
use crate::cap::{CPtr, Rights, TcbId, UntypedId};
use crate::cnode;
use crate::consistency::{law_there_is_always_room, lemma_current, lemma_first, Place};
use crate::error::SyscallError;
use crate::frame::{self, PagedStep};
use crate::ipc::{
    call_step, endpoint_named, notification_named, outgoing, poll_step, recv_step, reply_step, send_step,
    signal_step, wait_step,
};
use crate::model::KernelModel;
use crate::object::{
    law_bump_is_aligned_and_in_range, EndpointModel, TcbModel, ThreadState, MEGAPAGE_SIZE, PAGE_SIZE,
};
use crate::pool::law_first_free_exists;
use crate::syscall::{syscall_step, translated_step, trap_step, yield_step, SyscallNumber};
use crate::trap::Registers;

verus! {

/// `step` has done nothing but, at most, take physical memory off the front of a free range
/// that it then had no use for.
pub open spec fn is_refusal(k: KernelModel, regs: Registers, step: PagedStep) -> bool {
    &&& step.regs == regs
    &&& step.kernel == (KernelModel { untypeds: step.kernel.untypeds, ..k })
    &&& step.result != Err::<frame::PagingAction, SyscallError>(SyscallError::NotEnoughMemory)
        ==> step.kernel == k
    &&& forall|id: UntypedId|
        #![trigger step.kernel.untyped(id)]
        match (k.untyped(id), step.kernel.untyped(id)) {
            (Some(before), Some(after)) => before.remaining == after.remaining && match (
                before.memory,
                after.memory,
            ) {
                (Some(was), Some(is)) => was.next <= is.next && was.end == is.end,
                (None, None) => true,
                _ => false,
            },
            (None, None) => true,
            _ => false,
        }
}

/// A syscall that fails has no effect: the same thread runs on, with the registers it had
/// but for the error it is told, and the kernel is as it was. Only memory that ran out
/// half way may have been taken, which costs no budget.
pub proof fn law_failures_change_nothing(
    k: KernelModel,
    current: TcbId,
    syscall: SyscallNumber,
    regs: Registers,
    translated: Option<usize>,
)
    requires
        k.consistent(),
        k.current == Some(current),
    ensures
        ({
            let step = syscall_step(k, current, syscall, regs);
            step.result is Err ==> is_refusal(k, regs, step)
        }),
        ({
            let step = frame::map_step(k, current, regs.mrs[0], regs, translated);
            step.result is Err ==> is_refusal(k, regs, step)
        }),
{
    let cptr = regs.mrs[0];
    match syscall {
        SyscallNumber::Send => lemma_send_failure(k, current, cptr, regs, false),
        SyscallNumber::NBSend => lemma_send_failure(k, current, cptr, regs, true),
        SyscallNumber::Recv => lemma_recv_failure(k, current, cptr, regs),
        SyscallNumber::Call => lemma_call_failure(k, current, cptr, regs),
        SyscallNumber::Reply => lemma_reply_failure(k, current, regs),
        SyscallNumber::UntypedRetype => lemma_retype_failure(k, current, cptr, regs),
        SyscallNumber::FrameInvoke => lemma_frame_failure(k, current, cptr, regs),
        _ => lemma_other_failures(k, current, cptr, regs),
    }
    lemma_map_failure(k, current, cptr, regs, translated);
}

proof fn lemma_send_failure(
    k: KernelModel,
    current: TcbId,
    cptr: CPtr,
    regs: Registers,
    nonblocking: bool,
)
    ensures
        ({
            let step = send_step(k, current, cptr, regs, nonblocking);
            step.result is Err ==> step.kernel == k && step.regs == regs
        }),
{
}

proof fn lemma_recv_failure(k: KernelModel, current: TcbId, cptr: CPtr, regs: Registers)
    ensures
        ({
            let step = recv_step(k, current, cptr, regs);
            step.result is Err ==> step.kernel == k && step.regs == regs
        }),
{
}

proof fn lemma_call_failure(k: KernelModel, current: TcbId, cptr: CPtr, regs: Registers)
    ensures
        ({
            let step = call_step(k, current, cptr, regs);
            step.result is Err ==> step.kernel == k && step.regs == regs
        }),
{
}

proof fn lemma_reply_failure(k: KernelModel, current: TcbId, regs: Registers)
    requires
        k.consistent(),
    ensures
        ({
            let step = reply_step(k, current, regs);
            step.result is Err ==> step.kernel == k && step.regs == regs
        }),
{
    if let Some(target) = k.reply_target(current) {
        assert(k.awaits_reply(target));
    }
}

proof fn lemma_retype_failure(k: KernelModel, current: TcbId, cptr: CPtr, regs: Registers)
    ensures
        ({
            let step = retype_step(k, current, cptr, regs);
            step.result is Err ==> is_refusal(k, regs, step.unpaged())
        }),
{
    if let Ok((source, object_type, _)) = retype_request(k, current, cptr, regs) {
        if let Some(untyped) = k.untyped(source) {
            law_bump_is_aligned_and_in_range(untyped, PAGE_SIZE, PAGE_SIZE);
            law_bump_is_aligned_and_in_range(untyped, MEGAPAGE_SIZE, MEGAPAGE_SIZE);
        }
    }
}

proof fn lemma_frame_failure(k: KernelModel, current: TcbId, cptr: CPtr, regs: Registers)
    ensures
        ({
            let step = frame::invoke_step(k, current, cptr, regs);
            step.result is Err ==> step.kernel == k && step.regs == regs
        }),
{
}

proof fn lemma_other_failures(k: KernelModel, current: TcbId, cptr: CPtr, regs: Registers)
    ensures
        ({
            let step = signal_step(k, current, cptr, regs);
            step.result is Err ==> step.kernel == k && step.regs == regs
        }),
        ({
            let step = wait_step(k, current, cptr, regs);
            step.result is Err ==> step.kernel == k && step.regs == regs
        }),
        ({
            let step = poll_step(k, current, cptr, regs);
            step.result is Err ==> step.kernel == k && step.regs == regs
        }),
        ({
            let step = cnode::invoke_step(k, current, cptr, regs);
            step.result is Err ==> step.kernel == k && step.regs == regs
        }),
        ({
            let step = configure_step(k, current, cptr, regs);
            step.result is Err ==> step.kernel == k && step.regs == regs
        }),
        yield_step(k, current, regs).result is Ok,
{
}

proof fn lemma_map_failure(
    k: KernelModel,
    current: TcbId,
    cptr: CPtr,
    regs: Registers,
    translated: Option<usize>,
)
    ensures
        ({
            let step = frame::map_step(k, current, cptr, regs, translated);
            step.result is Err ==> is_refusal(k, regs, step)
        }),
{
    if let Ok(id) = frame::frame_named(k, current, cptr) {
        if let Ok(target) = frame::map_target(k, current, id, regs) {
            if let Some(untyped) = k.untyped(target.source) {
                law_bump_is_aligned_and_in_range(untyped, PAGE_SIZE, PAGE_SIZE);
                let rest = untyped.bumped(PAGE_SIZE, PAGE_SIZE);
                law_bump_is_aligned_and_in_range(rest, PAGE_SIZE, PAGE_SIZE);
            }
        }
    }
}

/// Whoever is put away finds its registers as they were when it runs again.
pub proof fn law_switching_back_restores_registers(
    k: KernelModel,
    first: TcbId,
    second: TcbId,
    first_regs: Registers,
    second_regs: Registers,
)
    requires
        k.wf(),
        k.current == Some(first),
        k.tcb(first) is Some,
        k.tcb(second) is Some,
        first != second,
    ensures
        ({
            let away = k.switched(first_regs, second);
            let back = away.kernel.switched(second_regs, first);
            &&& away.regs == k.tcb(second)->0.context
            &&& back.regs == first_regs
            &&& back.kernel.current == Some(first)
            &&& back.kernel.tcb(second)->0.context == second_regs
        }),
{
}

/// Giving up the hart is fair: the first of those who are ready runs next, and the thread
/// that gave way comes after all the others. A thread that is alone goes on with its
/// registers, told of success.
pub proof fn law_yield_is_round_robin(k: KernelModel, current: TcbId, regs: Registers)
    requires
        k.consistent(),
        k.current == Some(current),
        regs.wf(),
    ensures
        ({
            let step = yield_step(k, current, regs);
            let turns = k.ready.push(current);
            &&& step.kernel.current == Some(turns[0])
            &&& step.kernel.ready == turns.skip(1)
            &&& k.ready.len() == 0 ==> step.regs == regs.succeeded()
            &&& k.ready.len() > 0 ==> step.regs == k.tcb(turns[0])->0.context.succeeded()
                && step.kernel.tcb(current)->0.context == regs
        }),
{
    lemma_current(k, current);
    law_there_is_always_room(k, Place::Ready, current);
    if k.ready.len() > 0 {
        lemma_first(k, Place::Ready);
    }
}

/// Whether a syscall never gives up the hart.
pub open spec fn is_nonblocking(syscall: SyscallNumber) -> bool {
    match syscall {
        SyscallNumber::NBSend => true,
        SyscallNumber::Signal => true,
        SyscallNumber::Poll => true,
        SyscallNumber::CNodeInvoke => true,
        SyscallNumber::UntypedRetype => true,
        SyscallNumber::TCBConfigure => true,
        SyscallNumber::FrameInvoke => true,
        _ => false,
    }
}

/// After a send that does not block, a signal, a poll, or anything administrative, the
/// same thread runs on.
pub proof fn law_nonblocking_syscalls_do_not_block(
    k: KernelModel,
    current: TcbId,
    syscall: SyscallNumber,
    regs: Registers,
    translated: Option<usize>,
)
    requires
        k.current == Some(current),
        is_nonblocking(syscall),
    ensures
        syscall_step(k, current, syscall, regs).kernel.current == Some(current),
        frame::map_step(k, current, regs.mrs[0], regs, translated).kernel.current == Some(current),
{
    let cptr = regs.mrs[0];
    match syscall {
        SyscallNumber::NBSend => {
            assert(send_step(k, current, cptr, regs, true).kernel.current == Some(current));
        },
        SyscallNumber::UntypedRetype => {
            assert(retype_step(k, current, cptr, regs).kernel.current == Some(current));
        },
        _ => {},
    }
}

/// Whether a trap of `current` may bring `other` what it waits for: a message on an
/// endpoint, or a signal on a notification, that `current` names by a capability to write
/// to it, or the reply that `current` owes it.
pub open spec fn may_reach(k: KernelModel, current: TcbId, regs: Registers, other: TcbId) -> bool {
    match k.state_of(other) {
        Some(ThreadState::BlockedRecv { endpoint, .. }) => endpoint_named(
            k,
            current,
            regs.mrs[0],
            Rights::write(),
        ) matches Ok((id, _)) && id == endpoint,
        Some(ThreadState::BlockedWait(notification)) => notification_named(
            k,
            current,
            regs.mrs[0],
            Rights::write(),
        ) matches Ok((id, _)) && id == notification,
        Some(ThreadState::BlockedReply { .. }) => k.reply_target(current) == Some(other),
        _ => false,
    }
}

/// `other` has its saved registers as they were, but for the message registers and the
/// tag, if `current` may reach it; and if it waits for a message, a signal or a reply, it
/// goes on waiting, but if `current` may reach it.
pub open spec fn leaves_alone(
    k: KernelModel,
    after: KernelModel,
    current: TcbId,
    regs: Registers,
    other: TcbId,
) -> bool {
    match (k.tcb(other), after.tcb(other)) {
        (Some(was), Some(is)) => {
            &&& is.context.raw == was.context.raw
            &&& is.context.syscall_number == was.context.syscall_number
            &&& is.context == was.context || may_reach(k, current, regs, other)
            &&& was.state is BlockedRecv || was.state is BlockedReply || was.state is BlockedWait
                ==> is.state == was.state || may_reach(k, current, regs, other)
        },
        (None, Some(is)) => is == TcbModel::fresh(),
        (was, is) => was is None && is is None,
    }
}

/// Threads are kept apart: a trap writes to the registers of no thread but the one that
/// trapped, except that a thread that waits for a message, a signal or a reply finds one
/// in its message registers, and then only if the thread that trapped has a capability to
/// what it waits on, or owes it the reply. Nobody else wakes it. No thread disappears.
pub proof fn law_traps_leave_others_alone(
    k: KernelModel,
    current: TcbId,
    regs: Registers,
    translated: Option<usize>,
    other: TcbId,
)
    requires
        k.consistent(),
        k.current == Some(current),
        regs.wf(),
        other != current,
    ensures
        leaves_alone(k, trap_step(k, regs).kernel, current, regs, other),
        leaves_alone(k, translated_step(k, regs, translated).kernel, current, regs, other),
{
    if let Some(syscall) = SyscallNumber::from_usize(regs.syscall_number) {
        lemma_syscall_leaves_alone(k, current, syscall, regs, other);
    }
    lemma_paging_leaves_alone(k, current, regs.mrs[0], regs, translated, other);
}

proof fn lemma_syscall_leaves_alone(
    k: KernelModel,
    current: TcbId,
    syscall: SyscallNumber,
    regs: Registers,
    other: TcbId,
)
    requires
        k.consistent(),
        k.current == Some(current),
        other != current,
    ensures
        leaves_alone(k, syscall_step(k, current, syscall, regs).kernel, current, regs, other),
{
    let cptr = regs.mrs[0];
    match syscall {
        SyscallNumber::Send => lemma_send_leaves_alone(k, current, cptr, regs, false, other),
        SyscallNumber::NBSend => lemma_send_leaves_alone(k, current, cptr, regs, true, other),
        SyscallNumber::Recv => lemma_recv_leaves_alone(k, current, cptr, regs, other),
        SyscallNumber::Call => lemma_call_leaves_alone(k, current, cptr, regs, other),
        SyscallNumber::Reply => lemma_reply_leaves_alone(k, current, regs, other),
        SyscallNumber::Signal => lemma_signal_leaves_alone(k, current, cptr, regs, other),
        SyscallNumber::UntypedRetype => lemma_retype_leaves_alone(k, current, cptr, regs, other),
        SyscallNumber::FrameInvoke => lemma_paging_leaves_alone(
            k,
            current,
            cptr,
            regs,
            None,
            other,
        ),
        _ => lemma_others_leave_alone(k, current, cptr, regs, other),
    }
}

proof fn lemma_paging_leaves_alone(
    k: KernelModel,
    current: TcbId,
    cptr: CPtr,
    regs: Registers,
    translated: Option<usize>,
    other: TcbId,
)
    ensures
        leaves_alone(k, frame::invoke_step(k, current, cptr, regs).kernel, current, regs, other),
        leaves_alone(k, frame::map_step(k, current, cptr, regs, translated).kernel, current, regs, other),
{
    assert(frame::invoke_step(k, current, cptr, regs).kernel.tcbs == k.tcbs);
    assert(frame::map_step(k, current, cptr, regs, translated).kernel.tcbs == k.tcbs);
}

proof fn lemma_retype_leaves_alone(
    k: KernelModel,
    current: TcbId,
    cptr: CPtr,
    regs: Registers,
    other: TcbId,
)
    ensures
        leaves_alone(k, retype_step(k, current, cptr, regs).kernel, current, regs, other),
{
    law_first_free_exists(k.tcbs);
}

proof fn lemma_others_leave_alone(
    k: KernelModel,
    current: TcbId,
    cptr: CPtr,
    regs: Registers,
    other: TcbId,
)
    requires
        k.consistent(),
        k.current == Some(current),
        other != current,
    ensures
        leaves_alone(k, wait_step(k, current, cptr, regs).kernel, current, regs, other),
        leaves_alone(k, poll_step(k, current, cptr, regs).kernel, current, regs, other),
        leaves_alone(k, cnode::invoke_step(k, current, cptr, regs).kernel, current, regs, other),
        leaves_alone(k, configure_step(k, current, cptr, regs).kernel, current, regs, other),
        leaves_alone(k, yield_step(k, current, regs).kernel, current, regs, other),
{
    if k.ready.len() > 0 {
        lemma_first(k, Place::Ready);
    }
    assert(cnode::invoke_step(k, current, cptr, regs).kernel.tcbs == k.tcbs);
    assert(poll_step(k, current, cptr, regs).kernel.tcbs == k.tcbs);
}

proof fn lemma_send_leaves_alone(
    k: KernelModel,
    current: TcbId,
    cptr: CPtr,
    regs: Registers,
    nonblocking: bool,
    other: TcbId,
)
    requires
        cptr == regs.mrs[0],
        k.consistent(),
        k.current == Some(current),
        other != current,
    ensures
        leaves_alone(k, send_step(k, current, cptr, regs, nonblocking).kernel, current, regs, other),
{
    if k.ready.len() > 0 {
        lemma_first(k, Place::Ready);
    }
    if let Ok((id, _)) = outgoing(k, current, cptr, regs, 1) {
        if let Some(EndpointModel::Recv(waiters)) = k.endpoint(id) {
            lemma_first(k, Place::Receiving(id));
        }
    }
}

proof fn lemma_recv_leaves_alone(
    k: KernelModel,
    current: TcbId,
    cptr: CPtr,
    regs: Registers,
    other: TcbId,
)
    requires
        cptr == regs.mrs[0],
        k.consistent(),
        k.current == Some(current),
        other != current,
    ensures
        leaves_alone(k, recv_step(k, current, cptr, regs).kernel, current, regs, other),
{
    if k.ready.len() > 0 {
        lemma_first(k, Place::Ready);
    }
    if let Ok((id, _)) = endpoint_named(k, current, cptr, Rights::read()) {
        if let Some(EndpointModel::Send(waiters)) = k.endpoint(id) {
            assert(k.listed(Place::Sending(id)) == waiters);
            lemma_first(k, Place::Sending(id));
        }
    }
}

proof fn lemma_call_leaves_alone(
    k: KernelModel,
    current: TcbId,
    cptr: CPtr,
    regs: Registers,
    other: TcbId,
)
    requires
        cptr == regs.mrs[0],
        k.consistent(),
        k.current == Some(current),
        other != current,
    ensures
        leaves_alone(k, call_step(k, current, cptr, regs).kernel, current, regs, other),
{
    if k.ready.len() > 0 {
        lemma_first(k, Place::Ready);
    }
    if let Ok((id, _)) = outgoing(k, current, cptr, regs, 2) {
        if let Some(EndpointModel::Recv(waiters)) = k.endpoint(id) {
            lemma_first(k, Place::Receiving(id));
        }
    }
}

proof fn lemma_reply_leaves_alone(k: KernelModel, current: TcbId, regs: Registers, other: TcbId)
    requires
        k.consistent(),
        k.current == Some(current),
        other != current,
    ensures
        leaves_alone(k, reply_step(k, current, regs).kernel, current, regs, other),
{
    if let Some(target) = k.reply_target(current) {
        assert(k.awaits_reply(target));
    }
}

proof fn lemma_signal_leaves_alone(
    k: KernelModel,
    current: TcbId,
    cptr: CPtr,
    regs: Registers,
    other: TcbId,
)
    requires
        cptr == regs.mrs[0],
        k.consistent(),
        k.current == Some(current),
        other != current,
    ensures
        leaves_alone(k, signal_step(k, current, cptr, regs).kernel, current, regs, other),
{
    if let Ok((id, _)) = notification_named(k, current, cptr, Rights::write()) {
        if let Some(n) = k.notification(id) {
            if n.waiters.len() > 0 {
                assert(k.listed(Place::Waiting(id)) == n.waiters);
                lemma_first(k, Place::Waiting(id));
            }
        }
    }
}

} // verus!
