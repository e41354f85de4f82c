//! What threads that exchange messages and signals can rely on, over several syscalls.

use vstd::prelude::*;

use crate::abi;
use crate::admin::{configure_step, retype_step};
use crate::authority::law_transfer_arrives;
use crate::cap::{CPtr, Capability, EndpointId, NotificationId, Rights, TcbId};
use crate::cnode;
use crate::consistency::{law_there_is_always_room, lemma_current, lemma_first, Place};
use crate::error::SyscallError;
use crate::frame::{invoke_step, map_step};
use crate::ipc::{
    attached, call_step, endpoint_named, message, notification_named, outgoing, poll_step,
    recv_step, reply_step, send_step, signal_step, wait_step, Message,
};
use crate::model::KernelModel;
use crate::object::{EndpointModel, NotificationModel, ThreadState};
use crate::pool::law_first_free_exists;
use crate::syscall::{translated_step, trap_step, yield_step, SyscallNumber};
use crate::trap::Registers;

verus! {

/// A message waits for its receiver. `sender` sends to an endpoint where nobody waits, and
/// whoever is next receives from it: it finds the message that was sent, with the
/// capability, if there is one, in the slot it named, and the sender is ready again.
pub proof fn law_send_then_receive(
    k: KernelModel,
    sender: TcbId,
    sent: Registers,
    cptr: CPtr,
    id: EndpointId,
    m: Message,
    receiver: TcbId,
    receiving: Registers,
    rptr: CPtr,
)
    requires
        k.consistent(),
        sent.wf(),
        receiving.wf(),
        k.current == Some(sender),
        k.ready.len() > 0 && k.ready[0] == receiver,
        k.endpoint(id) == Some(EndpointModel::Empty),
        outgoing(k, sender, cptr, sent, 1) == Ok::<(EndpointId, Message), SyscallError>((id, m)),
        k.transferred(receiver, receiving.named_slot(1), m.cap) is Ok,
        endpoint_named(k, receiver, rptr, Rights::read()) matches Ok((named, _)) && named == id,
        abi::fits(receiving.tag, 1),
    ensures
        ({
            let first = send_step(k, sender, cptr, sent, false);
            let second = recv_step(first.kernel, receiver, rptr, receiving);
            &&& first.result is Ok
            &&& first.kernel.current == Some(receiver)
            &&& second.result is Ok
            &&& second.regs == receiving.receiving(m).succeeded()
            &&& second.kernel.current == Some(receiver)
            &&& second.kernel.cnodes == k.transferred(
                receiver,
                receiving.named_slot(1),
                m.cap,
            )->Ok_0.cnodes
            &&& second.kernel.endpoint(id) == Some(EndpointModel::Empty)
            &&& second.kernel.state_of(sender) == Some(ThreadState::Ready)
            &&& second.kernel.ready == k.ready.skip(1).push(sender)
        }),
{
    lemma_current(k, sender);
    lemma_first(k, Place::Ready);
    let first = send_step(k, sender, cptr, sent, false);
    let waiters = seq![sender];
    assert(EndpointModel::Empty.waiting().push(sender) =~= waiters);
    assert(waiters.skip(1) =~= Seq::<TcbId>::empty());
    let k1 = first.kernel;
    assert(k1.endpoint(id) == Some(EndpointModel::Send(waiters)));
    assert(k1.tcb(sender)->0.context == sent);
    assert(k1.lookup(receiver, rptr) == k.lookup(receiver, rptr));
}

/// A receiver waits for its message. `receiver` receives from an endpoint where nobody
/// waits, and whoever is next sends to it: the receiver is ready again, and the message
/// that was sent is in its registers, with the capability, if there is one, in the slot it
/// named.
pub proof fn law_receive_then_send(
    k: KernelModel,
    receiver: TcbId,
    receiving: Registers,
    rptr: CPtr,
    id: EndpointId,
    sender: TcbId,
    sent: Registers,
    cptr: CPtr,
    m: Message,
    nonblocking: bool,
)
    requires
        k.consistent(),
        sent.wf(),
        receiving.wf(),
        k.current == Some(receiver),
        k.ready.len() > 0 && k.ready[0] == sender,
        k.endpoint(id) == Some(EndpointModel::Empty),
        endpoint_named(k, receiver, rptr, Rights::read()) matches Ok((named, _)) && named == id,
        abi::fits(receiving.tag, 1),
        outgoing(k, sender, cptr, sent, 1) == Ok::<(EndpointId, Message), SyscallError>((id, m)),
        k.transferred(receiver, receiving.named_slot(1), m.cap) is Ok,
    ensures
        ({
            let first = recv_step(k, receiver, rptr, receiving);
            let second = send_step(first.kernel, sender, cptr, sent, nonblocking);
            &&& first.result is Ok
            &&& first.kernel.current == Some(sender)
            &&& second.result is Ok
            &&& second.regs == sent.succeeded()
            &&& second.kernel.current == Some(sender)
            &&& second.kernel.cnodes == k.transferred(
                receiver,
                receiving.named_slot(1),
                m.cap,
            )->Ok_0.cnodes
            &&& second.kernel.endpoint(id) == Some(EndpointModel::Empty)
            &&& second.kernel.state_of(receiver) == Some(ThreadState::Ready)
            &&& second.kernel.ready == k.ready.skip(1).push(receiver)
            &&& second.kernel.tcb(receiver)->0.context == receiving.receiving(m)
        }),
{
    lemma_current(k, receiver);
    lemma_first(k, Place::Ready);
    let first = recv_step(k, receiver, rptr, receiving);
    let waiters = seq![receiver];
    assert(EndpointModel::Empty.waiting().push(receiver) =~= waiters);
    assert(waiters.skip(1) =~= Seq::<TcbId>::empty());
    let k1 = first.kernel;
    assert(k1.endpoint(id) == Some(EndpointModel::Recv(waiters)));
    assert(k1.tcb(receiver)->0.context == receiving);
    assert(k1.lookup(sender, cptr) == k.lookup(sender, cptr));
}

/// A call is answered. `caller` calls a server that waits: the server runs at once and
/// finds the message. When it replies, the caller runs at once and finds the answer, the
/// server is ready, and owes no reply any more.
pub proof fn law_call_then_reply(
    k: KernelModel,
    caller: TcbId,
    asked: Registers,
    cptr: CPtr,
    id: EndpointId,
    m: Message,
    server: TcbId,
    answered: Registers,
)
    requires
        k.consistent(),
        asked.wf(),
        answered.wf(),
        k.current == Some(caller),
        k.endpoint(id) matches Some(EndpointModel::Recv(waiters)) && waiters[0] == server,
        outgoing(k, caller, cptr, asked, 2) == Ok::<(EndpointId, Message), SyscallError>((id, m)),
        k.transferred(server, k.receive_slot(server), m.cap) is Ok,
        abi::fits(answered.tag, 1) && answered.tag.extra_caps == 0,
    ensures
        ({
            let first = call_step(k, caller, cptr, asked);
            let second = reply_step(first.kernel, server, answered);
            &&& first.result is Ok
            &&& first.kernel.current == Some(server)
            &&& first.kernel.reply_target(server) == Some(caller)
            &&& first.kernel.reply_slot(caller) == m.reply_slot
            &&& first.regs == k.tcb(server)->0.context.receiving(m)
            &&& second.result is Ok
            &&& second.kernel.current == Some(caller)
            &&& second.regs == asked.receiving(message(answered, 0, None, None))
            &&& second.kernel.state_of(server) == Some(ThreadState::Ready)
            &&& second.kernel.ready == k.ready.push(server)
            &&& second.kernel.reply_target(server) is None
        }),
{
    lemma_current(k, caller);
    let waiters = k.endpoint(id)->0.waiting();
    assert(k.listed(Place::Receiving(id)) == waiters);
    lemma_first(k, Place::Receiving(id));
    law_there_is_always_room(k, Place::Ready, server);
    let placed = k.transferred(server, k.receive_slot(server), m.cap)->Ok_0;
    assert(placed.tcbs == k.tcbs);
    let first = call_step(k, caller, cptr, asked);
    let k1 = first.kernel;
    assert(k1.ready == k.ready);
    assert(k1.tcb(caller)->0.context == asked);
    assert(k1.reply_target(server) == Some(caller));
    assert(k1.current == Some(server));
}

/// A call waits for its server. `caller` calls on an endpoint where nobody waits, and
/// whoever is next receives from it and replies: the server finds the message, and the
/// caller, who runs at once, the answer.
pub proof fn law_call_waits_for_its_server(
    k: KernelModel,
    caller: TcbId,
    asked: Registers,
    cptr: CPtr,
    id: EndpointId,
    m: Message,
    server: TcbId,
    receiving: Registers,
    rptr: CPtr,
    answered: Registers,
)
    requires
        k.consistent(),
        asked.wf(),
        receiving.wf(),
        answered.wf(),
        k.current == Some(caller),
        k.ready.len() > 0 && k.ready[0] == server,
        k.endpoint(id) == Some(EndpointModel::Empty),
        outgoing(k, caller, cptr, asked, 2) == Ok::<(EndpointId, Message), SyscallError>((id, m)),
        endpoint_named(k, server, rptr, Rights::read()) matches Ok((named, _)) && named == id,
        abi::fits(receiving.tag, 1),
        k.transferred(server, receiving.named_slot(1), m.cap) is Ok,
        abi::fits(answered.tag, 1) && answered.tag.extra_caps == 0,
    ensures
        ({
            let first = call_step(k, caller, cptr, asked);
            let second = recv_step(first.kernel, server, rptr, receiving);
            let third = reply_step(second.kernel, server, answered);
            &&& first.result is Ok
            &&& first.kernel.current == Some(server)
            &&& second.result is Ok
            &&& second.regs == receiving.receiving(m).succeeded()
            &&& second.kernel.awaits_reply(caller)
            &&& second.kernel.reply_slot(caller) == m.reply_slot
            &&& third.result is Ok
            &&& third.kernel.current == Some(caller)
            &&& third.regs == asked.receiving(message(answered, 0, None, None))
            &&& third.kernel.state_of(server) == Some(ThreadState::Ready)
            &&& third.kernel.reply_target(server) is None
        }),
{
    lemma_current(k, caller);
    lemma_first(k, Place::Ready);
    let first = call_step(k, caller, cptr, asked);
    let waiters = seq![caller];
    assert(EndpointModel::Empty.waiting().push(caller) =~= waiters);
    let k1 = first.kernel;
    assert(k1.endpoint(id) == Some(EndpointModel::Send(waiters)));
    assert(k1.tcb(caller)->0.context == asked);
    assert(k1.current == Some(server));
    assert(k1.lookup(server, rptr) == k.lookup(server, rptr));
    let second = recv_step(k1, server, rptr, receiving);
    let k2 = second.kernel;
    assert(k2.tcb(caller)->0.context == asked);
    assert(k2.reply_target(server) == Some(caller));
    assert(k2.current == Some(server));
}

/// A call is answered once: without a call that it has received and not answered, a thread
/// has nobody to reply to, whatever it holds.
pub proof fn law_reply_needs_a_call(k: KernelModel, current: TcbId, regs: Registers)
    requires
        k.reply_target(current) is None,
    ensures
        reply_step(k, current, regs).result is Err,
        reply_step(k, current, regs).kernel == k,
        abi::fits(regs.tag, 1) && regs.tag.extra_caps == 0 ==> reply_step(k, current, regs)
            == k.refused(regs, SyscallError::IllegalOperation),
{
}

/// A capability that goes with a reply arrives in the slot that the caller named.
pub proof fn law_reply_brings_its_capability(
    k: KernelModel,
    server: TcbId,
    answered: Registers,
    caller: TcbId,
    dest: CPtr,
    cap: Capability,
)
    requires
        k.consistent(),
        k.current == Some(server),
        abi::fits(answered.tag, 1),
        attached(k, server, answered) == Ok::<Option<Capability>, SyscallError>(Some(cap)),
        cap != Capability::Null,
        k.reply_target(server) == Some(caller),
        k.reply_slot(caller) == Some(dest),
        k.transferred(caller, Some(dest), Some(cap)) is Ok,
    ensures
        ({
            let step = reply_step(k, server, answered);
            &&& step.result is Ok
            &&& step.kernel.current == Some(caller)
            &&& step.kernel.lookup(caller, dest) == Ok::<Capability, SyscallError>(cap)
        }),
{
    lemma_current(k, server);
    assert(k.awaits_reply(caller));
    law_transfer_arrives(k, caller, dest, cap, k.cspace(caller)->0, dest);
    let placed = k.transferred(caller, Some(dest), Some(cap))->Ok_0;
    assert(placed.tcbs == k.tcbs);
    let step = reply_step(k, server, answered);
    assert(step.kernel.cnodes == placed.cnodes);
    assert(step.kernel.cspace(caller) == k.cspace(caller));
}

/// Signals accumulate until they are taken, and are taken once. Two signals to a
/// notification where nobody waits leave both badges pending beside what was pending
/// before; a poll reads them all, and a second poll reads zero. A wait that finds bits
/// pending does what the poll does.
pub proof fn law_signals_accumulate(
    k: KernelModel,
    current: TcbId,
    id: NotificationId,
    first_cptr: CPtr,
    first_badge: u64,
    second_cptr: CPtr,
    second_badge: u64,
    poll_cptr: CPtr,
    regs: Registers,
)
    requires
        k.wf(),
        regs.wf(),
        k.notification(id) matches Some(n) && n.waiters.len() == 0,
        notification_named(k, current, first_cptr, Rights::write()) == Ok::<
            (NotificationId, u64),
            SyscallError,
        >((id, first_badge)),
        notification_named(k, current, second_cptr, Rights::write()) == Ok::<
            (NotificationId, u64),
            SyscallError,
        >((id, second_badge)),
        notification_named(k, current, poll_cptr, Rights::read()) matches Ok((named, _)) && named
            == id,
    ensures
        ({
            let pending = k.notification(id)->0.signals | first_badge | second_badge;
            let first = signal_step(k, current, first_cptr, regs);
            let second = signal_step(first.kernel, current, second_cptr, regs);
            let third = poll_step(second.kernel, current, poll_cptr, regs);
            let fourth = poll_step(third.kernel, current, poll_cptr, regs);
            &&& first.result is Ok && second.result is Ok
            &&& second.kernel.notification(id)->0.signals == pending
            &&& third.result is Ok && fourth.result is Ok
            &&& third.regs.mrs[0] == pending as usize
            &&& fourth.regs.mrs[0] == 0
            &&& pending != 0 ==> wait_step(second.kernel, current, poll_cptr, regs) == third
        }),
{
    let k1 = signal_step(k, current, first_cptr, regs).kernel;
    assert(k1.lookup(current, second_cptr) == k.lookup(current, second_cptr));
    let k2 = signal_step(k1, current, second_cptr, regs).kernel;
    assert(k2.lookup(current, poll_cptr) == k.lookup(current, poll_cptr));
    let k3 = poll_step(k2, current, poll_cptr, regs).kernel;
    assert(k3.lookup(current, poll_cptr) == k.lookup(current, poll_cptr));
}

/// A waiting thread is woken by the next signal, with its badge, and nothing stays pending.
pub proof fn law_wait_then_signal(
    k: KernelModel,
    waiter: TcbId,
    waiting: Registers,
    wptr: CPtr,
    id: NotificationId,
    signaller: TcbId,
    regs: Registers,
    sptr: CPtr,
    badge: u64,
)
    requires
        k.consistent(),
        waiting.wf(),
        regs.wf(),
        k.current == Some(waiter),
        k.ready.len() > 0 && k.ready[0] == signaller,
        k.notification(id) == Some(NotificationModel::fresh()),
        notification_named(k, waiter, wptr, Rights::read()) matches Ok((named, _)) && named == id,
        notification_named(k, signaller, sptr, Rights::write()) == Ok::<
            (NotificationId, u64),
            SyscallError,
        >((id, badge)),
    ensures
        ({
            let first = wait_step(k, waiter, wptr, waiting);
            let second = signal_step(first.kernel, signaller, sptr, regs);
            &&& first.result is Ok
            &&& first.kernel.current == Some(signaller)
            &&& second.result is Ok
            &&& second.kernel.current == Some(signaller)
            &&& second.kernel.state_of(waiter) == Some(ThreadState::Ready)
            &&& second.kernel.tcb(waiter)->0.context == waiting.with_mr(0, badge as usize)
            &&& second.kernel.notification(id) == Some(NotificationModel::fresh())
        }),
{
    lemma_current(k, waiter);
    lemma_first(k, Place::Ready);
    let first = wait_step(k, waiter, wptr, waiting);
    let k1 = first.kernel;
    let waiters = seq![waiter];
    assert(NotificationModel::fresh().waiters.push(waiter) =~= waiters);
    assert(waiters.skip(1) =~= Seq::<TcbId>::empty());
    assert(k1.notification(id) == Some(NotificationModel { signals: 0, waiters }));
    assert(k1.tcb(waiter)->0.context == waiting);
    assert(k1.lookup(signaller, sptr) == k.lookup(signaller, sptr));
    assert(0u64 | badge == badge) by (bit_vector);
}

impl KernelModel {
    /// The message that the thread `id` waits to have received, and on which endpoint.
    pub open spec fn pending_message(self, id: TcbId) -> Option<(EndpointId, Message)> {
        match self.tcb(id) {
            Some(tcb) => match tcb.state {
                ThreadState::BlockedSend { endpoint, badge, extra_cap, reply_dest_slot, .. } => Some(
                    (endpoint, message(tcb.context, badge, extra_cap, reply_dest_slot)),
                ),
                _ => None,
            },
            None => None,
        }
    }
}

/// What a sender that blocks leaves pending is the message it sent.
pub proof fn law_a_blocked_sender_has_its_message_pending(
    k: KernelModel,
    sender: TcbId,
    cptr: CPtr,
    regs: Registers,
    id: EndpointId,
    m: Message,
)
    requires
        k.consistent(),
        k.current == Some(sender),
        k.ready.len() > 0,
        !(k.endpoint(id) is None) && !(k.endpoint(id)->0 is Recv),
    ensures
        outgoing(k, sender, cptr, regs, 1) == Ok::<(EndpointId, Message), SyscallError>((id, m))
            ==> send_step(k, sender, cptr, regs, false).kernel.pending_message(sender) == Some(
            (id, m),
        ),
        outgoing(k, sender, cptr, regs, 2) == Ok::<(EndpointId, Message), SyscallError>((id, m))
            ==> call_step(k, sender, cptr, regs).kernel.pending_message(sender) == Some((id, m)),
{
    lemma_current(k, sender);
    lemma_first(k, Place::Ready);
    law_there_is_always_room(k, Place::Sending(id), sender);
    let waiters = k.endpoint(id)->0.waiting();
    assert(k.listed(Place::Sending(id)) =~= waiters);
}

/// No message is lost, changed or received twice. Whatever another thread does, a message
/// stays pending as it is until that thread receives from its endpoint and the message is
/// the first there; then it is in the receiver's registers, and not pending any more.
pub proof fn law_a_message_is_received_once(
    k: KernelModel,
    current: TcbId,
    regs: Registers,
    translated: Option<usize>,
    sender: TcbId,
    id: EndpointId,
    m: Message,
)
    requires
        k.consistent(),
        k.current == Some(current),
        regs.wf(),
        k.pending_message(sender) == Some((id, m)),
    ensures
        ({
            let trap = trap_step(k, regs);
            trap.kernel.pending_message(sender) == Some((id, m)) || {
                &&& trap.kernel.pending_message(sender) is None
                &&& SyscallNumber::from_usize(regs.syscall_number) == Some(SyscallNumber::Recv)
                &&& endpoint_named(k, current, regs.mrs[0], Rights::read()) matches Ok((named, _))
                    && named == id
                &&& k.listed(Place::Sending(id))[0] == sender
                &&& trap.regs == regs.receiving(m).succeeded()
            }
        }),
        translated_step(k, regs, translated).kernel.pending_message(sender) == Some((id, m))
            || translated_step(k, regs, translated) == trap_step(k, regs),
{
    lemma_current(k, current);
    assert(k.is_at(sender, Place::Sending(id)));
    if let Some(syscall) = SyscallNumber::from_usize(regs.syscall_number) {
        let cptr = regs.mrs[0];
        match syscall {
            SyscallNumber::Send => lemma_send_keeps_pending(k, current, cptr, regs, false, sender),
            SyscallNumber::NBSend => lemma_send_keeps_pending(k, current, cptr, regs, true, sender),
            SyscallNumber::Recv => lemma_recv_takes_pending(k, current, cptr, regs, sender, id, m),
            SyscallNumber::Call => lemma_call_keeps_pending(k, current, cptr, regs, sender),
            SyscallNumber::Reply => lemma_reply_keeps_pending(k, current, regs, sender),
            SyscallNumber::UntypedRetype => {
                law_first_free_exists(k.tcbs);
                assert(retype_step(k, current, cptr, regs).kernel.tcb(sender) == k.tcb(sender));
            },
            SyscallNumber::FrameInvoke => {
                assert(invoke_step(k, current, cptr, regs).kernel.tcbs == k.tcbs);
            },
            _ => lemma_others_keep_pending(k, current, cptr, regs, sender),
        }
    }
    assert(map_step(k, current, regs.mrs[0], regs, translated).kernel.tcbs == k.tcbs);
}

proof fn lemma_send_keeps_pending(
    k: KernelModel,
    current: TcbId,
    cptr: CPtr,
    regs: Registers,
    nonblocking: bool,
    sender: TcbId,
)
    requires
        k.consistent(),
        k.current == Some(current),
        k.pending_message(sender) is Some,
    ensures
        send_step(k, current, cptr, regs, nonblocking).kernel.pending_message(sender)
            == k.pending_message(sender),
{
    lemma_current(k, current);
    if k.ready.len() > 0 {
        lemma_first(k, Place::Ready);
    }
    if let Ok((id, m)) = outgoing(k, current, cptr, regs, 1) {
        if let Some(EndpointModel::Recv(waiters)) = k.endpoint(id) {
            assert(k.listed(Place::Receiving(id)) == waiters);
            lemma_first(k, Place::Receiving(id));
        }
    }
}

proof fn lemma_call_keeps_pending(
    k: KernelModel,
    current: TcbId,
    cptr: CPtr,
    regs: Registers,
    sender: TcbId,
)
    requires
        k.consistent(),
        k.current == Some(current),
        k.pending_message(sender) is Some,
    ensures
        call_step(k, current, cptr, regs).kernel.pending_message(sender) == k.pending_message(
            sender,
        ),
{
    lemma_current(k, current);
    if k.ready.len() > 0 {
        lemma_first(k, Place::Ready);
    }
    if let Ok((id, m)) = outgoing(k, current, cptr, regs, 2) {
        if let Some(EndpointModel::Recv(waiters)) = k.endpoint(id) {
            assert(k.listed(Place::Receiving(id)) == waiters);
            lemma_first(k, Place::Receiving(id));
        }
    }
}

proof fn lemma_recv_takes_pending(
    k: KernelModel,
    current: TcbId,
    cptr: CPtr,
    regs: Registers,
    sender: TcbId,
    id: EndpointId,
    m: Message,
)
    requires
        k.consistent(),
        k.current == Some(current),
        k.pending_message(sender) == Some((id, m)),
    ensures
        ({
            let step = recv_step(k, current, cptr, regs);
            step.kernel.pending_message(sender) == Some((id, m)) || {
                &&& step.kernel.pending_message(sender) is None
                &&& step.result is Ok
                &&& endpoint_named(k, current, cptr, Rights::read()) matches Ok((named, _))
                    && named == id
                &&& k.listed(Place::Sending(id))[0] == sender
                &&& step.regs == regs.receiving(m).succeeded()
            }
        }),
{
    lemma_current(k, current);
    if k.ready.len() > 0 {
        lemma_first(k, Place::Ready);
    }
    if let Ok((named, _)) = endpoint_named(k, current, cptr, Rights::read()) {
        if let Some(EndpointModel::Send(waiters)) = k.endpoint(named) {
            assert(k.listed(Place::Sending(named)) == waiters);
            lemma_first(k, Place::Sending(named));
        }
    }
}

proof fn lemma_reply_keeps_pending(k: KernelModel, current: TcbId, regs: Registers, sender: TcbId)
    requires
        k.consistent(),
        k.current == Some(current),
        k.pending_message(sender) is Some,
    ensures
        reply_step(k, current, regs).kernel.pending_message(sender) == k.pending_message(sender),
{
    lemma_current(k, current);
    if let Some(target) = k.reply_target(current) {
        assert(k.awaits_reply(target));
    }
}

proof fn lemma_others_keep_pending(
    k: KernelModel,
    current: TcbId,
    cptr: CPtr,
    regs: Registers,
    sender: TcbId,
)
    requires
        k.consistent(),
        k.current == Some(current),
        k.pending_message(sender) is Some,
    ensures
        signal_step(k, current, cptr, regs).kernel.pending_message(sender) == k.pending_message(
            sender,
        ),
        wait_step(k, current, cptr, regs).kernel.pending_message(sender) == k.pending_message(
            sender,
        ),
        poll_step(k, current, cptr, regs).kernel.pending_message(sender) == k.pending_message(
            sender,
        ),
        cnode::invoke_step(k, current, cptr, regs).kernel.pending_message(sender)
            == k.pending_message(sender),
        configure_step(k, current, cptr, regs).kernel.pending_message(sender) == k.pending_message(
            sender,
        ),
        yield_step(k, current, regs).kernel.pending_message(sender) == k.pending_message(sender),
{
    lemma_current(k, current);
    if k.ready.len() > 0 {
        lemma_first(k, Place::Ready);
    }
    if let Ok((id, _)) = notification_named(k, current, cptr, Rights::write()) {
        if let Some(n) = k.notification(id) {
            if n.waiters.len() > 0 {
                assert(k.listed(Place::Waiting(id)) == n.waiters);
                lemma_first(k, Place::Waiting(id));
            }
        }
    }
    assert(cnode::invoke_step(k, current, cptr, regs).kernel.tcbs == k.tcbs);
    assert(poll_step(k, current, cptr, regs).kernel.tcbs == k.tcbs);
}

} // verus!
