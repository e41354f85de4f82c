//! What sending, calling, receiving and replying bring about, seen from outside: who finds
//! what in which register, where a capability lands, who waits and who runs.

use vstd::prelude::*;

use crate::cap::{CPtr, Capability, EndpointId, Rights, TcbId};
use crate::consistency::{law_there_is_always_room, lemma_current, lemma_first, Place};
use crate::error::SyscallError;
use crate::ipc::{message, outgoing, Message};
use crate::limits::MAX_TCBS;
use crate::model::KernelModel;
use crate::object::{EndpointModel, TcbModel, ThreadState};
use crate::syscall::{trap_step, SyscallNumber, Trap};
use crate::terms::{
    active_under, gives_way, lemma_asked, permits, reads, without_error, GRANT_BIT, READ_BIT,
    WRITE_BIT,
};
use crate::trap::Registers;

verus! {

/// The code of the error for which an endpoint cannot be invoked with these registers, if
/// any: `mr0` names no slot, or no endpoint, or one without the right that `right` stands
/// for, or the tag asks for more than fits. At most `most` may stand in `extra_caps`.
pub open spec fn objection(
    k: KernelModel,
    current: TcbId,
    regs: Registers,
    right: u8,
    most: u8,
) -> Option<usize> {
    if !k.sees(current, regs.mrs[0]) {
        Some(6)
    } else if !(k.seen(current, regs.mrs[0]) is Endpoint) {
        Some(1)
    } else if !permits(k.seen(current, regs.mrs[0]), right) {
        Some(3)
    } else if regs.tag.length > 0 || regs.tag.extra_caps > most {
        Some(7)
    } else {
        None
    }
}

/// The code of the error for which `current` cannot attach what `mr1` names, if any.
pub open spec fn attaching_objection(k: KernelModel, current: TcbId, regs: Registers) -> Option<
    usize,
> {
    if regs.tag.extra_caps != 1 {
        None
    } else if !k.sees(current, regs.mrs[1]) {
        Some(6)
    } else if k.seen(current, regs.mrs[1]) is Null {
        Some(1)
    } else if !permits(k.seen(current, regs.mrs[1]), GRANT_BIT) {
        Some(3)
    } else {
        None
    }
}

/// The capability that goes with a message.
pub open spec fn attachment(k: KernelModel, current: TcbId, regs: Registers) -> Option<Capability> {
    if regs.tag.extra_caps == 1 {
        Some(k.seen(current, regs.mrs[1]))
    } else {
        None
    }
}

/// The slot that `mr1` names where `extra_caps` is `asked`.
pub open spec fn slot_asked(regs: Registers, asked: u8) -> Option<CPtr> {
    if regs.tag.extra_caps == asked {
        Some(regs.mrs[1])
    } else {
        None
    }
}

/// The message registers of whoever gets a message: the badge, and the words of the sender.
/// An `mr1` that named a slot is no word.
pub open spec fn words(badge: u64, sent: Registers) -> Seq<usize> {
    seq![
        badge as usize,
        if sent.tag.extra_caps == 0 {
            sent.mrs[1]
        } else {
            0
        },
        sent.mrs[2],
        sent.mrs[3],
    ]
}

/// The code of the error for which `cap` cannot land where `id` wants it, if any.
pub open spec fn landing_objection(
    k: KernelModel,
    id: TcbId,
    dest: Option<CPtr>,
    cap: Option<Capability>,
) -> Option<usize> {
    if cap is None {
        None
    } else {
        match dest {
            None => Some(3),
            Some(dest) => if !k.has_slots(id) {
                Some(6)
            } else if dest >= k.slots(id).len() {
                Some(4)
            } else if !(k.seen(id, dest) is Null) {
                Some(3)
            } else {
                None
            },
        }
    }
}

/// `cap`, if there is one, is in the slot `dest` of `id`, and no other slot has changed.
pub open spec fn lands(
    k: KernelModel,
    after: KernelModel,
    id: TcbId,
    dest: Option<CPtr>,
    cap: Option<Capability>,
) -> bool {
    match cap {
        None => after.cnodes == k.cnodes,
        Some(cap) => {
            let cspace = k.thread(id).cspace->Some_0;
            after.cnodes == k.cnodes.update(
                cspace.0 as int,
                Some(k.slots(id).update(dest->Some_0 as int, cap)),
            )
        },
    }
}

/// Whether `current` traps to send or call on the endpoint `id`, by a capability with the
/// badge `badge`, and nothing speaks against it.
pub open spec fn sends(
    k: KernelModel,
    current: TcbId,
    regs: Registers,
    id: EndpointId,
    badge: u64,
) -> bool {
    let cap = k.seen(current, regs.mrs[0]);
    &&& regs.syscall_number == 1 || regs.syscall_number == 2 || regs.syscall_number == 4
    &&& objection(
        k,
        current,
        regs,
        WRITE_BIT,
        if regs.syscall_number == 4 {
            2
        } else {
            1
        },
    ) is None
    &&& attaching_objection(k, current, regs) is None
    &&& cap->Endpoint_id == id && cap->Endpoint_badge == badge
}

/// Whether `current` traps to receive from the endpoint `id`, and nothing speaks against it.
pub open spec fn receives(k: KernelModel, current: TcbId, regs: Registers, id: EndpointId) -> bool {
    let cap = k.seen(current, regs.mrs[0]);
    &&& regs.syscall_number == 3
    &&& objection(k, current, regs, READ_BIT, 1) is None
    &&& cap->Endpoint_id == id
}

/// Whether there is an endpoint `id`, and these wait to send on it.
pub open spec fn senders_wait(k: KernelModel, id: EndpointId, waiters: Seq<TcbId>) -> bool {
    id.0 < k.endpoints.len() && k.endpoints[id.0 as int] == Some(EndpointModel::Send(waiters))
}

/// Whether there is an endpoint `id`, and these wait to receive from it.
pub open spec fn receivers_wait(k: KernelModel, id: EndpointId, waiters: Seq<TcbId>) -> bool {
    id.0 < k.endpoints.len() && k.endpoints[id.0 as int] == Some(EndpointModel::Recv(waiters))
}

/// The first of the `waiters` has left the endpoint `id`, and no endpoint else has changed.
pub open spec fn first_leaves(
    k: KernelModel,
    after: KernelModel,
    id: EndpointId,
    waiters: Seq<TcbId>,
    receiving: bool,
) -> bool {
    after.endpoints == k.endpoints.update(
        id.0 as int,
        Some(
            if waiters.len() == 1 {
                EndpointModel::Empty
            } else if receiving {
                EndpointModel::Recv(waiters.skip(1))
            } else {
                EndpointModel::Send(waiters.skip(1))
            },
        ),
    )
}

/// The invocation of an endpoint is refused, and nothing changes, exactly for a reason that
/// can be seen: the slot, the kind of capability, its rights, the tag, what is attached, or
/// that the endpoint does not exist.
pub proof fn law_bad_messages_are_refused(k: KernelModel, current: TcbId, regs: Registers, code: usize)
    requires
        k.current == Some(current),
    ensures
        (regs.syscall_number == 1 || regs.syscall_number == 2) && objection(
            k,
            current,
            regs,
            WRITE_BIT,
            1,
        ) == Some(code) ==> trap_step(k, regs).refuses(k, regs, code),
        regs.syscall_number == 3 && objection(k, current, regs, READ_BIT, 1) == Some(code)
            ==> trap_step(k, regs).refuses(k, regs, code),
        regs.syscall_number == 4 && objection(k, current, regs, WRITE_BIT, 2) == Some(code)
            ==> trap_step(k, regs).refuses(k, regs, code),
        (regs.syscall_number == 1 || regs.syscall_number == 2) && objection(
            k,
            current,
            regs,
            WRITE_BIT,
            1,
        ) is None && attaching_objection(k, current, regs) == Some(code) ==> trap_step(
            k,
            regs,
        ).refuses(k, regs, code),
        regs.syscall_number == 4 && objection(k, current, regs, WRITE_BIT, 2) is None
            && attaching_objection(k, current, regs) == Some(code) ==> trap_step(k, regs).refuses(
            k,
            regs,
            code,
        ),
        forall|id: EndpointId, badge: u64| #[trigger]
            sends(k, current, regs, id, badge) && (id.0 >= k.endpoints.len()
                || k.endpoints[id.0 as int] is None) ==> trap_step(k, regs).refuses(k, regs, 1),
        forall|id: EndpointId| #[trigger]
            receives(k, current, regs, id) && (id.0 >= k.endpoints.len()
                || k.endpoints[id.0 as int] is None) ==> trap_step(k, regs).refuses(k, regs, 1),
{
    broadcast use Rights::lemma_of;

    if regs.syscall_number == 1 {
        lemma_asked(k, current, SyscallNumber::Send, regs);
    } else if regs.syscall_number == 2 {
        lemma_asked(k, current, SyscallNumber::NBSend, regs);
    } else if regs.syscall_number == 3 {
        lemma_asked(k, current, SyscallNumber::Recv, regs);
    } else if regs.syscall_number == 4 {
        lemma_asked(k, current, SyscallNumber::Call, regs);
    }
}

/// What the syscalls make of a message that nothing speaks against.
proof fn lemma_sends(k: KernelModel, current: TcbId, regs: Registers, id: EndpointId, badge: u64)
    requires
        sends(k, current, regs, id, badge),
    ensures
        outgoing(
            k,
            current,
            regs.mrs[0],
            regs,
            if regs.syscall_number == 4 {
                2
            } else {
                1
            },
        ) == Ok::<(EndpointId, Message), SyscallError>(
            (id, message(regs, badge, attachment(k, current, regs), slot_asked(regs, 2))),
        ),
{
    broadcast use Rights::lemma_of;

}

/// What the syscalls make of a capability that lands, or that does not.
proof fn lemma_lands(k: KernelModel, id: TcbId, dest: Option<CPtr>, cap: Option<Capability>)
    ensures
        match (landing_objection(k, id, dest, cap), k.transferred(id, dest, cap)) {
            (Some(code), Err(error)) => error.code() == code,
            (None, Ok(after)) => lands(k, after, id, dest, cap) && after == (KernelModel {
                cnodes: after.cnodes,
                ..k
            }),
            _ => false,
        },
{
}

/// A message reaches a waiting receiver. The first of those who wait finds in `mr0` the whole
/// badge of the capability that was invoked, in the other registers the words of the sender,
/// and the sender's tag; the capability that was attached is in the slot it had named. After
/// a send it is ready and the sender goes on. After a call it runs at once, in its own
/// address space, and owes the reply for which the caller waits. Where the capability cannot
/// land, the message is refused and the receiver goes on waiting.
pub proof fn law_a_waiting_receiver_gets_the_message(
    k: KernelModel,
    current: TcbId,
    regs: Registers,
    id: EndpointId,
    badge: u64,
    waiters: Seq<TcbId>,
)
    requires
        k.consistent(),
        k.current == Some(current),
        regs.wf(),
        sends(k, current, regs, id, badge),
        receivers_wait(k, id, waiters),
    ensures
        ({
            let trap = trap_step(k, regs);
            let after = trap.kernel;
            let receiver = waiters[0];
            let dest = k.thread(receiver).state->BlockedRecv_dest_slot;
            let cap = attachment(k, current, regs);
            let got = after.thread(receiver);
            &&& waiters.len() > 0 && k.has_thread(receiver) && receiver != current
            &&& k.thread(receiver).state is BlockedRecv
            &&& landing_objection(k, receiver, dest, cap) matches Some(code) ==> trap.refuses(
                k,
                regs,
                code,
            )
            &&& landing_objection(k, receiver, dest, cap) is None ==> {
                &&& lands(k, after, receiver, dest, cap)
                &&& first_leaves(k, after, id, waiters, true)
                &&& after.has_thread(receiver)
                &&& reads(k.thread(receiver).context, got.context, words(badge, regs), regs.tag)
                &&& k.keeps_threads(after, receiver, current)
                &&& trap.action is Done
                &&& after == (KernelModel {
                    cnodes: after.cnodes,
                    tcbs: after.tcbs,
                    endpoints: after.endpoints,
                    ready: after.ready,
                    current: after.current,
                    activation: after.activation,
                    ..k
                })
                &&& regs.syscall_number != 4 ==> {
                    &&& got == (TcbModel {
                        state: ThreadState::Ready,
                        context: got.context,
                        ..k.thread(receiver)
                    })
                    &&& after.tcbs[current.0 as int] == k.tcbs[current.0 as int]
                    &&& after.ready == k.ready.push(receiver)
                    &&& after.current == k.current
                    &&& after.activation == k.activation
                    &&& trap.reports_success(regs)
                }
                &&& regs.syscall_number == 4 ==> {
                    &&& got == (TcbModel {
                        state: ThreadState::Running,
                        context: got.context,
                        reply_to: Some(current),
                        ..k.thread(receiver)
                    })
                    &&& after.has_thread(current)
                    &&& after.thread(current) == (TcbModel {
                        state: ThreadState::BlockedReply { dest_slot: slot_asked(regs, 2) },
                        context: regs,
                        ..k.thread(current)
                    })
                    &&& after.ready == k.ready
                    &&& after.current == Some(receiver)
                    &&& after.activation == active_under(k, receiver)
                    &&& trap.regs == got.context
                }
            }
        }),
{
    let receiver = waiters[0];
    assert(k.listed(Place::Receiving(id)) == waiters);
    lemma_first(k, Place::Receiving(id));
    lemma_current(k, current);
    lemma_sends(k, current, regs, id, badge);
    let dest = k.thread(receiver).state->BlockedRecv_dest_slot;
    let cap = attachment(k, current, regs);
    lemma_lands(k, receiver, dest, cap);
    law_there_is_always_room(k, Place::Ready, receiver);
    assert(k.receive_slot(receiver) == dest);
    assert(waiters.skip(1).len() == waiters.len() - 1);
    if regs.syscall_number == 1 {
        lemma_asked(k, current, SyscallNumber::Send, regs);
    } else if regs.syscall_number == 2 {
        lemma_asked(k, current, SyscallNumber::NBSend, regs);
    } else {
        lemma_asked(k, current, SyscallNumber::Call, regs);
    }
}

/// Whoever is listed on an endpoint.
pub open spec fn queue_of(endpoint: EndpointModel) -> Seq<TcbId> {
    match endpoint {
        EndpointModel::Empty => Seq::empty(),
        EndpointModel::Send(waiters) => waiters,
        EndpointModel::Recv(waiters) => waiters,
    }
}

/// `current` has joined an endpoint as the last to wait, in the state `state`, and gives way
/// to the first that is ready; `queue` is the endpoint with it. Nothing else has changed.
pub open spec fn waits_in_line(
    k: KernelModel,
    trap: Trap,
    current: TcbId,
    regs: Registers,
    id: EndpointId,
    queue: EndpointModel,
    state: ThreadState,
) -> bool {
    let after = trap.kernel;
    &&& gives_way(k, trap, current, regs, state)
    &&& after.endpoints == k.endpoints.update(id.0 as int, Some(queue))
    &&& after == (KernelModel {
        tcbs: after.tcbs,
        endpoints: after.endpoints,
        ready: after.ready,
        current: after.current,
        activation: after.activation,
        ..k
    })
}

/// Where nobody waits to receive, a send that may not block succeeds and changes nothing.
/// Any other send or call needs somebody else to run. Then the sender joins the end of the
/// line, with its badge, what it attached and, for a call, where it wants what comes with
/// the reply; and the first that is ready runs.
pub proof fn law_a_sender_waits_its_turn(
    k: KernelModel,
    current: TcbId,
    regs: Registers,
    id: EndpointId,
    badge: u64,
    endpoint: EndpointModel,
)
    requires
        k.consistent(),
        k.current == Some(current),
        regs.wf(),
        sends(k, current, regs, id, badge),
        id.0 < k.endpoints.len() && k.endpoints[id.0 as int] == Some(endpoint),
        !(endpoint is Recv),
    ensures
        ({
            let trap = trap_step(k, regs);
            &&& regs.syscall_number == 2 ==> trap.kernel == k && trap.reports_success(regs)
            &&& regs.syscall_number != 2 && k.ready.len() == 0 ==> trap.refuses(k, regs, 9)
            &&& regs.syscall_number != 2 && k.ready.len() > 0 ==> waits_in_line(
                k,
                trap,
                current,
                regs,
                id,
                EndpointModel::Send(queue_of(endpoint).push(current)),
                ThreadState::BlockedSend {
                    endpoint: id,
                    badge,
                    is_call: regs.syscall_number == 4,
                    extra_cap: attachment(k, current, regs),
                    reply_dest_slot: slot_asked(regs, 2),
                },
            )
        }),
{
    lemma_current(k, current);
    lemma_sends(k, current, regs, id, badge);
    if k.ready.len() > 0 {
        lemma_first(k, Place::Ready);
    }
    assert(k.listed(Place::Sending(id)) =~= queue_of(endpoint));
    law_there_is_always_room(k, Place::Sending(id), current);
    if regs.syscall_number == 1 {
        lemma_asked(k, current, SyscallNumber::Send, regs);
    } else if regs.syscall_number == 2 {
        lemma_asked(k, current, SyscallNumber::NBSend, regs);
    } else {
        lemma_asked(k, current, SyscallNumber::Call, regs);
    }
}

/// Where nobody waits to send, a receive needs somebody else to run. Then the receiver joins
/// the end of the line, with the slot for a capability that it has named, and the first that
/// is ready runs.
pub proof fn law_a_receiver_waits_its_turn(
    k: KernelModel,
    current: TcbId,
    regs: Registers,
    id: EndpointId,
    endpoint: EndpointModel,
)
    requires
        k.consistent(),
        k.current == Some(current),
        regs.wf(),
        receives(k, current, regs, id),
        id.0 < k.endpoints.len() && k.endpoints[id.0 as int] == Some(endpoint),
        !(endpoint is Send),
    ensures
        ({
            let trap = trap_step(k, regs);
            &&& k.ready.len() == 0 ==> trap.refuses(k, regs, 9)
            &&& k.ready.len() > 0 ==> waits_in_line(
                k,
                trap,
                current,
                regs,
                id,
                EndpointModel::Recv(queue_of(endpoint).push(current)),
                ThreadState::BlockedRecv { endpoint: id, dest_slot: slot_asked(regs, 1) },
            )
        }),
{
    broadcast use Rights::lemma_of;

    lemma_current(k, current);
    if k.ready.len() > 0 {
        lemma_first(k, Place::Ready);
    }
    assert(k.listed(Place::Receiving(id)) =~= queue_of(endpoint));
    law_there_is_always_room(k, Place::Receiving(id), current);
    lemma_asked(k, current, SyscallNumber::Recv, regs);
}

/// A receiver gets the message of the first that waits to send: in `mr0` the whole badge with
/// which it was sent, in the other registers the words of the sender, and its tag, with the
/// error bit cleared; the capability that was attached is in the slot that the receiver
/// names. The receiver goes on. The sender is ready; or, if it called, it waits for the reply
/// that the receiver now owes. Where the capability cannot land, the receive is refused and
/// the message goes on waiting.
pub proof fn law_a_receiver_takes_the_first_message(
    k: KernelModel,
    current: TcbId,
    regs: Registers,
    id: EndpointId,
    waiters: Seq<TcbId>,
)
    requires
        k.consistent(),
        k.current == Some(current),
        regs.wf(),
        receives(k, current, regs, id),
        senders_wait(k, id, waiters),
    ensures
        ({
            let trap = trap_step(k, regs);
            let after = trap.kernel;
            let sender = waiters[0];
            let was = k.thread(sender);
            let badge = was.state->BlockedSend_badge;
            let cap = was.state->BlockedSend_extra_cap;
            let dest = slot_asked(regs, 1);
            &&& waiters.len() > 0 && k.has_thread(sender) && sender != current
            &&& was.state is BlockedSend
            &&& landing_objection(k, current, dest, cap) matches Some(code) ==> trap.refuses(
                k,
                regs,
                code,
            )
            &&& landing_objection(k, current, dest, cap) is None ==> {
                &&& lands(k, after, current, dest, cap)
                &&& first_leaves(k, after, id, waiters, false)
                &&& reads(
                    regs,
                    trap.regs,
                    seq![
                        badge as usize,
                        if cap is None && was.state->BlockedSend_reply_dest_slot is None {
                            was.context.mrs[1]
                        } else {
                            0
                        },
                        was.context.mrs[2],
                        was.context.mrs[3],
                    ],
                    without_error(was.context.tag),
                )
                &&& trap.action is Done
                &&& after.has_thread(sender) && after.has_thread(current)
                &&& k.keeps_threads(after, sender, current)
                &&& after == (KernelModel {
                    cnodes: after.cnodes,
                    tcbs: after.tcbs,
                    endpoints: after.endpoints,
                    ready: after.ready,
                    ..k
                })
                &&& was.state->BlockedSend_is_call ==> {
                    &&& after.thread(sender) == (TcbModel {
                        state: ThreadState::BlockedReply {
                            dest_slot: was.state->BlockedSend_reply_dest_slot,
                        },
                        ..was
                    })
                    &&& after.thread(current) == (TcbModel {
                        reply_to: Some(sender),
                        ..k.thread(current)
                    })
                    &&& after.ready == k.ready
                }
                &&& !was.state->BlockedSend_is_call ==> {
                    &&& after.thread(sender) == (TcbModel { state: ThreadState::Ready, ..was })
                    &&& after.thread(current) == k.thread(current)
                    &&& after.ready == k.ready.push(sender)
                }
            }
        }),
{
    broadcast use Rights::lemma_of;

    let sender = waiters[0];
    assert(k.listed(Place::Sending(id)) == waiters);
    lemma_first(k, Place::Sending(id));
    lemma_current(k, current);
    lemma_lands(k, current, slot_asked(regs, 1), k.thread(sender).state->BlockedSend_extra_cap);
    law_there_is_always_room(k, Place::Ready, sender);
    assert(waiters.skip(1).len() == waiters.len() - 1);
    lemma_asked(k, current, SyscallNumber::Recv, regs);
}

/// A reply is refused, and nothing changes, exactly for a reason that can be seen: the tag
/// asks for more than fits, what is attached may not be, no call is open, or the capability
/// cannot land where the caller wants it.
pub open spec fn reply_objection(k: KernelModel, current: TcbId, regs: Registers) -> Option<usize> {
    let caller = k.thread(current).reply_to->Some_0;
    if regs.tag.length > 0 || regs.tag.extra_caps > 1 {
        Some(7)
    } else if attaching_objection(k, current, regs) is Some {
        attaching_objection(k, current, regs)
    } else if k.thread(current).reply_to is None {
        Some(3)
    } else {
        landing_objection(
            k,
            caller,
            k.thread(caller).state->BlockedReply_dest_slot,
            attachment(k, current, regs),
        )
    }
}

/// A reply that nothing speaks against reaches the caller: it finds zero in `mr0`, the words
/// of the replier in the other registers, and its tag; the capability that was attached is
/// in the slot that the call had named. The caller runs at once, in its own address space.
/// The replier is ready, and owes nothing any more.
pub proof fn law_a_reply_reaches_its_caller(k: KernelModel, current: TcbId, regs: Registers)
    requires
        k.consistent(),
        k.current == Some(current),
        regs.wf(),
        regs.syscall_number == 5,
    ensures
        ({
            let trap = trap_step(k, regs);
            let after = trap.kernel;
            let caller = k.thread(current).reply_to->Some_0;
            let was = k.thread(caller);
            let got = after.thread(caller);
            &&& reply_objection(k, current, regs) matches Some(code) ==> trap.refuses(k, regs, code)
            &&& reply_objection(k, current, regs) is None ==> {
                &&& k.has_thread(caller) && caller != current
                &&& was.state is BlockedReply
                &&& lands(
                    k,
                    after,
                    caller,
                    was.state->BlockedReply_dest_slot,
                    attachment(k, current, regs),
                )
                &&& reads(was.context, got.context, words(0, regs), regs.tag)
                &&& got == (TcbModel {
                    state: ThreadState::Running,
                    context: got.context,
                    ..was
                })
                &&& trap.regs == got.context
                &&& trap.action is Done
                &&& after.has_thread(caller) && after.has_thread(current)
                &&& after.thread(current) == (TcbModel {
                    state: ThreadState::Ready,
                    context: regs,
                    reply_to: None,
                    ..k.thread(current)
                })
                &&& k.keeps_threads(after, caller, current)
                &&& after.ready == k.ready.push(current)
                &&& after.current == Some(caller)
                &&& after.activation == active_under(k, caller)
                &&& after == (KernelModel {
                    cnodes: after.cnodes,
                    tcbs: after.tcbs,
                    ready: after.ready,
                    current: after.current,
                    activation: after.activation,
                    ..k
                })
            }
        }),
{
    broadcast use Rights::lemma_of;

    lemma_current(k, current);
    law_there_is_always_room(k, Place::Ready, current);
    lemma_asked(k, current, SyscallNumber::Reply, regs);
    if let Some(caller) = k.thread(current).reply_to {
        assert(k.reply_target(current) == Some(caller));
        assert(k.awaits_reply(caller));
        let dest = k.thread(caller).state->BlockedReply_dest_slot;
        let cap = attachment(k, current, regs);
        assert(k.reply_slot(caller) == dest);
        lemma_lands(k, caller, dest, cap);
    }
}

/// An endpoint on which as many wait as there can be threads takes nobody else. A thread that
/// is listed as a sender without being one cannot be received from.
pub proof fn law_a_full_line_takes_nobody(
    k: KernelModel,
    current: TcbId,
    regs: Registers,
    id: EndpointId,
    badge: u64,
    waiters: Seq<TcbId>,
)
    requires
        k.current == Some(current),
    ensures
        sends(k, current, regs, id, badge) && regs.syscall_number != 2 && senders_wait(
            k,
            id,
            waiters,
        ) && waiters.len() >= MAX_TCBS && k.ready.len() > 0 ==> trap_step(k, regs).refuses(
            k,
            regs,
            8,
        ),
        receives(k, current, regs, id) && receivers_wait(k, id, waiters) && waiters.len()
            >= MAX_TCBS && k.ready.len() > 0 ==> trap_step(k, regs).refuses(k, regs, 8),
        receives(k, current, regs, id) && senders_wait(k, id, waiters) && !k.has_thread(waiters[0])
            ==> trap_step(k, regs).refuses(k, regs, 6),
        receives(k, current, regs, id) && senders_wait(k, id, waiters) && k.has_thread(waiters[0])
            && !(k.thread(waiters[0]).state is BlockedSend) ==> trap_step(k, regs).refuses(
            k,
            regs,
            3,
        ),
{
    broadcast use Rights::lemma_of;

    if sends(k, current, regs, id, badge) {
        lemma_sends(k, current, regs, id, badge);
    }
    if regs.syscall_number == 1 {
        lemma_asked(k, current, SyscallNumber::Send, regs);
    } else if regs.syscall_number == 4 {
        lemma_asked(k, current, SyscallNumber::Call, regs);
    } else if regs.syscall_number == 3 {
        lemma_asked(k, current, SyscallNumber::Recv, regs);
    }
}

} // verus!
