//! Sending, receiving, calling and replying on endpoints; signalling, waiting and
//! polling on notifications. The register conventions are in `crate::abi`.

use vstd::prelude::*;

use crate::abi;
use crate::cap::{slot, CPtr, Capability, EndpointId, NotificationId, Rights, TcbId};
use crate::error::SyscallError;
use crate::limits::MAX_TCBS;
use crate::model::{group_views, KernelModel, Step};
use crate::object::{
    EndpointModel, EndpointQueue, NotificationModel, SavedContext, ThreadState,
};
use crate::pool::Pool;
use crate::queue::ArrayQueue;
use crate::state::KernelState;
use crate::trap::{MessageTag, Registers, TrapFrame};

verus! {

/// A message on its way.
#[derive(Clone, Copy, PartialEq, Eq, Debug)]
pub struct Message {
    pub badge: u64,
    pub mr1: usize,
    pub mr2: usize,
    pub mr3: usize,
    pub tag: MessageTag,
    /// The capability that goes with it.
    pub cap: Option<Capability>,
    /// Where its sender wants a capability that comes with the reply.
    pub reply_slot: Option<CPtr>,
}

/// The three words that a message delivers: the sender's, except that `mr1` reads zero
/// where it named a slot.
pub open spec fn payload(regs: Registers, mr1_spent: bool) -> (usize, usize, usize) {
    (
        if mr1_spent {
            0
        } else {
            regs.mrs[1]
        },
        regs.mrs[2],
        regs.mrs[3],
    )
}

/// The message that a thread with these registers sends.
pub open spec fn message(
    regs: Registers,
    badge: u64,
    cap: Option<Capability>,
    reply_slot: Option<CPtr>,
) -> Message {
    let words = payload(regs, cap is Some || reply_slot is Some);
    Message {
        badge,
        mr1: words.0,
        mr2: words.1,
        mr3: words.2,
        tag: regs.tag,
        cap,
        reply_slot,
    }
}

impl Registers {
    /// These registers once `message` has been delivered into them.
    pub open spec fn receiving(self, message: Message) -> Registers {
        self.with_mrs(message.badge as usize, message.mr1, message.mr2, message.mr3).with_tag(
            message.tag,
        )
    }

    /// The slot that `mr1` names, where the tag says that it names one.
    pub open spec fn named_slot(self, extra_caps: u8) -> Option<CPtr> {
        if self.tag.extra_caps == extra_caps {
            Some(self.mrs[1])
        } else {
            None
        }
    }
}

/// What `cptr` designates to `thread`, provided that it may be handed on.
pub open spec fn transferable(k: KernelModel, thread: TcbId, cptr: CPtr) -> Result<
    Capability,
    SyscallError,
> {
    match k.lookup(thread, cptr) {
        Ok(cap) if !cap.rights().contains(Rights::grant()) => Err(SyscallError::IllegalOperation),
        found => found,
    }
}

/// The capability that `thread` attaches to its message.
pub open spec fn attached(k: KernelModel, thread: TcbId, regs: Registers) -> Result<
    Option<Capability>,
    SyscallError,
> {
    match regs.named_slot(1) {
        None => Ok(None),
        Some(cptr) => match transferable(k, thread, cptr) {
            Ok(cap) => Ok(Some(cap)),
            Err(error) => Err(error),
        },
    }
}

/// The endpoint that `cptr` designates to `thread`, and the badge, provided that the
/// capability grants `required`.
pub open spec fn endpoint_named(
    k: KernelModel,
    thread: TcbId,
    cptr: CPtr,
    required: Rights,
) -> Result<(EndpointId, u64), SyscallError> {
    match k.lookup(thread, cptr) {
        Ok(Capability::Endpoint { id, badge, rights }) => if rights.contains(required) {
            Ok((id, badge))
        } else {
            Err(SyscallError::IllegalOperation)
        },
        Ok(_) => Err(SyscallError::InvalidCapability),
        Err(error) => Err(error),
    }
}

/// The message that `thread` sends by invoking `cptr`, and the endpoint it goes to. The
/// tag may ask for `limit` in `extra_caps` at most.
pub open spec fn outgoing(
    k: KernelModel,
    thread: TcbId,
    cptr: CPtr,
    regs: Registers,
    limit: u8,
) -> Result<(EndpointId, Message), SyscallError> {
    match endpoint_named(k, thread, cptr, Rights::write()) {
        Err(error) => Err(error),
        Ok((id, badge)) => if !abi::fits(regs.tag, limit) {
            Err(SyscallError::TruncatedMessage)
        } else {
            match attached(k, thread, regs) {
                Err(error) => Err(error),
                Ok(cap) => Ok((id, message(regs, badge, cap, regs.named_slot(2)))),
            }
        },
    }
}

impl KernelModel {
    /// The kernel after `cap` landed in slot `dest` of `receiver`'s CSpace, which must be
    /// an empty slot.
    pub open spec fn placed(self, receiver: TcbId, dest: CPtr, cap: Capability) -> Result<
        KernelModel,
        SyscallError,
    > {
        match self.cspace(receiver) {
            None => Err(SyscallError::FailedLookup),
            Some(id) => match self.cnode(id) {
                None => Err(SyscallError::FailedLookup),
                Some(slots) => match slot(slots, dest) {
                    None => Err(SyscallError::RangeError),
                    Some(Capability::Null) => Ok(self.with_cap(id, dest, cap)),
                    Some(_) => Err(SyscallError::IllegalOperation),
                },
            },
        }
    }

    /// The kernel after the capability of a message, if it has one, landed where the
    /// receiver wants it. A receiver that named no slot takes no capability.
    pub open spec fn transferred(
        self,
        receiver: TcbId,
        dest: Option<CPtr>,
        cap: Option<Capability>,
    ) -> Result<KernelModel, SyscallError> {
        match (cap, dest) {
            (None, _) => Ok(self),
            (Some(_), None) => Err(SyscallError::IllegalOperation),
            (Some(cap), Some(dest)) => self.placed(receiver, dest, cap),
        }
    }

    /// The slot that a thread blocked in a receive has named.
    pub open spec fn receive_slot(self, thread: TcbId) -> Option<CPtr> {
        match self.tcb(thread) {
            Some(tcb) => match tcb.state {
                ThreadState::BlockedRecv { dest_slot, .. } => dest_slot,
                _ => None,
            },
            None => None,
        }
    }

    /// The slot that a thread blocked in a call has named for the reply.
    pub open spec fn reply_slot(self, thread: TcbId) -> Option<CPtr> {
        match self.tcb(thread) {
            Some(tcb) => match tcb.state {
                ThreadState::BlockedReply { dest_slot } => dest_slot,
                _ => None,
            },
            None => None,
        }
    }

    /// The kernel after `message` was written into the saved registers of `target`.
    pub open spec fn delivered(self, target: TcbId, message: Message) -> KernelModel {
        match self.tcb(target) {
            Some(tcb) => self.with_context(target, tcb.context.receiving(message)),
            None => self,
        }
    }

    /// The kernel after the first of the `waiters`, who wait to receive from the
    /// endpoint `id`, was taken off it and got `message`.
    pub open spec fn handed_over(self, id: EndpointId, waiters: Seq<TcbId>, message: Message) -> Result<
        KernelModel,
        SyscallError,
    > {
        match self.transferred(waiters[0], self.receive_slot(waiters[0]), message.cap) {
            Err(error) => Err(error),
            Ok(after) => Ok(
                after.with_endpoint(
                    id,
                    EndpointModel::Recv(waiters.skip(1)).normalized(),
                ).delivered(waiters[0], message),
            ),
        }
    }

    /// `current` joins those who wait on the endpoint `id`, in the state `state`, and
    /// the next ready thread runs. `side` is the endpoint with `current` on it. Blocking
    /// needs somebody else to run, and room in the queue.
    pub open spec fn blocked_on(
        self,
        id: EndpointId,
        side: EndpointModel,
        current: TcbId,
        state: ThreadState,
        regs: Registers,
    ) -> Step {
        if self.ready.len() == 0 {
            self.refused(regs, SyscallError::Timeout)
        } else if side.waiting().len() > MAX_TCBS {
            self.refused(regs, SyscallError::NotEnoughMemory)
        } else {
            self.with_endpoint(id, side).with_state(current, state).yielded(regs)
        }
    }
}

/// A send. With a receiver waiting, the message is delivered and the receiver becomes
/// ready; otherwise a blocking send waits and a non-blocking one drops the message.
pub open spec fn send_step(
    k: KernelModel,
    current: TcbId,
    cptr: CPtr,
    regs: Registers,
    nonblocking: bool,
) -> Step {
    match outgoing(k, current, cptr, regs, 1) {
        Err(error) => k.refused(regs, error),
        Ok((id, message)) => match k.endpoint(id) {
            None => k.refused(regs, SyscallError::InvalidCapability),
            Some(EndpointModel::Recv(waiters)) => match k.handed_over(id, waiters, message) {
                Err(error) => k.refused(regs, error),
                Ok(after) => after.made_ready(waiters[0]).done(regs),
            },
            Some(endpoint) => if nonblocking {
                k.done(regs)
            } else {
                k.blocked_on(
                    id,
                    EndpointModel::Send(endpoint.waiting().push(current)),
                    current,
                    sending(id, message, false),
                    regs,
                )
            },
        },
    }
}

/// The state of a thread that waits for a receiver of `message`.
pub open spec fn sending(id: EndpointId, message: Message, is_call: bool) -> ThreadState {
    ThreadState::BlockedSend {
        endpoint: id,
        badge: message.badge,
        is_call,
        extra_cap: message.cap,
        reply_dest_slot: message.reply_slot,
    }
}

/// A receive. With a sender waiting, its message is delivered; the sender becomes ready,
/// or, if it called, waits for the reply that the receiver now owes. Otherwise the
/// receiver waits.
pub open spec fn recv_step(k: KernelModel, current: TcbId, cptr: CPtr, regs: Registers) -> Step {
    match endpoint_named(k, current, cptr, Rights::read()) {
        Err(error) => k.refused(regs, error),
        Ok((id, _)) => if !abi::fits(regs.tag, 1) {
            k.refused(regs, SyscallError::TruncatedMessage)
        } else {
            match k.endpoint(id) {
                None => k.refused(regs, SyscallError::InvalidCapability),
                Some(EndpointModel::Send(waiters)) => received(k, current, id, waiters, regs),
                Some(endpoint) => k.blocked_on(
                    id,
                    EndpointModel::Recv(endpoint.waiting().push(current)),
                    current,
                    ThreadState::BlockedRecv { endpoint: id, dest_slot: regs.named_slot(1) },
                    regs,
                ),
            }
        },
    }
}

/// `current` receives from the first of the `waiters` on the endpoint `id`.
pub open spec fn received(
    k: KernelModel,
    current: TcbId,
    id: EndpointId,
    waiters: Seq<TcbId>,
    regs: Registers,
) -> Step {
    match k.tcb(waiters[0]) {
        None => k.refused(regs, SyscallError::FailedLookup),
        Some(sender) => match sender.state {
            ThreadState::BlockedSend { badge, is_call, extra_cap, reply_dest_slot, .. } => {
                let incoming = message(sender.context, badge, extra_cap, reply_dest_slot);
                match k.transferred(current, regs.named_slot(1), extra_cap) {
                    Err(error) => k.refused(regs, error),
                    Ok(after) => {
                        let taken = after.with_endpoint(
                            id,
                            EndpointModel::Send(waiters.skip(1)).normalized(),
                        );
                        if is_call {
                            taken.with_reply_to(current, Some(waiters[0])).with_state(
                                waiters[0],
                                ThreadState::BlockedReply { dest_slot: reply_dest_slot },
                            )
                        } else {
                            taken.made_ready(waiters[0])
                        }.done(regs.receiving(incoming))
                    },
                }
            },
            _ => k.refused(regs, SyscallError::IllegalOperation),
        },
    }
}

/// A call. With a receiver waiting, the message is delivered, the receiver owes a reply,
/// and runs at once; otherwise the caller waits for one. Either way the caller goes on
/// only once it has been replied to.
pub open spec fn call_step(k: KernelModel, current: TcbId, cptr: CPtr, regs: Registers) -> Step {
    match outgoing(k, current, cptr, regs, 2) {
        Err(error) => k.refused(regs, error),
        Ok((id, message)) => match k.endpoint(id) {
            None => k.refused(regs, SyscallError::InvalidCapability),
            Some(EndpointModel::Recv(waiters)) => match k.handed_over(id, waiters, message) {
                Err(error) => k.refused(regs, error),
                Ok(after) => after.with_reply_to(waiters[0], Some(current)).with_state(
                    current,
                    ThreadState::BlockedReply { dest_slot: message.reply_slot },
                ).switched(regs, waiters[0]),
            },
            Some(endpoint) => k.blocked_on(
                id,
                EndpointModel::Send(endpoint.waiting().push(current)),
                current,
                sending(id, message, true),
                regs,
            ),
        },
    }
}

/// A reply to the call that `current` received last and has not answered. The caller
/// gets the words, with zero for a badge, and runs at once; `current` becomes ready.
pub open spec fn reply_step(k: KernelModel, current: TcbId, regs: Registers) -> Step {
    if !abi::fits(regs.tag, 1) {
        k.refused(regs, SyscallError::TruncatedMessage)
    } else {
        match attached(k, current, regs) {
            Err(error) => k.refused(regs, error),
            Ok(cap) => match k.reply_target(current) {
                None => k.refused(regs, SyscallError::IllegalOperation),
                Some(target) => match k.transferred(target, k.reply_slot(target), cap) {
                    Err(error) => k.refused(regs, error),
                    Ok(after) => {
                        let consumed = after.with_reply_to(current, None);
                        match consumed.tcb(target) {
                            None => consumed.refused(regs, SyscallError::IllegalOperation),
                            Some(_) => consumed.delivered(
                                target,
                                message(regs, 0, cap, None),
                            ).made_ready(current).switched(regs, target),
                        }
                    },
                },
            },
        }
    }
}

impl KernelModel {
    /// The thread that `current` owes a reply.
    pub open spec fn reply_target(self, current: TcbId) -> Option<TcbId> {
        match self.tcb(current) {
            Some(tcb) => tcb.reply_to,
            None => None,
        }
    }
}

/// The notification that `cptr` designates to `thread`, and the badge, provided that the
/// capability grants `required`.
pub open spec fn notification_named(
    k: KernelModel,
    thread: TcbId,
    cptr: CPtr,
    required: Rights,
) -> Result<(NotificationId, u64), SyscallError> {
    match k.lookup(thread, cptr) {
        Ok(Capability::Notification { id, badge, rights }) => if rights.contains(required) {
            Ok((id, badge))
        } else {
            Err(SyscallError::IllegalOperation)
        },
        Ok(_) => Err(SyscallError::InvalidCapability),
        Err(error) => Err(error),
    }
}

/// A signal. The badge joins the pending bits; a waiting thread takes all of them and
/// becomes ready.
pub open spec fn signal_step(k: KernelModel, current: TcbId, cptr: CPtr, regs: Registers) -> Step {
    match notification_named(k, current, cptr, Rights::write()) {
        Err(error) => k.refused(regs, error),
        Ok((id, badge)) => match k.notification(id) {
            None => k.refused(regs, SyscallError::InvalidCapability),
            Some(n) => if n.waiters.len() == 0 {
                k.with_notification(
                    id,
                    NotificationModel { signals: n.signals | badge, ..n },
                ).done(regs)
            } else {
                let woken = n.waiters[0];
                k.with_notification(
                    id,
                    NotificationModel { signals: 0, waiters: n.waiters.skip(1) },
                ).with_signals(woken, n.signals | badge).made_ready(woken).done(regs)
            },
        },
    }
}

impl KernelModel {
    /// The kernel after `signals` were written into the saved `mr0` of `thread`.
    pub open spec fn with_signals(self, thread: TcbId, signals: u64) -> KernelModel {
        match self.tcb(thread) {
            Some(tcb) => self.with_context(thread, tcb.context.with_mr(0, signals as usize)),
            None => self,
        }
    }

    /// The kernel after all pending bits of a notification were taken.
    pub open spec fn with_signals_taken(self, id: NotificationId) -> KernelModel {
        match self.notification(id) {
            Some(n) => self.with_notification(id, NotificationModel { signals: 0, ..n }),
            None => self,
        }
    }
}

/// A wait. Pending bits are taken at once; with none, the thread waits for a signal.
pub open spec fn wait_step(k: KernelModel, current: TcbId, cptr: CPtr, regs: Registers) -> Step {
    match notification_named(k, current, cptr, Rights::read()) {
        Err(error) => k.refused(regs, error),
        Ok((id, _)) => match k.notification(id) {
            None => k.refused(regs, SyscallError::InvalidCapability),
            Some(n) => if n.signals != 0 {
                k.with_signals_taken(id).done(regs.with_mr(0, n.signals as usize))
            } else if k.ready.len() == 0 {
                k.refused(regs, SyscallError::Timeout)
            } else if n.waiters.len() >= MAX_TCBS {
                k.refused(regs, SyscallError::NotEnoughMemory)
            } else {
                k.with_notification(
                    id,
                    NotificationModel { waiters: n.waiters.push(current), ..n },
                ).with_state(current, ThreadState::BlockedWait(id)).yielded(regs)
            },
        },
    }
}

/// A poll. Whatever bits are pending, none included, are taken.
pub open spec fn poll_step(k: KernelModel, current: TcbId, cptr: CPtr, regs: Registers) -> Step {
    match notification_named(k, current, cptr, Rights::read()) {
        Err(error) => k.refused(regs, error),
        Ok((id, _)) => match k.notification(id) {
            None => k.refused(regs, SyscallError::InvalidCapability),
            Some(n) => k.with_signals_taken(id).done(regs.with_mr(0, n.signals as usize)),
        },
    }
}

/// Resolves `cptr` as the capability to attach to a message, which takes the right to
/// grant it.
fn resolve_transferable_cap(state: &KernelState, thread: TcbId, cptr: CPtr) -> (cap: Result<
    Capability,
    SyscallError,
>)
    ensures
        cap == transferable(state@, thread, cptr),
{
    let cap = state.lookup_cap(thread, cptr)?;
    if !cap.rights().contains(Rights::grant()) {
        return Err(SyscallError::IllegalOperation);
    }
    Ok(cap)
}

/// The capability that `current` attaches, if it attaches one.
fn extract_extra_cap(
    state: &KernelState,
    current: TcbId,
    frame: &TrapFrame,
    tag: MessageTag,
) -> (cap: Result<Option<Capability>, SyscallError>)
    requires
        tag == frame@.tag,
    ensures
        cap == attached(state@, current, frame@),
{
    if tag.extra_caps == 1 {
        match resolve_transferable_cap(state, current, frame.mr(1)) {
            Ok(cap) => Ok(Some(cap)),
            Err(error) => Err(error),
        }
    } else {
        Ok(None)
    }
}

/// Where a caller wants a capability that comes with the reply.
fn call_reply_dest_slot(frame: &TrapFrame, tag: MessageTag) -> (dest: Option<CPtr>)
    requires
        tag == frame@.tag,
    ensures
        dest == frame@.named_slot(2),
{
    if tag.extra_caps == 2 {
        Some(frame.mr(1))
    } else {
        None
    }
}

/// The words that a message delivers. `mr1` is spent where it named a slot.
fn payload_words(frame: &TrapFrame, mr1_spent: bool) -> (words: (usize, usize, usize))
    ensures
        words == payload(frame@, mr1_spent),
{
    if mr1_spent {
        (0, frame.mr(2), frame.mr(3))
    } else {
        (frame.mr(1), frame.mr(2), frame.mr(3))
    }
}

/// Writes `cap` into slot `dest` of `receiver`'s CSpace, if that slot is empty. This is
/// the one place where a transferred capability lands.
fn place_transferred_cap(
    state: &mut KernelState,
    receiver: TcbId,
    dest: CPtr,
    cap: Capability,
) -> (result: Result<(), SyscallError>)
    requires
        old(state).wf(),
    ensures
        final(state).wf(),
        match old(state)@.placed(receiver, dest, cap) {
            Ok(after) => result == Ok::<(), SyscallError>(()) && final(state)@ == after,
            Err(error) => result == Err::<(), SyscallError>(error) && final(state)@ == old(state)@,
        },
{
    broadcast use group_views;

    let cspace = match state.tcbs.get(receiver.0 as usize) {
        Some(tcb) => tcb.cspace,
        None => return Err(SyscallError::FailedLookup),
    };
    let cspace = match cspace {
        Some(id) => id,
        None => return Err(SyscallError::FailedLookup),
    };
    let cnode = match state.cnodes.get_mut(cspace.0 as usize) {
        Some(cnode) => cnode,
        None => return Err(SyscallError::FailedLookup),
    };
    let slot = match cnode.slot_mut(dest) {
        Some(slot) => slot,
        None => return Err(SyscallError::RangeError),
    };
    if *slot != Capability::Null {
        proof {
            let slots = old(state)@.cnode(cspace)->Some_0;
            assert(slots.update(dest as int, slots[dest as int]) =~= slots);
            assert(state@ =~= old(state)@);
        }
        return Err(SyscallError::IllegalOperation);
    }
    *slot = cap;
    Ok(())
}

/// Lands the capability of a message, if it has one, in the slot `dest` that `receiver`
/// has named.
fn transfer(
    state: &mut KernelState,
    receiver: TcbId,
    dest: Option<CPtr>,
    cap: Option<Capability>,
) -> (result: Result<(), SyscallError>)
    requires
        old(state).wf(),
    ensures
        final(state).wf(),
        match old(state)@.transferred(receiver, dest, cap) {
            Ok(after) => result == Ok::<(), SyscallError>(()) && final(state)@ == after,
            Err(error) => result == Err::<(), SyscallError>(error) && final(state)@ == old(state)@,
        },
{
    match cap {
        Some(cap) => match dest {
            Some(dest) => place_transferred_cap(state, receiver, dest, cap),
            None => Err(SyscallError::IllegalOperation),
        },
        None => Ok(()),
    }
}

/// The slot that a blocked receiver has named.
fn blocked_receiver_dest_slot(state: &KernelState, receiver: TcbId) -> (dest: Option<CPtr>)
    ensures
        dest == state@.receive_slot(receiver),
{
    broadcast use group_views;

    match state.tcbs.get(receiver.0 as usize) {
        Some(tcb) => match tcb.state {
            ThreadState::BlockedRecv { dest_slot, .. } => dest_slot,
            _ => None,
        },
        None => None,
    }
}

/// The slot that a blocked caller has named for the reply.
fn blocked_caller_reply_dest_slot(state: &KernelState, caller: TcbId) -> (dest: Option<CPtr>)
    ensures
        dest == state@.reply_slot(caller),
{
    broadcast use group_views;

    match state.tcbs.get(caller.0 as usize) {
        Some(tcb) => match tcb.state {
            ThreadState::BlockedReply { dest_slot } => dest_slot,
            _ => None,
        },
        None => None,
    }
}

fn set_endpoint_queue(state: &mut KernelState, id: EndpointId, queue: EndpointQueue)
    requires
        old(state).wf(),
        queue.ring_wf(),
        queue@.wf(),
    ensures
        final(state).wf(),
        final(state)@ == old(state)@.with_endpoint(id, queue@),
{
    broadcast use {group_views, Pool::lemma_capacity};

    if let Some(endpoint) = state.endpoints.get_mut(id.0 as usize) {
        endpoint.queue = queue;
    }
}

/// Turns a queue that has run empty into the uniform "nobody waits".
fn normalize(queue: EndpointQueue) -> (normal: EndpointQueue)
    requires
        queue.ring_wf(),
    ensures
        normal.ring_wf(),
        normal@.wf(),
        normal@ == queue@.normalized(),
{
    broadcast use ArrayQueue::lemma_capacity;

    match queue {
        EndpointQueue::Send(q) => if q.is_empty() {
            EndpointQueue::Empty
        } else {
            EndpointQueue::Send(q)
        },
        EndpointQueue::Recv(q) => if q.is_empty() {
            EndpointQueue::Empty
        } else {
            EndpointQueue::Recv(q)
        },
        EndpointQueue::Empty => EndpointQueue::Empty,
    }
}

/// Writes a message into the saved registers of `target`.
fn deliver_payload(state: &mut KernelState, target: TcbId, message: Message)
    requires
        old(state).wf(),
    ensures
        final(state).wf(),
        final(state)@ == old(state)@.delivered(target, message),
{
    broadcast use {group_views, SavedContext::lemma_wf};

    if let Some(tcb) = state.tcbs.get_mut(target.0 as usize) {
        let ghost before = tcb.context@;
        tcb.context.set_mr(0, message.badge as usize);
        tcb.context.set_mr(1, message.mr1);
        tcb.context.set_mr(2, message.mr2);
        tcb.context.set_mr(3, message.mr3);
        tcb.context.set_tag(message.tag);
        proof {
            assert(tcb.context@ =~= before.receiving(message));
        }
    }
}

/// Resolves `cptr` as an endpoint on which `current` has the `required` rights.
fn resolve_endpoint(
    state: &KernelState,
    current: TcbId,
    cptr: CPtr,
    required: Rights,
) -> (endpoint: Result<(EndpointId, u64), SyscallError>)
    ensures
        endpoint == endpoint_named(state@, current, cptr, required),
{
    match state.lookup_cap(current, cptr)? {
        Capability::Endpoint { id, badge, rights } => if rights.contains(required) {
            Ok((id, badge))
        } else {
            Err(SyscallError::IllegalOperation)
        },
        _ => Err(SyscallError::InvalidCapability),
    }
}

/// Takes the first of the `waiters`, who wait to receive from the endpoint `id`, and
/// gives it `message`. The capability lands before the queue is touched: a receiver
/// that cannot take it stays where it is, and nothing is lost.
fn hand_over(
    state: &mut KernelState,
    id: EndpointId,
    waiters: ArrayQueue<TcbId, MAX_TCBS>,
    message: Message,
) -> (receiver: Result<TcbId, SyscallError>)
    requires
        old(state).wf(),
        waiters.wf(),
        waiters@.len() > 0,
    ensures
        final(state).wf(),
        match old(state)@.handed_over(id, waiters@, message) {
            Ok(after) => receiver == Ok::<TcbId, SyscallError>(waiters@[0]) && final(state)@
                == after,
            Err(error) => receiver == Err::<TcbId, SyscallError>(error) && final(state)@ == old(
                state,
            )@,
        },
{
    let mut waiters = waiters;
    let receiver = match waiters.front() {
        Some(receiver) => receiver,
        None => return Err(SyscallError::IllegalOperation),
    };
    let dest = blocked_receiver_dest_slot(state, receiver);
    transfer(state, receiver, dest, message.cap)?;
    waiters.pop_front();
    set_endpoint_queue(state, id, normalize(EndpointQueue::Recv(waiters)));
    deliver_payload(state, receiver, message);
    Ok(receiver)
}

/// Puts `current`, in the state `blocked`, behind the `waiters` on one side of the
/// endpoint `id`, and lets the next ready thread run.
fn block_on(
    state: &mut KernelState,
    id: EndpointId,
    waiters: ArrayQueue<TcbId, MAX_TCBS>,
    sends: bool,
    current: TcbId,
    blocked: ThreadState,
    frame: &mut TrapFrame,
) -> (result: Result<(), SyscallError>)
    requires
        old(state).wf(),
        waiters.wf(),
    ensures
        final(state).wf(),
        (Step { kernel: final(state)@, regs: final(frame)@, result }) == old(state)@.blocked_on(
            id,
            if sends {
                EndpointModel::Send(waiters@.push(current))
            } else {
                EndpointModel::Recv(waiters@.push(current))
            },
            current,
            blocked,
            old(frame)@,
        ),
{
    if !state.scheduler.has_ready() {
        return Err(SyscallError::Timeout);
    }
    let mut waiters = waiters;
    if !waiters.push_back(current) {
        return Err(SyscallError::NotEnoughMemory);
    }
    let queue = if sends {
        EndpointQueue::Send(waiters)
    } else {
        EndpointQueue::Recv(waiters)
    };
    set_endpoint_queue(state, id, queue);
    state.set_thread_state(current, blocked);
    state.block_current(frame);
    Ok(())
}

/// Sends a message through the endpoint that `cptr` names. `nonblocking` tells what
/// happens where nobody is receiving: the message is dropped, or the sender blocks.
pub fn send(
    state: &mut KernelState,
    current: TcbId,
    cptr: CPtr,
    frame: &mut TrapFrame,
    nonblocking: bool,
) -> (result: Result<(), SyscallError>)
    requires
        old(state).wf(),
    ensures
        final(state).wf(),
        (Step { kernel: final(state)@, regs: final(frame)@, result }) == send_step(
            old(state)@,
            current,
            cptr,
            old(frame)@,
            nonblocking,
        ),
{
    broadcast use {group_views, Pool::lemma_capacity};

    let (id, badge) = resolve_endpoint(state, current, cptr, Rights::write())?;
    let tag = frame.tag();
    abi::require_fast_path_only(tag)?;
    let cap = extract_extra_cap(state, current, frame, tag)?;
    let (mr1, mr2, mr3) = payload_words(frame, cap.is_some());
    let message = Message { badge, mr1, mr2, mr3, tag, cap, reply_slot: None };
    let endpoint = match state.endpoints.get(id.0 as usize) {
        Some(endpoint) => *endpoint,
        None => return Err(SyscallError::InvalidCapability),
    };
    let waiters = match endpoint.queue {
        EndpointQueue::Recv(waiters) => {
            let receiver = hand_over(state, id, waiters, message)?;
            state.make_ready(receiver);
            abi::reply_success(frame);
            return Ok(());
        },
        EndpointQueue::Send(waiters) => waiters,
        EndpointQueue::Empty => ArrayQueue::new(),
    };
    if nonblocking {
        abi::reply_success(frame);
        return Ok(());
    }
    let blocked = ThreadState::BlockedSend {
        endpoint: id,
        badge,
        is_call: false,
        extra_cap: cap,
        reply_dest_slot: None,
    };
    block_on(state, id, waiters, true, current, blocked, frame)
}

/// Receives a message from the endpoint that `cptr` names.
pub fn recv(
    state: &mut KernelState,
    current: TcbId,
    cptr: CPtr,
    frame: &mut TrapFrame,
) -> (result: Result<(), SyscallError>)
    requires
        old(state).wf(),
    ensures
        final(state).wf(),
        (Step { kernel: final(state)@, regs: final(frame)@, result }) == recv_step(
            old(state)@,
            current,
            cptr,
            old(frame)@,
        ),
{
    broadcast use {group_views, Pool::lemma_capacity, TrapFrame::lemma_wf, SavedContext::lemma_wf};

    let (id, _) = resolve_endpoint(state, current, cptr, Rights::read())?;
    let tag = frame.tag();
    abi::require_fast_path_only(tag)?;
    let dest_slot = if tag.extra_caps == 1 {
        Some(frame.mr(1))
    } else {
        None
    };
    let endpoint = match state.endpoints.get(id.0 as usize) {
        Some(endpoint) => *endpoint,
        None => return Err(SyscallError::InvalidCapability),
    };
    let waiters = match endpoint.queue {
        EndpointQueue::Send(waiters) => {
            return receive_from(state, current, id, waiters, dest_slot, frame);
        },
        EndpointQueue::Recv(waiters) => waiters,
        EndpointQueue::Empty => ArrayQueue::new(),
    };
    let blocked = ThreadState::BlockedRecv { endpoint: id, dest_slot };
    block_on(state, id, waiters, false, current, blocked, frame)
}

/// Receives from the first of the `waiters`, who wait to send through the endpoint `id`.
/// As in `hand_over`, the capability lands before the queue is touched.
fn receive_from(
    state: &mut KernelState,
    current: TcbId,
    id: EndpointId,
    waiters: ArrayQueue<TcbId, MAX_TCBS>,
    dest_slot: Option<CPtr>,
    frame: &mut TrapFrame,
) -> (result: Result<(), SyscallError>)
    requires
        old(state).wf(),
        waiters.wf(),
        waiters@.len() > 0,
        dest_slot == old(frame)@.named_slot(1),
    ensures
        final(state).wf(),
        (Step { kernel: final(state)@, regs: final(frame)@, result }) == received(
            old(state)@,
            current,
            id,
            waiters@,
            old(frame)@,
        ),
{
    broadcast use {group_views, Pool::lemma_capacity, TrapFrame::lemma_wf, SavedContext::lemma_wf};

    let mut waiters = waiters;
    let sender = match waiters.front() {
        Some(sender) => sender,
        None => return Err(SyscallError::FailedLookup),
    };
    let tcb = match state.tcbs.get(sender.0 as usize) {
        Some(tcb) => *tcb,
        None => return Err(SyscallError::FailedLookup),
    };
    match tcb.state {
        ThreadState::BlockedSend { badge, is_call, extra_cap, reply_dest_slot, .. } => {
            transfer(state, current, dest_slot, extra_cap)?;
            waiters.pop_front();
            set_endpoint_queue(state, id, normalize(EndpointQueue::Send(waiters)));
            let payload = tcb.context;
            frame.set_mr(0, badge as usize);
            let spent = extra_cap.is_some() || reply_dest_slot.is_some();
            frame.set_mr(1, if spent { 0 } else { payload.mr(1) });
            frame.set_mr(2, payload.mr(2));
            frame.set_mr(3, payload.mr(3));
            frame.set_tag(payload.tag());
            proof {
                let incoming = message(payload@, badge, extra_cap, reply_dest_slot);
                assert(frame@ =~= old(frame)@.receiving(incoming));
            }
            abi::reply_success(frame);
            if is_call {
                if let Some(receiver) = state.tcbs.get_mut(current.0 as usize) {
                    receiver.reply_to = Some(sender);
                }
                state.set_thread_state(
                    sender,
                    ThreadState::BlockedReply { dest_slot: reply_dest_slot },
                );
            } else {
                state.make_ready(sender);
            }
            Ok(())
        },
        // Nobody else gets into this queue, but no syscall may panic over it.
        _ => Err(SyscallError::IllegalOperation),
    }
}

/// Sends a message and blocks for the reply. The receiver's reply link to the caller is
/// the one-shot capability to answer.
pub fn call(
    state: &mut KernelState,
    current: TcbId,
    cptr: CPtr,
    frame: &mut TrapFrame,
) -> (result: Result<(), SyscallError>)
    requires
        old(state).wf(),
    ensures
        final(state).wf(),
        (Step { kernel: final(state)@, regs: final(frame)@, result }) == call_step(
            old(state)@,
            current,
            cptr,
            old(frame)@,
        ),
{
    broadcast use {group_views, Pool::lemma_capacity};

    let (id, badge) = resolve_endpoint(state, current, cptr, Rights::write())?;
    let tag = frame.tag();
    abi::require_call_tag(tag)?;
    let cap = extract_extra_cap(state, current, frame, tag)?;
    let reply_slot = call_reply_dest_slot(frame, tag);
    let (mr1, mr2, mr3) = payload_words(frame, cap.is_some() || reply_slot.is_some());
    let message = Message { badge, mr1, mr2, mr3, tag, cap, reply_slot };
    let endpoint = match state.endpoints.get(id.0 as usize) {
        Some(endpoint) => *endpoint,
        None => return Err(SyscallError::InvalidCapability),
    };
    let waiters = match endpoint.queue {
        EndpointQueue::Recv(waiters) => {
            let receiver = hand_over(state, id, waiters, message)?;
            if let Some(tcb) = state.tcbs.get_mut(receiver.0 as usize) {
                tcb.reply_to = Some(current);
            }
            state.set_thread_state(current, ThreadState::BlockedReply { dest_slot: reply_slot });
            state.switch_to(frame, receiver);
            return Ok(());
        },
        EndpointQueue::Send(waiters) => waiters,
        EndpointQueue::Empty => ArrayQueue::new(),
    };
    let blocked = ThreadState::BlockedSend {
        endpoint: id,
        badge,
        is_call: true,
        extra_cap: cap,
        reply_dest_slot: reply_slot,
    };
    block_on(state, id, waiters, true, current, blocked, frame)
}

/// Replies to the call that this thread received last and has not answered. No
/// capability is invoked, and `mr0` is not read. An attached capability lands before the
/// reply link is consumed: a caller that cannot take it can still be replied to.
pub fn reply(state: &mut KernelState, current: TcbId, frame: &mut TrapFrame) -> (result: Result<
    (),
    SyscallError,
>)
    requires
        old(state).wf(),
    ensures
        final(state).wf(),
        (Step { kernel: final(state)@, regs: final(frame)@, result }) == reply_step(
            old(state)@,
            current,
            old(frame)@,
        ),
{
    broadcast use {group_views, Pool::lemma_capacity};

    let tag = frame.tag();
    abi::require_fast_path_only(tag)?;
    let cap = extract_extra_cap(state, current, frame, tag)?;
    let (mr1, mr2, mr3) = payload_words(frame, cap.is_some());
    let message = Message { badge: 0, mr1, mr2, mr3, tag, cap, reply_slot: None };
    let reply_to = match state.tcbs.get(current.0 as usize) {
        Some(tcb) => tcb.reply_to,
        None => return Err(SyscallError::IllegalOperation),
    };
    let target = match reply_to {
        Some(target) => target,
        None => return Err(SyscallError::IllegalOperation),
    };
    let dest = blocked_caller_reply_dest_slot(state, target);
    transfer(state, target, dest, cap)?;
    if let Some(tcb) = state.tcbs.get_mut(current.0 as usize) {
        tcb.reply_to = None;
    }
    if state.tcbs.get(target.0 as usize).is_none() {
        return Err(SyscallError::IllegalOperation);
    }
    deliver_payload(state, target, message);
    state.make_ready(current);
    state.switch_to(frame, target);
    Ok(())
}

/// Resolves `cptr` as a notification on which `current` has the `required` rights.
fn resolve_notification(
    state: &KernelState,
    current: TcbId,
    cptr: CPtr,
    required: Rights,
) -> (notification: Result<(NotificationId, u64), SyscallError>)
    ensures
        notification == notification_named(state@, current, cptr, required),
{
    match state.lookup_cap(current, cptr)? {
        Capability::Notification { id, badge, rights } => if rights.contains(required) {
            Ok((id, badge))
        } else {
            Err(SyscallError::IllegalOperation)
        },
        _ => Err(SyscallError::InvalidCapability),
    }
}

/// Adds the badge of the notification capability that `cptr` names to the pending bits,
/// and wakes a thread that waits for them. Never blocks.
pub fn signal(
    state: &mut KernelState,
    current: TcbId,
    cptr: CPtr,
    frame: &mut TrapFrame,
) -> (result: Result<(), SyscallError>)
    requires
        old(state).wf(),
    ensures
        final(state).wf(),
        (Step { kernel: final(state)@, regs: final(frame)@, result }) == signal_step(
            old(state)@,
            current,
            cptr,
            old(frame)@,
        ),
{
    broadcast use {group_views, Pool::lemma_capacity};

    let (id, badge) = resolve_notification(state, current, cptr, Rights::write())?;
    let notification = match state.notifications.get(id.0 as usize) {
        Some(notification) => *notification,
        None => return Err(SyscallError::InvalidCapability),
    };
    let signals = notification.signals | badge;
    let mut waiters = notification.waiters;
    match waiters.pop_front() {
        Some(waiter) => {
            if let Some(n) = state.notifications.get_mut(id.0 as usize) {
                n.waiters = waiters;
                n.signals = 0;
            }
            if let Some(tcb) = state.tcbs.get_mut(waiter.0 as usize) {
                tcb.context.set_mr(0, signals as usize);
            }
            state.make_ready(waiter);
        },
        None => {
            if let Some(n) = state.notifications.get_mut(id.0 as usize) {
                n.signals = signals;
            }
        },
    }
    abi::reply_success(frame);
    Ok(())
}

/// Takes the pending bits of a notification, all at once.
fn take_signals(state: &mut KernelState, id: NotificationId)
    requires
        old(state).wf(),
    ensures
        final(state).wf(),
        final(state)@ == old(state)@.with_signals_taken(id),
{
    broadcast use {group_views, Pool::lemma_capacity};

    if let Some(n) = state.notifications.get_mut(id.0 as usize) {
        n.signals = 0;
    }
}

/// Takes the pending bits of the notification that `cptr` names into `mr0`, or blocks
/// until there are some.
pub fn wait(
    state: &mut KernelState,
    current: TcbId,
    cptr: CPtr,
    frame: &mut TrapFrame,
) -> (result: Result<(), SyscallError>)
    requires
        old(state).wf(),
    ensures
        final(state).wf(),
        (Step { kernel: final(state)@, regs: final(frame)@, result }) == wait_step(
            old(state)@,
            current,
            cptr,
            old(frame)@,
        ),
{
    broadcast use {group_views, Pool::lemma_capacity};

    let (id, _) = resolve_notification(state, current, cptr, Rights::read())?;
    let notification = match state.notifications.get(id.0 as usize) {
        Some(notification) => *notification,
        None => return Err(SyscallError::InvalidCapability),
    };
    if notification.signals != 0 {
        frame.set_mr(0, notification.signals as usize);
        take_signals(state, id);
        abi::reply_success(frame);
        return Ok(());
    }
    if !state.scheduler.has_ready() {
        return Err(SyscallError::Timeout);
    }
    let mut waiters = notification.waiters;
    if !waiters.push_back(current) {
        return Err(SyscallError::NotEnoughMemory);
    }
    if let Some(n) = state.notifications.get_mut(id.0 as usize) {
        n.waiters = waiters;
    }
    state.set_thread_state(current, ThreadState::BlockedWait(id));
    state.block_current(frame);
    Ok(())
}

/// Takes the pending bits of the notification that `cptr` names into `mr0`, which reads
/// zero where there are none. Never blocks.
pub fn poll(
    state: &mut KernelState,
    current: TcbId,
    cptr: CPtr,
    frame: &mut TrapFrame,
) -> (result: Result<(), SyscallError>)
    requires
        old(state).wf(),
    ensures
        final(state).wf(),
        (Step { kernel: final(state)@, regs: final(frame)@, result }) == poll_step(
            old(state)@,
            current,
            cptr,
            old(frame)@,
        ),
{
    broadcast use {group_views, Pool::lemma_capacity};

    let (id, _) = resolve_notification(state, current, cptr, Rights::read())?;
    let signals: u64 = match state.notifications.get(id.0 as usize) {
        Some(notification) => notification.signals,
        None => return Err(SyscallError::InvalidCapability),
    };
    take_signals(state, id);
    frame.set_mr(0, signals as usize);
    abi::reply_success(frame);
    Ok(())
}

} // verus!
