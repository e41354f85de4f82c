//! What holds of the kernel between traps: every thread stands in exactly the queue that
//! its state names, once, and every reply link leads to a thread that waits for a reply.

use vstd::prelude::*;

use crate::admin::{configuration, configure_step, retype_request, retype_step};
use crate::cap::{
    CPtr, Capability, EndpointId, NotificationId, ObjectType, Rights, TcbId, UntypedId,
};
use crate::cnode;
use crate::error::SyscallError;
use crate::frame;
use crate::ipc::{
    attached, call_step, endpoint_named, message, notification_named, outgoing, poll_step, received,
    recv_step, reply_step, send_step, sending, signal_step, wait_step, Message,
};
use crate::limits::MAX_TCBS;
use crate::model::KernelModel;
use crate::object::{EndpointModel, NotificationModel, TcbModel, ThreadState, Untyped};
use crate::pool::{first_free, is_first_free, law_first_free_exists};
use crate::syscall::{syscall_step, translated_step, trap_step, yield_step, SyscallNumber};
use crate::trap::Registers;

verus! {

/// Where a thread can be found. A thread that was never configured, or that waits for a
/// reply, is in no queue.
pub enum Place {
    Nowhere,
    Ready,
    Running,
    Sending(EndpointId),
    Receiving(EndpointId),
    Waiting(NotificationId),
}

pub open spec fn place_of(state: ThreadState) -> Place {
    match state {
        ThreadState::Inactive => Place::Nowhere,
        ThreadState::Ready => Place::Ready,
        ThreadState::Running => Place::Running,
        ThreadState::BlockedSend { endpoint, .. } => Place::Sending(endpoint),
        ThreadState::BlockedRecv { endpoint, .. } => Place::Receiving(endpoint),
        ThreadState::BlockedReply { .. } => Place::Nowhere,
        ThreadState::BlockedWait(id) => Place::Waiting(id),
    }
}

impl KernelModel {
    /// Who is listed at a place.
    pub open spec fn listed(self, place: Place) -> Seq<TcbId> {
        match place {
            Place::Nowhere => Seq::empty(),
            Place::Ready => self.ready,
            Place::Running => match self.current {
                Some(current) => seq![current],
                None => Seq::empty(),
            },
            Place::Sending(id) => match self.endpoint(id) {
                Some(EndpointModel::Send(waiters)) => waiters,
                _ => Seq::empty(),
            },
            Place::Receiving(id) => match self.endpoint(id) {
                Some(EndpointModel::Recv(waiters)) => waiters,
                _ => Seq::empty(),
            },
            Place::Waiting(id) => match self.notification(id) {
                Some(notification) => notification.waiters,
                None => Seq::empty(),
            },
        }
    }

    /// Whether the thread `id` exists and its state says that it is at `place`.
    pub open spec fn is_at(self, id: TcbId, place: Place) -> bool {
        self.tcb(id) matches Some(tcb) && place_of(tcb.state) == place
    }

    /// Whether the thread `id` exists and waits for a reply.
    pub open spec fn awaits_reply(self, id: TcbId) -> bool {
        self.tcb(id) matches Some(tcb) && tcb.state is BlockedReply
    }

    /// Every thread is listed where its state says, once, and nowhere else.
    pub open spec fn placed_once(self) -> bool {
        forall|place: Place|
            place != Place::Nowhere ==> #[trigger] self.is_placed(place)
    }

    pub open spec fn is_placed(self, place: Place) -> bool {
        &&& self.listed(place).no_duplicates()
        &&& forall|id: TcbId| self.listed(place).contains(id) <==> #[trigger] self.is_at(id, place)
    }

    /// A thread owes a reply only to a thread that waits for one, and no two threads owe
    /// the same.
    pub open spec fn links_sound(self) -> bool {
        &&& forall|id: TcbId|
            (#[trigger] self.reply_target(id)) matches Some(caller) ==> self.awaits_reply(caller)
        &&& forall|a: TcbId, b: TcbId|
            #![trigger self.reply_target(a), self.reply_target(b)]
            self.reply_target(a) is Some && self.reply_target(a) == self.reply_target(b) ==> a == b
    }

    /// Nobody waits for a signal that is already pending.
    pub open spec fn signals_taken(self) -> bool {
        forall|id: NotificationId|
            (#[trigger] self.notification(id)) matches Some(n) ==> n.signals == 0
                || n.waiters.len() == 0
    }

    /// What holds between traps.
    pub open spec fn consistent(self) -> bool {
        &&& self.wf()
        &&& self.placed_once()
        &&& self.links_sound()
        &&& self.signals_taken()
    }
}

/// A kernel without objects is consistent.
pub proof fn law_initial_is_consistent()
    ensures
        KernelModel::initial().consistent(),
{
    let k = KernelModel::initial();
    assert(k.wf());
    assert forall|place: Place| place != Place::Nowhere implies #[trigger] k.is_placed(place) by {
        assert(k.listed(place) =~= Seq::empty());
    }
}

proof fn lemma_distinct_ids(q: Seq<TcbId>, bound: nat)
    requires
        q.no_duplicates(),
        forall|i: int| 0 <= i < q.len() ==> (#[trigger] q[i]).0 < bound,
    ensures
        q.len() <= bound,
    decreases bound,
{
    if q.len() > 0 {
        if bound == 0 {
            assert(q[0].0 < 0);
        } else {
            let last = TcbId((bound - 1) as u16);
            if q.contains(last) {
                let i = q.index_of(last);
                let rest = q.remove(i);
                assert(q[i].0 < bound);
                assert forall|j: int| 0 <= j < rest.len() implies (#[trigger] rest[j]).0 < bound - 1 by {
                    let original = if j < i {
                        j
                    } else {
                        j + 1
                    };
                    assert(rest[j] == q[original]);
                    assert(q[original] != q[i]);
                }
                assert forall|a: int, b: int|
                    0 <= a < rest.len() && 0 <= b < rest.len() && a != b implies rest[a] != rest[b] by {
                    assert(rest[a] == q[if a < i { a } else { a + 1 }]);
                    assert(rest[b] == q[if b < i { b } else { b + 1 }]);
                }
                lemma_distinct_ids(rest, (bound - 1) as nat);
            } else {
                assert forall|j: int| 0 <= j < q.len() implies (#[trigger] q[j]).0 < bound - 1 by {
                    assert(q.contains(q[j]));
                }
                lemma_distinct_ids(q, (bound - 1) as nat);
            }
        }
    }
}

/// A queue of distinct threads holds at most as many as there can be, and fewer where one
/// is missing from it.
proof fn lemma_room(k: KernelModel, place: Place, other: TcbId)
    requires
        k.wf(),
        place != Place::Nowhere,
        k.is_placed(place),
        k.tcb(other) is Some,
        !k.is_at(other, place),
    ensures
        k.listed(place).len() < MAX_TCBS,
        !k.listed(place).contains(other),
{
    let q = k.listed(place);
    assert(!q.contains(other));
    let more = q.push(other);
    assert forall|i: int| 0 <= i < more.len() implies (#[trigger] more[i]).0 < MAX_TCBS by {
        if i < q.len() {
            assert(q.contains(q[i]));
            assert(k.is_at(q[i], place));
        }
    }
    assert forall|a: int, b: int|
        0 <= a < more.len() && 0 <= b < more.len() && a != b implies more[a] != more[b] by {
        if a < q.len() && b < q.len() {
            assert(q[a] != q[b]);
        } else if a < q.len() {
            assert(q.contains(q[a]));
        } else {
            assert(q.contains(q[b]));
        }
    }
    lemma_distinct_ids(more, MAX_TCBS as nat);
}

/// No queue of a consistent kernel is ever too short for a thread that has to join it:
/// waking a thread always puts it into the ready queue, and blocking never fails for want
/// of room.
pub proof fn law_there_is_always_room(k: KernelModel, place: Place, joining: TcbId)
    requires
        k.consistent(),
        place != Place::Nowhere,
        k.tcb(joining) is Some,
        !k.is_at(joining, place),
    ensures
        k.listed(place).len() < MAX_TCBS,
        !k.listed(place).contains(joining),
{
    assert(k.is_placed(place));
    lemma_room(k, place, joining);
}

impl KernelModel {
    /// The state of the thread `id`, where it exists.
    pub open spec fn state_of(self, id: TcbId) -> Option<ThreadState> {
        match self.tcb(id) {
            Some(tcb) => Some(tcb.state),
            None => None,
        }
    }

    /// Nothing that consistency rests on has changed.
    spec fn same_placement(self, after: KernelModel) -> bool {
        &&& after.wf()
        &&& forall|id: TcbId| #[trigger] after.state_of(id) == self.state_of(id)
        &&& forall|id: TcbId| #[trigger] after.reply_target(id) == self.reply_target(id)
        &&& forall|place: Place| #[trigger] after.listed(place) == self.listed(place)
        &&& after.signals_taken()
    }

    /// `id` left the head of the place `from` for the end of the place `to`, and nobody
    /// else moved.
    spec fn moved(self, after: KernelModel, id: TcbId, from: Place, to: Place) -> bool {
        &&& from != to
        &&& self.is_at(id, from)
        &&& after.is_at(id, to)
        &&& forall|other: TcbId|
            other != id ==> #[trigger] after.state_of(other) == self.state_of(other)
        &&& from != Place::Nowhere ==> self.listed(from).len() > 0 && self.listed(from)[0] == id
            && after.listed(from) == self.listed(from).skip(1)
        &&& to != Place::Nowhere ==> after.listed(to) == self.listed(to).push(id)
        &&& forall|place: Place|
            place != from && place != to ==> #[trigger] after.listed(place) == self.listed(place)
    }
}

/// Consistency rests on the states, the reply links and the queues alone.
proof fn lemma_same_placement(k: KernelModel, after: KernelModel)
    requires
        k.consistent(),
        k.same_placement(after),
    ensures
        after.consistent(),
{
    assert forall|place: Place| place != Place::Nowhere implies #[trigger] after.is_placed(place) by {
        assert(k.is_placed(place));
        assert(after.listed(place) == k.listed(place));
        assert forall|id: TcbId| after.listed(place).contains(id) <==> #[trigger] after.is_at(id, place) by {
            assert(after.state_of(id) == k.state_of(id));
            assert(k.is_at(id, place) == after.is_at(id, place));
        }
    }
    assert forall|id: TcbId| (#[trigger] after.reply_target(id)) matches Some(caller) implies
        after.awaits_reply(after.reply_target(id)->0) by {
        let caller = after.reply_target(id)->0;
        assert(k.reply_target(id) == Some(caller));
        assert(after.state_of(caller) == k.state_of(caller));
    }
    assert forall|a: TcbId, b: TcbId|
        #![trigger after.reply_target(a), after.reply_target(b)]
        after.reply_target(a) is Some && after.reply_target(a) == after.reply_target(b) implies a == b by {
        assert(k.reply_target(a) == after.reply_target(a));
        assert(k.reply_target(b) == after.reply_target(b));
    }
}

proof fn lemma_head_left(q: Seq<TcbId>)
    requires
        q.no_duplicates(),
        q.len() > 0,
    ensures
        q.skip(1).no_duplicates(),
        forall|id: TcbId| #[trigger] q.skip(1).contains(id) <==> q.contains(id) && id != q[0],
{
    let rest = q.skip(1);
    assert forall|id: TcbId| #[trigger] rest.contains(id) <==> q.contains(id) && id != q[0] by {
        if rest.contains(id) {
            let i = choose|i: int| 0 <= i < rest.len() && rest[i] == id;
            assert(rest[i] == q[i + 1]);
        }
        if q.contains(id) && id != q[0] {
            let i = choose|i: int| 0 <= i < q.len() && q[i] == id;
            assert(rest[i - 1] == q[i]);
        }
    }
}

proof fn lemma_tail_joined(q: Seq<TcbId>, joined: TcbId)
    requires
        q.no_duplicates(),
        !q.contains(joined),
    ensures
        q.push(joined).no_duplicates(),
        forall|id: TcbId| #[trigger] q.push(joined).contains(id) <==> q.contains(id) || id == joined,
{
    let more = q.push(joined);
    assert forall|id: TcbId| #[trigger] more.contains(id) <==> q.contains(id) || id == joined by {
        if q.contains(id) {
            let i = choose|i: int| 0 <= i < q.len() && q[i] == id;
            assert(more[i] == id);
        }
        assert(more[q.len() as int] == joined);
    }
    assert forall|a: int, b: int|
        0 <= a < more.len() && 0 <= b < more.len() && a != b implies more[a] != more[b] by {
        if a < q.len() {
            assert(q.contains(q[a]));
        }
        if b < q.len() {
            assert(q.contains(q[b]));
        }
    }
}

/// What is pending rests on the notifications alone.
proof fn lemma_same_signals(k: KernelModel, after: KernelModel)
    requires
        k.signals_taken(),
        after.notifications == k.notifications,
    ensures
        after.signals_taken(),
{
    assert forall|id: NotificationId| (#[trigger] after.notification(id)) matches Some(n) implies
        after.notification(id)->0.signals == 0 || after.notification(id)->0.waiters.len() == 0 by {
        assert(after.notification(id) == k.notification(id));
    }
}

/// A thread that moves from the head of one queue to the end of another leaves every
/// thread listed where its state says.
proof fn lemma_moved(k: KernelModel, after: KernelModel, id: TcbId, from: Place, to: Place)
    requires
        k.placed_once(),
        k.moved(after, id, from, to),
    ensures
        after.placed_once(),
{
    assert forall|place: Place| place != Place::Nowhere implies #[trigger] after.is_placed(place) by {
        assert(k.is_placed(place));
        let q = k.listed(place);
        if place == from {
            lemma_head_left(q);
        } else if place == to {
            assert(!k.is_at(id, to));
            lemma_tail_joined(q, id);
        } else {
            assert(after.listed(place) == q);
        }
        assert forall|other: TcbId| after.listed(place).contains(other) <==> #[trigger] after.is_at(
            other,
            place,
        ) by {
            if other != id {
                assert(after.state_of(other) == k.state_of(other));
                assert(k.is_at(other, place) == after.is_at(other, place));
            } else {
                assert(k.is_at(id, place) <==> place == from);
            }
        }
    }
}

impl KernelModel {
    /// No reply link was made, and whoever waited for a reply still does.
    spec fn links_kept(self, after: KernelModel) -> bool {
        &&& forall|id: TcbId|
            #![trigger after.reply_target(id)]
            after.reply_target(id) == self.reply_target(id) || after.reply_target(id) is None
        &&& forall|id: TcbId| #[trigger] self.awaits_reply(id) ==> after.awaits_reply(id)
    }

    /// `server` owes `caller`, who did not wait for a reply before, a reply.
    spec fn link_made(self, after: KernelModel, server: TcbId, caller: TcbId) -> bool {
        &&& !self.awaits_reply(caller)
        &&& after.awaits_reply(caller)
        &&& after.reply_target(server) == Some(caller)
        &&& forall|id: TcbId|
            id != server ==> #[trigger] after.reply_target(id) == self.reply_target(id)
        &&& forall|id: TcbId| #[trigger] self.awaits_reply(id) ==> after.awaits_reply(id)
    }

    /// `server` has answered `caller`.
    spec fn link_used(self, after: KernelModel, server: TcbId, caller: TcbId) -> bool {
        &&& self.reply_target(server) == Some(caller)
        &&& after.reply_target(server) is None
        &&& forall|id: TcbId|
            id != server ==> #[trigger] after.reply_target(id) == self.reply_target(id)
        &&& forall|id: TcbId|
            #[trigger] self.awaits_reply(id) ==> id == caller || after.awaits_reply(id)
    }
}

proof fn lemma_links(k: KernelModel, after: KernelModel, server: TcbId, caller: TcbId)
    requires
        k.links_sound(),
        k.links_kept(after) || k.link_made(after, server, caller) || k.link_used(
            after,
            server,
            caller,
        ),
    ensures
        after.links_sound(),
{
    assert forall|id: TcbId| (#[trigger] after.reply_target(id)) matches Some(target) implies
        after.awaits_reply(after.reply_target(id)->0) by {
        let target = after.reply_target(id)->0;
        if k.link_made(after, server, caller) && id == server {
        } else {
            assert(k.reply_target(id) == Some(target));
            assert(k.awaits_reply(target));
            if k.link_used(after, server, caller) && target == caller {
                assert(k.reply_target(server) == Some(target));
                assert(id == server);
            }
        }
    }
    assert forall|a: TcbId, b: TcbId|
        #![trigger after.reply_target(a), after.reply_target(b)]
        after.reply_target(a) is Some && after.reply_target(a) == after.reply_target(b) implies a == b by {
        let (was_a, was_b) = (k.reply_target(a), k.reply_target(b));
        if k.link_made(after, server, caller) {
            if was_a == Some(caller) || was_b == Some(caller) {
                assert(k.awaits_reply(caller));
            }
        }
    }
}

/// `current` blocks in `state`, which lists it at `to`, and the next ready thread runs.
proof fn lemma_blocked(
    k: KernelModel,
    listed: KernelModel,
    current: TcbId,
    state: ThreadState,
    regs: Registers,
)
    requires
        k.consistent(),
        k.current == Some(current),
        k.ready.len() > 0,
        regs.wf(),
        listed.wf(),
        listed.tcbs == k.tcbs,
        listed.ready == k.ready,
        listed.current == k.current,
        listed.signals_taken(),
        place_of(state) is Sending || place_of(state) is Receiving || place_of(state) is Waiting,
        forall|place: Place|
            place != place_of(state) ==> #[trigger] listed.listed(place) == k.listed(place),
        listed.listed(place_of(state)) == k.listed(place_of(state)).push(current),
    ensures
        listed.with_state(current, state).yielded(regs).kernel.consistent(),
{
    let to = place_of(state);
    let entered = listed.with_state(current, state);
    let put_away = KernelModel { current: None, ..entered };
    let after = entered.yielded(regs).kernel;
    let next = k.ready[0];
    assert(k.is_placed(Place::Running));
    assert(k.listed(Place::Running).contains(current)) by {
        assert(k.listed(Place::Running)[0] == current);
    }
    assert(k.is_at(current, Place::Running));
    assert(k.is_placed(Place::Ready));
    assert(k.listed(Place::Ready).contains(next));
    assert(k.is_at(next, Place::Ready));
    assert(next != current);
    assert(k.moved(put_away, current, Place::Running, to)) by {
        assert forall|other: TcbId| other != current implies #[trigger] put_away.state_of(other)
            == k.state_of(other) by {}
        assert forall|place: Place| place != Place::Running && place != to implies
            #[trigger] put_away.listed(place) == k.listed(place) by {
            assert(listed.listed(place) == k.listed(place));
        }
        assert(put_away.listed(Place::Running) =~= k.listed(Place::Running).skip(1));
    }
    lemma_moved(k, put_away, current, Place::Running, to);
    assert(put_away.moved(after, next, Place::Ready, Place::Running)) by {
        assert(put_away.is_at(next, Place::Ready));
        assert(after.listed(Place::Running) =~= put_away.listed(Place::Running).push(next));
        assert forall|other: TcbId| other != next implies #[trigger] after.state_of(other)
            == put_away.state_of(other) by {}
    }
    lemma_moved(put_away, after, next, Place::Ready, Place::Running);
    assert(k.links_kept(after));
    lemma_links(k, after, current, current);
    assert(after.wf());
    lemma_same_signals(listed, after);
}

/// The running thread is where it should be.
pub(crate) proof fn lemma_current(k: KernelModel, current: TcbId)
    requires
        k.consistent(),
        k.current == Some(current),
    ensures
        k.is_at(current, Place::Running),
        !k.awaits_reply(current),
{
    assert(k.is_placed(Place::Running));
    assert(k.listed(Place::Running)[0] == current);
    assert(k.listed(Place::Running).contains(current));
    assert(k.is_at(current, Place::Running));
}

/// Whoever is first at a place is there by its state.
pub(crate) proof fn lemma_first(k: KernelModel, place: Place)
    requires
        k.consistent(),
        place != Place::Nowhere,
        k.listed(place).len() > 0,
    ensures
        k.is_at(k.listed(place)[0], place),
{
    assert(k.is_placed(place));
    assert(k.listed(place).contains(k.listed(place)[0]));
}

proof fn lemma_blocked_on(
    k: KernelModel,
    id: EndpointId,
    side: EndpointModel,
    current: TcbId,
    state: ThreadState,
    regs: Registers,
)
    requires
        k.consistent(),
        k.current == Some(current),
        regs.wf(),
        k.endpoint(id) matches Some(endpoint) && match place_of(state) {
            Place::Sending(e) => e == id && !(endpoint is Recv) && side == EndpointModel::Send(
                endpoint.waiting().push(current),
            ),
            Place::Receiving(e) => e == id && !(endpoint is Send) && side == EndpointModel::Recv(
                endpoint.waiting().push(current),
            ),
            _ => false,
        },
    ensures
        k.blocked_on(id, side, current, state, regs).kernel.consistent(),
        k.blocked_on(id, side, current, state, regs).result
            != Err::<(), SyscallError>(SyscallError::NotEnoughMemory),
{
    let to = place_of(state);
    let listed = k.with_endpoint(id, side);
    lemma_current(k, current);
    law_there_is_always_room(k, to, current);
    assert(k.listed(to) =~= k.endpoint(id)->0.waiting());
    if k.ready.len() > 0 {
        assert forall|place: Place| place != to implies #[trigger] listed.listed(place)
            == k.listed(place) by {
            assert(listed.listed(place) =~= k.listed(place));
        }
        lemma_same_signals(k, listed);
        lemma_blocked(k, listed, current, state, regs);
    }
}

/// The first of those who wait at `from` was taken off, and becomes ready.
proof fn lemma_woken(k: KernelModel, taken: KernelModel, from: Place)
    requires
        k.consistent(),
        from is Sending || from is Receiving || from is Waiting,
        k.listed(from).len() > 0,
        taken.wf(),
        taken.ready == k.ready,
        taken.current == k.current,
        taken.signals_taken(),
        forall|id: TcbId| #[trigger] taken.state_of(id) == k.state_of(id),
        forall|id: TcbId| #[trigger] taken.reply_target(id) == k.reply_target(id),
        taken.listed(from) == k.listed(from).skip(1),
        forall|place: Place| place != from ==> #[trigger] taken.listed(place) == k.listed(place),
    ensures
        taken.made_ready(k.listed(from)[0]).consistent(),
        taken.made_ready(k.listed(from)[0]).ready == k.ready.push(k.listed(from)[0]),
{
    let id = k.listed(from)[0];
    let after = taken.made_ready(id);
    lemma_first(k, from);
    law_there_is_always_room(k, Place::Ready, id);
    assert(taken.state_of(id) == k.state_of(id));
    assert(k.moved(after, id, from, Place::Ready)) by {
        assert forall|other: TcbId| other != id implies #[trigger] after.state_of(other)
            == k.state_of(other) by {
            assert(taken.state_of(other) == k.state_of(other));
        }
        assert forall|place: Place| place != from && place != Place::Ready implies
            #[trigger] after.listed(place) == k.listed(place) by {
            assert(taken.listed(place) == k.listed(place));
        }
        assert(after.listed(from) == taken.listed(from));
    }
    lemma_moved(k, after, id, from, Place::Ready);
    assert(k.links_kept(after)) by {
        assert forall|x: TcbId| #![trigger after.reply_target(x)] after.reply_target(x) == k.reply_target(x) by {
            assert(taken.reply_target(x) == k.reply_target(x));
        }
        assert forall|x: TcbId| #[trigger] k.awaits_reply(x) implies after.awaits_reply(x) by {
            assert(taken.state_of(x) == k.state_of(x));
        }
    }
    lemma_links(k, after, id, id);
    assert(after.wf());
    lemma_same_signals(taken, after);
}

/// A capability on its way touches CNodes only.
proof fn lemma_transferred(
    k: KernelModel,
    receiver: TcbId,
    dest: Option<CPtr>,
    cap: Option<Capability>,
)
    requires
        k.wf(),
    ensures
        k.transferred(receiver, dest, cap) matches Ok(after) ==> after.wf() && after == (
        KernelModel { cnodes: after.cnodes, ..k }),
{
}

/// The first of the receivers got its message, and is on its way out of the queue.
proof fn lemma_handed_over(k: KernelModel, id: EndpointId, waiters: Seq<TcbId>, message: Message)
    requires
        k.consistent(),
        k.endpoint(id) == Some(EndpointModel::Recv(waiters)),
    ensures
        k.listed(Place::Receiving(id)) == waiters,
        waiters.len() > 0,
        k.is_at(waiters[0], Place::Receiving(id)),
        k.handed_over(id, waiters, message) matches Ok(after) ==> {
            &&& after.wf()
            &&& after.ready == k.ready
            &&& after.current == k.current
            &&& after.notifications == k.notifications
            &&& after.signals_taken()
            &&& forall|x: TcbId| #[trigger] after.state_of(x) == k.state_of(x)
            &&& forall|x: TcbId| #[trigger] after.reply_target(x) == k.reply_target(x)
            &&& after.listed(Place::Receiving(id)) == waiters.skip(1)
            &&& forall|place: Place|
                place != Place::Receiving(id) ==> #[trigger] after.listed(place) == k.listed(place)
        },
{
    let receiver = waiters[0];
    lemma_first(k, Place::Receiving(id));
    lemma_transferred(k, receiver, k.receive_slot(receiver), message.cap);
    if let Ok(after) = k.handed_over(id, waiters, message) {
        let placed = k.transferred(receiver, k.receive_slot(receiver), message.cap)->Ok_0;
        assert(after.listed(Place::Receiving(id)) =~= waiters.skip(1));
        assert forall|place: Place| place != Place::Receiving(id) implies #[trigger] after.listed(
            place,
        ) == k.listed(place) by {
            assert(after.listed(place) =~= k.listed(place));
        }
        lemma_same_signals(k, after);
    }
}

proof fn lemma_send(k: KernelModel, current: TcbId, cptr: CPtr, regs: Registers, nonblocking: bool)
    requires
        k.consistent(),
        k.current == Some(current),
        regs.wf(),
    ensures
        send_step(k, current, cptr, regs, nonblocking).kernel.consistent(),
        send_step(k, current, cptr, regs, nonblocking).result
            != Err::<(), SyscallError>(SyscallError::NotEnoughMemory),
{
    if let Ok((id, message)) = outgoing(k, current, cptr, regs, 1) {
        match k.endpoint(id) {
            None => {},
            Some(EndpointModel::Recv(waiters)) => {
                lemma_handed_over(k, id, waiters, message);
                if let Ok(after) = k.handed_over(id, waiters, message) {
                    lemma_woken(k, after, Place::Receiving(id));
                }
            },
            Some(endpoint) => {
                lemma_blocked_on(
                    k,
                    id,
                    EndpointModel::Send(endpoint.waiting().push(current)),
                    current,
                    sending(id, message, false),
                    regs,
                );
            },
        }
    }
}

proof fn lemma_received(
    k: KernelModel,
    current: TcbId,
    id: EndpointId,
    waiters: Seq<TcbId>,
    regs: Registers,
)
    requires
        k.consistent(),
        k.current == Some(current),
        regs.wf(),
        k.endpoint(id) == Some(EndpointModel::Send(waiters)),
    ensures
        received(k, current, id, waiters, regs).kernel.consistent(),
        received(k, current, id, waiters, regs).result
            != Err::<(), SyscallError>(SyscallError::NotEnoughMemory),
{
    let from = Place::Sending(id);
    let first = waiters[0];
    assert(k.listed(from) == waiters);
    lemma_first(k, from);
    lemma_current(k, current);
    let sender = k.tcb(first)->0;
    if let ThreadState::BlockedSend { badge, is_call, extra_cap, reply_dest_slot, .. } = sender.state {
        lemma_transferred(k, current, regs.named_slot(1), extra_cap);
        if let Ok(placed) = k.transferred(current, regs.named_slot(1), extra_cap) {
            let taken = placed.with_endpoint(id, EndpointModel::Send(waiters.skip(1)).normalized());
            assert(taken.listed(from) =~= waiters.skip(1));
            assert forall|place: Place| place != from implies #[trigger] taken.listed(place)
                == k.listed(place) by {
                assert(taken.listed(place) =~= k.listed(place));
            }
            lemma_same_signals(k, taken);
            if is_call {
                let state = ThreadState::BlockedReply { dest_slot: reply_dest_slot };
                let after = taken.with_reply_to(current, Some(first)).with_state(first, state);
                assert(k.moved(after, first, from, Place::Nowhere)) by {
                    assert forall|place: Place| place != from implies #[trigger] after.listed(place)
                        == k.listed(place) by {
                        assert(after.listed(place) == taken.listed(place));
                    }
                    assert(after.listed(from) == taken.listed(from));
                }
                lemma_moved(k, after, first, from, Place::Nowhere);
                assert(k.link_made(after, current, first));
                lemma_links(k, after, current, first);
                assert(after.wf());
                lemma_same_signals(k, after);
            } else {
                lemma_woken(k, taken, from);
            }
        }
    }
}

proof fn lemma_recv(k: KernelModel, current: TcbId, cptr: CPtr, regs: Registers)
    requires
        k.consistent(),
        k.current == Some(current),
        regs.wf(),
    ensures
        recv_step(k, current, cptr, regs).kernel.consistent(),
        recv_step(k, current, cptr, regs).result
            != Err::<(), SyscallError>(SyscallError::NotEnoughMemory),
{
    if let Ok((id, _)) = endpoint_named(k, current, cptr, Rights::read()) {
        match k.endpoint(id) {
            None => {},
            Some(EndpointModel::Send(waiters)) => {
                lemma_received(k, current, id, waiters, regs);
            },
            Some(endpoint) => {
                lemma_blocked_on(
                    k,
                    id,
                    EndpointModel::Recv(endpoint.waiting().push(current)),
                    current,
                    ThreadState::BlockedRecv { endpoint: id, dest_slot: regs.named_slot(1) },
                    regs,
                );
            },
        }
    }
}

proof fn lemma_call(k: KernelModel, current: TcbId, cptr: CPtr, regs: Registers)
    requires
        k.consistent(),
        k.current == Some(current),
        regs.wf(),
    ensures
        call_step(k, current, cptr, regs).kernel.consistent(),
        call_step(k, current, cptr, regs).result
            != Err::<(), SyscallError>(SyscallError::NotEnoughMemory),
{
    lemma_current(k, current);
    if let Ok((id, message)) = outgoing(k, current, cptr, regs, 2) {
        match k.endpoint(id) {
            None => {},
            Some(EndpointModel::Recv(waiters)) => {
                lemma_handed_over(k, id, waiters, message);
                if let Ok(handed) = k.handed_over(id, waiters, message) {
                    let server = waiters[0];
                    let from = Place::Receiving(id);
                    let state = ThreadState::BlockedReply { dest_slot: message.reply_slot };
                    let called = handed.with_reply_to(server, Some(current)).with_state(
                        current,
                        state,
                    );
                    let after = called.switched(regs, server).kernel;
                    let between = KernelModel { current: None, ..k.with_state(current, state) };
                    assert(server != current);
                    assert(handed.state_of(server) == k.state_of(server));
                    assert(handed.state_of(current) == k.state_of(current));
                    assert(k.moved(between, current, Place::Running, Place::Nowhere)) by {
                        assert(between.listed(Place::Running) =~= k.listed(Place::Running).skip(1));
                    }
                    lemma_moved(k, between, current, Place::Running, Place::Nowhere);
                    assert(between.moved(after, server, from, Place::Running)) by {
                        assert forall|other: TcbId| other != server implies
                            #[trigger] after.state_of(other) == between.state_of(other) by {
                            assert(handed.state_of(other) == k.state_of(other));
                        }
                        assert(after.listed(from) == handed.listed(from));
                        assert(after.listed(Place::Running) =~= between.listed(Place::Running).push(
                            server,
                        ));
                        assert forall|place: Place| place != from && place != Place::Running implies
                            #[trigger] after.listed(place) == between.listed(place) by {
                            assert(handed.listed(place) == k.listed(place));
                            assert(after.listed(place) == handed.listed(place));
                            assert(between.listed(place) == k.listed(place));
                        }
                    }
                    lemma_moved(between, after, server, from, Place::Running);
                    assert(k.link_made(after, server, current)) by {
                        assert forall|x: TcbId| x != server implies #[trigger] after.reply_target(x)
                            == k.reply_target(x) by {
                            assert(handed.reply_target(x) == k.reply_target(x));
                        }
                        assert forall|x: TcbId| #[trigger] k.awaits_reply(x) implies
                            after.awaits_reply(x) by {
                            assert(handed.state_of(x) == k.state_of(x));
                        }
                    }
                    lemma_links(k, after, server, current);
                    assert(after.wf());
                    lemma_same_signals(k, after);
                }
            },
            Some(endpoint) => {
                lemma_blocked_on(
                    k,
                    id,
                    EndpointModel::Send(endpoint.waiting().push(current)),
                    current,
                    sending(id, message, true),
                    regs,
                );
            },
        }
    }
}

proof fn lemma_reply(k: KernelModel, current: TcbId, regs: Registers)
    requires
        k.consistent(),
        k.current == Some(current),
        regs.wf(),
    ensures
        reply_step(k, current, regs).kernel.consistent(),
{
    lemma_current(k, current);
    if let Ok(cap) = attached(k, current, regs) {
        if let Some(target) = k.reply_target(current) {
            assert(k.awaits_reply(target));
            assert(target != current);
            lemma_transferred(k, target, k.reply_slot(target), cap);
            if let Ok(placed) = k.transferred(target, k.reply_slot(target), cap) {
                let consumed = placed.with_reply_to(current, None);
                let answer = message(regs, 0, cap, None);
                let delivered = consumed.delivered(target, answer);
                let between = KernelModel { current: None, ..delivered.made_ready(current) };
                let after = delivered.made_ready(current).switched(regs, target).kernel;
                law_there_is_always_room(k, Place::Ready, current);
                assert(k.moved(between, current, Place::Running, Place::Ready)) by {
                    assert(between.listed(Place::Running) =~= k.listed(Place::Running).skip(1));
                }
                lemma_moved(k, between, current, Place::Running, Place::Ready);
                assert(between.moved(after, target, Place::Nowhere, Place::Running)) by {
                    assert(after.listed(Place::Running) =~= between.listed(Place::Running).push(
                        target,
                    ));
                }
                lemma_moved(between, after, target, Place::Nowhere, Place::Running);
                assert(k.link_used(after, current, target));
                lemma_links(k, after, current, target);
                assert(after.wf());
                lemma_same_signals(k, after);
            }
        }
    }
}

proof fn lemma_signal(k: KernelModel, current: TcbId, cptr: CPtr, regs: Registers)
    requires
        k.consistent(),
        k.current == Some(current),
        regs.wf(),
    ensures
        signal_step(k, current, cptr, regs).kernel.consistent(),
{
    if let Ok((id, badge)) = notification_named(k, current, cptr, Rights::write()) {
        if let Some(n) = k.notification(id) {
            let from = Place::Waiting(id);
            if n.waiters.len() == 0 {
                let after = signal_step(k, current, cptr, regs).kernel;
                assert(after.signals_taken()) by {
                    assert forall|x: NotificationId| (#[trigger] after.notification(x)) matches Some(_) implies
                        after.notification(x)->0.signals == 0
                        || after.notification(x)->0.waiters.len() == 0 by {
                        assert(k.notification(x) is Some);
                    }
                }
                lemma_same_placement(k, after);
            } else {
                let woken = n.waiters[0];
                let taken = k.with_notification(
                    id,
                    NotificationModel { signals: 0, waiters: n.waiters.skip(1) },
                ).with_signals(woken, n.signals | badge);
                assert(k.listed(from) == n.waiters);
                assert(taken.signals_taken()) by {
                    assert forall|x: NotificationId| (#[trigger] taken.notification(x)) matches Some(_) implies
                        taken.notification(x)->0.signals == 0
                        || taken.notification(x)->0.waiters.len() == 0 by {
                        assert(k.notification(x) is Some);
                    }
                }
                lemma_woken(k, taken, from);
            }
        }
    }
}

/// Taking what is pending moves nobody.
proof fn lemma_signals_taken(k: KernelModel, id: NotificationId)
    requires
        k.consistent(),
    ensures
        k.with_signals_taken(id).consistent(),
{
    let after = k.with_signals_taken(id);
    assert(after.signals_taken()) by {
        assert forall|x: NotificationId| (#[trigger] after.notification(x)) matches Some(_) implies
            after.notification(x)->0.signals == 0 || after.notification(x)->0.waiters.len() == 0 by {
            assert(k.notification(x) is Some);
        }
    }
    lemma_same_placement(k, after);
}

proof fn lemma_wait(k: KernelModel, current: TcbId, cptr: CPtr, regs: Registers)
    requires
        k.consistent(),
        k.current == Some(current),
        regs.wf(),
    ensures
        wait_step(k, current, cptr, regs).kernel.consistent(),
        wait_step(k, current, cptr, regs).result
            != Err::<(), SyscallError>(SyscallError::NotEnoughMemory),
{
    lemma_current(k, current);
    if let Ok((id, _)) = notification_named(k, current, cptr, Rights::read()) {
        if let Some(n) = k.notification(id) {
            lemma_signals_taken(k, id);
            let to = Place::Waiting(id);
            law_there_is_always_room(k, to, current);
            let listed = k.with_notification(
                id,
                NotificationModel { waiters: n.waiters.push(current), ..n },
            );
            if n.signals == 0 && k.ready.len() > 0 {
                assert(listed.signals_taken()) by {
                    assert forall|x: NotificationId| (#[trigger] listed.notification(x)) matches Some(_) implies
                        listed.notification(x)->0.signals == 0
                        || listed.notification(x)->0.waiters.len() == 0 by {
                        assert(k.notification(x) is Some);
                    }
                }
                assert forall|place: Place| place != to implies #[trigger] listed.listed(place)
                    == k.listed(place) by {}
                lemma_blocked(k, listed, current, ThreadState::BlockedWait(id), regs);
            }
        }
    }
}

proof fn lemma_poll(k: KernelModel, current: TcbId, cptr: CPtr, regs: Registers)
    requires
        k.consistent(),
        k.current == Some(current),
    ensures
        poll_step(k, current, cptr, regs).kernel.consistent(),
{
    if let Ok((id, _)) = notification_named(k, current, cptr, Rights::read()) {
        lemma_signals_taken(k, id);
    }
}

proof fn lemma_yield(k: KernelModel, current: TcbId, regs: Registers)
    requires
        k.consistent(),
        k.current == Some(current),
        regs.wf(),
    ensures
        yield_step(k, current, regs).kernel.consistent(),
{
    lemma_current(k, current);
    law_there_is_always_room(k, Place::Ready, current);
    let queued = k.made_ready(current);
    let between = KernelModel { current: None, ..queued };
    let after = queued.yielded(regs).kernel;
    let next = queued.ready[0];
    assert(k.moved(between, current, Place::Running, Place::Ready)) by {
        assert(between.listed(Place::Running) =~= k.listed(Place::Running).skip(1));
    }
    lemma_moved(k, between, current, Place::Running, Place::Ready);
    assert(between.is_at(next, Place::Ready)) by {
        assert(between.is_placed(Place::Ready));
        assert(between.listed(Place::Ready).contains(next));
    }
    assert(between.moved(after, next, Place::Ready, Place::Running)) by {
        assert(after.listed(Place::Running) =~= between.listed(Place::Running).push(next));
    }
    lemma_moved(between, after, next, Place::Ready, Place::Running);
    assert(k.links_kept(after));
    lemma_links(k, after, current, current);
    assert(after.wf());
    lemma_same_signals(k, after);
}

/// Capabilities and memory have no part in consistency.
proof fn lemma_same_threads(k: KernelModel, after: KernelModel)
    requires
        k.consistent(),
        after.wf(),
        after.tcbs == k.tcbs,
        after.endpoints == k.endpoints,
        after.notifications == k.notifications,
        after.ready == k.ready,
        after.current == k.current,
    ensures
        after.consistent(),
{
    lemma_same_signals(k, after);
    lemma_same_placement(k, after);
}

proof fn lemma_cnode_invoke(k: KernelModel, current: TcbId, cptr: CPtr, regs: Registers)
    requires
        k.consistent(),
    ensures
        cnode::invoke_step(k, current, cptr, regs).kernel.consistent(),
{
    let after = cnode::invoke_step(k, current, cptr, regs).kernel;
    assert(after.wf());
    lemma_same_threads(k, after);
}

/// A new thread is in no queue, and owes no reply.
proof fn lemma_thread_made(k: KernelModel, index: int)
    requires
        k.consistent(),
        is_first_free(k.tcbs, index),
    ensures
        (KernelModel { tcbs: k.tcbs.update(index, Some(TcbModel::fresh())), ..k }).consistent(),
{
    let after = KernelModel { tcbs: k.tcbs.update(index, Some(TcbModel::fresh())), ..k };
    assert(after.wf());
    assert forall|place: Place| place != Place::Nowhere implies #[trigger] after.is_placed(place) by {
        assert(k.is_placed(place));
        assert(after.listed(place) == k.listed(place));
        assert forall|id: TcbId| after.listed(place).contains(id) <==> #[trigger] after.is_at(id, place) by {
            assert(k.is_at(id, place) == after.is_at(id, place));
        }
    }
    assert(k.links_kept(after));
    lemma_links(k, after, TcbId(0), TcbId(0));
    lemma_same_signals(k, after);
}

/// Making an object keeps a kernel consistent, whoever makes it: nobody waits on it yet,
/// and a new thread does not run.
pub proof fn law_new_objects_keep_consistency(k: KernelModel, source: UntypedId, object_type: ObjectType)
    requires
        k.consistent(),
    ensures
        k.created(source, object_type).kernel.consistent(),
{
    let after = k.created(source, object_type).kernel;
    law_first_free_exists(k.tcbs);
    law_first_free_exists(k.cnodes);
    law_first_free_exists(k.endpoints);
    law_first_free_exists(k.notifications);
    law_first_free_exists(k.sched_contexts);
    law_first_free_exists(k.vspaces);
    law_first_free_exists(k.frames);
    match object_type {
        ObjectType::Tcb => if let Some(index) = first_free(k.tcbs) {
            lemma_thread_made(k, index);
        },
        ObjectType::Endpoint => {
            lemma_same_signals(k, after);
            assert(after.wf());
            assert forall|place: Place| #[trigger] after.listed(place) == k.listed(place) by {}
            lemma_same_placement(k, after);
        },
        ObjectType::Notification => {
            assert(after.signals_taken()) by {
                assert forall|x: NotificationId| (#[trigger] after.notification(x)) matches Some(_) implies
                    after.notification(x)->0.signals == 0
                    || after.notification(x)->0.waiters.len() == 0 by {
                    assert(k.notification(x) is Some || k.notification(x) is None);
                }
            }
            assert(after.wf());
            assert forall|place: Place| #[trigger] after.listed(place) == k.listed(place) by {
                assert(after.listed(place) =~= k.listed(place));
            }
            lemma_same_placement(k, after);
        },
        _ => {
            assert(after.wf());
            lemma_same_threads(k, after);
        },
    }
}

/// So does bringing in memory.
pub proof fn law_new_memory_keeps_consistency(k: KernelModel, index: int, untyped: Untyped)
    requires
        k.consistent(),
        is_first_free(k.untypeds, index),
    ensures
        (KernelModel { untypeds: k.untypeds.update(index, Some(untyped)), ..k }).consistent(),
{
    let after = KernelModel { untypeds: k.untypeds.update(index, Some(untyped)), ..k };
    assert(after.wf());
    lemma_same_threads(k, after);
}

proof fn lemma_retype(k: KernelModel, current: TcbId, cptr: CPtr, regs: Registers)
    requires
        k.consistent(),
    ensures
        retype_step(k, current, cptr, regs).kernel.consistent(),
{
    if let Ok((source, object_type, cspace)) = retype_request(k, current, cptr, regs) {
        law_new_objects_keep_consistency(k, source, object_type);
        let made = k.created(source, object_type);
        if let Ok(cap) = made.cap {
            let after = made.kernel.with_cap(cspace, regs.mrs[2], cap).charged(source);
            assert(after.wf());
            lemma_same_threads(made.kernel, after);
        }
    }
}

proof fn lemma_configure(k: KernelModel, current: TcbId, cptr: CPtr, regs: Registers)
    requires
        k.consistent(),
    ensures
        configure_step(k, current, cptr, regs).kernel.consistent(),
{
    let after = configure_step(k, current, cptr, regs).kernel;
    if let Ok(wanted) = configuration(k, current, cptr, regs) {
        if let Some(tcb) = k.tcb(wanted.target) {
            lemma_same_signals(k, after);
            assert(after.wf());
            if tcb.state == ThreadState::Inactive {
                law_there_is_always_room(k, Place::Ready, wanted.target);
                assert(k.moved(after, wanted.target, Place::Nowhere, Place::Ready));
                lemma_moved(k, after, wanted.target, Place::Nowhere, Place::Ready);
                assert(k.links_kept(after));
                lemma_links(k, after, wanted.target, wanted.target);
            } else {
                lemma_same_placement(k, after);
            }
        }
    }
}

proof fn lemma_frame_invoke(
    k: KernelModel,
    current: TcbId,
    cptr: CPtr,
    regs: Registers,
    translated: Option<usize>,
)
    requires
        k.consistent(),
    ensures
        frame::invoke_step(k, current, cptr, regs).kernel.consistent(),
        frame::map_step(k, current, cptr, regs, translated).kernel.consistent(),
{
    let first = frame::invoke_step(k, current, cptr, regs).kernel;
    assert(first.wf());
    lemma_same_threads(k, first);
    let second = frame::map_step(k, current, cptr, regs, translated).kernel;
    assert(second.wf());
    lemma_same_threads(k, second);
}

proof fn lemma_syscall(k: KernelModel, current: TcbId, syscall: SyscallNumber, regs: Registers)
    requires
        k.consistent(),
        k.current == Some(current),
        regs.wf(),
    ensures
        syscall_step(k, current, syscall, regs).kernel.consistent(),
        syscall_step(k, current, syscall, regs).kernel.current is Some,
{
    let cptr = regs.mrs[0];
    match syscall {
        SyscallNumber::Send => lemma_send(k, current, cptr, regs, false),
        SyscallNumber::NBSend => lemma_send(k, current, cptr, regs, true),
        SyscallNumber::Recv => lemma_recv(k, current, cptr, regs),
        SyscallNumber::Call => lemma_call(k, current, cptr, regs),
        SyscallNumber::Reply => lemma_reply(k, current, regs),
        SyscallNumber::Signal => lemma_signal(k, current, cptr, regs),
        SyscallNumber::Wait => lemma_wait(k, current, cptr, regs),
        SyscallNumber::Poll => lemma_poll(k, current, cptr, regs),
        SyscallNumber::CNodeInvoke => lemma_cnode_invoke(k, current, cptr, regs),
        SyscallNumber::UntypedRetype => lemma_retype(k, current, cptr, regs),
        SyscallNumber::TCBConfigure => lemma_configure(k, current, cptr, regs),
        SyscallNumber::Yield => lemma_yield(k, current, regs),
        SyscallNumber::FrameInvoke => lemma_frame_invoke(k, current, cptr, regs, None),
    }
}

/// Every trap leaves a consistent kernel consistent, whatever the registers ask for and
/// whatever the page tables hold, and a thread running if one was. So every thread is
/// always listed where its state says, once: none is lost, none waits in two places, and
/// one that was never configured does not run.
pub proof fn law_traps_keep_consistency(
    k: KernelModel,
    regs: Registers,
    translated: Option<usize>,
)
    requires
        k.consistent(),
        regs.wf(),
    ensures
        trap_step(k, regs).kernel.consistent(),
        translated_step(k, regs, translated).kernel.consistent(),
        k.current is Some ==> trap_step(k, regs).kernel.current is Some,
        k.current is Some ==> translated_step(k, regs, translated).kernel.current is Some,
{
    if let Some(current) = k.current {
        if let Some(syscall) = SyscallNumber::from_usize(regs.syscall_number) {
            lemma_syscall(k, current, syscall, regs);
        }
        lemma_frame_invoke(k, current, regs.mrs[0], regs, translated);
    }
}

/// The first thread of all, which nothing has configured yet, may simply be let run.
pub proof fn law_the_first_thread_may_run(k: KernelModel, id: TcbId)
    requires
        k.consistent(),
        k.current is None,
        k.state_of(id) == Some(ThreadState::Inactive),
    ensures
        k.resumed(id).consistent(),
        k.resumed(id).current == Some(id),
{
    let after = k.resumed(id);
    assert(k.moved(after, id, Place::Nowhere, Place::Running)) by {
        assert(after.listed(Place::Running) =~= k.listed(Place::Running).push(id));
    }
    lemma_moved(k, after, id, Place::Nowhere, Place::Running);
    assert(k.links_kept(after));
    lemma_links(k, after, id, id);
    assert(after.wf());
    lemma_same_signals(k, after);
}

/// In a consistent kernel no send, receive, call or wait runs out of memory.
pub proof fn law_blocking_needs_no_memory(
    k: KernelModel,
    current: TcbId,
    cptr: CPtr,
    regs: Registers,
    nonblocking: bool,
)
    requires
        k.consistent(),
        k.current == Some(current),
        regs.wf(),
    ensures
        send_step(k, current, cptr, regs, nonblocking).result
            != Err::<(), SyscallError>(SyscallError::NotEnoughMemory),
        recv_step(k, current, cptr, regs).result
            != Err::<(), SyscallError>(SyscallError::NotEnoughMemory),
        call_step(k, current, cptr, regs).result
            != Err::<(), SyscallError>(SyscallError::NotEnoughMemory),
        wait_step(k, current, cptr, regs).result
            != Err::<(), SyscallError>(SyscallError::NotEnoughMemory),
{
    lemma_send(k, current, cptr, regs, nonblocking);
    lemma_recv(k, current, cptr, regs);
    lemma_call(k, current, cptr, regs);
    lemma_wait(k, current, cptr, regs);
}

} // verus!
