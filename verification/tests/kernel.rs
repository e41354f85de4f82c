use lantern_kernel::cap::{
    CNode, CNodeId, CPtr, Capability, EndpointId, NotificationId, ObjectType, Rights, TcbId,
    UntypedId,
};
use lantern_kernel::cnode::{
    LABEL_COPY, LABEL_DELETE, LABEL_MINT, LABEL_MOVE,
};
use lantern_kernel::limits::{CNODE_SLOTS, MAX_ENDPOINTS};
use lantern_kernel::object::{Endpoint, EndpointQueue, Notification, Tcb, ThreadState, Untyped};
use lantern_kernel::state::KernelState;
use lantern_kernel::syscall::SyscallNumber;
use lantern_kernel::trap::{MessageTag, TrapFrame};
use lantern_kernel::{dispatch, SyscallError};

/// What every CSpace of the fixture has: an endpoint and a notification, both with all
/// rights and a badge that tells the thread, untyped memory without physical memory, and
/// the CSpace itself.
const ENDPOINT: CPtr = 1;
const NOTIFICATION: CPtr = 2;
const UNTYPED: CPtr = 3;
const SELF: CPtr = 4;

/// Three threads. The first runs, the others are ready, in order.
struct Fixture {
    state: KernelState,
    threads: [TcbId; 3],
}

fn fixture() -> Fixture {
    let mut state = KernelState::new();
    state.endpoints.allocate(Endpoint::new()).unwrap();
    state.notifications.allocate(Notification::new()).unwrap();
    state.untypeds.allocate(Untyped::new(20)).unwrap();
    let mut threads = [TcbId(0); 3];
    for i in 0..3 {
        let cnode = CNodeId(state.cnodes.allocate(CNode::empty()).unwrap() as u16);
        let slots = state.cnodes.get_mut(cnode.0 as usize).unwrap();
        let badge = 1 << i;
        *slots.slot_mut(ENDPOINT).unwrap() =
            Capability::Endpoint { id: EndpointId(0), badge, rights: Rights::all() };
        *slots.slot_mut(NOTIFICATION).unwrap() =
            Capability::Notification { id: NotificationId(0), badge, rights: Rights::all() };
        *slots.slot_mut(UNTYPED).unwrap() =
            Capability::Untyped { id: UntypedId(0), rights: Rights::all() };
        *slots.slot_mut(SELF).unwrap() = Capability::CNode(cnode);
        threads[i] = TcbId(state.tcbs.allocate(Tcb::new()).unwrap() as u16);
        state.tcbs.get_mut(threads[i].0 as usize).unwrap().cspace = Some(cnode);
    }
    let mut frame = TrapFrame::zeroed();
    state.enter_first(&mut frame, threads[0]);
    state.make_ready(threads[1]);
    state.make_ready(threads[2]);
    Fixture { state, threads }
}

fn trap(syscall: SyscallNumber, tag: MessageTag, mrs: [usize; 4]) -> TrapFrame {
    let mut frame = TrapFrame::zeroed();
    frame.set_syscall_number(syscall.number());
    frame.set_tag(tag);
    for i in 0..4 {
        frame.set_mr(i, mrs[i]);
    }
    frame
}

fn plain() -> MessageTag {
    MessageTag { label: 0, length: 0, extra_caps: 0, flags: 0 }
}

fn labelled(label: u32) -> MessageTag {
    MessageTag { label, length: 0, extra_caps: 0, flags: 0 }
}

fn carrying(extra_caps: u8) -> MessageTag {
    MessageTag { label: 0, length: 0, extra_caps, flags: 0 }
}

impl Fixture {
    fn trap(&mut self, syscall: SyscallNumber, tag: MessageTag, mrs: [usize; 4]) -> TrapFrame {
        let mut frame = trap(syscall, tag, mrs);
        dispatch(&mut self.state, &mut frame);
        frame
    }

    fn current(&self) -> TcbId {
        self.state.scheduler.current.unwrap()
    }

    fn state_of(&self, i: usize) -> ThreadState {
        self.state.tcbs.get(self.threads[i].0 as usize).unwrap().state
    }

    fn slot(&self, i: usize, cptr: CPtr) -> Capability {
        self.state.cnodes.get(i).unwrap().get(cptr).unwrap()
    }

    fn ready(&self) -> Vec<TcbId> {
        let mut queue = self.state.scheduler.ready;
        let mut ids = Vec::new();
        while let Some(id) = queue.pop_front() {
            ids.push(id);
        }
        ids
    }
}

fn failed_with(frame: &TrapFrame, error: SyscallError) -> bool {
    frame.tag().is_error() && frame.mr(0) == error.code()
}

#[test]
fn error_codes_are_one_to_nine() {
    let errors = [
        SyscallError::InvalidCapability,
        SyscallError::InvalidArgument,
        SyscallError::IllegalOperation,
        SyscallError::RangeError,
        SyscallError::AlignmentError,
        SyscallError::FailedLookup,
        SyscallError::TruncatedMessage,
        SyscallError::NotEnoughMemory,
        SyscallError::Timeout,
    ];
    for i in 0..9 {
        assert_eq!(errors[i].code(), i + 1);
    }
}

#[test]
fn syscall_numbers_are_one_to_thirteen() {
    for n in 1..14 {
        assert_eq!(SyscallNumber::from_usize(n).unwrap().number(), n);
    }
    assert!(SyscallNumber::from_usize(0).is_none());
    assert!(SyscallNumber::from_usize(14).is_none());
    assert_eq!(SyscallNumber::Send.number(), 1);
    assert_eq!(SyscallNumber::FrameInvoke.number(), 13);
}

#[test]
fn object_types_are_zero_to_eight() {
    assert_eq!(ObjectType::from_usize(0), Some(ObjectType::CNode));
    assert_eq!(ObjectType::from_usize(4), Some(ObjectType::Tcb));
    assert_eq!(ObjectType::from_usize(8), Some(ObjectType::FrameMega));
    assert_eq!(ObjectType::from_usize(9), None);
}

#[test]
fn a_capability_pointer_past_the_end_is_a_failed_lookup() {
    let mut f = fixture();
    let frame = f.trap(SyscallNumber::Send, plain(), [CNODE_SLOTS, 0, 0, 0]);
    assert!(failed_with(&frame, SyscallError::FailedLookup));
    let frame = f.trap(SyscallNumber::Send, plain(), [CNODE_SLOTS - 1, 0, 0, 0]);
    assert!(failed_with(&frame, SyscallError::InvalidCapability));
}

#[test]
fn a_thread_without_a_cspace_finds_nothing() {
    let mut f = fixture();
    f.state.tcbs.get_mut(0).unwrap().cspace = None;
    let frame = f.trap(SyscallNumber::Poll, plain(), [NOTIFICATION, 0, 0, 0]);
    assert!(failed_with(&frame, SyscallError::FailedLookup));
}

#[test]
fn without_a_running_thread_nothing_happens() {
    let mut state = KernelState::default();
    let mut frame = trap(SyscallNumber::Yield, plain(), [1, 2, 3, 4]);
    dispatch(&mut state, &mut frame);
    assert_eq!(frame.mr(0), 1);
    assert!(!frame.tag().is_error());
    assert!(state.scheduler.current.is_none());
}

#[test]
fn a_message_does_not_depend_on_who_comes_first() {
    // The first thread sends, the second receives.
    let mut f = fixture();
    f.trap(SyscallNumber::Send, labelled(77), [ENDPOINT, 11, 22, 33]);
    assert_eq!(f.current(), f.threads[1]);
    let sent_first = f.trap(SyscallNumber::Recv, plain(), [ENDPOINT, 5, 6, 7]);
    assert_eq!(f.ready(), vec![f.threads[2], f.threads[0]]);

    // The second receives, the first sends.
    let mut g = fixture();
    g.trap(SyscallNumber::Yield, plain(), [0; 4]);
    assert_eq!(g.current(), g.threads[1]);
    g.trap(SyscallNumber::Recv, plain(), [ENDPOINT, 5, 6, 7]);
    g.trap(SyscallNumber::Yield, plain(), [0; 4]);
    assert_eq!(g.current(), g.threads[0]);
    g.trap(SyscallNumber::Send, labelled(77), [ENDPOINT, 11, 22, 33]);
    let received_first = g.state.tcbs.get(1).unwrap().context;

    for i in 0..4 {
        assert_eq!(sent_first.mr(i), received_first.mr(i));
    }
    assert_eq!(sent_first.tag(), received_first.tag());
    assert_eq!(sent_first.mr(0), 1);
    assert_eq!(sent_first.mr(3), 33);
}

#[test]
fn a_call_that_names_a_reply_slot_does_not_deliver_it() {
    // The caller comes first, so that the message waits for its receiver.
    let mut f = fixture();
    f.trap(SyscallNumber::Call, carrying(2), [ENDPOINT, 9, 22, 33]);
    let received = f.trap(SyscallNumber::Recv, plain(), [ENDPOINT, 0, 0, 0]);
    assert_eq!(received.mr(0), 1);
    assert_eq!(received.mr(1), 0);
    assert_eq!(received.mr(2), 22);
    assert_eq!(received.mr(3), 33);
    assert_eq!(f.state_of(0), ThreadState::BlockedReply { dest_slot: Some(9) });

    // The reply brings a capability into that slot.
    let answer = f.trap(SyscallNumber::Reply, carrying(1), [0, NOTIFICATION, 44, 55]);
    assert_eq!(f.current(), f.threads[0]);
    assert_eq!(answer.mr(0), 0);
    assert_eq!(answer.mr(1), 0);
    assert_eq!(answer.mr(2), 44);
    assert_eq!(f.slot(0, 9), f.slot(1, NOTIFICATION));
}

#[test]
fn a_call_is_answered_once() {
    let mut f = fixture();
    f.trap(SyscallNumber::Call, plain(), [ENDPOINT, 10, 20, 30]);
    f.trap(SyscallNumber::Recv, plain(), [ENDPOINT, 0, 0, 0]);
    let answer = f.trap(SyscallNumber::Reply, plain(), [0, 1, 2, 3]);
    assert_eq!(f.current(), f.threads[0]);
    assert_eq!((answer.mr(0), answer.mr(1), answer.mr(2), answer.mr(3)), (0, 1, 2, 3));
    assert_eq!(f.state_of(0), ThreadState::Running);
    assert_eq!(f.state_of(1), ThreadState::Ready);

    // The server's turn again: there is nobody to reply to.
    f.trap(SyscallNumber::Yield, plain(), [0; 4]);
    f.trap(SyscallNumber::Yield, plain(), [0; 4]);
    assert_eq!(f.current(), f.threads[1]);
    let again = f.trap(SyscallNumber::Reply, plain(), [0, 1, 2, 3]);
    assert!(failed_with(&again, SyscallError::IllegalOperation));
}

#[test]
fn two_call_reply_round_trips_in_a_row_client_runs_first() {
    let mut f = fixture();
    for round in 0..2 {
        f.trap(SyscallNumber::Call, labelled(5), [ENDPOINT, 100 + round, 0, 0]);
        assert_eq!(f.current(), f.threads[1 + round]);
        let received = f.trap(SyscallNumber::Recv, plain(), [ENDPOINT, 0, 0, 0]);
        assert_eq!((received.mr(0), received.mr(1)), (1, 100 + round));
        assert_eq!(received.tag().label, 5);
        let answer = f.trap(SyscallNumber::Reply, plain(), [0, 200 + round, 0, 0]);
        assert_eq!(f.current(), f.threads[0]);
        assert_eq!(answer.mr(1), 200 + round);
    }
}

#[test]
fn senders_are_received_in_order() {
    let mut f = fixture();
    f.trap(SyscallNumber::Send, plain(), [ENDPOINT, 100, 0, 0]);
    f.trap(SyscallNumber::Send, plain(), [ENDPOINT, 200, 0, 0]);
    assert_eq!(f.current(), f.threads[2]);
    let first = f.trap(SyscallNumber::Recv, plain(), [ENDPOINT, 0, 0, 0]);
    let second = f.trap(SyscallNumber::Recv, plain(), [ENDPOINT, 0, 0, 0]);
    assert_eq!((first.mr(0), first.mr(1)), (1, 100));
    assert_eq!((second.mr(0), second.mr(1)), (2, 200));
    assert_eq!(f.ready(), vec![f.threads[0], f.threads[1]]);
}

#[test]
fn a_nonblocking_send_is_dropped_where_nobody_receives() {
    let mut f = fixture();
    let frame = f.trap(SyscallNumber::NBSend, plain(), [ENDPOINT, 1, 2, 3]);
    assert!(!frame.tag().is_error());
    assert_eq!(f.current(), f.threads[0]);
    f.trap(SyscallNumber::Yield, plain(), [0; 4]);
    f.trap(SyscallNumber::Recv, plain(), [ENDPOINT, 0, 0, 0]);
    assert!(matches!(f.state_of(1), ThreadState::BlockedRecv { .. }));
}

#[test]
fn a_message_with_more_words_than_registers_is_refused() {
    let mut f = fixture();
    let tag = MessageTag { label: 0, length: 1, extra_caps: 0, flags: 0 };
    for syscall in [SyscallNumber::Send, SyscallNumber::Recv, SyscallNumber::Call] {
        let frame = f.trap(syscall, tag, [ENDPOINT, 0, 0, 0]);
        assert!(failed_with(&frame, SyscallError::TruncatedMessage));
    }
    let frame = f.trap(SyscallNumber::Reply, tag, [0; 4]);
    assert!(failed_with(&frame, SyscallError::TruncatedMessage));
}

#[test]
fn nobody_blocks_who_would_strand_the_hart() {
    let mut f = fixture();
    f.trap(SyscallNumber::Wait, plain(), [NOTIFICATION, 0, 0, 0]);
    f.trap(SyscallNumber::Wait, plain(), [NOTIFICATION, 0, 0, 0]);
    assert_eq!(f.current(), f.threads[2]);
    for (syscall, cptr) in [
        (SyscallNumber::Send, ENDPOINT),
        (SyscallNumber::Recv, ENDPOINT),
        (SyscallNumber::Call, ENDPOINT),
        (SyscallNumber::Wait, NOTIFICATION),
    ] {
        let frame = f.trap(syscall, plain(), [cptr, 8, 9, 10]);
        assert!(failed_with(&frame, SyscallError::Timeout));
        assert_eq!((frame.mr(1), frame.mr(2), frame.mr(3)), (8, 9, 10));
        assert_eq!(f.current(), f.threads[2]);
        assert_eq!(f.state_of(2), ThreadState::Running);
    }
}

#[test]
fn signals_accumulate_and_are_taken_once() {
    let mut f = fixture();
    f.trap(SyscallNumber::Signal, plain(), [NOTIFICATION, 0, 0, 0]);
    f.trap(SyscallNumber::Yield, plain(), [0; 4]);
    f.trap(SyscallNumber::Signal, plain(), [NOTIFICATION, 0, 0, 0]);
    let first = f.trap(SyscallNumber::Poll, plain(), [NOTIFICATION, 0, 0, 0]);
    let second = f.trap(SyscallNumber::Poll, plain(), [NOTIFICATION, 0, 0, 0]);
    assert_eq!(first.mr(0), 3);
    assert_eq!(second.mr(0), 0);
    assert!(!second.tag().is_error());

    f.trap(SyscallNumber::Signal, plain(), [NOTIFICATION, 0, 0, 0]);
    let waited = f.trap(SyscallNumber::Wait, plain(), [NOTIFICATION, 0, 0, 0]);
    assert_eq!(waited.mr(0), 2);
    assert_eq!(f.current(), f.threads[1]);
}

#[test]
fn a_signal_wakes_the_first_waiter_only() {
    let mut f = fixture();
    f.trap(SyscallNumber::Wait, plain(), [NOTIFICATION, 70, 80, 90]);
    f.trap(SyscallNumber::Wait, plain(), [NOTIFICATION, 0, 0, 0]);
    f.trap(SyscallNumber::Signal, plain(), [NOTIFICATION, 0, 0, 0]);
    let woken = f.state.tcbs.get(0).unwrap();
    assert_eq!(woken.state, ThreadState::Ready);
    assert_eq!((woken.context.mr(0), woken.context.mr(1)), (4, 70));
    assert_eq!(f.state_of(1), ThreadState::BlockedWait(NotificationId(0)));
    assert_eq!(f.state.notifications.get(0).unwrap().signals, 0);
    assert_eq!(f.ready(), vec![f.threads[0]]);
}

#[test]
fn yielding_goes_round() {
    let mut f = fixture();
    for turn in 1..7 {
        let mut frame = trap(SyscallNumber::Yield, plain(), [0, turn, 0, 0]);
        frame.set_raw_word(31, 1000 + turn);
        dispatch(&mut f.state, &mut frame);
        assert_eq!(f.current(), f.threads[turn % 3]);
        // From the second round on everybody finds what it had.
        if turn >= 3 {
            assert_eq!(frame.mr(1), turn - 2);
            assert_eq!(frame.raw_word(31), 1000 + turn - 2);
        }
    }
}

#[test]
fn a_failed_syscall_changes_nothing_but_the_error() {
    let mut f = fixture();
    let before = f.slot(0, SELF);
    let mut frame = trap(SyscallNumber::CNodeInvoke, labelled(99), [SELF, 1, 2, 3]);
    frame.set_raw_word(0, 42);
    dispatch(&mut f.state, &mut frame);
    assert!(failed_with(&frame, SyscallError::InvalidArgument));
    assert_eq!((frame.mr(1), frame.mr(2), frame.mr(3)), (1, 2, 3));
    assert_eq!(frame.raw_word(0), 42);
    assert_eq!(f.current(), f.threads[0]);
    assert_eq!(f.slot(0, SELF), before);
    assert_eq!(f.ready(), vec![f.threads[1], f.threads[2]]);
}

#[test]
fn nothing_is_done_without_a_capability() {
    let mut f = fixture();
    for n in 1..14 {
        let syscall = SyscallNumber::from_usize(n).unwrap();
        if matches!(syscall, SyscallNumber::Reply | SyscallNumber::Yield) {
            continue;
        }
        let frame = f.trap(syscall, labelled(1), [20, 0, 0, 0]);
        assert!(failed_with(&frame, SyscallError::InvalidCapability));
    }
    assert_eq!(f.current(), f.threads[0]);
    assert_eq!(f.state.endpoints.len(), 1);
}

#[test]
fn the_wrong_kind_of_capability_is_invalid() {
    let mut f = fixture();
    let frame = f.trap(SyscallNumber::Send, plain(), [NOTIFICATION, 0, 0, 0]);
    assert!(failed_with(&frame, SyscallError::InvalidCapability));
    let frame = f.trap(SyscallNumber::Signal, plain(), [ENDPOINT, 0, 0, 0]);
    assert!(failed_with(&frame, SyscallError::InvalidCapability));
    let frame = f.trap(SyscallNumber::UntypedRetype, plain(), [SELF, 2, 10, 0]);
    assert!(failed_with(&frame, SyscallError::InvalidCapability));
}

#[test]
fn rights_are_checked() {
    let mut f = fixture();
    *f.state.cnodes.get_mut(0).unwrap().slot_mut(ENDPOINT).unwrap() =
        Capability::Endpoint { id: EndpointId(0), badge: 0, rights: Rights::read() };
    *f.state.cnodes.get_mut(0).unwrap().slot_mut(NOTIFICATION).unwrap() =
        Capability::Notification { id: NotificationId(0), badge: 0, rights: Rights::write() };
    for syscall in [SyscallNumber::Send, SyscallNumber::NBSend, SyscallNumber::Call] {
        let frame = f.trap(syscall, plain(), [ENDPOINT, 0, 0, 0]);
        assert!(failed_with(&frame, SyscallError::IllegalOperation));
    }
    for syscall in [SyscallNumber::Wait, SyscallNumber::Poll] {
        let frame = f.trap(syscall, plain(), [NOTIFICATION, 0, 0, 0]);
        assert!(failed_with(&frame, SyscallError::IllegalOperation));
    }
}

#[test]
fn minting_sets_the_badge_and_narrows_the_rights() {
    let mut f = fixture();
    let packed = (0x1234 << 8) | (Rights::write().bits() as usize);
    let frame = f.trap(SyscallNumber::CNodeInvoke, labelled(LABEL_MINT), [SELF, ENDPOINT, 9, packed]);
    assert!(!frame.tag().is_error());
    assert_eq!(
        f.slot(0, 9),
        Capability::Endpoint { id: EndpointId(0), badge: 0x1234, rights: Rights::write() }
    );
    // Bits that stand for no right are dropped.
    f.trap(SyscallNumber::CNodeInvoke, labelled(LABEL_MINT), [SELF, UNTYPED, 10, 0xF9]);
    assert_eq!(f.slot(0, 10), Capability::Untyped { id: UntypedId(0), rights: Rights::read() });
    // A CNode has no rights to narrow.
    let frame = f.trap(SyscallNumber::CNodeInvoke, labelled(LABEL_MINT), [SELF, SELF, 11, 0]);
    assert!(failed_with(&frame, SyscallError::IllegalOperation));
    let frame = f.trap(SyscallNumber::CNodeInvoke, labelled(LABEL_MINT), [SELF, 20, 11, 0]);
    assert!(failed_with(&frame, SyscallError::InvalidCapability));
}

#[test]
fn deleting_undoes_a_copy_and_moving_back_undoes_a_move() {
    let mut f = fixture();
    let cap = f.slot(0, ENDPOINT);
    f.trap(SyscallNumber::CNodeInvoke, labelled(LABEL_COPY), [SELF, ENDPOINT, 9, 0]);
    assert_eq!(f.slot(0, 9), cap);
    f.trap(SyscallNumber::CNodeInvoke, labelled(LABEL_DELETE), [SELF, 9, 0, 0]);
    assert_eq!(f.slot(0, 9), Capability::Null);
    f.trap(SyscallNumber::CNodeInvoke, labelled(LABEL_MOVE), [SELF, ENDPOINT, 9, 0]);
    assert_eq!((f.slot(0, ENDPOINT), f.slot(0, 9)), (Capability::Null, cap));
    f.trap(SyscallNumber::CNodeInvoke, labelled(LABEL_MOVE), [SELF, 9, ENDPOINT, 0]);
    assert_eq!((f.slot(0, ENDPOINT), f.slot(0, 9)), (cap, Capability::Null));
}

#[test]
fn a_capability_is_not_moved_onto_itself() {
    let mut f = fixture();
    let cap = f.slot(0, ENDPOINT);
    let frame = f.trap(
        SyscallNumber::CNodeInvoke,
        labelled(LABEL_MOVE),
        [SELF, ENDPOINT, ENDPOINT, 0],
    );
    assert!(failed_with(&frame, SyscallError::IllegalOperation));
    assert_eq!(f.slot(0, ENDPOINT), cap);
}

#[test]
fn an_endpoint_that_everybody_has_left_is_empty() {
    let mut f = fixture();
    f.trap(SyscallNumber::Send, plain(), [ENDPOINT, 0, 0, 0]);
    f.trap(SyscallNumber::Send, plain(), [ENDPOINT, 0, 0, 0]);
    f.trap(SyscallNumber::Recv, plain(), [ENDPOINT, 0, 0, 0]);
    match f.state.endpoints.get(0).unwrap().queue {
        EndpointQueue::Send(left) => assert_eq!(left.front(), Some(f.threads[1])),
        _ => panic!("expected a sender to wait"),
    }
    f.trap(SyscallNumber::Recv, plain(), [ENDPOINT, 0, 0, 0]);
    assert!(matches!(f.state.endpoints.get(0).unwrap().queue, EndpointQueue::Empty));
}

#[test]
fn slots_past_the_end_are_out_of_range() {
    let mut f = fixture();
    for (label, a, b) in [
        (LABEL_COPY, CNODE_SLOTS, 9),
        (LABEL_COPY, ENDPOINT, CNODE_SLOTS),
        (LABEL_MOVE, CNODE_SLOTS, 9),
        (LABEL_DELETE, CNODE_SLOTS, 0),
    ] {
        let frame = f.trap(SyscallNumber::CNodeInvoke, labelled(label), [SELF, a, b, 0]);
        assert!(failed_with(&frame, SyscallError::RangeError));
    }
    let frame = f.trap(SyscallNumber::UntypedRetype, plain(), [UNTYPED, 2, CNODE_SLOTS, 0]);
    assert!(failed_with(&frame, SyscallError::RangeError));
}

#[test]
fn a_transferred_capability_is_a_copy() {
    let mut f = fixture();
    f.trap(SyscallNumber::Send, carrying(1), [ENDPOINT, NOTIFICATION, 5, 6]);
    // A receiver that names no slot takes no capability, and the sender still waits.
    let frame = f.trap(SyscallNumber::Recv, plain(), [ENDPOINT, 0, 0, 0]);
    assert!(failed_with(&frame, SyscallError::IllegalOperation));
    assert!(matches!(f.state_of(0), ThreadState::BlockedSend { .. }));
    let frame = f.trap(SyscallNumber::Recv, carrying(1), [ENDPOINT, CNODE_SLOTS, 0, 0]);
    assert!(failed_with(&frame, SyscallError::RangeError));
    let frame = f.trap(SyscallNumber::Recv, carrying(1), [ENDPOINT, 9, 0, 0]);
    assert!(!frame.tag().is_error());
    assert_eq!(f.slot(1, 9), f.slot(0, NOTIFICATION));
    assert_eq!(f.state_of(0), ThreadState::Ready);
}

#[test]
fn a_cnode_cannot_be_transferred() {
    let mut f = fixture();
    let frame = f.trap(SyscallNumber::Send, carrying(1), [ENDPOINT, SELF, 0, 0]);
    assert!(failed_with(&frame, SyscallError::IllegalOperation));
    let frame = f.trap(SyscallNumber::Send, carrying(1), [ENDPOINT, 20, 0, 0]);
    assert!(failed_with(&frame, SyscallError::InvalidCapability));
}

#[test]
fn retype_makes_each_type_until_the_pool_is_full() {
    let mut f = fixture();
    let frame = f.trap(SyscallNumber::UntypedRetype, plain(), [UNTYPED, ObjectType::CNode as usize, 10, 0]);
    assert!(!frame.tag().is_error());
    assert_eq!(f.slot(0, 10), Capability::CNode(CNodeId(3)));
    let frame = f.trap(SyscallNumber::UntypedRetype, plain(), [UNTYPED, ObjectType::CNode as usize, 11, 0]);
    assert!(failed_with(&frame, SyscallError::NotEnoughMemory));
    assert_eq!(f.slot(0, 11), Capability::Null);

    f.trap(SyscallNumber::UntypedRetype, plain(), [UNTYPED, ObjectType::Tcb as usize, 12, 0]);
    assert_eq!(f.slot(0, 12), Capability::Tcb { id: TcbId(3), rights: Rights::all() });
    assert_eq!(f.state.tcbs.get(3).unwrap().state, ThreadState::Inactive);
    for i in 1..MAX_ENDPOINTS {
        let frame = f.trap(
            SyscallNumber::UntypedRetype,
            plain(),
            [UNTYPED, ObjectType::Endpoint as usize, 12 + i, 0],
        );
        assert!(!frame.tag().is_error());
    }
    assert!(f.state.endpoints.is_full());
    let frame = f.trap(SyscallNumber::UntypedRetype, plain(), [UNTYPED, ObjectType::Endpoint as usize, 25, 0]);
    assert!(failed_with(&frame, SyscallError::NotEnoughMemory));
    // What failed was not charged.
    assert_eq!(f.state.untypeds.get(0).unwrap().remaining, 20 - 1 - 1 - 7);
}

#[test]
fn what_is_made_is_held_by_its_maker_alone() {
    let mut f = fixture();
    f.trap(SyscallNumber::UntypedRetype, plain(), [UNTYPED, ObjectType::CNode as usize, 10, 0]);
    f.trap(SyscallNumber::UntypedRetype, plain(), [UNTYPED, ObjectType::Endpoint as usize, 11, 0]);
    for i in 0..4 {
        for cptr in 0..CNODE_SLOTS {
            let made = i == 0 && (cptr == 10 || cptr == 11);
            let given = i < 3 && (ENDPOINT..SELF + 1).contains(&cptr);
            assert_eq!(f.slot(i, cptr) != Capability::Null, made || given);
        }
    }
}

#[test]
fn retype_refuses_what_is_no_target() {
    let mut f = fixture();
    let frame = f.trap(SyscallNumber::UntypedRetype, plain(), [UNTYPED, ObjectType::Untyped as usize, 10, 0]);
    assert!(failed_with(&frame, SyscallError::InvalidArgument));
    let frame = f.trap(SyscallNumber::UntypedRetype, plain(), [UNTYPED, 9, 10, 0]);
    assert!(failed_with(&frame, SyscallError::InvalidArgument));
    assert_eq!(f.state.untypeds.get(0).unwrap().remaining, 20);
}

#[test]
fn a_thread_made_and_configured_by_another_runs() {
    let mut f = fixture();
    f.trap(SyscallNumber::UntypedRetype, plain(), [UNTYPED, ObjectType::Tcb as usize, 10, 0]);
    f.trap(SyscallNumber::UntypedRetype, plain(), [UNTYPED, ObjectType::SchedContext as usize, 11, 0]);
    let made = TcbId(3);
    assert_eq!(f.ready(), vec![f.threads[1], f.threads[2]]);
    let frame = f.trap(SyscallNumber::TCBConfigure, plain(), [10, SELF, 11, 0]);
    assert!(!frame.tag().is_error());
    assert_eq!(f.ready(), vec![f.threads[1], f.threads[2], made]);
    // A second configuration does not queue it again.
    f.trap(SyscallNumber::TCBConfigure, plain(), [10, SELF, 11, 0]);
    assert_eq!(f.ready(), vec![f.threads[1], f.threads[2], made]);
    for _ in 0..3 {
        f.trap(SyscallNumber::Yield, plain(), [0; 4]);
    }
    assert_eq!(f.current(), made);
    assert_eq!(f.state.tcbs.get(3).unwrap().cspace, Some(CNodeId(0)));
}

#[test]
fn the_error_bit_is_cleared_by_the_next_success() {
    let mut f = fixture();
    let mut frame = f.trap(SyscallNumber::Poll, plain(), [20, 0, 0, 0]);
    assert!(frame.tag().is_error());
    frame.set_mr(0, NOTIFICATION);
    dispatch(&mut f.state, &mut frame);
    assert!(!frame.tag().is_error());
    assert_eq!(frame.mr(0), 0);
}

#[test]
fn an_address_space_is_to_be_activated_when_its_thread_runs() {
    let mut f = fixture();
    assert!(f.state.activation.is_none());
    f.state.tcbs.get_mut(1).unwrap().address_space = Some(0x8000_0000);
    f.trap(SyscallNumber::Yield, plain(), [0; 4]);
    assert_eq!(f.state.activation, Some(0x8000_0000));
    // A thread without one leaves the active one in place.
    f.state.activation = None;
    f.trap(SyscallNumber::Yield, plain(), [0; 4]);
    assert!(f.state.activation.is_none());
}
