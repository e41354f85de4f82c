use lantern_kernel::cap::{CNode, CNodeId, Capability, EndpointId, Rights, TcbId};
use lantern_kernel::object::{Endpoint, Tcb};
use lantern_kernel::state::KernelState;
use lantern_kernel::trap::TrapFrame;
use lantern_kernel::{dispatch, SyscallError, SyscallNumber};

#[test]
fn full_call_recv_reply_round_trip() {
    let mut state = KernelState::new();
    let ep_idx = state.endpoints.allocate(Endpoint::new()).unwrap();
    let ep = Capability::Endpoint { id: EndpointId(ep_idx as u16), badge: 42, rights: Rights::all() };

    let client_cnode = CNodeId(state.cnodes.allocate(CNode::empty()).unwrap() as u16);
    *state.cnodes.get_mut(client_cnode.0 as usize).unwrap().slot_mut(1).unwrap() = ep;
    let client = TcbId(state.tcbs.allocate(Tcb::new()).unwrap() as u16);
    state.tcbs.get_mut(client.0 as usize).unwrap().cspace = Some(client_cnode);

    let server_cnode = CNodeId(state.cnodes.allocate(CNode::empty()).unwrap() as u16);
    *state.cnodes.get_mut(server_cnode.0 as usize).unwrap().slot_mut(1).unwrap() = ep;
    let server = TcbId(state.tcbs.allocate(Tcb::new()).unwrap() as u16);
    state.tcbs.get_mut(server.0 as usize).unwrap().cspace = Some(server_cnode);

    // Run the server first: it Recvs on the endpoint with nobody sending yet,
    // so it blocks: and since the client is Ready, block_current succeeds.
    state.make_ready(client);
    state.scheduler.current = Some(server);
    let mut frame = TrapFrame::zeroed();
    frame.set_syscall_number(SyscallNumber::Recv.number());
    frame.set_mr(0, 1);
    dispatch(&mut state, &mut frame);
    assert_eq!(state.scheduler.current, Some(client));

    // The client is now running (having been switched to by the server's
    // block). It Calls the endpoint.
    let mut frame = TrapFrame::zeroed();
    frame.set_syscall_number(SyscallNumber::Call.number());
    frame.set_mr(0, 1);
    frame.set_mr(1, 111);
    dispatch(&mut state, &mut frame);
    // The server was blocked waiting to receive, so Call rendezvouses
    // immediately and switches straight to it.
    assert_eq!(state.scheduler.current, Some(server));
    assert_eq!(frame.mr(0), 42, "server sees the endpoint cap's badge");
    assert_eq!(frame.mr(1), 111, "payload delivered");
    assert!(!frame.tag().is_error());

    // The server replies.
    let mut frame = TrapFrame::zeroed();
    frame.set_syscall_number(SyscallNumber::Reply.number());
    frame.set_mr(1, 222);
    dispatch(&mut state, &mut frame);
    assert_eq!(state.scheduler.current, Some(client));
    assert_eq!(frame.mr(1), 222, "client sees the reply payload");
    assert!(!frame.tag().is_error());
}

#[test]
fn unknown_syscall_number_returns_a_defined_error_not_a_panic() {
    let mut state = KernelState::new();
    let tcb = TcbId(state.tcbs.allocate(Tcb::new()).unwrap() as u16);
    state.make_ready(tcb);
    state.scheduler.current = Some(tcb);

    let mut frame = TrapFrame::zeroed();
    frame.set_syscall_number(999);
    dispatch(&mut state, &mut frame);
    assert!(frame.tag().is_error());
    assert_eq!(frame.mr(0), SyscallError::IllegalOperation.code());
}

#[test]
fn invalid_capability_returns_an_error_and_current_thread_keeps_running() {
    let mut state = KernelState::new();
    let cnode = CNodeId(state.cnodes.allocate(CNode::empty()).unwrap() as u16);
    let tcb = TcbId(state.tcbs.allocate(Tcb::new()).unwrap() as u16);
    state.tcbs.get_mut(tcb.0 as usize).unwrap().cspace = Some(cnode);
    state.make_ready(tcb);
    state.scheduler.current = Some(tcb);

    let mut frame = TrapFrame::zeroed();
    frame.set_syscall_number(SyscallNumber::Send.number());
    frame.set_mr(0, 0); // empty slot
    dispatch(&mut state, &mut frame);

    assert_eq!(state.scheduler.current, Some(tcb));
    assert!(frame.tag().is_error());
    assert_eq!(frame.mr(0), SyscallError::InvalidCapability.code());
}

#[test]
fn yield_with_nothing_else_ready_resumes_the_same_thread() {
    let mut state = KernelState::new();
    let tcb = TcbId(state.tcbs.allocate(Tcb::new()).unwrap() as u16);
    state.make_ready(tcb);
    state.scheduler.current = Some(tcb);

    let mut frame = TrapFrame::zeroed();
    frame.set_syscall_number(SyscallNumber::Yield.number());
    dispatch(&mut state, &mut frame);

    assert_eq!(state.scheduler.current, Some(tcb));
    assert!(!frame.tag().is_error());
}
