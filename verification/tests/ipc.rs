use lantern_kernel::cap::{
    CNode, CNodeId, CPtr, Capability, EndpointId, NotificationId, Rights, TcbId,
};
use lantern_kernel::ipc::{call, recv, reply, send};
use lantern_kernel::object::{Endpoint, Notification, Tcb, ThreadState};
use lantern_kernel::state::KernelState;
use lantern_kernel::trap::{MessageTag, TrapFrame};
use lantern_kernel::SyscallError;

fn frame_for(mr0: usize, mr1: usize, mr2: usize, mr3: usize, extra_caps: u8) -> TrapFrame {
    let mut frame = TrapFrame::zeroed();
    frame.set_tag(MessageTag { label: 0, length: 0, extra_caps, flags: 0 });
    frame.set_mr(0, mr0);
    frame.set_mr(1, mr1);
    frame.set_mr(2, mr2);
    frame.set_mr(3, mr3);
    frame
}

/// Two threads, each with their own CNode holding a shared Endpoint capability
/// at slot 1 (badge 7). Endpoint slot 1 is deliberately pre-occupied on both
/// sides: several tests below use that to exercise "destination slot already
/// occupied" for free.
struct Pair {
    state: KernelState,
    client: TcbId,
    client_cnode: CNodeId,
    server: TcbId,
    server_cnode: CNodeId,
    ep_cptr: CPtr,
    ep_id: EndpointId,
}

fn setup() -> Pair {
    let mut state = KernelState::new();
    let ep_idx = state.endpoints.allocate(Endpoint::new()).unwrap();
    let ep_id = EndpointId(ep_idx as u16);
    let ep = Capability::Endpoint { id: ep_id, badge: 7, rights: Rights::all() };

    let client_cnode = CNodeId(state.cnodes.allocate(CNode::empty()).unwrap() as u16);
    *state.cnodes.get_mut(client_cnode.0 as usize).unwrap().slot_mut(1).unwrap() = ep;
    let client = TcbId(state.tcbs.allocate(Tcb::new()).unwrap() as u16);
    state.tcbs.get_mut(client.0 as usize).unwrap().cspace = Some(client_cnode);

    let server_cnode = CNodeId(state.cnodes.allocate(CNode::empty()).unwrap() as u16);
    *state.cnodes.get_mut(server_cnode.0 as usize).unwrap().slot_mut(1).unwrap() = ep;
    let server = TcbId(state.tcbs.allocate(Tcb::new()).unwrap() as u16);
    state.tcbs.get_mut(server.0 as usize).unwrap().cspace = Some(server_cnode);

    Pair { state, client, client_cnode, server, server_cnode, ep_cptr: 1, ep_id }
}

/// Puts a `Notification` capability with `Rights::grant()` (plus `READ`, so it's
/// a plausible real grant, not just a bare marker) into `cnode` at `slot`.
fn put_grantable_cap(state: &mut KernelState, cnode: CNodeId, slot: CPtr) -> Capability {
    let notif_idx = state.notifications.allocate(Notification::new()).unwrap();
    let cap = Capability::Notification {
        id: NotificationId(notif_idx as u16),
        badge: 0,
        rights: Rights::read().union(Rights::grant()),
    };
    *state.cnodes.get_mut(cnode.0 as usize).unwrap().slot_mut(slot).unwrap() = cap;
    cap
}

#[test]
fn send_transfers_into_a_waiting_receivers_registered_slot() {
    let mut p = setup();
    let cap = put_grantable_cap(&mut p.state, p.client_cnode, 5);

    // Server blocks in Recv first, registering slot 9 as its destination.
    p.state.make_ready(p.client);
    p.state.scheduler.current = Some(p.server);
    let mut recv_frame = frame_for(p.ep_cptr, 9, 0, 0, 1);
    recv(&mut p.state, p.server, p.ep_cptr, &mut recv_frame).unwrap();
    assert_eq!(p.state.scheduler.current, Some(p.client));

    // Client sends, attaching slot 5's capability plus a two-word payload.
    let mut send_frame = frame_for(p.ep_cptr, 5, 222, 333, 1);
    send(&mut p.state, p.client, p.ep_cptr, &mut send_frame, false).unwrap();
    assert!(!send_frame.tag().is_error());

    // Landed in the server's slot 9, unchanged...
    assert_eq!(p.state.cnodes.get(p.server_cnode.0 as usize).unwrap().get(9), Some(cap));
    // ...and the client still holds its own copy: transfer is a copy, not a move.
    assert_eq!(p.state.cnodes.get(p.client_cnode.0 as usize).unwrap().get(5), Some(cap));

    // The server (blocked, not running) got its payload written into its
    // saved context: mr1 is 0 (spent on the transfer), mr2/mr3 carry through.
    let server_ctx = p.state.tcbs.get(p.server.0 as usize).unwrap().context;
    assert_eq!(server_ctx.mr(0), 7, "badge");
    assert_eq!(server_ctx.mr(1), 0);
    assert_eq!(server_ctx.mr(2), 222);
    assert_eq!(server_ctx.mr(3), 333);
    assert_eq!(server_ctx.tag().extra_caps, 1);
}

#[test]
fn recv_transfers_when_the_sender_blocked_first() {
    let mut p = setup();
    let cap = put_grantable_cap(&mut p.state, p.client_cnode, 5);

    // Client sends first; nobody is receiving yet, so it blocks.
    p.state.make_ready(p.server);
    p.state.scheduler.current = Some(p.client);
    let mut send_frame = frame_for(p.ep_cptr, 5, 222, 333, 1);
    send(&mut p.state, p.client, p.ep_cptr, &mut send_frame, false).unwrap();
    assert_eq!(p.state.scheduler.current, Some(p.server));

    // Server receives, registering slot 9.
    let mut recv_frame = frame_for(p.ep_cptr, 9, 0, 0, 1);
    recv(&mut p.state, p.server, p.ep_cptr, &mut recv_frame).unwrap();

    assert_eq!(p.state.cnodes.get(p.server_cnode.0 as usize).unwrap().get(9), Some(cap));
    assert_eq!(recv_frame.mr(0), 7, "badge");
    assert_eq!(recv_frame.mr(1), 0);
    assert_eq!(recv_frame.mr(2), 222);
    assert_eq!(recv_frame.mr(3), 333);
}

#[test]
fn transfer_without_grant_right_is_rejected() {
    let mut p = setup();
    // READ-only, no GRANT.
    let cap = Capability::Endpoint { id: p.ep_id, badge: 0, rights: Rights::read() };
    *p.state.cnodes.get_mut(p.client_cnode.0 as usize).unwrap().slot_mut(5).unwrap() = cap;

    p.state.make_ready(p.server);
    p.state.scheduler.current = Some(p.client);
    let mut send_frame = frame_for(p.ep_cptr, 5, 0, 0, 1);
    assert_eq!(
        send(&mut p.state, p.client, p.ep_cptr, &mut send_frame, false),
        Err(SyscallError::IllegalOperation)
    );
}

#[test]
fn transfer_to_a_receiver_with_no_registered_slot_is_rejected_and_nothing_is_consumed() {
    let mut p = setup();
    put_grantable_cap(&mut p.state, p.client_cnode, 5);

    // Server blocks in a plain Recv (extra_caps == 0): no destination slot.
    p.state.make_ready(p.client);
    p.state.scheduler.current = Some(p.server);
    let mut recv_frame = frame_for(p.ep_cptr, 0, 0, 0, 0);
    recv(&mut p.state, p.server, p.ep_cptr, &mut recv_frame).unwrap();

    let mut send_frame = frame_for(p.ep_cptr, 5, 0, 0, 1);
    assert_eq!(
        send(&mut p.state, p.client, p.ep_cptr, &mut send_frame, false),
        Err(SyscallError::IllegalOperation)
    );
    // The rendezvous never happened: the server is still parked waiting.
    assert!(matches!(
        p.state.tcbs.get(p.server.0 as usize).unwrap().state,
        ThreadState::BlockedRecv { .. }
    ));
}

#[test]
fn transfer_into_an_occupied_destination_slot_is_rejected() {
    let mut p = setup();
    put_grantable_cap(&mut p.state, p.client_cnode, 5);

    // Server registers slot 1 as its destination: already occupied by its
    // own endpoint capability.
    p.state.make_ready(p.client);
    p.state.scheduler.current = Some(p.server);
    let mut recv_frame = frame_for(p.ep_cptr, 1, 0, 0, 1);
    recv(&mut p.state, p.server, p.ep_cptr, &mut recv_frame).unwrap();

    let mut send_frame = frame_for(p.ep_cptr, 5, 0, 0, 1);
    assert_eq!(
        send(&mut p.state, p.client, p.ep_cptr, &mut send_frame, false),
        Err(SyscallError::IllegalOperation)
    );
    // Untouched: still the original endpoint capability, not clobbered.
    assert_eq!(
        p.state.cnodes.get(p.server_cnode.0 as usize).unwrap().get(1),
        Some(Capability::Endpoint { id: p.ep_id, badge: 7, rights: Rights::all() })
    );
}

#[test]
fn more_than_one_extra_cap_is_rejected_no_ipc_buffer_exists() {
    let mut p = setup();
    let mut send_frame = frame_for(p.ep_cptr, 0, 0, 0, 2);
    assert_eq!(
        send(&mut p.state, p.client, p.ep_cptr, &mut send_frame, true),
        Err(SyscallError::TruncatedMessage)
    );
}

#[test]
fn call_transfers_a_capability_on_its_outbound_leg() {
    let mut p = setup();
    let cap = put_grantable_cap(&mut p.state, p.client_cnode, 5);

    p.state.make_ready(p.client);
    p.state.scheduler.current = Some(p.server);
    let mut recv_frame = frame_for(p.ep_cptr, 9, 0, 0, 1);
    recv(&mut p.state, p.server, p.ep_cptr, &mut recv_frame).unwrap();

    let mut call_frame = frame_for(p.ep_cptr, 5, 222, 0, 1);
    call(&mut p.state, p.client, p.ep_cptr, &mut call_frame).unwrap();

    assert_eq!(p.state.scheduler.current, Some(p.server));
    assert_eq!(p.state.cnodes.get(p.server_cnode.0 as usize).unwrap().get(9), Some(cap));
    assert_eq!(p.state.tcbs.get(p.server.0 as usize).unwrap().reply_to, Some(p.client));
    assert_eq!(p.state.tcbs.get(p.client.0 as usize).unwrap().state, ThreadState::BlockedReply { dest_slot: None });
}

#[test]
fn call_registers_a_reply_destination_and_reply_transfers_into_it() {
    let mut p = setup();
    // Something the *server* administers, granted back via Reply.
    let cap = put_grantable_cap(&mut p.state, p.server_cnode, 5);

    // Server blocks in a plain Recv first (no destination registered here
    //: that's the *Call*'s job for a reply-leg transfer).
    p.state.make_ready(p.client);
    p.state.scheduler.current = Some(p.server);
    let mut recv_frame = frame_for(p.ep_cptr, 0, 0, 0, 0);
    recv(&mut p.state, p.server, p.ep_cptr, &mut recv_frame).unwrap();
    assert_eq!(p.state.scheduler.current, Some(p.client));

    // Client Calls with extra_caps == 2: mr1 (9) is *its own* destination
    // slot for whatever the Reply might attach, not an outbound transfer.
    let mut call_frame = frame_for(p.ep_cptr, 9, 111, 0, 2);
    call(&mut p.state, p.client, p.ep_cptr, &mut call_frame).unwrap();
    assert_eq!(p.state.scheduler.current, Some(p.server));
    // mr1 (9) was spent naming the reply-destination slot, not payload:
    // the server sees it as 0, with the real payload shifted to mr2.
    assert_eq!(call_frame.mr(1), 0);
    assert_eq!(call_frame.mr(2), 111, "payload still delivered despite extra_caps == 2");

    // Server replies, attaching the capability at its own slot 5.
    let mut reply_frame = frame_for(0, 5, 222, 0, 1);
    reply(&mut p.state, p.server, &mut reply_frame).unwrap();

    assert_eq!(p.state.scheduler.current, Some(p.client));
    assert_eq!(reply_frame.mr(1), 0, "spent naming the transfer, not payload");
    assert_eq!(reply_frame.mr(2), 222);
    assert_eq!(p.state.cnodes.get(p.client_cnode.0 as usize).unwrap().get(9), Some(cap));
    // Copy, not move: the server's own slot 5 is untouched.
    assert_eq!(p.state.cnodes.get(p.server_cnode.0 as usize).unwrap().get(5), Some(cap));
    // reply_to is fully consumed: a second Reply has nothing to target.
    assert_eq!(
        reply(&mut p.state, p.server, &mut frame_for(0, 0, 0, 0, 0)),
        Err(SyscallError::IllegalOperation)
    );
}

#[test]
fn reply_transfer_without_a_registered_call_destination_is_rejected() {
    let mut p = setup();
    let cap = put_grantable_cap(&mut p.state, p.server_cnode, 5);

    p.state.make_ready(p.client);
    p.state.scheduler.current = Some(p.server);
    let mut recv_frame = frame_for(p.ep_cptr, 0, 0, 0, 0);
    recv(&mut p.state, p.server, p.ep_cptr, &mut recv_frame).unwrap();
    // A plain Call (extra_caps == 0): no reply destination registered.
    let mut call_frame = frame_for(p.ep_cptr, 0, 0, 0, 0);
    call(&mut p.state, p.client, p.ep_cptr, &mut call_frame).unwrap();

    let mut reply_frame = frame_for(0, 5, 0, 0, 1);
    assert_eq!(reply(&mut p.state, p.server, &mut reply_frame), Err(SyscallError::IllegalOperation));
    // Refused before consuming the reply_to link: the client is still
    // parked waiting for a real reply, not left stranded, and the
    // server's capability is untouched (never even copied).
    assert_eq!(p.state.tcbs.get(p.client.0 as usize).unwrap().state, ThreadState::BlockedReply { dest_slot: None });
    assert_eq!(p.state.cnodes.get(p.server_cnode.0 as usize).unwrap().get(5), Some(cap));
}

#[test]
fn reply_still_rejects_more_than_one_extra_cap() {
    let mut p = setup();
    p.state.make_ready(p.client);
    p.state.scheduler.current = Some(p.server);
    let mut recv_frame = frame_for(p.ep_cptr, 0, 0, 0, 0);
    recv(&mut p.state, p.server, p.ep_cptr, &mut recv_frame).unwrap();
    let mut call_frame = frame_for(p.ep_cptr, 0, 0, 0, 0);
    call(&mut p.state, p.client, p.ep_cptr, &mut call_frame).unwrap();

    // extra_caps == 2 is a *Call*-only convention (reply-destination
    // registration); Reply itself only ever understands 0 or 1.
    let mut reply_frame = frame_for(0, 0, 0, 0, 2);
    assert_eq!(reply(&mut p.state, p.server, &mut reply_frame), Err(SyscallError::TruncatedMessage));
}

#[test]
fn call_rejects_more_than_two_extra_caps() {
    let mut p = setup();
    let mut call_frame = frame_for(p.ep_cptr, 0, 0, 0, 3);
    assert_eq!(
        call(&mut p.state, p.client, p.ep_cptr, &mut call_frame),
        Err(SyscallError::TruncatedMessage)
    );
}
