use lantern_kernel::cap::{CNode, CNodeId, CPtr, Capability, EndpointId, Rights, TcbId};
use lantern_kernel::cnode::{
    invoke, LABEL_COPY, LABEL_COPY_CROSS, LABEL_DELETE, LABEL_MINT, LABEL_MOVE, LABEL_REVOKE,
};
use lantern_kernel::object::Tcb;
use lantern_kernel::state::KernelState;
use lantern_kernel::trap::{MessageTag, TrapFrame};
use lantern_kernel::SyscallError;

fn setup() -> (KernelState, TcbId, CPtr) {
    let mut state = KernelState::new();
    let cnode_idx = state.cnodes.allocate(CNode::empty()).unwrap();
    let cnode_id = CNodeId(cnode_idx as u16);

    let tcb_idx = state.tcbs.allocate(Tcb::new()).unwrap();
    let tcb_id = TcbId(tcb_idx as u16);
    state.tcbs.get_mut(tcb_idx).unwrap().cspace = Some(cnode_id);

    // Slot 0 of the thread's own CSpace holds a capability to that same CNode,
    // so it can administer itself.
    let self_cptr: CPtr = 0;
    *state.cnodes.get_mut(cnode_idx).unwrap().slot_mut(self_cptr).unwrap() = Capability::CNode(cnode_id);

    (state, tcb_id, self_cptr)
}

fn frame_for(label: u32, mr0: usize, mr1: usize, mr2: usize, mr3: usize) -> TrapFrame {
    let mut frame = TrapFrame::zeroed();
    frame.set_tag(MessageTag { label, length: 0, extra_caps: 0, flags: 0 });
    frame.set_mr(0, mr0);
    frame.set_mr(1, mr1);
    frame.set_mr(2, mr2);
    frame.set_mr(3, mr3);
    frame
}

#[test]
fn copy_duplicates_a_capability() {
    let (mut state, tcb, self_cptr) = setup();
    let ep = Capability::Endpoint { id: EndpointId(1), badge: 0, rights: Rights::all() };
    *state.cnodes.get_mut(0).unwrap().slot_mut(5).unwrap() = ep;

    let mut frame = frame_for(LABEL_COPY, self_cptr, 5, 6, 0);
    invoke(&mut state, tcb, self_cptr, &mut frame).unwrap();

    assert_eq!(state.cnodes.get(0).unwrap().get(5), Some(ep));
    assert_eq!(state.cnodes.get(0).unwrap().get(6), Some(ep));
}

#[test]
fn move_relocates_and_clears_the_source() {
    let (mut state, tcb, self_cptr) = setup();
    let ep = Capability::Endpoint { id: EndpointId(1), badge: 0, rights: Rights::all() };
    *state.cnodes.get_mut(0).unwrap().slot_mut(5).unwrap() = ep;

    let mut frame = frame_for(LABEL_MOVE, self_cptr, 5, 6, 0);
    invoke(&mut state, tcb, self_cptr, &mut frame).unwrap();

    assert_eq!(state.cnodes.get(0).unwrap().get(5), Some(Capability::Null));
    assert_eq!(state.cnodes.get(0).unwrap().get(6), Some(ep));
}

#[test]
fn mint_narrows_rights_and_rejects_amplification() {
    let (mut state, tcb, self_cptr) = setup();
    let ep = Capability::Endpoint { id: EndpointId(1), badge: 0, rights: Rights::read().union(Rights::write()) };
    *state.cnodes.get_mut(0).unwrap().slot_mut(5).unwrap() = ep;

    // Attempting to mint GRANT (which the source doesn't have) must fail.
    let mut frame = frame_for(LABEL_MINT, self_cptr, 5, 6, Rights::all().bits() as usize);
    assert_eq!(invoke(&mut state, tcb, self_cptr, &mut frame), Err(SyscallError::IllegalOperation));
    assert_eq!(state.cnodes.get(0).unwrap().get(6), Some(Capability::Null));

    // A strict subset succeeds.
    let mut frame = frame_for(LABEL_MINT, self_cptr, 5, 6, Rights::read().bits() as usize);
    invoke(&mut state, tcb, self_cptr, &mut frame).unwrap();
    assert_eq!(
        state.cnodes.get(0).unwrap().get(6),
        Some(Capability::Endpoint { id: EndpointId(1), badge: 0, rights: Rights::read() })
    );
}

#[test]
fn delete_clears_the_slot() {
    let (mut state, tcb, self_cptr) = setup();
    let ep = Capability::Endpoint { id: EndpointId(1), badge: 0, rights: Rights::all() };
    *state.cnodes.get_mut(0).unwrap().slot_mut(5).unwrap() = ep;

    let mut frame = frame_for(LABEL_DELETE, self_cptr, 5, 0, 0);
    invoke(&mut state, tcb, self_cptr, &mut frame).unwrap();
    assert_eq!(state.cnodes.get(0).unwrap().get(5), Some(Capability::Null));
}

#[test]
fn copy_into_occupied_slot_is_rejected() {
    let (mut state, tcb, self_cptr) = setup();
    let ep = Capability::Endpoint { id: EndpointId(1), badge: 0, rights: Rights::all() };
    *state.cnodes.get_mut(0).unwrap().slot_mut(5).unwrap() = ep;
    *state.cnodes.get_mut(0).unwrap().slot_mut(6).unwrap() = ep;

    let mut frame = frame_for(LABEL_COPY, self_cptr, 5, 6, 0);
    assert_eq!(invoke(&mut state, tcb, self_cptr, &mut frame), Err(SyscallError::IllegalOperation));
}

#[test]
fn revoke_is_cleanly_refused() {
    let (mut state, tcb, self_cptr) = setup();
    let mut frame = frame_for(LABEL_REVOKE, self_cptr, 5, 0, 0);
    assert_eq!(invoke(&mut state, tcb, self_cptr, &mut frame), Err(SyscallError::IllegalOperation));
}

/// One thread, one CSpace (`cnode_a`, pool index 0), holding capabilities to
/// *two* CNodes: a self-reference at slot 0 (`cnode_a` itself: `CopyCross`'s
/// `source_cnode` argument) and a second, genuinely different CNode
/// (`cnode_b`, pool index 1) at slot 1 (`CopyCross`'s invoked/destination
/// argument, `mr0`). Returns `(state, tcb, dest_cptr, source_cnode_cptr)`.
fn setup_cross() -> (KernelState, TcbId, CPtr, CPtr) {
    let mut state = KernelState::new();
    let cnode_a = CNodeId(state.cnodes.allocate(CNode::empty()).unwrap() as u16);
    let cnode_b = CNodeId(state.cnodes.allocate(CNode::empty()).unwrap() as u16);

    let tcb_idx = state.tcbs.allocate(Tcb::new()).unwrap();
    let tcb_id = TcbId(tcb_idx as u16);
    state.tcbs.get_mut(tcb_idx).unwrap().cspace = Some(cnode_a);

    *state.cnodes.get_mut(cnode_a.0 as usize).unwrap().slot_mut(0).unwrap() = Capability::CNode(cnode_a);
    *state.cnodes.get_mut(cnode_a.0 as usize).unwrap().slot_mut(1).unwrap() = Capability::CNode(cnode_b);

    (state, tcb_id, 1, 0)
}

#[test]
fn copy_cross_places_a_capability_from_a_different_cnode() {
    let (mut state, tcb, dest_cptr, source_cnode_cptr) = setup_cross();
    let ep = Capability::Endpoint { id: EndpointId(1), badge: 42, rights: Rights::all() };
    *state.cnodes.get_mut(0).unwrap().slot_mut(5).unwrap() = ep; // cnode_a, slot 5

    let mut frame = frame_for(LABEL_COPY_CROSS, dest_cptr, source_cnode_cptr, 5, 9);
    invoke(&mut state, tcb, dest_cptr, &mut frame).unwrap();

    // Landed in cnode_b (pool index 1), slot 9.
    assert_eq!(state.cnodes.get(1).unwrap().get(9), Some(ep));
    // Source untouched: this is a copy, not a move.
    assert_eq!(state.cnodes.get(0).unwrap().get(5), Some(ep));
}

#[test]
fn copy_cross_into_an_occupied_destination_slot_is_rejected() {
    let (mut state, tcb, dest_cptr, source_cnode_cptr) = setup_cross();
    let ep = Capability::Endpoint { id: EndpointId(1), badge: 0, rights: Rights::all() };
    *state.cnodes.get_mut(0).unwrap().slot_mut(5).unwrap() = ep;
    // cnode_b's slot 9 is already occupied by something.
    *state.cnodes.get_mut(1).unwrap().slot_mut(9).unwrap() = ep;

    let mut frame = frame_for(LABEL_COPY_CROSS, dest_cptr, source_cnode_cptr, 5, 9);
    assert_eq!(invoke(&mut state, tcb, dest_cptr, &mut frame), Err(SyscallError::IllegalOperation));
}

#[test]
fn copy_cross_rejects_a_source_argument_that_is_not_a_cnode_capability() {
    let (mut state, tcb, dest_cptr, _source_cnode_cptr) = setup_cross();
    let ep = Capability::Endpoint { id: EndpointId(1), badge: 0, rights: Rights::all() };
    // Slot 1 in the caller's own CSpace names cnode_b, a real CNode: but
    // not one holding a plain-capability source at slot 5, and slot 1's
    // target is what CopyCross's own `mr0` already claims as the
    // destination. Point `source_cnode` (mr1) at a slot that isn't a CNode
    // capability at all instead (slot 5, an Endpoint).
    *state.cnodes.get_mut(0).unwrap().slot_mut(5).unwrap() = ep;

    let mut frame = frame_for(LABEL_COPY_CROSS, dest_cptr, 5, 0, 9);
    assert_eq!(invoke(&mut state, tcb, dest_cptr, &mut frame), Err(SyscallError::InvalidCapability));
}
