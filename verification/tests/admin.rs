use lantern_kernel::admin::{configure, untyped_retype};
use lantern_kernel::cap::{
    CNode, CNodeId, CPtr, Capability, EndpointId, ObjectType, Rights, SchedContextId, TcbId,
    UntypedId,
};
use lantern_kernel::object::{
    Endpoint, FrameSize, SchedulingContext, Tcb, ThreadState, Untyped, MEGAPAGE_SIZE, PAGE_SIZE,
};
use lantern_kernel::state::KernelState;
use lantern_kernel::trap::{MessageTag, TrapFrame};
use lantern_kernel::SyscallError;

/// A page-aligned range of physical memory.
const ARENA_BASE: usize = 0x8000_0000;
const ARENA_SIZE: usize = 64 * 1024;

fn frame_for(mr0: usize, mr1: usize, mr2: usize) -> TrapFrame {
    let mut frame = TrapFrame::zeroed();
    frame.set_tag(MessageTag { label: 0, length: 0, extra_caps: 0, flags: 0 });
    frame.set_mr(0, mr0);
    frame.set_mr(1, mr1);
    frame.set_mr(2, mr2);
    frame
}

fn setup_with_untyped(budget: usize) -> (KernelState, TcbId, CPtr, CPtr) {
    let mut state = KernelState::new();
    let cnode_idx = state.cnodes.allocate(CNode::empty()).unwrap();
    let cnode_id = CNodeId(cnode_idx as u16);
    let tcb_idx = state.tcbs.allocate(Tcb::new()).unwrap();
    let tcb_id = TcbId(tcb_idx as u16);
    state.tcbs.get_mut(tcb_idx).unwrap().cspace = Some(cnode_id);

    let untyped_idx = state.untypeds.allocate(Untyped::new(budget)).unwrap();
    let untyped_cptr: CPtr = 1;
    *state.cnodes.get_mut(cnode_idx).unwrap().slot_mut(untyped_cptr).unwrap() =
        Capability::Untyped { id: UntypedId(untyped_idx as u16), rights: Rights::all() };

    (state, tcb_id, untyped_cptr, 2 /* dest slot */)
}

/// Like `setup_with_untyped`, but the untyped memory has physical memory to hand out.
fn setup_with_memory_backed_untyped(budget: usize) -> (KernelState, TcbId, CPtr, CPtr) {
    let (mut state, tcb_id, untyped_cptr, dest) = setup_with_untyped(budget);
    *state.untypeds.get_mut(0).unwrap() = Untyped::with_memory(budget, ARENA_BASE, ARENA_SIZE);
    (state, tcb_id, untyped_cptr, dest)
}

#[test]
fn retype_endpoint_places_a_full_rights_capability() {
    let (mut state, tcb, untyped_cptr, dest) = setup_with_untyped(2);
    let mut frame = frame_for(untyped_cptr, ObjectType::Endpoint as usize, dest);
    untyped_retype(&mut state, tcb, untyped_cptr, &mut frame).unwrap();

    let cnode = state.cnodes.get(0).unwrap();
    assert_eq!(
        cnode.get(dest),
        Some(Capability::Endpoint { id: EndpointId(0), badge: 0, rights: Rights::all() })
    );
    assert_eq!(state.untypeds.get(0).unwrap().remaining, 1);
}

#[test]
fn retype_exhausts_budget() {
    let (mut state, tcb, untyped_cptr, dest) = setup_with_untyped(1);
    let mut frame = frame_for(untyped_cptr, ObjectType::Endpoint as usize, dest);
    untyped_retype(&mut state, tcb, untyped_cptr, &mut frame).unwrap();

    let mut frame2 = frame_for(untyped_cptr, ObjectType::Endpoint as usize, dest + 1);
    assert_eq!(
        untyped_retype(&mut state, tcb, untyped_cptr, &mut frame2),
        Err(SyscallError::NotEnoughMemory)
    );
}

#[test]
fn retype_into_occupied_slot_does_not_leak_a_pool_entry() {
    let (mut state, tcb, untyped_cptr, dest) = setup_with_untyped(2);
    // Occupy the destination first.
    *state.cnodes.get_mut(0).unwrap().slot_mut(dest).unwrap() =
        Capability::Endpoint { id: EndpointId(99), badge: 0, rights: Rights::all() };

    let mut frame = frame_for(untyped_cptr, ObjectType::Endpoint as usize, dest);
    assert_eq!(
        untyped_retype(&mut state, tcb, untyped_cptr, &mut frame),
        Err(SyscallError::IllegalOperation)
    );
    // Budget untouched and nothing was allocated into the endpoint pool.
    assert_eq!(state.untypeds.get(0).unwrap().remaining, 2);
    assert_eq!(state.endpoints.len(), 0);
}

#[test]
fn configure_admits_an_inactive_thread_to_the_ready_queue() {
    let mut state = KernelState::new();
    let admin_cnode = state.cnodes.allocate(CNode::empty()).unwrap();
    let admin_id = TcbId(state.tcbs.allocate(Tcb::new()).unwrap() as u16);
    state.tcbs.get_mut(admin_id.0 as usize).unwrap().cspace = Some(CNodeId(admin_cnode as u16));

    let target_idx = state.tcbs.allocate(Tcb::new()).unwrap();
    let target = TcbId(target_idx as u16);
    let target_cspace = CNodeId(state.cnodes.allocate(CNode::empty()).unwrap() as u16);
    let sched = state.sched_contexts.allocate(SchedulingContext::new(1)).unwrap();

    let cnode = state.cnodes.get_mut(admin_cnode).unwrap();
    *cnode.slot_mut(0).unwrap() = Capability::Tcb { id: target, rights: Rights::all() };
    *cnode.slot_mut(1).unwrap() = Capability::CNode(target_cspace);
    *cnode.slot_mut(2).unwrap() =
        Capability::SchedContext { id: SchedContextId(sched as u16), rights: Rights::all() };

    let mut frame = frame_for(0, 1, 2);
    configure(&mut state, admin_id, 0, &mut frame).unwrap();

    assert_eq!(state.tcbs.get(target_idx).unwrap().state, ThreadState::Ready);
    assert_eq!(state.tcbs.get(target_idx).unwrap().cspace, Some(target_cspace));
}

#[test]
fn retype_vspace_from_a_memory_backed_untyped() {
    let (mut state, tcb, untyped_cptr, dest) = setup_with_memory_backed_untyped(2);
    let mut frame = frame_for(untyped_cptr, ObjectType::VSpace as usize, dest);
    untyped_retype(&mut state, tcb, untyped_cptr, &mut frame).unwrap();

    let Some(Capability::VSpace { id, rights }) = state.cnodes.get(0).unwrap().get(dest) else {
        panic!("expected a VSpace capability");
    };
    assert_eq!(rights, Rights::all());
    let vspace = state.vspaces.get(id.0 as usize).unwrap();
    assert!(vspace.root >= ARENA_BASE && vspace.root < ARENA_BASE + ARENA_SIZE);
    assert_eq!(vspace.root % PAGE_SIZE, 0);
    assert_eq!(state.untypeds.get(0).unwrap().remaining, 1);
}

#[test]
fn retype_frame_small_gets_a_correctly_sized_page() {
    let (mut state, tcb, untyped_cptr, dest) = setup_with_memory_backed_untyped(2);

    let mut frame1 = frame_for(untyped_cptr, ObjectType::FrameSmall as usize, dest);
    untyped_retype(&mut state, tcb, untyped_cptr, &mut frame1).unwrap();
    let mut frame2 = frame_for(untyped_cptr, ObjectType::FrameSmall as usize, dest + 1);
    untyped_retype(&mut state, tcb, untyped_cptr, &mut frame2).unwrap();

    let Some(Capability::Frame { id: first_id, .. }) = state.cnodes.get(0).unwrap().get(dest) else {
        panic!("expected a Frame capability");
    };
    let Some(Capability::Frame { id: second_id, .. }) = state.cnodes.get(0).unwrap().get(dest + 1) else {
        panic!("expected a Frame capability");
    };
    let first = state.frames.get(first_id.0 as usize).unwrap();
    let second = state.frames.get(second_id.0 as usize).unwrap();
    assert_eq!(first.size, FrameSize::Small);
    assert_eq!(first.paddr % PAGE_SIZE, 0);
    assert_ne!(first.paddr, second.paddr, "two retypes must never alias the same page");
    assert!(first.mapped_at.is_none());
}

#[test]
fn retype_frame_mega_gets_a_correctly_sized_page() {
    // Not aligned to a megapage, which the frame has to be.
    let base = ARENA_BASE + PAGE_SIZE;
    let mut state = KernelState::new();
    let cnode_idx = state.cnodes.allocate(CNode::empty()).unwrap();
    let tcb_id = TcbId(state.tcbs.allocate(Tcb::new()).unwrap() as u16);
    state.tcbs.get_mut(tcb_id.0 as usize).unwrap().cspace = Some(CNodeId(cnode_idx as u16));
    let untyped = Untyped::with_memory(2, base, 3 * MEGAPAGE_SIZE);
    let untyped_idx = state.untypeds.allocate(untyped).unwrap();
    let untyped_cptr: CPtr = 1;
    *state.cnodes.get_mut(cnode_idx).unwrap().slot_mut(untyped_cptr).unwrap() =
        Capability::Untyped { id: UntypedId(untyped_idx as u16), rights: Rights::all() };

    let mut frame = frame_for(untyped_cptr, ObjectType::FrameMega as usize, 2);
    untyped_retype(&mut state, tcb_id, untyped_cptr, &mut frame).unwrap();

    let Some(Capability::Frame { id, .. }) = state.cnodes.get(0).unwrap().get(2) else {
        panic!("expected a Frame capability");
    };
    let mega = state.frames.get(id.0 as usize).unwrap();
    assert_eq!(mega.size, FrameSize::Mega);
    assert_eq!(mega.paddr % MEGAPAGE_SIZE, 0);
    assert!(mega.mapped_at.is_none());
}

#[test]
fn retype_vspace_without_real_memory_backing_fails() {
    // No physical memory at all: there is no address to hand out.
    let (mut state, tcb, untyped_cptr, dest) = setup_with_untyped(2);
    let mut frame = frame_for(untyped_cptr, ObjectType::VSpace as usize, dest);
    assert_eq!(
        untyped_retype(&mut state, tcb, untyped_cptr, &mut frame),
        Err(SyscallError::NotEnoughMemory)
    );
}

#[test]
fn configure_sets_address_space_from_a_vspace_capability() {
    let (mut state, admin_id, untyped_cptr, dest) = setup_with_memory_backed_untyped(3);
    let target_idx = state.tcbs.allocate(Tcb::new()).unwrap();
    let target = TcbId(target_idx as u16);
    let target_cspace = CNodeId(state.cnodes.allocate(CNode::empty()).unwrap() as u16);
    let sched = state.sched_contexts.allocate(SchedulingContext::new(1)).unwrap();

    let mut retype_frame = frame_for(untyped_cptr, ObjectType::VSpace as usize, dest);
    untyped_retype(&mut state, admin_id, untyped_cptr, &mut retype_frame).unwrap();
    let Some(Capability::VSpace { id: vspace_id, .. }) = state.cnodes.get(0).unwrap().get(dest) else {
        panic!("expected a VSpace capability");
    };
    let expected_root = state.vspaces.get(vspace_id.0 as usize).unwrap().root;

    let cnode = state.cnodes.get_mut(0).unwrap();
    *cnode.slot_mut(3).unwrap() = Capability::Tcb { id: target, rights: Rights::all() };
    *cnode.slot_mut(4).unwrap() = Capability::CNode(target_cspace);
    *cnode.slot_mut(5).unwrap() =
        Capability::SchedContext { id: SchedContextId(sched as u16), rights: Rights::all() };

    let mut frame = TrapFrame::zeroed();
    frame.set_mr(1, 4);
    frame.set_mr(2, 5);
    frame.set_mr(3, dest); // the VSpace cptr retyped above
    configure(&mut state, admin_id, 3, &mut frame).unwrap();

    assert_eq!(state.tcbs.get(target_idx).unwrap().address_space, Some(expected_root));
}

#[test]
fn configure_with_mr3_zero_leaves_no_address_space() {
    let mut state = KernelState::new();
    let admin_cnode = state.cnodes.allocate(CNode::empty()).unwrap();
    let admin_id = TcbId(state.tcbs.allocate(Tcb::new()).unwrap() as u16);
    state.tcbs.get_mut(admin_id.0 as usize).unwrap().cspace = Some(CNodeId(admin_cnode as u16));
    let target_idx = state.tcbs.allocate(Tcb::new()).unwrap();
    let target = TcbId(target_idx as u16);
    let target_cspace = CNodeId(state.cnodes.allocate(CNode::empty()).unwrap() as u16);
    let sched = state.sched_contexts.allocate(SchedulingContext::new(1)).unwrap();

    let cnode = state.cnodes.get_mut(admin_cnode).unwrap();
    *cnode.slot_mut(0).unwrap() = Capability::Tcb { id: target, rights: Rights::all() };
    *cnode.slot_mut(1).unwrap() = Capability::CNode(target_cspace);
    *cnode.slot_mut(2).unwrap() =
        Capability::SchedContext { id: SchedContextId(sched as u16), rights: Rights::all() };

    let mut frame = frame_for(0, 1, 2); // mr3 defaults to 0
    configure(&mut state, admin_id, 0, &mut frame).unwrap();

    assert_eq!(state.tcbs.get(target_idx).unwrap().address_space, None);
}

#[test]
fn configure_rejects_a_non_vspace_mr3() {
    let mut state = KernelState::new();
    let admin_cnode = state.cnodes.allocate(CNode::empty()).unwrap();
    let admin_id = TcbId(state.tcbs.allocate(Tcb::new()).unwrap() as u16);
    state.tcbs.get_mut(admin_id.0 as usize).unwrap().cspace = Some(CNodeId(admin_cnode as u16));
    let target_idx = state.tcbs.allocate(Tcb::new()).unwrap();
    let target = TcbId(target_idx as u16);
    let target_cspace = CNodeId(state.cnodes.allocate(CNode::empty()).unwrap() as u16);
    let sched = state.sched_contexts.allocate(SchedulingContext::new(1)).unwrap();
    let ep = state.endpoints.allocate(Endpoint::new()).unwrap();

    let cnode = state.cnodes.get_mut(admin_cnode).unwrap();
    *cnode.slot_mut(0).unwrap() = Capability::Tcb { id: target, rights: Rights::all() };
    *cnode.slot_mut(1).unwrap() = Capability::CNode(target_cspace);
    *cnode.slot_mut(2).unwrap() =
        Capability::SchedContext { id: SchedContextId(sched as u16), rights: Rights::all() };
    *cnode.slot_mut(3).unwrap() =
        Capability::Endpoint { id: EndpointId(ep as u16), badge: 0, rights: Rights::all() };

    let mut frame = TrapFrame::zeroed();
    frame.set_mr(1, 1);
    frame.set_mr(2, 2);
    frame.set_mr(3, 3); // names an Endpoint, not a VSpace
    assert_eq!(
        configure(&mut state, admin_id, 0, &mut frame),
        Err(SyscallError::InvalidCapability)
    );
}
