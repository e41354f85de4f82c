use lantern_kernel::cap::{CNode, CNodeId, TcbId};
use lantern_kernel::object::{Tcb, ThreadState};
use lantern_kernel::state::KernelState;
use lantern_kernel::trap::TrapFrame;

fn spawn_ready(state: &mut KernelState) -> TcbId {
    let index = state.tcbs.allocate(Tcb::new()).unwrap();
    let id = TcbId(index as u16);
    state.make_ready(id);
    id
}

/// Makes `id` the running thread directly, without touching the ready queue:
/// `switch_to`'s precondition (see its doc comment) is that its target isn't
/// also sitting in the ready queue, so tests that just need *some* current
/// thread established use this instead of `switch_to` itself.
fn make_current(state: &mut KernelState, id: TcbId) {
    state.scheduler.current = Some(id);
    if let Some(tcb) = state.tcbs.get_mut(id.0 as usize) {
        tcb.state = ThreadState::Running;
    }
}

#[test]
fn switch_to_saves_the_outgoing_thread_and_loads_the_incoming_one() {
    let mut state = KernelState::new();
    let a = TcbId(state.tcbs.allocate(Tcb::new()).unwrap() as u16);
    let b = TcbId(state.tcbs.allocate(Tcb::new()).unwrap() as u16);
    make_current(&mut state, a);

    let mut frame = TrapFrame::zeroed();
    frame.set_mr(0, 111); // simulate a running for a bit and setting mr0

    state.switch_to(&mut frame, b);
    assert_eq!(state.scheduler.current, Some(b));
    // b's own (zeroed) context was loaded, not a's leftover value.
    assert_eq!(frame.mr(0), 0);

    frame.set_mr(0, 222); // simulate b running for a bit and setting mr0

    // Switching back to a restores exactly what was saved when we left it
    // (111), not b's leftover (222).
    state.switch_to(&mut frame, a);
    assert_eq!(state.scheduler.current, Some(a));
    assert_eq!(frame.mr(0), 111);
}

#[test]
fn block_current_refuses_when_nothing_else_is_ready() {
    let mut state = KernelState::new();
    let a = TcbId(state.tcbs.allocate(Tcb::new()).unwrap() as u16);
    make_current(&mut state, a);

    let mut frame = TrapFrame::zeroed();
    assert!(!state.block_current(&mut frame));
    // current is left exactly as it was: no phantom switch happened.
    assert_eq!(state.scheduler.current, Some(a));
}

#[test]
fn block_current_switches_to_the_next_ready_thread() {
    let mut state = KernelState::new();
    let a = TcbId(state.tcbs.allocate(Tcb::new()).unwrap() as u16);
    make_current(&mut state, a);
    let b = spawn_ready(&mut state);

    let mut frame = TrapFrame::zeroed();
    assert!(state.block_current(&mut frame));
    assert_eq!(state.scheduler.current, Some(b));
}

#[test]
fn cnode_pool_allocates_independently_of_tcb_pool() {
    let mut state = KernelState::new();
    let index = state.cnodes.allocate(CNode::empty()).unwrap();
    assert_eq!(CNodeId(index as u16), CNodeId(0));
}
