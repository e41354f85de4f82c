use std::collections::BTreeMap;

use lantern_kernel::admin;
use lantern_kernel::cap::{
    CNode, CNodeId, CPtr, Capability, ObjectType, Rights, TcbId, UntypedId,
};
use lantern_kernel::frame::{
    invoke, map_translated, PagingAction, LABEL_MAP, LABEL_UNMAP, PERM_READ, PERM_WRITE,
};
use lantern_kernel::object::{Tcb, Untyped};
use lantern_kernel::state::KernelState;
use lantern_kernel::trap::{MessageTag, TrapFrame};
use lantern_kernel::SyscallError;

/// A page-aligned range of physical memory.
const ARENA_BASE: usize = 0x8000_0000;
const ARENA_SIZE: usize = 64 * 1024;

/// Page tables: what is mapped, by root and address.
type Tables = BTreeMap<(usize, usize), usize>;

/// Invokes a frame and does with the page tables what it asks for.
fn invoke_with(
    tables: &mut Tables,
    state: &mut KernelState,
    tcb: TcbId,
    cptr: CPtr,
    frame: &mut TrapFrame,
) -> Result<(), SyscallError> {
    let mut action = invoke(state, tcb, cptr, frame)?;
    if let PagingAction::Translate { root, vaddr } = action {
        let translated = tables.get(&(root, vaddr)).copied();
        action = map_translated(state, tcb, cptr, frame, translated)?;
    }
    match action {
        PagingAction::MapPage(mapping) => {
            tables.insert((mapping.root, mapping.vaddr), mapping.paddr);
        }
        PagingAction::UnmapPage { root, vaddr } => {
            tables.remove(&(root, vaddr));
        }
        _ => {}
    }
    Ok(())
}

/// Builds a thread with a memory-backed Untyped already retyped into one
/// VSpace (cptr 2) and one `FrameSmall` (cptr 3), ready for `Map`/`Unmap`.
fn setup() -> (KernelState, TcbId, CPtr, CPtr) {
    let mut state = KernelState::new();
    let cnode_idx = state.cnodes.allocate(CNode::empty()).unwrap();
    let tcb_id = TcbId(state.tcbs.allocate(Tcb::new()).unwrap() as u16);
    state.tcbs.get_mut(tcb_id.0 as usize).unwrap().cspace = Some(CNodeId(cnode_idx as u16));

    let untyped = Untyped::with_memory(4, ARENA_BASE, ARENA_SIZE);
    let untyped_idx = state.untypeds.allocate(untyped).unwrap();
    let untyped_cptr: CPtr = 1;
    *state.cnodes.get_mut(cnode_idx).unwrap().slot_mut(untyped_cptr).unwrap() =
        Capability::Untyped { id: UntypedId(untyped_idx as u16), rights: Rights::all() };

    let vspace_cptr: CPtr = 2;
    let mut retype_vspace = TrapFrame::zeroed();
    retype_vspace.set_mr(1, ObjectType::VSpace as usize);
    retype_vspace.set_mr(2, vspace_cptr);
    admin::untyped_retype(&mut state, tcb_id, untyped_cptr, &mut retype_vspace).unwrap();

    let frame_cptr: CPtr = 3;
    let mut retype_frame = TrapFrame::zeroed();
    retype_frame.set_mr(1, ObjectType::FrameSmall as usize);
    retype_frame.set_mr(2, frame_cptr);
    admin::untyped_retype(&mut state, tcb_id, untyped_cptr, &mut retype_frame).unwrap();

    (state, tcb_id, frame_cptr, vspace_cptr)
}

fn map_frame(mr3: usize) -> TrapFrame {
    let mut frame = TrapFrame::zeroed();
    frame.set_tag(MessageTag { label: LABEL_MAP, length: 0, extra_caps: 0, flags: 0 });
    frame.set_mr(3, mr3);
    frame
}

#[test]
fn map_then_translate_succeeds_and_marks_the_frame_mapped() {
    let mut tables = Tables::new();
    let (mut state, tcb, frame_cptr, vspace_cptr) = setup();
    let Capability::VSpace { id: vspace_id, .. } = state.lookup_cap(tcb, vspace_cptr).unwrap() else {
        panic!("expected a VSpace capability");
    };
    let Capability::Frame { id: frame_id, .. } = state.lookup_cap(tcb, frame_cptr).unwrap() else {
        panic!("expected a Frame capability");
    };
    let paddr = state.frames.get(frame_id.0 as usize).unwrap().paddr;
    let root = state.vspaces.get(vspace_id.0 as usize).unwrap().root;

    let vaddr = 0x1000_0000usize; // arbitrary, 4 KiB-aligned
    let mut frame = map_frame(PERM_READ | PERM_WRITE);
    frame.set_mr(1, vspace_cptr);
    frame.set_mr(2, vaddr);
    invoke_with(&mut tables, &mut state, tcb, frame_cptr, &mut frame).unwrap();

    let translated = tables.get(&(root, vaddr)).copied();
    assert_eq!(translated, Some(paddr));
    assert_eq!(state.frames.get(frame_id.0 as usize).unwrap().mapped_at, Some((vspace_id, vaddr)));
}

#[test]
fn map_rejects_a_frame_without_write_rights() {
    let mut tables = Tables::new();
    let (mut state, tcb, frame_cptr, vspace_cptr) = setup();
    // Mint a read-only copy of the Frame cap into a fresh slot.
    let Capability::Frame { id, .. } = state.lookup_cap(tcb, frame_cptr).unwrap() else {
        panic!("expected a Frame capability");
    };
    *state.cnodes.get_mut(0).unwrap().slot_mut(4).unwrap() =
        Capability::Frame { id, rights: Rights::read() };

    let mut frame = map_frame(PERM_READ);
    frame.set_mr(1, vspace_cptr);
    frame.set_mr(2, 0x1000_0000);
    assert_eq!(invoke_with(&mut tables, &mut state, tcb, 4, &mut frame), Err(SyscallError::IllegalOperation));
}

#[test]
fn map_rejects_an_already_mapped_frame() {
    let mut tables = Tables::new();
    let (mut state, tcb, frame_cptr, vspace_cptr) = setup();

    let mut frame1 = map_frame(PERM_READ);
    frame1.set_mr(1, vspace_cptr);
    frame1.set_mr(2, 0x1000_0000);
    invoke_with(&mut tables, &mut state, tcb, frame_cptr, &mut frame1).unwrap();

    let mut frame2 = map_frame(PERM_READ);
    frame2.set_mr(1, vspace_cptr);
    frame2.set_mr(2, 0x2000_0000);
    assert_eq!(invoke_with(&mut tables, &mut state, tcb, frame_cptr, &mut frame2), Err(SyscallError::IllegalOperation));
}

#[test]
fn map_rejects_a_misaligned_vaddr() {
    let mut tables = Tables::new();
    let (mut state, tcb, frame_cptr, vspace_cptr) = setup();

    let mut frame = map_frame(PERM_READ);
    frame.set_mr(1, vspace_cptr);
    frame.set_mr(2, 0x1000_0123); // not page-aligned
    assert_eq!(invoke_with(&mut tables, &mut state, tcb, frame_cptr, &mut frame), Err(SyscallError::AlignmentError));
}

#[test]
fn unmap_clears_the_mapping() {
    let mut tables = Tables::new();
    let (mut state, tcb, frame_cptr, vspace_cptr) = setup();
    let Capability::VSpace { id: vspace_id, .. } = state.lookup_cap(tcb, vspace_cptr).unwrap() else {
        panic!("expected a VSpace capability");
    };
    let root = state.vspaces.get(vspace_id.0 as usize).unwrap().root;

    let vaddr = 0x1000_0000usize;
    let mut map = map_frame(PERM_READ);
    map.set_mr(1, vspace_cptr);
    map.set_mr(2, vaddr);
    invoke_with(&mut tables, &mut state, tcb, frame_cptr, &mut map).unwrap();

    let mut unmap = TrapFrame::zeroed();
    unmap.set_tag(MessageTag { label: LABEL_UNMAP, length: 0, extra_caps: 0, flags: 0 });
    invoke_with(&mut tables, &mut state, tcb, frame_cptr, &mut unmap).unwrap();

    let Capability::Frame { id: frame_id, .. } = state.lookup_cap(tcb, frame_cptr).unwrap() else {
        panic!("expected a Frame capability");
    };
    assert_eq!(state.frames.get(frame_id.0 as usize).unwrap().mapped_at, None);
    assert_eq!(tables.get(&(root, vaddr)).copied(), None);
}

#[test]
fn unmapping_an_unmapped_frame_is_a_harmless_no_op() {
    let mut tables = Tables::new();
    let (mut state, tcb, frame_cptr, _vspace_cptr) = setup();
    let mut unmap = TrapFrame::zeroed();
    unmap.set_tag(MessageTag { label: LABEL_UNMAP, length: 0, extra_caps: 0, flags: 0 });
    assert_eq!(invoke_with(&mut tables, &mut state, tcb, frame_cptr, &mut unmap), Ok(()));
}
