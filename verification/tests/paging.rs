use lantern_kernel::cap::{
    CNode, CNodeId, CPtr, Capability, FrameId, ObjectType, Rights, TcbId, UntypedId, VSpaceId,
};
use lantern_kernel::frame::{
    PageMapping, PagePermissions, PagingAction, LABEL_MAP, LABEL_UNMAP, PERM_EXECUTE, PERM_READ,
    PERM_USER, PERM_WRITE,
};
use lantern_kernel::object::{FrameSize, Tcb, Untyped, MEGAPAGE_SIZE, PAGE_SIZE};
use lantern_kernel::state::KernelState;
use lantern_kernel::syscall::{dispatch_translated, SyscallNumber};
use lantern_kernel::trap::{MessageTag, TrapFrame};
use lantern_kernel::{dispatch, SyscallError};

const BASE: usize = 0x8000_0000;
const UNTYPED: CPtr = 1;
const VSPACE: CPtr = 2;
const FRAME: CPtr = 3;
const OTHER_FRAME: CPtr = 4;
const SECOND_VSPACE: CPtr = 5;
const THIRD_VSPACE: CPtr = 6;

/// A running thread with untyped memory of `pages` pages.
fn machine(pages: usize) -> KernelState {
    let mut state = KernelState::new();
    let cnode = state.cnodes.allocate(CNode::empty()).unwrap();
    state.untypeds.allocate(Untyped::with_memory(10, BASE, pages * PAGE_SIZE)).unwrap();
    *state.cnodes.get_mut(cnode).unwrap().slot_mut(UNTYPED).unwrap() =
        Capability::Untyped { id: UntypedId(0), rights: Rights::all() };
    let tcb = state.tcbs.allocate(Tcb::new()).unwrap();
    state.tcbs.get_mut(tcb).unwrap().cspace = Some(CNodeId(cnode as u16));
    let mut frame = TrapFrame::zeroed();
    state.enter_first(&mut frame, TcbId(tcb as u16));
    state
}

fn retype(state: &mut KernelState, object_type: ObjectType, dest: CPtr) -> TrapFrame {
    let mut frame = TrapFrame::zeroed();
    frame.set_syscall_number(SyscallNumber::UntypedRetype.number());
    frame.set_mr(0, UNTYPED);
    frame.set_mr(1, object_type as usize);
    frame.set_mr(2, dest);
    assert_eq!(dispatch(state, &mut frame), PagingAction::Done);
    frame
}

fn frame_trap(label: u32, mrs: [usize; 4]) -> TrapFrame {
    let mut frame = TrapFrame::zeroed();
    frame.set_syscall_number(SyscallNumber::FrameInvoke.number());
    frame.set_tag(MessageTag { label, length: 0, extra_caps: 0, flags: 0 });
    for i in 0..4 {
        frame.set_mr(i, mrs[i]);
    }
    frame
}

/// An address space and two small frames.
fn furnished(pages: usize) -> KernelState {
    let mut state = machine(pages);
    retype(&mut state, ObjectType::VSpace, VSPACE);
    retype(&mut state, ObjectType::FrameSmall, FRAME);
    retype(&mut state, ObjectType::FrameSmall, OTHER_FRAME);
    state
}

#[test]
fn memory_is_handed_out_page_by_page() {
    let state = furnished(16);
    assert_eq!(state.vspaces.get(0).unwrap().root, BASE);
    assert_eq!(state.vspaces.get(0).unwrap().source, UntypedId(0));
    assert_eq!(state.frames.get(0).unwrap().paddr, BASE + PAGE_SIZE);
    assert_eq!(state.frames.get(1).unwrap().paddr, BASE + 2 * PAGE_SIZE);
    let left = state.untypeds.get(0).unwrap();
    assert_eq!(left.remaining, 7);
    assert_eq!(left.memory.unwrap().next, BASE + 3 * PAGE_SIZE);
    assert_eq!(left.memory.unwrap().end, BASE + 16 * PAGE_SIZE);
}

#[test]
fn a_block_is_aligned_to_its_size() {
    let mut untyped = Untyped::with_memory(0, 0x1001, 0x5000);
    assert_eq!(untyped.bump(0x1000, 0x1000), Some(0x2000));
    assert_eq!(untyped.bump(0x10, 0x10), Some(0x3000));
    assert_eq!(untyped.bump(0x1000, 0x1000), Some(0x4000));
    assert_eq!(untyped.bump(0x1000, 0x1000), Some(0x5000));
    assert_eq!(untyped.memory.unwrap().next, 0x6000);
    // Up to 0x6001 there is one byte left.
    assert_eq!(untyped.bump(0x1000, 0x1000), None);
    assert_eq!(untyped.bump(1, 1), Some(0x6000));
    assert_eq!(untyped.bump(1, 1), None);
    assert_eq!(Untyped::new(3).bump(1, 1), None);
}

#[test]
fn a_block_past_the_end_of_the_address_range_is_refused() {
    let mut untyped = Untyped::with_memory(0, usize::MAX - 10, 10);
    assert_eq!(untyped.bump(4, PAGE_SIZE), None);
    assert_eq!(untyped.bump(usize::MAX, 1), None);
    assert_eq!(untyped.bump(10, 1), Some(usize::MAX - 10));
}

#[test]
fn a_mega_frame_skips_to_its_alignment() {
    let mut state = machine(3 * MEGAPAGE_SIZE / PAGE_SIZE);
    retype(&mut state, ObjectType::FrameSmall, FRAME);
    retype(&mut state, ObjectType::FrameMega, OTHER_FRAME);
    let mega = state.frames.get(1).unwrap();
    assert_eq!(mega.paddr, BASE + MEGAPAGE_SIZE);
    assert_eq!(mega.size, FrameSize::Mega);
    assert_eq!(FrameSize::Mega.bytes(), 0x20_0000);
    assert_eq!(FrameSize::Small.bytes(), 0x1000);
}

#[test]
fn a_map_asks_first_and_maps_then() {
    let mut state = furnished(16);
    let mut frame = frame_trap(LABEL_MAP, [FRAME, VSPACE, 0x1000, PERM_READ | PERM_USER]);
    let action = dispatch(&mut state, &mut frame);
    assert_eq!(action, PagingAction::Translate { root: BASE, vaddr: 0x1000 });
    assert!(state.frames.get(0).unwrap().mapped_at.is_none());

    let action = dispatch_translated(&mut state, &mut frame, None);
    let expected = PageMapping {
        root: BASE,
        vaddr: 0x1000,
        paddr: BASE + PAGE_SIZE,
        size: FrameSize::Small,
        permissions: PagePermissions {
            readable: true,
            writable: false,
            executable: false,
            user: true,
        },
        spare: BASE + 3 * PAGE_SIZE,
        second_spare: Some(BASE + 4 * PAGE_SIZE),
    };
    assert_eq!(action, PagingAction::MapPage(expected));
    assert_eq!(state.frames.get(0).unwrap().mapped_at, Some((VSpaceId(0), 0x1000)));
    assert!(!frame.tag().is_error());
}

#[test]
fn permissions_are_one_bit_each() {
    for bits in 0..16 {
        let permissions = PagePermissions::from_bits(bits);
        assert_eq!(permissions.readable, bits & PERM_READ != 0);
        assert_eq!(permissions.writable, bits & PERM_WRITE != 0);
        assert_eq!(permissions.executable, bits & PERM_EXECUTE != 0);
        assert_eq!(permissions.user, bits & PERM_USER != 0);
    }
    assert_eq!((PERM_READ, PERM_WRITE, PERM_EXECUTE, PERM_USER), (1, 2, 4, 8));
}

#[test]
fn a_page_that_is_there_already_stays() {
    let mut state = furnished(16);
    let mut frame = frame_trap(LABEL_MAP, [FRAME, VSPACE, 0x1000, PERM_READ]);
    dispatch(&mut state, &mut frame);
    let action = dispatch_translated(&mut state, &mut frame, Some(0xdead_b000));
    assert_eq!(action, PagingAction::Done);
    assert!(frame.tag().is_error());
    assert_eq!(frame.mr(0), SyscallError::IllegalOperation.code());
    assert!(state.frames.get(0).unwrap().mapped_at.is_none());
    // No memory was taken for page tables.
    assert_eq!(state.untypeds.get(0).unwrap().memory.unwrap().next, BASE + 3 * PAGE_SIZE);
}

#[test]
fn two_frames_get_page_tables_of_their_own() {
    let mut state = furnished(16);
    let mut spares = Vec::new();
    for (cptr, vaddr) in [(FRAME, 0x1000), (OTHER_FRAME, 0x2000)] {
        let mut frame = frame_trap(LABEL_MAP, [cptr, VSPACE, vaddr, PERM_READ]);
        dispatch(&mut state, &mut frame);
        match dispatch_translated(&mut state, &mut frame, None) {
            PagingAction::MapPage(mapping) => {
                spares.push(mapping.spare);
                spares.push(mapping.second_spare.unwrap());
            }
            _ => panic!("expected a page to map"),
        }
    }
    let expected: Vec<usize> = (3..7).map(|i| BASE + i * PAGE_SIZE).collect();
    assert_eq!(spares, expected);
}

#[test]
fn a_mega_frame_needs_one_page_table() {
    let mut state = machine(3 * MEGAPAGE_SIZE / PAGE_SIZE);
    retype(&mut state, ObjectType::VSpace, VSPACE);
    retype(&mut state, ObjectType::FrameMega, FRAME);
    let mut frame = frame_trap(LABEL_MAP, [FRAME, VSPACE, MEGAPAGE_SIZE, PERM_READ]);
    dispatch(&mut state, &mut frame);
    match dispatch_translated(&mut state, &mut frame, None) {
        PagingAction::MapPage(mapping) => {
            assert_eq!(mapping.size, FrameSize::Mega);
            assert_eq!(mapping.spare, BASE + 2 * MEGAPAGE_SIZE);
            assert!(mapping.second_spare.is_none());
        }
        _ => panic!("expected a page to map"),
    }
    // Not a multiple of a megapage.
    let mut frame = frame_trap(LABEL_UNMAP, [FRAME, 0, 0, 0]);
    dispatch(&mut state, &mut frame);
    let mut frame = frame_trap(LABEL_MAP, [FRAME, VSPACE, PAGE_SIZE, PERM_READ]);
    assert_eq!(dispatch(&mut state, &mut frame), PagingAction::Done);
    assert_eq!(frame.mr(0), SyscallError::AlignmentError.code());
}

#[test]
fn memory_that_runs_out_half_way_stays_taken() {
    let mut state = furnished(4);
    let mut frame = frame_trap(LABEL_MAP, [FRAME, VSPACE, 0x1000, PERM_READ]);
    dispatch(&mut state, &mut frame);
    assert_eq!(dispatch_translated(&mut state, &mut frame, None), PagingAction::Done);
    assert_eq!(frame.mr(0), SyscallError::NotEnoughMemory.code());
    assert!(state.frames.get(0).unwrap().mapped_at.is_none());
    assert_eq!(state.untypeds.get(0).unwrap().memory.unwrap().next, BASE + 4 * PAGE_SIZE);
    assert_eq!(state.untypeds.get(0).unwrap().remaining, 7);
}

#[test]
fn an_unmap_undoes_a_map() {
    let mut state = furnished(16);
    let mut frame = frame_trap(LABEL_MAP, [FRAME, VSPACE, 0x5000, PERM_READ]);
    dispatch(&mut state, &mut frame);
    dispatch_translated(&mut state, &mut frame, None);
    let mut frame = frame_trap(LABEL_UNMAP, [FRAME, 0, 0, 0]);
    let action = dispatch(&mut state, &mut frame);
    assert_eq!(action, PagingAction::UnmapPage { root: BASE, vaddr: 0x5000 });
    assert!(state.frames.get(0).unwrap().mapped_at.is_none());
    assert_eq!(dispatch(&mut state, &mut frame), PagingAction::Done);
    assert!(!frame.tag().is_error());

    // It can be mapped again, elsewhere.
    let mut frame = frame_trap(LABEL_MAP, [FRAME, VSPACE, 0x6000, PERM_READ]);
    dispatch(&mut state, &mut frame);
    let action = dispatch_translated(&mut state, &mut frame, None);
    assert!(matches!(action, PagingAction::MapPage(_)));
}

#[test]
fn a_frame_invocation_with_an_unknown_label_is_refused() {
    let mut state = furnished(16);
    let mut frame = frame_trap(3, [FRAME, VSPACE, 0x1000, 0]);
    assert_eq!(dispatch(&mut state, &mut frame), PagingAction::Done);
    assert_eq!(frame.mr(0), SyscallError::InvalidArgument.code());
}

#[test]
fn mapping_needs_a_writable_address_space() {
    let mut state = furnished(16);
    *state.cnodes.get_mut(0).unwrap().slot_mut(9).unwrap() =
        Capability::VSpace { id: VSpaceId(0), rights: Rights::read() };
    let mut frame = frame_trap(LABEL_MAP, [FRAME, 9, 0x1000, PERM_READ]);
    dispatch(&mut state, &mut frame);
    assert_eq!(frame.mr(0), SyscallError::IllegalOperation.code());
    let mut frame = frame_trap(LABEL_MAP, [FRAME, FRAME, 0x1000, PERM_READ]);
    dispatch(&mut state, &mut frame);
    assert_eq!(frame.mr(0), SyscallError::InvalidCapability.code());
}

#[test]
fn what_needs_no_translation_is_dispatched_as_it_is() {
    let mut state = machine(16);
    let mut frame = TrapFrame::zeroed();
    frame.set_syscall_number(SyscallNumber::UntypedRetype.number());
    frame.set_mr(0, UNTYPED);
    frame.set_mr(1, ObjectType::FrameSmall as usize);
    frame.set_mr(2, FRAME);
    assert_eq!(dispatch_translated(&mut state, &mut frame, Some(1)), PagingAction::Done);
    assert_eq!(
        state.cnodes.get(0).unwrap().get(FRAME),
        Some(Capability::Frame { id: FrameId(0), rights: Rights::all() })
    );
}

/// `furnished`, with three address spaces in all.
fn three_spaces() -> KernelState {
    let mut state = furnished(32);
    retype(&mut state, ObjectType::VSpace, SECOND_VSPACE);
    retype(&mut state, ObjectType::VSpace, THIRD_VSPACE);
    state
}

/// Maps `FRAME`, or finds out why not.
fn map(state: &mut KernelState, vspace: CPtr, vaddr: usize) -> Result<PageMapping, usize> {
    let mut frame = frame_trap(LABEL_MAP, [FRAME, vspace, vaddr, PERM_READ]);
    let mut action = dispatch(state, &mut frame);
    if matches!(action, PagingAction::Translate { .. }) {
        action = dispatch_translated(state, &mut frame, None);
    }
    match action {
        PagingAction::MapPage(mapping) => Ok(mapping),
        _ => {
            assert!(frame.tag().is_error());
            Err(frame.mr(0))
        }
    }
}

/// Unmaps `FRAME`, or finds out why not.
fn unmap(state: &mut KernelState, vspace: CPtr) -> Result<PagingAction, usize> {
    let mut frame = frame_trap(LABEL_UNMAP, [FRAME, vspace, 0, 0]);
    let action = dispatch(state, &mut frame);
    if frame.tag().is_error() {
        Err(frame.mr(0))
    } else {
        Ok(action)
    }
}

#[test]
fn a_second_simultaneous_mapping_succeeds() {
    let mut state = three_spaces();
    let first = map(&mut state, VSPACE, 0x1000).unwrap();
    let second = map(&mut state, SECOND_VSPACE, 0x7000).unwrap();
    assert_eq!(first.root, state.vspaces.get(0).unwrap().root);
    assert_eq!(second.root, state.vspaces.get(1).unwrap().root);
    assert_eq!((first.vaddr, second.vaddr), (0x1000, 0x7000));
    assert_eq!(first.paddr, second.paddr);
    let shared = state.frames.get(0).unwrap();
    assert_eq!(shared.mapped_at, Some((VSpaceId(0), 0x1000)));
    assert_eq!(shared.also_mapped_at, Some((VSpaceId(1), 0x7000)));
    assert_eq!(shared.mapping_in(VSpaceId(1)), Some(0x7000));
    assert_eq!(shared.mapping_in(VSpaceId(2)), None);
    assert!(shared.is_shared());
}

#[test]
fn a_third_mapping_is_rejected_once_both_records_are_full() {
    let mut state = three_spaces();
    map(&mut state, VSPACE, 0x1000).unwrap();
    map(&mut state, SECOND_VSPACE, 0x7000).unwrap();
    let left = state.untypeds.get(0).unwrap().memory.unwrap().next;
    assert_eq!(map(&mut state, THIRD_VSPACE, 0x3000), Err(SyscallError::IllegalOperation.code()));
    assert_eq!(map(&mut state, VSPACE, 0x3000), Err(SyscallError::IllegalOperation.code()));
    assert_eq!(state.untypeds.get(0).unwrap().memory.unwrap().next, left);
    let shared = state.frames.get(0).unwrap();
    assert_eq!(shared.mapped_at, Some((VSpaceId(0), 0x1000)));
    assert_eq!(shared.also_mapped_at, Some((VSpaceId(1), 0x7000)));
}

#[test]
fn a_frame_is_not_mapped_twice_into_one_address_space() {
    let mut state = three_spaces();
    map(&mut state, SECOND_VSPACE, 0x1000).unwrap();
    assert_eq!(map(&mut state, SECOND_VSPACE, 0x2000), Err(SyscallError::IllegalOperation.code()));
    assert!(!state.frames.get(0).unwrap().is_shared());
}

#[test]
fn unmap_clears_only_the_address_space_it_names() {
    let mut state = three_spaces();
    map(&mut state, VSPACE, 0x1000).unwrap();
    map(&mut state, SECOND_VSPACE, 0x7000).unwrap();
    let root = state.vspaces.get(0).unwrap().root;
    assert_eq!(unmap(&mut state, VSPACE), Ok(PagingAction::UnmapPage { root, vaddr: 0x1000 }));
    let left = *state.frames.get(0).unwrap();
    assert_eq!(left.mapped_at, None);
    assert_eq!(left.also_mapped_at, Some((VSpaceId(1), 0x7000)));

    // The free record takes another address space, and the other can go in turn.
    map(&mut state, THIRD_VSPACE, 0x9000).unwrap();
    assert_eq!(state.frames.get(0).unwrap().mapped_at, Some((VSpaceId(2), 0x9000)));
    let root = state.vspaces.get(1).unwrap().root;
    assert_eq!(
        unmap(&mut state, SECOND_VSPACE),
        Ok(PagingAction::UnmapPage { root, vaddr: 0x7000 })
    );
    assert_eq!(state.frames.get(0).unwrap().mapped_at, Some((VSpaceId(2), 0x9000)));
    assert_eq!(state.frames.get(0).unwrap().also_mapped_at, None);
}

#[test]
fn an_unmap_that_names_no_address_space_takes_the_only_one() {
    let mut state = three_spaces();
    map(&mut state, VSPACE, 0x1000).unwrap();
    map(&mut state, SECOND_VSPACE, 0x7000).unwrap();
    assert_eq!(unmap(&mut state, 0), Err(SyscallError::IllegalOperation.code()));
    assert!(state.frames.get(0).unwrap().is_shared());
    unmap(&mut state, VSPACE).unwrap();
    let root = state.vspaces.get(1).unwrap().root;
    assert_eq!(unmap(&mut state, 0), Ok(PagingAction::UnmapPage { root, vaddr: 0x7000 }));
    assert_eq!(unmap(&mut state, 0), Ok(PagingAction::Done));
}

#[test]
fn an_unmap_takes_slot_zero_where_it_names_an_address_space() {
    let mut state = three_spaces();
    *state.cnodes.get_mut(0).unwrap().slot_mut(0).unwrap() =
        Capability::VSpace { id: VSpaceId(1), rights: Rights::all() };
    map(&mut state, VSPACE, 0x1000).unwrap();
    // Slot zero names another address space than the only one.
    assert_eq!(unmap(&mut state, 0), Ok(PagingAction::Done));
    assert_eq!(state.frames.get(0).unwrap().mapped_at, Some((VSpaceId(0), 0x1000)));
    map(&mut state, 0, 0x7000).unwrap();
    let root = state.vspaces.get(1).unwrap().root;
    assert_eq!(unmap(&mut state, 0), Ok(PagingAction::UnmapPage { root, vaddr: 0x7000 }));
    assert_eq!(state.frames.get(0).unwrap().mapped_at, Some((VSpaceId(0), 0x1000)));
    assert_eq!(state.frames.get(0).unwrap().also_mapped_at, None);

    *state.cnodes.get_mut(0).unwrap().slot_mut(0).unwrap() =
        Capability::VSpace { id: VSpaceId(0), rights: Rights::read() };
    assert_eq!(unmap(&mut state, 0), Err(SyscallError::IllegalOperation.code()));
    // Something else in slot zero names no address space.
    *state.cnodes.get_mut(0).unwrap().slot_mut(0).unwrap() =
        Capability::Untyped { id: UntypedId(0), rights: Rights::all() };
    assert!(matches!(unmap(&mut state, 0), Ok(PagingAction::UnmapPage { .. })));
}

#[test]
fn an_unmap_from_where_nothing_is_mapped_does_nothing() {
    let mut state = three_spaces();
    map(&mut state, VSPACE, 0x1000).unwrap();
    assert_eq!(unmap(&mut state, THIRD_VSPACE), Ok(PagingAction::Done));
    assert_eq!(state.frames.get(0).unwrap().mapped_at, Some((VSpaceId(0), 0x1000)));
    assert_eq!(unmap(&mut state, FRAME), Err(SyscallError::InvalidCapability.code()));
    *state.cnodes.get_mut(0).unwrap().slot_mut(9).unwrap() =
        Capability::VSpace { id: VSpaceId(0), rights: Rights::read() };
    assert_eq!(unmap(&mut state, 9), Err(SyscallError::IllegalOperation.code()));
}

#[test]
fn memory_of_two_untypeds_stays_apart() {
    let mut state = machine(4);
    let second = BASE + 4 * PAGE_SIZE;
    state.untypeds.allocate(Untyped::with_memory(10, second, 4 * PAGE_SIZE)).unwrap();
    *state.cnodes.get_mut(0).unwrap().slot_mut(9).unwrap() =
        Capability::Untyped { id: UntypedId(1), rights: Rights::all() };
    let mut pages = Vec::new();
    for source in [UNTYPED, 9] {
        for i in 0..4 {
            let mut frame = TrapFrame::zeroed();
            frame.set_syscall_number(SyscallNumber::UntypedRetype.number());
            frame.set_mr(0, source);
            frame.set_mr(1, ObjectType::FrameSmall as usize);
            frame.set_mr(2, source + 10 + i);
            dispatch(&mut state, &mut frame);
            assert!(!frame.tag().is_error());
        }
    }
    for i in 0..8 {
        pages.push(state.frames.get(i).unwrap().paddr);
    }
    let expected: Vec<usize> = (0..8).map(|i| BASE + i * PAGE_SIZE).collect();
    assert_eq!(pages, expected);
    // Both are spent.
    assert!(retype(&mut state, ObjectType::FrameSmall, 30).tag().is_error());
}

#[test]
fn a_page_table_is_never_made_into_anything_else() {
    let mut state = three_spaces();
    let first = map(&mut state, VSPACE, 0x1000).unwrap();
    unmap(&mut state, VSPACE).unwrap();
    let second = map(&mut state, SECOND_VSPACE, 0x1000).unwrap();
    let mut taken = vec![
        first.spare,
        first.second_spare.unwrap(),
        second.spare,
        second.second_spare.unwrap(),
    ];
    for i in 0..3 {
        taken.push(state.vspaces.get(i).unwrap().root);
    }
    for i in 0..4 {
        retype(&mut state, ObjectType::FrameSmall, 10 + i);
    }
    for i in 0..6 {
        taken.push(state.frames.get(i).unwrap().paddr);
    }
    for i in 0..taken.len() {
        for j in 0..i {
            assert_ne!(taken[i], taken[j]);
        }
    }
}
