use lantern_kernel::cap::{
    CNode, CNodeId, Capability, EndpointId, FrameId, NotificationId, Rights, SchedContextId, TcbId,
    UntypedId, VSpaceId,
};
use lantern_kernel::limits::CNODE_SLOTS;

#[test]
fn rights_subset_check_is_monotone() {
    let all = Rights::all();
    let read_only = Rights::read();
    assert!(read_only.is_subset_of(all));
    assert!(!all.is_subset_of(read_only));
    assert!(all.is_subset_of(all));
}

#[test]
fn cnode_slot_out_of_range_is_none_not_null() {
    let cnode = CNode::empty();
    assert_eq!(cnode.get(0), Some(Capability::Null));
    assert_eq!(cnode.get(CNODE_SLOTS), None);
}

#[test]
fn cnode_slot_mut_writes_through() {
    let mut cnode = CNode::empty();
    let cap = Capability::Endpoint { id: EndpointId(1), badge: 0, rights: Rights::all() };
    *cnode.slot_mut(3).unwrap() = cap;
    assert_eq!(cnode.get(3), Some(cap));
}

#[test]
fn capabilities_are_equal_where_all_they_hold_is() {
    let mut caps = vec![Capability::Null];
    for n in 0..2 {
        caps.push(Capability::CNode(CNodeId(n)));
        caps.push(Capability::Reply { tcb: TcbId(n) });
        for rights in [Rights::read(), Rights::all()] {
            caps.push(Capability::Untyped { id: UntypedId(n), rights });
            caps.push(Capability::Tcb { id: TcbId(n), rights });
            caps.push(Capability::SchedContext { id: SchedContextId(n), rights });
            caps.push(Capability::VSpace { id: VSpaceId(n), rights });
            caps.push(Capability::Frame { id: FrameId(n), rights });
            for badge in 0..2 {
                caps.push(Capability::Endpoint { id: EndpointId(n), badge, rights });
                caps.push(Capability::Notification { id: NotificationId(n), badge, rights });
            }
        }
    }
    for i in 0..caps.len() {
        for j in 0..caps.len() {
            assert_eq!(caps[i] == caps[j], i == j);
        }
    }
}
