use lantern_kernel::cap::{Capability, EndpointId, NotificationId};
use lantern_kernel::object::{SavedContext, ThreadState};
use lantern_kernel::trap::{MessageTag, TrapFrame};

#[test]
fn saved_context_roundtrips_through_a_trap_frame() {
    let mut frame = TrapFrame::zeroed();
    frame.set_syscall_number(4);
    frame.set_tag(MessageTag { label: 7, length: 1, extra_caps: 0, flags: 0 });
    frame.set_mr(0, 42);
    frame.set_raw_word(5, 99);

    let saved = SavedContext::save_from(&frame);

    let mut other = TrapFrame::zeroed();
    saved.restore_into(&mut other);
    assert_eq!(other.syscall_number(), 4);
    assert_eq!(other.tag(), MessageTag { label: 7, length: 1, extra_caps: 0, flags: 0 });
    assert_eq!(other.mr(0), 42);
    assert_eq!(other.raw_word(5), 99);
}

#[test]
fn thread_states_are_equal_where_all_they_hold_is() {
    let mut states = vec![ThreadState::Inactive, ThreadState::Ready, ThreadState::Running];
    for n in 0..2 {
        states.push(ThreadState::BlockedWait(NotificationId(n)));
        for slot in [None, Some(0), Some(1)] {
            states.push(ThreadState::BlockedRecv { endpoint: EndpointId(n), dest_slot: slot });
            for cap in [None, Some(Capability::Null)] {
                for is_call in [false, true] {
                    for badge in 0..2 {
                        states.push(ThreadState::BlockedSend {
                            endpoint: EndpointId(n),
                            badge,
                            is_call,
                            extra_cap: cap,
                            reply_dest_slot: slot,
                        });
                    }
                }
            }
        }
    }
    for slot in [None, Some(0), Some(1)] {
        states.push(ThreadState::BlockedReply { dest_slot: slot });
    }
    for i in 0..states.len() {
        for j in 0..states.len() {
            assert_eq!(states[i] == states[j], i == j);
        }
    }
}
