use lantern_kernel::cap::TcbId;
use lantern_kernel::queue::ArrayQueue;

#[test]
fn fifo_order() {
    let mut q: ArrayQueue<u32, 4> = ArrayQueue::new();
    assert!(q.is_empty());
    assert!(q.push_back(1));
    assert!(q.push_back(2));
    assert!(q.push_back(3));
    assert_eq!(q.pop_front(), Some(1));
    assert_eq!(q.pop_front(), Some(2));
    assert!(q.push_back(4));
    assert_eq!(q.pop_front(), Some(3));
    assert_eq!(q.pop_front(), Some(4));
    assert_eq!(q.pop_front(), None);
    assert!(q.is_empty());
}

#[test]
fn front_peeks_without_removing() {
    let mut q: ArrayQueue<u32, 4> = ArrayQueue::new();
    assert_eq!(q.front(), None);
    q.push_back(1);
    q.push_back(2);
    assert_eq!(q.front(), Some(1));
    assert_eq!(q.front(), Some(1), "front does not mutate the queue");
    assert_eq!(q.pop_front(), Some(1));
    assert_eq!(q.front(), Some(2));
}

#[test]
fn rejects_push_past_capacity() {
    let mut q: ArrayQueue<u32, 2> = ArrayQueue::new();
    assert!(q.push_back(1));
    assert!(q.push_back(2));
    assert!(!q.push_back(3));
}

#[test]
fn wraps_around_the_backing_array() {
    let mut q: ArrayQueue<u32, 2> = ArrayQueue::new();
    q.push_back(1);
    q.pop_front();
    q.push_back(2);
    q.push_back(3);
    assert_eq!(q.pop_front(), Some(2));
    assert_eq!(q.pop_front(), Some(3));
}

#[test]
fn remove_drops_the_named_entry_and_preserves_order() {
    let mut q: ArrayQueue<u32, 4> = ArrayQueue::new();
    q.push_back(1);
    q.push_back(2);
    q.push_back(3);
    assert!(q.remove(2));
    assert_eq!(q.pop_front(), Some(1));
    assert_eq!(q.pop_front(), Some(3));
    assert_eq!(q.pop_front(), None);
}

#[test]
fn remove_reports_absence_without_touching_the_queue() {
    let mut q: ArrayQueue<u32, 4> = ArrayQueue::new();
    q.push_back(1);
    q.push_back(2);
    assert!(!q.remove(99));
    assert_eq!(q.pop_front(), Some(1));
    assert_eq!(q.pop_front(), Some(2));
}

#[test]
fn remove_only_drops_the_first_occurrence() {
    let mut q: ArrayQueue<u32, 4> = ArrayQueue::new();
    q.push_back(1);
    q.push_back(1);
    q.push_back(2);
    assert!(q.remove(1));
    assert_eq!(q.pop_front(), Some(1));
    assert_eq!(q.pop_front(), Some(2));
    assert_eq!(q.pop_front(), None);
}

#[test]
fn remove_works_after_the_backing_array_has_wrapped() {
    let mut q: ArrayQueue<u32, 3> = ArrayQueue::new();
    q.push_back(1);
    q.push_back(2);
    q.pop_front();
    q.push_back(3);
    q.push_back(4);
    // Backing layout now wraps: head sits mid-array, [2, 3, 4] logically.
    assert!(q.remove(3));
    assert_eq!(q.pop_front(), Some(2));
    assert_eq!(q.pop_front(), Some(4));
    assert_eq!(q.pop_front(), None);
}

#[test]
fn a_thread_is_found_and_removed() {
    let mut q: ArrayQueue<TcbId, 3> = ArrayQueue::default();
    for i in 4..7 {
        assert!(q.push_back(TcbId(i)));
    }
    assert!(q.remove(TcbId(5)));
    assert!(!q.remove(TcbId(5)));
    assert_eq!(q.pop_front(), Some(TcbId(4)));
    assert_eq!(q.pop_front(), Some(TcbId(6)));
    assert!(q.is_empty());
}
