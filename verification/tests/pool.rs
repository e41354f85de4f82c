use lantern_kernel::pool::Pool;

#[test]
fn alloc_get_free_roundtrip() {
    let mut pool: Pool<u32, 4> = Pool::new();
    let a = pool.allocate(10).unwrap();
    let b = pool.allocate(20).unwrap();
    assert_eq!(pool.get(a), Some(&10));
    assert_eq!(pool.get(b), Some(&20));
    assert_eq!(pool.len(), 2);

    assert_eq!(pool.free(a), Some(10));
    assert_eq!(pool.get(a), None);
    assert_eq!(pool.len(), 1);
}

#[test]
fn reuses_freed_slots() {
    let mut pool: Pool<u32, 2> = Pool::new();
    let a = pool.allocate(1).unwrap();
    pool.allocate(2).unwrap();
    assert!(pool.allocate(3).is_none());

    pool.free(a);
    let reused = pool.allocate(3).unwrap();
    assert_eq!(reused, a);
    assert_eq!(pool.get(reused), Some(&3));
}

#[test]
fn out_of_range_index_is_none() {
    let pool: Pool<u32, 2> = Pool::new();
    assert_eq!(pool.get(5), None);
}
