use bump_allocator::hashing::DefaultHasher;
use bump_allocator::hashing::RandomState;

#[test]
fn builder_splits_the_draw_and_combines_the_keys() {
    // low half 5, high half 7: the fresh hasher's state is their xor
    let s = RandomState::new((7u128 << 64) | 5u128);
    let h = s.build_hasher();
    assert_eq!(h.finish(), 2);
}

#[test]
fn empty_hash_is_the_combined_keys() {
    let h = DefaultHasher::new(0x1234, 0x0404);
    assert_eq!(h.finish(), 0x1234 ^ 0x0404);
}

#[test]
fn one_byte_rotates_then_adds() {
    let mut h = DefaultHasher::new(0, 0);
    h.write(&[1]);
    assert_eq!(h.finish(), 1);
    let mut g = DefaultHasher::new(1, 0);
    g.write(&[0]);
    assert_eq!(g.finish(), 32);
}

#[test]
fn bytes_feed_in_order() {
    let mut h = DefaultHasher::new(0, 0);
    h.write(&[1, 2]);
    assert_eq!(h.finish(), 34);
    let mut g = DefaultHasher::new(0, 0);
    g.write(&[1]);
    g.write(&[2]);
    assert_eq!(g.finish(), 34);
    let mut w = DefaultHasher::new(0, 0);
    w.write(&[2, 1]);
    assert_ne!(w.finish(), 34);
}

#[test]
fn addition_wraps_at_the_word() {
    let mut h = DefaultHasher::new(u64::MAX, 0);
    // all bits set stays all bits set under rotation; adding one wraps to zero
    h.write(&[1]);
    assert_eq!(h.finish(), 0);
}
