use bump_allocator::AllocError;
use bump_allocator::EarlyAllocator;

const PAGE: usize = 0x1000;

fn fresh() -> EarlyAllocator<PAGE> {
    let mut a = EarlyAllocator::<PAGE>::new();
    a.init(0x1000, 0x10000);
    a
}

#[test]
fn new_is_zeroed() {
    let a = EarlyAllocator::<PAGE>::new();
    assert_eq!(a.total_bytes(), 0);
    assert_eq!(a.used_bytes(), 0);
    assert_eq!(a.available_bytes(), 0);
    assert_eq!(a.total_pages(), 0);
}

#[test]
fn init_sets_the_region() {
    let a = fresh();
    assert_eq!(a.total_bytes(), 0x10000);
    assert_eq!(a.used_bytes(), 0);
    assert_eq!(a.available_bytes(), 0x10000);
    assert_eq!(a.total_pages(), 0x10);
    assert_eq!(a.used_pages(), 0);
    assert_eq!(a.available_pages(), 0x10);
}

#[test]
fn add_memory_always_fails() {
    let mut a = fresh();
    assert_eq!(a.add_memory(0x20000, 0x1000), Err(AllocError::NoMemory));
    assert_eq!(a.add_memory(0, 0), Err(AllocError::NoMemory));
    assert_eq!(a.total_bytes(), 0x10000);
}

#[test]
fn scenario_a_first_byte_alloc() {
    let mut a = fresh();
    let r = a.alloc_bytes(3, 8);
    assert_eq!(r, Ok(0x1000));
    assert_eq!(a.used_bytes(), 3);
    assert_eq!(a.available_bytes(), 0x10000 - 3);
}

#[test]
fn scenario_b_pages_then_starved_bytes() {
    let mut a = fresh();
    assert_eq!(a.alloc_bytes(3, 8), Ok(0x1000));
    let p = a.alloc_pages(2, 0);
    assert_eq!(p, Ok(0xF000));
    assert_eq!(a.used_pages(), 2);
    assert_eq!(a.available_pages(), 0xE);
    // the free span is [0x1003, 0xF000): one byte more than it holds fails
    assert_eq!(a.alloc_bytes(0xF000 - 0x1003 + 1, 1), Err(AllocError::NoMemory));
    // and exactly the free span still fits
    assert_eq!(a.alloc_bytes(0xF000 - 0x1003, 1), Ok(0x1003));
    assert_eq!(a.available_bytes(), 0x10000 - 0xF000 + 0x1000);
}

#[test]
fn scenario_c_bulk_reset_on_last_release() {
    let mut a = fresh();
    assert_eq!(a.alloc_bytes(5, 1), Ok(0x1000));
    assert_eq!(a.used_bytes(), 5);
    a.dealloc(0x1000, 5, 1);
    assert_eq!(a.used_bytes(), 0);
    assert_eq!(a.available_bytes(), 0x10000);
}

#[test]
fn scenario_d_dealloc_pages_is_a_no_op() {
    let mut a = fresh();
    let p = a.alloc_pages(3, 0).unwrap();
    let used = a.used_pages();
    let avail = a.available_pages();
    for _ in 0..5 {
        a.dealloc_pages(p, 3);
        assert_eq!(a.used_pages(), used);
        assert_eq!(a.available_pages(), avail);
        assert_eq!(a.available_bytes(), 0x10000);
    }
}

#[test]
fn accounting_sums_hold() {
    let mut a = fresh();
    assert_eq!(a.used_bytes() + a.available_bytes(), a.total_bytes());
    assert_eq!(a.used_pages() + a.available_pages(), a.total_pages());
    a.alloc_bytes(17, 4).unwrap();
    a.alloc_pages(2, 1).unwrap();
    assert_eq!(a.used_bytes() + a.available_bytes(), a.total_bytes());
    assert_eq!(a.used_pages() + a.available_pages(), a.total_pages());
    a.dealloc(0x1000, 17, 4);
    assert_eq!(a.used_bytes() + a.available_bytes(), a.total_bytes());
    assert_eq!(a.used_pages() + a.available_pages(), a.total_pages());
}

#[test]
fn byte_alloc_respects_alignment() {
    let mut a = fresh();
    assert_eq!(a.alloc_bytes(3, 8), Ok(0x1000));
    let r = a.alloc_bytes(1, 16).unwrap();
    assert_eq!(r % 16, 0);
    assert_eq!(r, 0x1010);
    let r2 = a.alloc_bytes(1, 2).unwrap();
    assert_eq!(r2 % 2, 0);
    assert_eq!(r2, 0x1012);
}

#[test]
fn page_alloc_respects_alignment() {
    let mut a = fresh();
    // one page, aligned to 4 pages: the frontier drops to a 0x4000 boundary
    let p = a.alloc_pages(1, 2).unwrap();
    assert_eq!(p % (PAGE * 4), 0);
    assert_eq!(p, 0x10000);
    let q = a.alloc_pages(1, 0).unwrap();
    assert_eq!(q % PAGE, 0);
    assert_eq!(q, 0xF000);
}

#[test]
fn bulk_free_drains_in_any_order() {
    let mut a = fresh();
    let r1 = a.alloc_bytes(8, 8).unwrap();
    let r2 = a.alloc_bytes(24, 8).unwrap();
    let r3 = a.alloc_bytes(4, 4).unwrap();
    assert_eq!(a.used_bytes(), 36);
    a.dealloc(r2, 24, 8);
    assert_eq!(a.used_bytes(), 36);
    a.dealloc(r3, 4, 4);
    assert_eq!(a.used_bytes(), 36);
    a.dealloc(r1, 8, 8);
    assert_eq!(a.used_bytes(), 0);
}

#[test]
fn dealloc_with_nothing_live_is_a_no_op() {
    let mut a = fresh();
    a.dealloc(0x1000, 1, 1);
    assert_eq!(a.used_bytes(), 0);
    a.alloc_bytes(9, 1).unwrap();
    a.dealloc(0x1000, 9, 1);
    a.dealloc(0x1000, 9, 1);
    assert_eq!(a.used_bytes(), 0);
}

#[test]
fn starved_requests_change_nothing() {
    let mut a = fresh();
    a.alloc_bytes(0x100, 1).unwrap();
    let used = a.used_bytes();
    assert_eq!(a.alloc_bytes(0x10000, 1), Err(AllocError::NoMemory));
    assert_eq!(a.used_bytes(), used);
    assert_eq!(a.available_bytes(), 0x10000 - used);
    assert_eq!(a.alloc_pages(0x11, 0), Err(AllocError::NoMemory));
    assert_eq!(a.used_pages(), 0);
    assert_eq!(a.available_pages(), 0x10);
}

#[test]
fn null_address_is_refused() {
    let mut a = EarlyAllocator::<PAGE>::new();
    a.init(0, 0x10000);
    // the byte frontier starts at address zero, which no allocation may return
    assert_eq!(a.alloc_bytes(4, 1), Err(AllocError::InvalidParam));
    assert_eq!(a.used_bytes(), 0);
}

#[test]
fn frontiers_meet_exactly() {
    let mut a = fresh();
    // consume all sixteen pages: the frontier lands on b_pos exactly
    assert_eq!(a.alloc_pages(0x10, 0), Ok(0x1000));
    assert_eq!(a.available_pages(), 0);
    assert_eq!(a.used_pages(), 0x10);
    // no byte can fit any more
    assert_eq!(a.alloc_bytes(1, 1), Err(AllocError::NoMemory));
}
