use lib::util::align::{align_up, align_up_ptr, checked_align_up, checked_align_up_ptr, Align128, Align64};

#[test]
fn align_up_exact_values() {
    assert_eq!(align_up(0, 8), 0);
    assert_eq!(align_up(1, 8), 8);
    assert_eq!(align_up(8, 8), 8);
    assert_eq!(align_up(13, 8), 16);
    assert_eq!(align_up(13, 1), 13);
    assert_eq!(align_up(4097, 4096), 8192);
}

#[test]
fn align_up_is_idempotent() {
    for addr in 0..300usize {
        let once = align_up(addr, 64);
        assert_eq!(align_up(once, 64), once);
    }
}

#[test]
fn align_up_is_least_multiple() {
    for addr in 0..300usize {
        let r = align_up(addr, 32);
        assert_eq!(r % 32, 0);
        assert!(addr <= r && r < addr + 32);
        if r >= 32 {
            assert!(r - 32 < addr);
        }
    }
}

#[test]
fn align_up_is_monotone() {
    let mut prev = 0;
    for addr in 0..300usize {
        let r = align_up(addr, 16);
        assert!(prev <= r);
        prev = r;
    }
}

#[test]
fn align_up_ptr_matches_align_up() {
    assert_eq!(align_up_ptr(0x1001, 0x1000), 0x2000);
    assert_eq!(align_up_ptr(0x1000, 0x1000), 0x1000);
}

#[test]
fn checked_align_up_values() {
    assert_eq!(checked_align_up(13, 8), Some(16));
    assert_eq!(checked_align_up(usize::MAX - 7, 8), Some(usize::MAX - 7));
    assert_eq!(checked_align_up(usize::MAX - 6, 8), None);
    assert_eq!(checked_align_up(usize::MAX, 1), Some(usize::MAX));
}

#[test]
fn checked_align_up_ptr_gives_null_on_overflow() {
    assert_eq!(checked_align_up_ptr(13, 8), 16);
    assert_eq!(checked_align_up_ptr(usize::MAX - 3, 8), 0);
}

#[test]
fn alignment_wrappers_hold_their_value() {
    let mut a = Align64::new(7u32);
    assert_eq!(*a, 7);
    *a = 9;
    assert_eq!(a.0, 9);
    let mut b = Align128::new(3u8);
    assert_eq!(*b, 3);
    *b += 1;
    assert_eq!(b.0, 4);
}
