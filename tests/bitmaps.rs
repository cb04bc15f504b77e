use zk_shuffle::bitmaps::BitMap256;
use zk_shuffle::uint::U256;

#[test]
fn test_bitmap_basic_ops() {
    let mut bitmap = BitMap256::zero();

    assert!(bitmap.is_zero());
    assert!(!bitmap.get(0));
    assert!(!bitmap.get(10));

    bitmap.set(0);
    assert!(bitmap.get(0));
    assert_eq!(bitmap.data, U256::from_u128(1u128));

    bitmap.set(10);
    assert!(bitmap.get(10));
    assert_eq!(bitmap.data, U256::from_u128(1025u128));

    bitmap.unset(0);
    assert!(!bitmap.get(0));
    assert!(bitmap.get(10));
    assert_eq!(bitmap.data, U256::from_u128(1024u128));

    bitmap.set_to(5, true);
    assert!(bitmap.get(5));
    bitmap.set_to(5, false);
    assert!(!bitmap.get(5));
}

#[test]
fn test_bitmap_boundary() {
    let mut bitmap = BitMap256::zero();
    bitmap.set(255);
    assert!(bitmap.get(255));
    assert!(!bitmap.get(254));
    bitmap.unset(255);
    assert!(bitmap.is_zero());
}

#[test]
fn test_bitmap_member_count() {
    let mut bitmap = BitMap256::zero();
    bitmap.set(0);
    bitmap.set(2);
    bitmap.set(5);
    let count = bitmap.member_count_up_to(3);
    assert_eq!(count, 2);
    let count_all = bitmap.member_count_up_to(6);
    assert_eq!(count_all, 3);
}

#[test]
fn bitmap_set_then_get_and_unset_then_get() {
    for i in [0u32, 1, 7, 8, 63, 64, 127, 128, 200, 255] {
        let mut b = BitMap256::from_u128(0x5555_5555);
        b.set(i);
        assert!(b.get(i));
        b.unset(i);
        assert!(!b.get(i));
    }
}

#[test]
fn bitmap_set_is_idempotent_and_keeps_other_bits() {
    let mut b = BitMap256::from_u128(0b1010);
    b.set(1);
    assert_eq!(b.data, U256::from_u128(0b1010));
    b.unset(0);
    assert_eq!(b.data, U256::from_u128(0b1010));
    b.set(0);
    assert_eq!(b.data, U256::from_u128(0b1011));
    assert!(b.get(3) && !b.get(2));
}

#[test]
fn bitmap_count_of_members_below_bound() {
    let mut b = BitMap256::zero();
    for i in [3u32, 9, 40, 100] {
        b.set(i);
    }
    assert_eq!(b.member_count_up_to(101), 4);
    assert_eq!(b.member_count_up_to(256), 4);
    assert_eq!(b.member_count_up_to(100), 3);
    assert_eq!(b.member_count_up_to(0), 0);
}

#[test]
fn bitmap_high_bits_have_their_values() {
    let mut b = BitMap256::zero();
    b.set(127);
    assert_eq!(b.data, U256::from_u128(1u128 << 127));
    let mut c = BitMap256::default();
    c.set(200);
    c.set(200);
    assert_eq!(c.member_count_up_to(256), 1);
    assert!(!c.is_zero());
}

#[test]
fn bitmap_count_after_repeated_sets() {
    let mut b = BitMap256::zero();
    for i in [4u32, 1, 4, 9, 1, 0] {
        b.set(i);
    }
    assert_eq!(b.member_count_up_to(10), 4);
    assert_eq!(b.member_count_up_to(5), 3);
}
