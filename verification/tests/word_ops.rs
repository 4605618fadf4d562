use lib::add::add_with_carry;
use lib::add::sub_with_borrow;

const MAX: u64 = u64::MAX;

#[test]
fn add_without_overflow() {
    assert_eq!(add_with_carry(2, 3, false), (5, false));
    assert_eq!(add_with_carry(2, 3, true), (6, false));
    assert_eq!(add_with_carry(0, 0, false), (0, false));
    assert_eq!(add_with_carry(0, 0, true), (1, false));
}

#[test]
fn add_overflow_from_operands() {
    assert_eq!(add_with_carry(MAX, 1, false), (0, true));
    assert_eq!(add_with_carry(1 << 63, 1 << 63, false), (0, true));
    assert_eq!(add_with_carry(MAX, MAX, false), (MAX - 1, true));
}

#[test]
fn add_overflow_from_carry_in() {
    assert_eq!(add_with_carry(MAX, 0, true), (0, true));
    assert_eq!(add_with_carry(0, MAX, true), (0, true));
    assert_eq!(add_with_carry(MAX, MAX, true), (MAX, true));
    assert_eq!(add_with_carry(MAX - 1, 0, true), (MAX, false));
}

#[test]
fn sub_without_borrow() {
    assert_eq!(sub_with_borrow(5, 3, false), (2, false));
    assert_eq!(sub_with_borrow(5, 3, true), (1, false));
    assert_eq!(sub_with_borrow(3, 3, false), (0, false));
    assert_eq!(sub_with_borrow(MAX, MAX, false), (0, false));
}

#[test]
fn sub_borrow_from_operands() {
    assert_eq!(sub_with_borrow(0, 1, false), (MAX, true));
    assert_eq!(sub_with_borrow(3, 5, false), (MAX - 1, true));
    assert_eq!(sub_with_borrow(0, MAX, false), (1, true));
}

#[test]
fn sub_borrow_from_borrow_in() {
    assert_eq!(sub_with_borrow(0, 0, true), (MAX, true));
    assert_eq!(sub_with_borrow(3, 3, true), (MAX, true));
    assert_eq!(sub_with_borrow(0, MAX, true), (0, true));
    assert_eq!(sub_with_borrow(1, 0, true), (0, false));
}

#[test]
fn add_then_sub_round_trips() {
    let samples = [0u64, 1, 2, 1 << 32, 1 << 63, MAX - 1, MAX];
    for &a in &samples {
        for &b in &samples {
            for &c in &[false, true] {
                let (s, carry) = add_with_carry(a, b, c);
                assert_eq!(sub_with_borrow(s, b, c), (a, carry));
                assert_eq!(add_with_carry(b, a, c), (s, carry));
                let (d, borrow) = sub_with_borrow(a, b, c);
                assert_eq!(add_with_carry(d, b, c), (a, borrow));
            }
        }
    }
}

#[test]
fn two_word_chain_adds_and_subtracts() {
    // (2^64 - 1) + 1 == 2^64, as two-limb little-endian numbers.
    let a = [MAX, 0u64];
    let b = [1u64, 0];
    let (l0, c0) = add_with_carry(a[0], b[0], false);
    let (l1, c1) = add_with_carry(a[1], b[1], c0);
    assert_eq!((l0, l1, c1), (0, 1, false));
    // 2^64 - 1 == 2^64 - 1, borrowing across the limb boundary.
    let (d0, b0) = sub_with_borrow(l0, 1, false);
    let (d1, b1) = sub_with_borrow(l1, 0, b0);
    assert_eq!((d0, d1, b1), (MAX, 0, false));
    // 0 - 1 over two limbs borrows out of the top.
    let (e0, f0) = sub_with_borrow(0, 1, false);
    let (e1, f1) = sub_with_borrow(0, 0, f0);
    assert_eq!((e0, e1, f1), (MAX, MAX, true));
}
