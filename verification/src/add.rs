//! Add with carry and subtract with borrow on single words.
use vstd::prelude::*;
use crate::word::{Word, word_base, flag_value};

verus! {

/// What `add_with_carry(a, b, carry)` returns: the low word of
/// `a + b + carry` and whether that sum reached `2^64`.
pub open spec fn add_with_carry_result(a: Word, b: Word, carry: bool) -> (Word, bool) {
    let sum = a + b + flag_value(carry);
    if sum >= word_base() {
        ((sum - word_base()) as Word, true)
    } else {
        (sum as Word, false)
    }
}

/// What `sub_with_borrow(a, b, borrow)` returns: `a - b - borrow` modulo
/// `2^64` and whether the true difference was negative.
pub open spec fn sub_with_borrow_result(a: Word, b: Word, borrow: bool) -> (Word, bool) {
    let diff = a - b - flag_value(borrow);
    if diff < 0 {
        ((diff + word_base()) as Word, true)
    } else {
        (diff as Word, false)
    }
}

/// Add `a + b + carry`.
///
/// Returns `(result, overflow)`: `result` is the sum modulo `2^64`, and
/// `overflow` is set exactly when the sum does not fit in a word, so that
/// `result + overflow * 2^64 == a + b + carry`.
pub fn add_with_carry(a: Word, b: Word, carry: bool) -> (res: (Word, bool))
    ensures
        res == add_with_carry_result(a, b, carry),
        res.0 + flag_value(res.1) * word_base() == a + b + flag_value(carry),
{
    let partial = a.wrapping_add(b);
    let first_overflow = partial < a;
    let carry_word: Word = if carry { 1 } else { 0 };
    let result = partial.wrapping_add(carry_word);
    let second_overflow = result < partial;
    (result, first_overflow || second_overflow)
}

/// Subtract `a - b - borrow`.
///
/// Returns `(result, overflow)`: `result` is the difference modulo `2^64`,
/// and `overflow` is set exactly when the difference is negative, that is
/// when `a < b + borrow`, so that `result - overflow * 2^64 == a - b - borrow`.
pub fn sub_with_borrow(a: Word, b: Word, borrow: bool) -> (res: (Word, bool))
    ensures
        res == sub_with_borrow_result(a, b, borrow),
        res.0 - flag_value(res.1) * word_base() == a - b - flag_value(borrow),
        res.1 <==> a < b + flag_value(borrow),
{
    let partial = a.wrapping_sub(b);
    let first_borrow = a < b;
    let borrow_word: Word = if borrow { 1 } else { 0 };
    let result = partial.wrapping_sub(borrow_word);
    let second_borrow = partial < borrow_word;
    (result, first_borrow || second_borrow)
}

} // verus!
