//! What holds of the word primitives across calls, and of carry chains built from them.
use vstd::prelude::*;
use crate::word::{Word, word_base, flag_value};
use crate::add::{add_with_carry_result, sub_with_borrow_result};

verus! {

/// `2^(64 * n)`: the weight of the word just past `n` limbs.
pub open spec fn limbs_base(n: nat) -> int
    decreases n,
{
    if n == 0 {
        1
    } else {
        word_base() * limbs_base((n - 1) as nat)
    }
}

/// The value of a little-endian sequence of limbs: the first limb is the least significant.
pub open spec fn limbs_value(limbs: Seq<Word>) -> int
    decreases limbs.len(),
{
    if limbs.len() == 0 {
        0
    } else {
        limbs[0] + word_base() * limbs_value(limbs.drop_first())
    }
}

/// The limbs and the final carry that `add_with_carry` yields when called once
/// per limb, least significant first, each call taking the carry of the one before.
pub open spec fn add_chain(a: Seq<Word>, b: Seq<Word>, carry: bool) -> (Seq<Word>, bool)
    recommends
        a.len() == b.len(),
    decreases a.len(),
{
    if a.len() == 0 {
        (Seq::empty(), carry)
    } else {
        let (low, next) = add_with_carry_result(a[0], b[0], carry);
        let (high, out) = add_chain(a.drop_first(), b.drop_first(), next);
        (seq![low] + high, out)
    }
}

/// The limbs and the final borrow that `sub_with_borrow` yields when called once
/// per limb, least significant first, each call taking the borrow of the one before.
pub open spec fn sub_chain(a: Seq<Word>, b: Seq<Word>, borrow: bool) -> (Seq<Word>, bool)
    recommends
        a.len() == b.len(),
    decreases a.len(),
{
    if a.len() == 0 {
        (Seq::empty(), borrow)
    } else {
        let (low, next) = sub_with_borrow_result(a[0], b[0], borrow);
        let (high, out) = sub_chain(a.drop_first(), b.drop_first(), next);
        (seq![low] + high, out)
    }
}

/// Subtracting `b` and the same flag from the sum undoes `add_with_carry`:
/// it gives back `a`, and its borrow is exactly the carry the addition produced.
pub proof fn lemma_sub_undoes_add(a: Word, b: Word, flag: bool)
    ensures
        sub_with_borrow_result(add_with_carry_result(a, b, flag).0, b, flag)
            == (a, add_with_carry_result(a, b, flag).1),
{
}

/// Adding `b` and the same flag back undoes `sub_with_borrow`:
/// it gives back `a`, and its carry is exactly the borrow the subtraction produced.
pub proof fn lemma_add_undoes_sub(a: Word, b: Word, flag: bool)
    ensures
        add_with_carry_result(sub_with_borrow_result(a, b, flag).0, b, flag)
            == (a, sub_with_borrow_result(a, b, flag).1),
{
}

/// `add_with_carry` does not depend on the order of its two word operands.
pub proof fn lemma_add_with_carry_commutes(a: Word, b: Word, carry: bool)
    ensures
        add_with_carry_result(a, b, carry) == add_with_carry_result(b, a, carry),
{
}

/// Every sequence of `n` limbs has a value in `[0, 2^(64 n))`.
pub proof fn lemma_limbs_value_bounds(limbs: Seq<Word>)
    ensures
        0 <= limbs_value(limbs) < limbs_base(limbs.len()),
    decreases limbs.len(),
{
    if limbs.len() > 0 {
        lemma_limbs_value_bounds(limbs.drop_first());
        let rest = limbs_value(limbs.drop_first());
        let p = limbs_base((limbs.len() - 1) as nat);
        assert(word_base() * rest <= word_base() * (p - 1)) by (nonlinear_arith)
            requires
                rest <= p - 1,
        ;
    }
}

/// A chain of `add_with_carry` calls over `n` limbs adds the two numbers:
/// the output limbs plus the final carry, weighted `2^(64 n)`, equal
/// `a + b + carry`, and there are `n` output limbs.
pub proof fn lemma_add_chain_adds(a: Seq<Word>, b: Seq<Word>, carry: bool)
    requires
        a.len() == b.len(),
    ensures
        add_chain(a, b, carry).0.len() == a.len(),
        limbs_value(add_chain(a, b, carry).0) + flag_value(add_chain(a, b, carry).1) * limbs_base(
            a.len(),
        ) == limbs_value(a) + limbs_value(b) + flag_value(carry),
    decreases a.len(),
{
    if a.len() > 0 {
        let (low, next) = add_with_carry_result(a[0], b[0], carry);
        let (high, out) = add_chain(a.drop_first(), b.drop_first(), next);
        lemma_add_chain_adds(a.drop_first(), b.drop_first(), next);
        let out_limbs = seq![low] + high;
        assert(out_limbs.drop_first() =~= high);
        let p = limbs_base((a.len() - 1) as nat);
        assert(flag_value(out) * (word_base() * p) == word_base() * (flag_value(out) * p))
            by (nonlinear_arith);
    }
}

/// A chain of `sub_with_borrow` calls over `n` limbs subtracts the two numbers:
/// the output limbs minus the final borrow, weighted `2^(64 n)`, equal
/// `a - b - borrow`; the final borrow is set exactly when `a < b + borrow`.
pub proof fn lemma_sub_chain_subtracts(a: Seq<Word>, b: Seq<Word>, borrow: bool)
    requires
        a.len() == b.len(),
    ensures
        sub_chain(a, b, borrow).0.len() == a.len(),
        limbs_value(sub_chain(a, b, borrow).0) - flag_value(sub_chain(a, b, borrow).1) * limbs_base(
            a.len(),
        ) == limbs_value(a) - limbs_value(b) - flag_value(borrow),
        sub_chain(a, b, borrow).1 <==> limbs_value(a) < limbs_value(b) + flag_value(borrow),
    decreases a.len(),
{
    if a.len() > 0 {
        let (low, next) = sub_with_borrow_result(a[0], b[0], borrow);
        let (high, out) = sub_chain(a.drop_first(), b.drop_first(), next);
        lemma_sub_chain_subtracts(a.drop_first(), b.drop_first(), next);
        let out_limbs = seq![low] + high;
        assert(out_limbs.drop_first() =~= high);
        let p = limbs_base((a.len() - 1) as nat);
        assert(flag_value(out) * (word_base() * p) == word_base() * (flag_value(out) * p))
            by (nonlinear_arith);
    }
    lemma_limbs_value_bounds(sub_chain(a, b, borrow).0);
}

} // verus!
