//! The machine word that big integers are built from, and its arithmetic model.
use vstd::prelude::*;

verus! {

/// A limb of a big integer: one 64-bit machine word.
pub type Word = u64;

/// The number of distinct values a `Word` can hold, `2^64`.
pub open spec fn word_base() -> int {
    0x1_0000_0000_0000_0000
}

/// The integer that a carry or borrow flag stands for: `1` when set, `0` otherwise.
pub open spec fn flag_value(flag: bool) -> int {
    if flag {
        1
    } else {
        0
    }
}

} // verus!
