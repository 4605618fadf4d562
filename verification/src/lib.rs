//! Single-word add-with-carry and subtract-with-borrow, the primitives that
//! multi-word integer addition and subtraction are chained from.
pub mod word;
pub mod add;
pub mod laws;
