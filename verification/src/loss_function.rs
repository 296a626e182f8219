use vstd::prelude::*;

verus! {

/// The two scalar reductions that score a prediction matrix against a label
/// matrix of the same shape.
///
/// `sum_squared_error` is half the sum of squared entry differences.
/// `cross_entropy_error` sums, over the entries whose label is nonzero,
/// `-ln(p)` for a nonzero prediction entry `p` and a fixed penalty of 20 for
/// a prediction entry of exactly 0, then divides by the number of rows.
/// Both reductions are floating-point, so implementations of this trait live
/// with the numeric container that provides it; callers must pass matrices
/// of identical shape.
pub trait LossFunction where Self: core::marker::Sized {
    /// The scalar type of the matrix entries and of the returned score.
    type Item;

    /// Half the sum of `(p - l)^2` over every entry pair.
    fn sum_squared_error(&self, label: Self) -> Self::Item;

    /// The guarded average cross-entropy per row.
    fn cross_entropy_error(&self, label: Self) -> Self::Item;
}

} // verus!
