use vstd::prelude::*;

verus! {

/// The elementwise and row-wise transforms a dense numeric matrix offers a
/// forward pass, each in a value-returning and an in-place form.
///
/// The transforms are floating-point: `sigmoid(x) = 1 / (1 + exp(-x))` and
/// `relu(x) = max(x, 0)` entry by entry, the standard hyperbolic tangent
/// entry by entry, and `softmax` row by row with the numerically stable
/// shift-by-row-maximum before exponentiation. Floating-point arithmetic
/// stays outside the verified core, so implementations of this trait live
/// with the numeric container that provides it.
pub trait ActivationFunction where Self: core::marker::Sized {
    /// A matrix of the same shape with `1 / (1 + exp(-x))` at each entry.
    fn sigmoid(&self) -> Self;

    /// A matrix of the same shape with each row mapped to a probability
    /// distribution: shift by the row maximum, exponentiate, divide by the
    /// row sum of the exponentials.
    fn softmax(&self) -> Self;

    /// A matrix of the same shape with `max(x, 0)` at each entry.
    fn relu(&self) -> Self;

    /// A matrix of the same shape with `tanh(x)` at each entry.
    fn tanh(&self) -> Self;

    /// Replaces the matrix with its `sigmoid` image.
    fn sigmoid_mut(&mut self);

    /// Replaces the matrix with its `softmax` image.
    fn softmax_mut(&mut self);

    /// Replaces the matrix with its `relu` image.
    fn relu_mut(&mut self);

    /// Replaces the matrix with its `tanh` image.
    fn tanh_mut(&mut self);
}

} // verus!
