//! Building blocks for a minimal feed-forward neural-network toolkit: a
//! verified byte-level pipeline that turns the four gzip-compressed
//! handwritten-digit files into shaped, one-hot-encoded matrices, together
//! with the interfaces of the floating-point activation and loss transforms
//! that a numeric matrix container implements.

pub mod activation_function;
pub mod error;
pub mod loss_function;
pub mod matrix;
pub mod mnist;
