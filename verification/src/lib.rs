//! A small feed-forward neural network over fixed-point numbers:
//! parameter storage, forward propagation, backpropagation with
//! per-sample gradient descent, and inference by class-score arg-max.

pub mod fixed;
pub mod linalg;
pub mod nn;
pub mod rng;
