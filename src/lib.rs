//! Small fixed-topology feed-forward networks over wrapping `i32` lanes:
//! dense, sparse-input, convolutional and parallel-sum layers, composed
//! sequentially, with forward evaluation, gradient propagation,
//! incremental evaluation of a sparse first layer, and a flat byte image
//! of the parameters.
pub mod activation;
pub mod add;
pub mod archs;
pub mod arith;
pub mod codec;
pub mod compose;
pub mod conv1d;
pub mod dense;
pub mod gradcheck;
pub mod laws;
pub mod matrix;
pub mod network;
pub mod perspective;
pub mod sparse;
pub mod vector;

pub use activation::{Activation, Identity, ReLU};
pub use add::{Add, AddLayers};
pub use archs::{SideNet, SubNet};
pub use compose::{Chain, ChainLayers};
pub use conv1d::{Conv1D, Conv1DLayers};
pub use dense::{DenseConnected, DenseConnectedLayers};
pub use matrix::Matrix;
pub use network::{FeedForwardNetwork, InputLayer, OutputLayer, Tensor};
pub use perspective::{Perspective, PerspectiveLayers};
pub use sparse::{SparseConnected, SparseConnectedLayers};
pub use vector::{SparseVector, Vector};
