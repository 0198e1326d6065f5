//! A small convolutional neural network engine over saturating fixed-point
//! arithmetic: convolutional, max-pooling and fully-connected layers trained
//! by mini-batch gradient descent.

pub mod activation;
pub mod cnn;
pub mod conv_layers;
pub mod dense_layer;
pub mod fx;
mod host;
pub mod layer;
pub mod mxpl;
pub mod optimizer;
pub mod tensor;
pub mod utils;
