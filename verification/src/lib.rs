//! A small feed-forward neural network engine: dense matrices over an abstract
//! scalar, forward propagation through sigmoid layers, and per-sample gradient
//! descent. Every function is verified against a mathematical model of its result.
pub mod dataset;
pub mod error;
pub mod matrix;
pub mod matrix_laws;
pub mod model;
pub mod network;
pub mod network_laws;
pub mod scalar;
