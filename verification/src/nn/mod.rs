//! Neural-network layers built on the graph operations: convolution, pooling,
//! normalization, dropout, embeddings, recurrent cells and attention.

pub mod conv;
pub mod pool;
pub mod dropout;
pub mod embedding;
pub mod normalization;
pub mod flatten;
pub mod linear;
pub mod rnn;
pub mod lstm;
pub mod attention;
pub mod self_attention;
pub mod multihead;
pub mod transformer;
pub mod positional;
