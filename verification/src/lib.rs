//! Shape-checked construction of GPU-resident autograd graphs, plus the data
//! loading and batching logic that feeds them.
//!
//! The library decides *what* runs: every graph operation checks the shapes of
//! its inputs, computes the shape of its output and records the operation with
//! all the integer dimensions a kernel launch needs. Executing the recorded
//! operations on a device is left to the caller, helped by [`backward`] (the
//! order of a backward pass) and [`launch`] (kernel launch grids).

pub mod device;
pub mod shape;
pub mod graph;
pub mod nn;
pub mod backward;
pub mod launch;
pub mod loss;
pub mod optim;
pub mod data;
