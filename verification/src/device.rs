use vstd::prelude::*;

verus! {

/// Where a tensor's data lives. `CUDA(i)` refers to the CUDA device at index
/// `i`; the resident GPU backend currently always uses device 0.
#[derive(Clone, Copy, Debug, PartialEq, Eq, Structural)]
pub enum Device {
    CPU,
    CUDA(usize),
}

/// The element type of a tensor's values.
#[derive(Clone, Copy, Debug, PartialEq, Eq, Structural)]
pub enum DType {
    Float32,
    Float64,
    Int32,
    Int64,
    Bool,
}

} // verus!
