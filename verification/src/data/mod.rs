//! Datasets and batching: decoding the MNIST and CIFAR-10 file formats, label
//! encodings, and a loader that serves shuffled mini-batches.

pub mod dataloader;
pub mod mnist;
pub mod cifar;
pub mod labels;
