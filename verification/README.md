# rstorch

Shape-checked construction of GPU-resident autograd graphs, verified with
Verus, together with the data handling that feeds them.

- `src/` is the verified library. `graph` records operations in creation
  order (so the node order is a topological order), checks the shapes of
  their inputs and stores every integer dimension a kernel launch needs;
  `nn` builds layers (convolution, pooling, normalization, dropout,
  embeddings, recurrent cells, attention, multi-head attention, Transformer
  blocks) from those operations; `backward` computes the order of a backward
  pass; `launch` computes kernel launch grids; `loss`, `optim` and `data`
  hold the integer logic of losses, optimizer state, the MNIST and CIFAR-10
  formats and the mini-batch loader.
- `app/` is the device side, in plain Rust: the CUDA context and kernels, an
  executor that runs each recorded node on the GPU as it is built and runs
  backward passes, losses, optimizers, weight initialization, the positional
  encoding table and file reading.
- `tests/` exercises the library on concrete graphs and data.
