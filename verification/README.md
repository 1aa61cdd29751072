# nnvm

The core of a small neural-network virtual machine, verified with Verus.

- `src/` is the verified library:
  - `layout`: array layouts and the transformations the operators use
    (computed by `ndarray-layout`);
  - `tensor`: simple and grouped tensors, tensors of the network, and the
    decisions of locking and unlocking;
  - `op`: the fully connected operator, forward and backward, as plans
    (the ordered steps of allocation and kernel launch);
  - `context`: the path of names, the registry of weights and gradients
    (a gradient is allocated from its weight's data type and shape, unlocked
    and kept), and the backward-builder slot;
  - `nn`: the fully connected layer;
  - `cpu_op`: the checks and index plans of the CPU kernels (embedding,
    fully connected, attention, normalisations, GeLU) and the data movement
    that needs no floating point.
- `app/` is the runtime around it: the virtual-machine traits, the context
  bound to a domain, operators and networks driving it, and the CPU kernels'
  arithmetic on `f32` data (with `rayon` and `gemm`).
- `tests/` runs the library on concrete values.
