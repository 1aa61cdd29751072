//! Verified core of a small neural-network virtual machine: tensor
//! bookkeeping, operator planning and the index logic of the CPU kernels.
pub mod cpu_op;
pub mod layout;
pub mod tensor;
pub mod op;
pub mod context;
pub mod nn;
