//! Shape logic, integer matrix products and launch decisions of a BLAS
//! library, with their contracts.

pub mod arith;
pub mod shape;
pub mod kernel;
pub mod integer;
pub mod meta;
pub mod tensor_int4;
pub mod tensor_grouped;
pub mod kernel_ir;
pub mod tensor_matmul;
pub mod parallel;
pub mod gemm_plan;
pub mod cross;
