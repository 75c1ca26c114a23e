# rublas

Matrix-multiplication logic of a BLAS library for host and device tensors,
with machine-checked contracts (Verus).

## Layout

- `src/` — the verified library.
  - `arith` — products of dimensions, row-major coordinates, broadcasting,
    wrapping dot products, and the lemmas about them.
  - `shape` — batch broadcasting, batch offsets and strides of host tensors.
  - `kernel`, `integer` — the host integer matrix product (`i32`, `i64`,
    wrapping, with batch broadcasting) on strided views, and its operand checks.
  - `gemm_plan` — the GEMM calls of the host floating-point product: offsets
    of every batch, strides, schedule; `parallel` — its threading decisions.
  - `meta` — tensor metadata as plain values (shape, type, device).
  - `tensor_matmul`, `tensor_int4`, `tensor_grouped`, `cross` — checks and
    launch decisions of the device operations.
  - `kernel_ir` — routine configuration: strategies, tilings, iterators,
    plane counts.
- `tests/` — tests of the library on concrete values.
- `app/` — unverified glue: floating-point GEMM calls through `gemm` and
  `rayon`, `bf16` conversion through `half`, and the floating-point rounding
  of work-group counts.
