//! Layout configurations of the batch-level matmul.

use vstd::prelude::*;

verus! {

/// Memory order of a matrix.
#[derive(Copy, Clone, Debug, Hash, PartialEq, Eq, Structural)]
pub enum MatrixLayout {
    RowMajor,
    ColMajor,
}

/// How a global tensor is read or written: its order and which bounds are checked.
#[derive(Copy, Clone, Debug, Hash, PartialEq, Eq, Structural)]
pub struct GlobalLayoutConfig {
    pub matrix_layout: MatrixLayout,
    pub check_row_bounds: bool,
    pub check_col_bounds: bool,
}

/// Configuration of the batch matmul level: the layouts of its three global tensors.
pub trait BatchConfig {
    fn lhs_global_layout_config(&self) -> GlobalLayoutConfig;

    fn rhs_global_layout_config(&self) -> GlobalLayoutConfig;

    fn out_global_layout_config(&self) -> GlobalLayoutConfig;
}

/// How out-of-bounds work is handled.
#[derive(Copy, Clone, Debug, Hash, PartialEq, Eq, Structural)]
pub enum CheckBounds {
    /// No bound check is necessary.
    NoCheck,
    /// Use checked reads and writes.
    Checked,
    /// Terminate idle work units early.
    Terminate,
}

/// Configuration of the naive (one output element per unit) batch matmul.
#[derive(Copy, Clone, Debug, Hash, PartialEq, Eq, Structural)]
pub struct NaiveMatmulConfig {
    pub fused_accumulation: bool,
    pub sequential_accumulation: bool,
}

impl BatchConfig for NaiveMatmulConfig {
    /// The left-hand side is read row-major, unchecked.
    fn lhs_global_layout_config(&self) -> (r: GlobalLayoutConfig)
        ensures
            r == (GlobalLayoutConfig {
                matrix_layout: MatrixLayout::RowMajor,
                check_row_bounds: false,
                check_col_bounds: false,
            }),
    {
        GlobalLayoutConfig {
            matrix_layout: MatrixLayout::RowMajor,
            check_row_bounds: false,
            check_col_bounds: false,
        }
    }

    /// The right-hand side is read column-major, unchecked.
    fn rhs_global_layout_config(&self) -> (r: GlobalLayoutConfig)
        ensures
            r == (GlobalLayoutConfig {
                matrix_layout: MatrixLayout::ColMajor,
                check_row_bounds: false,
                check_col_bounds: false,
            }),
    {
        GlobalLayoutConfig {
            matrix_layout: MatrixLayout::ColMajor,
            check_row_bounds: false,
            check_col_bounds: false,
        }
    }

    /// The output is written row-major, unchecked.
    fn out_global_layout_config(&self) -> (r: GlobalLayoutConfig)
        ensures
            r == (GlobalLayoutConfig {
                matrix_layout: MatrixLayout::RowMajor,
                check_row_bounds: false,
                check_col_bounds: false,
            }),
    {
        GlobalLayoutConfig {
            matrix_layout: MatrixLayout::RowMajor,
            check_row_bounds: false,
            check_col_bounds: false,
        }
    }
}

} // verus!
