//! Plane counts of the global readers and unit placement in a stage.

use vstd::prelude::*;
use crate::kernel_ir::routines::TilingScheme;
use crate::meta::DType;

verus! {

/// Vector sizes of the three global tensors.
#[derive(Copy, Clone, Debug, PartialEq, Eq)]
pub struct MatmulVectorSizes {
    pub lhs: usize,
    pub rhs: usize,
    pub out: usize,
}

/// Element types of the global inputs.
#[derive(Copy, Clone, Debug, PartialEq, Eq)]
pub struct MatmulElems {
    pub lhs_global: DType,
    pub rhs_global: DType,
}

/// A loading strategy that knows the largest number of planes among which
/// the loading of one stage divides evenly.
pub trait LoadMaxRoundPlaneCount {
    /// The plane count the strategy reports for these stage dimensions.
    spec fn spec_max_round_plane_count(
        elements_per_tile: u32,
        tiles_per_stage: u32,
        vector_size: usize,
        plane_dim: u32,
        dtype: DType,
    ) -> u32;

    fn max_round_plane_count(
        elements_per_tile: u32,
        tiles_per_stage: u32,
        vector_size: usize,
        plane_dim: u32,
        dtype: DType,
    ) -> (r: u32)
        ensures
            r == Self::spec_max_round_plane_count(
                elements_per_tile,
                tiles_per_stage,
                vector_size,
                plane_dim,
                dtype,
            ),
    ;
}

/// Largest number of planes each reader can handle to divide its workload evenly.
pub struct MaxGlobalReaderPlanes {
    pub lhs: u32,
    pub rhs: u32,
}

/// Elements of one left-hand tile (`m x k`).
pub open spec fn lhs_tile_elements(t: TilingScheme) -> int {
    t.tile_size.m * t.tile_size.k
}

/// Left-hand tiles per stage (`m x k` tiles).
pub open spec fn lhs_stage_tiles(t: TilingScheme) -> int {
    t.partition_size.m * t.stage_size.m * t.partition_size.k * t.stage_size.k
}

/// Elements of one right-hand tile (`k x n`).
pub open spec fn rhs_tile_elements(t: TilingScheme) -> int {
    t.tile_size.k * t.tile_size.n
}

/// Right-hand tiles per stage (`k x n` tiles).
pub open spec fn rhs_stage_tiles(t: TilingScheme) -> int {
    t.partition_size.k * t.stage_size.k * t.partition_size.n * t.stage_size.n
}

impl MaxGlobalReaderPlanes {
    /// Asks each reader's loading strategy for its plane count, given the
    /// elements of one tile and the tiles of one stage of its operand.
    pub fn new<LL: LoadMaxRoundPlaneCount, RL: LoadMaxRoundPlaneCount>(
        tiling_scheme: &TilingScheme,
        vector_sizes: &MatmulVectorSizes,
        plane_dim: u32,
        dtypes: &MatmulElems,
    ) -> (r: Self)
        requires
            lhs_tile_elements(*tiling_scheme) <= u32::MAX,
            rhs_tile_elements(*tiling_scheme) <= u32::MAX,
            lhs_stage_tiles(*tiling_scheme) <= u32::MAX,
            rhs_stage_tiles(*tiling_scheme) <= u32::MAX,
        ensures
            r.lhs == LL::spec_max_round_plane_count(
                lhs_tile_elements(*tiling_scheme) as u32,
                lhs_stage_tiles(*tiling_scheme) as u32,
                vector_sizes.lhs,
                plane_dim,
                dtypes.lhs_global,
            ),
            r.rhs == RL::spec_max_round_plane_count(
                rhs_tile_elements(*tiling_scheme) as u32,
                rhs_stage_tiles(*tiling_scheme) as u32,
                vector_sizes.rhs,
                plane_dim,
                dtypes.rhs_global,
            ),
    {
        let t = tiling_scheme;
        let lhs_tile = mul2(t.tile_size.m, t.tile_size.k);
        let rhs_tile = mul2(t.tile_size.k, t.tile_size.n);
        let lhs_tiles = mul4(t.partition_size.m, t.stage_size.m, t.partition_size.k, t.stage_size.k);
        let rhs_tiles = mul4(t.partition_size.k, t.stage_size.k, t.partition_size.n, t.stage_size.n);
        MaxGlobalReaderPlanes {
            lhs: LL::max_round_plane_count(lhs_tile, lhs_tiles, vector_sizes.lhs, plane_dim, dtypes.lhs_global),
            rhs: RL::max_round_plane_count(rhs_tile, rhs_tiles, vector_sizes.rhs, plane_dim, dtypes.rhs_global),
        }
    }
}

/// Product of two `u32` sizes that fits in `u32`.
fn mul2(a: u32, b: u32) -> (r: u32)
    requires
        a * b <= u32::MAX,
    ensures
        r == a * b,
{
    a * b
}

/// Product of four `u32` sizes, computed without intermediate overflow, that fits in `u32`.
fn mul4(a: u32, b: u32, c: u32, d: u32) -> (r: u32)
    requires
        a * b * c * d <= u32::MAX,
    ensures
        r == a * b * c * d,
{
    assert(a * b <= u64::MAX && c * d <= u64::MAX) by (nonlinear_arith)
        requires
            a <= u32::MAX,
            b <= u32::MAX,
            c <= u32::MAX,
            d <= u32::MAX,
    ;
    let ab = a as u64 * b as u64;
    let cd = c as u64 * d as u64;
    assert(ab * cd <= u128::MAX) by (nonlinear_arith)
        requires
            ab <= u64::MAX,
            cd <= u64::MAX,
    ;
    let all = ab as u128 * cd as u128;
    assert(all == a * b * c * d) by (nonlinear_arith)
        requires
            ab == a * b,
            cd == c * d,
            all == ab * cd,
    ;
    all as u32
}

/// Position `(row, column)` of a unit inside a stage partitioned across
/// units: its absolute index (unit index within the plane plus the plane's
/// offset) laid out row-major over `num_partitions_col` columns.
pub fn unit_coordinates(unit_pos_x: u32, plane_id: u32, plane_dim: u32, num_partitions_col: u32) -> (r: (u32, u32))
    requires
        num_partitions_col > 0,
        unit_pos_x + plane_dim * plane_id <= u32::MAX,
    ensures
        r.0 == (unit_pos_x + plane_dim * plane_id) / (num_partitions_col as int),
        r.1 == (unit_pos_x + plane_dim * plane_id) % (num_partitions_col as int),
{
    assert(plane_dim * plane_id <= u32::MAX) by (nonlinear_arith)
        requires
            unit_pos_x + plane_dim * plane_id <= u32::MAX,
            unit_pos_x >= 0,
    ;
    let absolute_index = unit_pos_x + plane_dim * plane_id;
    (absolute_index / num_partitions_col, absolute_index % num_partitions_col)
}

/// A work group larger than the platform runs.
#[derive(Copy, Clone, Debug, PartialEq, Eq, Structural)]
pub struct RudaDimTooBig {
    pub num_elems: u32,
}

/// Units per work group from which Apple GPUs refuse a matmul launch.
pub const APPLE_MAX_RUDA_DIM: u32 = 512u32;

/// Checks the size of a work group: on Apple platforms (`apple`), work
/// groups of [`APPLE_MAX_RUDA_DIM`] units or more are unavailable; elsewhere
/// every size is accepted.
pub fn ruda_dim_validation(num_elems: u32, apple: bool) -> (r: Result<(), RudaDimTooBig>)
    ensures
        r == if apple && num_elems >= APPLE_MAX_RUDA_DIM {
            Err::<(), RudaDimTooBig>(RudaDimTooBig { num_elems })
        } else {
            Ok(())
        },
{
    if apple && num_elems >= APPLE_MAX_RUDA_DIM {
        return Err(RudaDimTooBig { num_elems });
    }
    Ok(())
}

} // verus!
