//! Matmul routines: their strategies and the launch decisions they make
//! from the problem and the device.

use vstd::prelude::*;
use vstd::string::StringExecFns;
use std::marker::PhantomData;
use crate::kernel_ir::config::{CheckBounds, MatrixLayout};

verus! {

/// Plane-accelerated single-stage matmul with configurable readers of the
/// left-hand, right-hand and accumulator tiles.
pub struct InterleavedAlgorithm<LL, RL, AL> {
    pub _ll: PhantomData<LL>,
    pub _rl: PhantomData<RL>,
    pub _al: PhantomData<AL>,
}

/// Arguments of the interleaved routine.
#[derive(Default, Debug, Clone)]
pub struct InterleavedArgs {
    /// Uses an optimized multi-rows strategy.
    pub multi_rows: bool,
}

impl InterleavedArgs {
    /// Name suffix of the arguments.
    pub fn label(&self) -> (r: &'static str)
        ensures
            r == if self.multi_rows {
                "_multi_rows"
            } else {
                ""
            },
    {
        if self.multi_rows {
            "_multi_rows"
        } else {
            ""
        }
    }
}

/// One output element per unit; used by runtimes without plane arithmetic.
pub struct NaiveRoutine {}

/// Strategy of the naive routine (it has no parameters).
#[derive(Default, Clone)]
pub struct NaiveStrategy {}

impl NaiveStrategy {
    /// Name suffix of the strategy (empty).
    pub fn label(&self) -> (r: &'static str)
        ensures
            r == "",
    {
        ""
    }
}

impl From<()> for NaiveStrategy {
    fn from(_value: ()) -> (r: Self) {
        NaiveStrategy {}
    }
}

impl vstd::std_specs::convert::FromSpecImpl<()> for NaiveStrategy {
    open spec fn obeys_from_spec() -> bool {
        true
    }

    open spec fn from_spec(v: ()) -> Self {
        NaiveStrategy {}
    }
}

/// Kind of the innermost (tile-level) matrix product.
#[derive(Copy, Clone, Debug, PartialEq, Eq, Structural)]
pub enum TileMatmulKind {
    /// Cooperative matrix instructions.
    Cmma,
    /// Interleaved plane arithmetic.
    Interleaved,
}

/// Plane-accelerated specialized matmul, with a main loader and an accumulator loader.
pub struct SpecializedAlgorithm<L, AL> {
    pub _phantom: PhantomData<(L, AL)>,
}

/// Strategy of the specialized routine: the tile-level product to use.
#[derive(Clone)]
pub struct SpecializedStrategy {
    pub tile_matmul: TileMatmulKind,
}

impl Default for SpecializedStrategy {
    fn default() -> (r: Self)
        ensures
            r.tile_matmul == TileMatmulKind::Cmma,
    {
        SpecializedStrategy { tile_matmul: TileMatmulKind::Cmma }
    }
}

impl SpecializedStrategy {
    /// Selects the tile-level product.
    pub fn set_tile_matmul(&mut self, kind: TileMatmulKind)
        ensures
            final(self).tile_matmul == kind,
    {
        self.tile_matmul = kind;
    }

    /// Name suffix of the strategy (empty).
    pub fn label(&self) -> (r: &'static str)
        ensures
            r == "",
    {
        ""
    }
}

impl From<()> for SpecializedStrategy {
    fn from(_value: ()) -> (r: Self) {
        SpecializedStrategy { tile_matmul: TileMatmulKind::Cmma }
    }
}

impl vstd::std_specs::convert::FromSpecImpl<()> for SpecializedStrategy {
    open spec fn obeys_from_spec() -> bool {
        true
    }

    open spec fn from_spec(v: ()) -> Self {
        SpecializedStrategy { tile_matmul: TileMatmulKind::Cmma }
    }
}

/// Matrix-vector routine that splits the work of each output across planes.
pub struct GemvPlaneParallelRoutine {}

/// Strategy of the plane-parallel matrix-vector routine: how many planes
/// cooperate (by default, as many as the device runs concurrently).
#[derive(Default, Clone)]
pub struct GemvPlaneParallelStrategy {
    pub target_num_planes: Option<usize>,
}

/// The text that `{:?}` renders for an `Option<usize>` (std's `Debug`).
pub uninterp spec fn option_usize_debug(v: Option<usize>) -> Seq<char>;

/// `format!("{:?}", v)`: the `Debug` rendering of `v`. The rendering is
/// std's, whose exact text its documentation leaves unspecified; it is
/// named, not spelled out.
#[verifier::external_body]
fn debug_text(v: Option<usize>) -> (r: String)
    ensures
        r@ == option_usize_debug(v),
{
    format!("{:?}", v)
}

impl GemvPlaneParallelStrategy {
    /// Name suffix of the strategy: `_` and the debug form of the target.
    pub fn label(&self) -> (r: String)
        ensures
            r@ == seq!['_'] + option_usize_debug(self.target_num_planes),
    {
        let text = debug_text(self.target_num_planes);
        let mut label = String::from_str("_");
        proof {
            reveal_strlit("_");
        }
        label.append(text.as_str());
        label
    }
}

/// Orientation and memory order of a matrix-vector product.
#[derive(Copy, Clone, Debug, PartialEq, Eq, Structural)]
pub enum GemvKind {
    VecMatColMajor,
    VecMatRowMajor,
    MatVecRowMajor,
    MatVecColMajor,
}

/// Number of independent outputs (or output tiles) that planes share.
pub open spec fn gemv_parallel_problems_spec(kind: GemvKind, m: int, n: int, tile_dim: int) -> int {
    match kind {
        GemvKind::VecMatColMajor => n,
        GemvKind::VecMatRowMajor => n / tile_dim,
        GemvKind::MatVecRowMajor => m,
        GemvKind::MatVecColMajor => m / tile_dim,
    }
}

/// Number of independent outputs (or output tiles) that planes share.
pub fn gemv_num_parallel_problems(kind: GemvKind, m: usize, n: usize, tile_dim: usize) -> (r: usize)
    requires
        tile_dim > 0,
    ensures
        r == gemv_parallel_problems_spec(kind, m as int, n as int, tile_dim as int),
        kind == GemvKind::VecMatColMajor ==> r == n,
        kind == GemvKind::MatVecRowMajor ==> r == m,
        kind == GemvKind::VecMatRowMajor ==> r * tile_dim <= n < (r + 1) * tile_dim,
        kind == GemvKind::MatVecColMajor ==> r * tile_dim <= m < (r + 1) * tile_dim,
{
    proof {
        lemma_gemv_parallel_problems(kind, m as int, n as int, tile_dim as int);
    }
    match kind {
        GemvKind::VecMatColMajor => n,
        GemvKind::VecMatRowMajor => n / tile_dim,
        GemvKind::MatVecRowMajor => m,
        GemvKind::MatVecColMajor => m / tile_dim,
    }
}

/// Launch shape chosen for a plane-parallel matrix-vector product.
#[derive(Copy, Clone, Debug, PartialEq, Eq)]
pub struct GemvPlan {
    /// Planes per work group.
    pub num_planes: usize,
    /// Elements one plane covers in a step: plane size times right-hand vector size.
    pub tile_dim: usize,
    /// Whether idle planes must stop early.
    pub check_bounds: CheckBounds,
    /// Scheduling: row-major tile order, one work group per output tile.
    pub hyperruda: HyperrudaBlueprint,
}

/// Upper limit on the plane count: the tiles along `k` when planes swizzle over
/// tiles, the tile width when they split one tile.
pub open spec fn gemv_plane_limit(kind: GemvKind, k: int, tile_dim: int) -> int {
    match kind {
        GemvKind::MatVecRowMajor | GemvKind::VecMatColMajor => k / tile_dim,
        GemvKind::VecMatRowMajor | GemvKind::MatVecColMajor => tile_dim,
    }
}

/// The smaller of two integers.
pub open spec fn min_int(a: int, b: int) -> int {
    if a <= b {
        a
    } else {
        b
    }
}

/// The larger of two integers.
pub open spec fn max_int(a: int, b: int) -> int {
    if a >= b {
        a
    } else {
        b
    }
}

/// `r` is the plan [`gemv_plan`] chooses: the tile width is the plane size
/// times the right-hand vector size; the plane count is the target (or the
/// device's concurrent plane count) capped by the kind's limit, at least 1;
/// row-major flattened scheduling; bounds checked unless the planes divide
/// the parallel problems evenly.
pub open spec fn is_gemv_plan(
    r: GemvPlan,
    kind: GemvKind,
    target_num_planes: Option<usize>,
    concurrent_planes: usize,
    m: usize,
    n: usize,
    k: usize,
    plane_dim: u32,
    vector_size_rhs: usize,
) -> bool {
    &&& r.tile_dim == plane_dim * vector_size_rhs
    &&& r.num_planes == max_int(
        1,
        min_int(
            match target_num_planes {
                Some(t) => t as int,
                None => concurrent_planes as int,
            },
            gemv_plane_limit(kind, k as int, r.tile_dim as int),
        ),
    )
    &&& r.num_planes >= 1
    &&& r.hyperruda == (HyperrudaBlueprint {
        global_order: GlobalOrder::RowMajor,
        ruda_count_strategy: RudaCountStrategy::Flattened,
    })
    &&& r.check_bounds == if gemv_parallel_problems_spec(kind, m as int, n as int, r.tile_dim as int)
        % (r.num_planes as int) == 0 {
        CheckBounds::NoCheck
    } else {
        CheckBounds::Terminate
    }
}

/// Chooses the plane count of a matrix-vector product: the target (or the
/// device's concurrent plane count), capped by the kind's limit, at least 1;
/// bounds are checked unless the planes divide the parallel problems evenly.
pub fn gemv_plan(
    kind: GemvKind,
    target_num_planes: Option<usize>,
    concurrent_planes: usize,
    m: usize,
    n: usize,
    k: usize,
    plane_dim: u32,
    vector_size_rhs: usize,
) -> (r: GemvPlan)
    requires
        plane_dim > 0,
        vector_size_rhs > 0,
        plane_dim * vector_size_rhs <= usize::MAX,
    ensures
        is_gemv_plan(r, kind, target_num_planes, concurrent_planes, m, n, k, plane_dim, vector_size_rhs),
{
    let target = match target_num_planes {
        Some(t) => t,
        None => concurrent_planes,
    };
    let tile_dim = plane_dim as usize * vector_size_rhs;
    assert(tile_dim > 0) by (nonlinear_arith)
        requires
            plane_dim > 0,
            vector_size_rhs > 0,
            tile_dim == plane_dim * vector_size_rhs,
    ;
    let limit = match kind {
        GemvKind::MatVecRowMajor | GemvKind::VecMatColMajor => k / tile_dim,
        GemvKind::VecMatRowMajor | GemvKind::MatVecColMajor => tile_dim,
    };
    let capped = if target <= limit {
        target
    } else {
        limit
    };
    let num_planes = if capped >= 1 {
        capped
    } else {
        1
    };
    let problems = gemv_num_parallel_problems(kind, m, n, tile_dim);
    let check_bounds = if problems % num_planes == 0 {
        CheckBounds::NoCheck
    } else {
        CheckBounds::Terminate
    };
    let hyperruda = HyperrudaBlueprint {
        global_order: GlobalOrder::RowMajor,
        ruda_count_strategy: RudaCountStrategy::Flattened,
    };
    GemvPlan { num_planes, tile_dim, check_bounds, hyperruda }
}

/// Number of work groups of a matrix-vector product: the parallel problems
/// divided among the planes, rounded up.
pub fn gemv_working_rudas(num_parallel_problems: usize, num_planes: usize) -> (r: usize)
    requires
        num_planes > 0,
    ensures
        r == (num_parallel_problems + num_planes - 1) / (num_planes as int),
        r * num_planes >= num_parallel_problems,
        r * num_planes < num_parallel_problems + num_planes,
{
    let q = num_parallel_problems / num_planes;
    assert(num_parallel_problems % num_planes != 0 ==> q < num_parallel_problems) by (
    nonlinear_arith)
        requires
            q == num_parallel_problems / num_planes,
            num_planes > 0,
    ;
    let r = if num_parallel_problems % num_planes != 0 {
        q + 1
    } else {
        q
    };
    proof {
        let p = num_parallel_problems as int;
        let d = num_planes as int;
        vstd::arithmetic::div_mod::lemma_fundamental_div_mod(p, d);
        vstd::arithmetic::div_mod::lemma_fundamental_div_mod(p + d - 1, d);
        assert((p + d - 1) / d == r) by (nonlinear_arith)
            requires
                p == d * (p / d) + p % d,
                0 <= p % d < d,
                r == if p % d != 0 {
                    p / d + 1
                } else {
                    p / d
                },
                p + d - 1 == d * ((p + d - 1) / d) + (p + d - 1) % d,
                0 <= (p + d - 1) % d < d,
                d > 0,
        ;
        assert(r * d >= p && r * d < p + d) by (nonlinear_arith)
            requires
                p == d * (p / d) + p % d,
                0 <= p % d < d,
                r == if p % d != 0 {
                    p / d + 1
                } else {
                    p / d
                },
                d > 0,
        ;
    }
    r
}

/// Plane size used for blueprint selection: the device's, or 32 when the
/// device reports none (algorithms without plane instructions still run).
pub fn default_plane_dim(plane_size_max: u32) -> (r: u32)
    ensures
        r == if plane_size_max == 0 {
            32
        } else {
            plane_size_max
        },
{
    if plane_size_max == 0 {
        32
    } else {
        plane_size_max
    }
}

/// Sizes along `m`, `n` and `k`.
#[derive(Copy, Clone, Debug, PartialEq, Eq, Structural)]
pub struct MatmulDims {
    pub m: u32,
    pub n: u32,
    pub k: u32,
}

/// Tiling of a matmul: tile size (elements), partition size (tiles per plane)
/// and stage size (partitions per stage).
#[derive(Copy, Clone, Debug, PartialEq, Eq, Structural)]
pub struct TilingScheme {
    pub tile_size: MatmulDims,
    pub partition_size: MatmulDims,
    pub stage_size: MatmulDims,
}

/// The tiling scheme with the given tile, partition and stage sizes (`m`, `n`, `k`).
pub open spec fn tiling(tile: (u32, u32, u32), partition: (u32, u32, u32), stage: (u32, u32, u32)) -> TilingScheme {
    TilingScheme {
        tile_size: MatmulDims { m: tile.0, n: tile.1, k: tile.2 },
        partition_size: MatmulDims { m: partition.0, n: partition.1, k: partition.2 },
        stage_size: MatmulDims { m: stage.0, n: stage.1, k: stage.2 },
    }
}

/// How work groups are assigned to streaming multiprocessors.
#[derive(Copy, Clone, Debug, PartialEq, Eq, Structural)]
pub enum SmAllocation {
    /// Exactly one work group per multiprocessor at a time.
    Exact,
}

/// How the count of work groups is derived.
#[derive(Copy, Clone, Debug, PartialEq, Eq, Structural)]
pub enum RudaCountStrategy {
    /// One work group per output tile, flattened.
    Flattened,
    /// Sized from the number of streaming multiprocessors.
    Sm { num_sms: u32, sm_usage: SmAllocation, rudas_first: bool },
}

/// Order in which output tiles are visited.
#[derive(Copy, Clone, Debug, PartialEq, Eq, Structural)]
pub enum GlobalOrder {
    RowMajor,
    /// Row-major inside column bands of the given width.
    SwizzleRow(u32),
}

/// Global scheduling of a matmul: tile order and work-group count strategy.
#[derive(Copy, Clone, Debug, PartialEq, Eq, Structural)]
pub struct HyperrudaBlueprint {
    pub global_order: GlobalOrder,
    pub ruda_count_strategy: RudaCountStrategy,
}

/// Work groups sized on the multiprocessors when the device reports how many
/// it has, flattened otherwise.
pub fn ruda_count_strategy(num_sms: Option<u32>) -> (r: RudaCountStrategy)
    ensures
        r == match num_sms {
            Some(s) => RudaCountStrategy::Sm {
                num_sms: s,
                sm_usage: SmAllocation::Exact,
                rudas_first: true,
            },
            None => RudaCountStrategy::Flattened,
        },
{
    match num_sms {
        Some(s) => RudaCountStrategy::Sm { num_sms: s, sm_usage: SmAllocation::Exact, rudas_first: true },
        None => RudaCountStrategy::Flattened,
    }
}

/// How the plane selector spreads rows over a plane.
#[derive(Copy, Clone, Debug, PartialEq, Eq, Structural)]
pub enum MultiRowStrategy {
    /// Always this many rows per plane.
    Always(u32),
    /// Several rows per plane as long as at least this many stages remain.
    Adaptive { minimum_stage_count: u32 },
}

/// Options handed to the general plane tiling selector; `None` and `false`
/// leave the selector's default.
#[derive(Copy, Clone, Debug, PartialEq, Eq, Structural)]
pub struct PlaneSelectorOptions {
    /// Single partition buffering (instead of the selector's default).
    pub single_partition_buffering: bool,
    pub tiny_selection_enabled: bool,
    pub swizzled: bool,
    pub specialized: bool,
    pub multi_row_strategy: Option<MultiRowStrategy>,
    pub partition_k: Option<u32>,
}

/// Selector options of the fixed-tiling routines when no fixed tiling is
/// supported: single partition buffering, two rows per plane, partition `k` of 2.
pub open spec fn fallback_options() -> PlaneSelectorOptions {
    PlaneSelectorOptions {
        single_partition_buffering: true,
        tiny_selection_enabled: false,
        swizzled: false,
        specialized: false,
        multi_row_strategy: Some(MultiRowStrategy::Always(2)),
        partition_k: Some(2),
    }
}

/// Selector options of the interleaved routine without multi-rows: single
/// partition buffering, tiny selection, swizzling as the device prefers.
pub open spec fn interleaved_options(swizzled: bool) -> PlaneSelectorOptions {
    PlaneSelectorOptions {
        single_partition_buffering: true,
        tiny_selection_enabled: true,
        swizzled,
        specialized: false,
        multi_row_strategy: None,
        partition_k: None,
    }
}

/// Selector options of the specialized routine: specialized loading, several
/// rows per plane while at least 8 stages remain, swizzling as the device prefers.
pub open spec fn specialized_options(swizzled: bool) -> PlaneSelectorOptions {
    PlaneSelectorOptions {
        single_partition_buffering: false,
        tiny_selection_enabled: false,
        swizzled,
        specialized: true,
        multi_row_strategy: Some(MultiRowStrategy::Adaptive { minimum_stage_count: 8 }),
        partition_k: None,
    }
}

/// Widths, in elements, over which the shared memory of the left- and
/// right-hand stages is swizzled.
#[derive(Copy, Clone, Debug, PartialEq, Eq, Structural)]
pub struct SwizzleWidths {
    pub lhs: usize,
    pub rhs: usize,
}

/// Blueprint choice of a routine: a fixed tiling with single partition
/// buffering and the given scheduling, or the general plane selector.
#[derive(Copy, Clone, Debug, PartialEq, Eq, Structural)]
pub enum TilingChoice {
    /// Use this tile-level product, tiling and scheduling; with `load_only`, both inputs are
    /// read by dedicated loading planes; with `shared_swizzle`, the shared
    /// memory of the left- and right-hand stages is swizzled over these widths.
    Fixed {
        tile_matmul: TileMatmulKind,
        tiling: TilingScheme,
        hyperruda: HyperrudaBlueprint,
        load_only: bool,
        shared_swizzle: Option<SwizzleWidths>,
    },
    /// Use the general plane selector with these options.
    Selector(PlaneSelectorOptions),
}

/// The scheduling of the fixed tilings: tiles visited in row bands of 4,
/// work groups sized on the multiprocessors when their count is known.
pub open spec fn swizzled_hyperruda(num_sms: Option<u32>) -> HyperrudaBlueprint {
    HyperrudaBlueprint {
        global_order: GlobalOrder::SwizzleRow(4),
        ruda_count_strategy: match num_sms {
            Some(s) => RudaCountStrategy::Sm { num_sms: s, sm_usage: SmAllocation::Exact, rudas_first: true },
            None => RudaCountStrategy::Flattened,
        },
    }
}

/// The selector options of the fallback (see [`fallback_options`]).
fn fallback_selector_options() -> (r: PlaneSelectorOptions)
    ensures
        r == fallback_options(),
{
    PlaneSelectorOptions {
        single_partition_buffering: true,
        tiny_selection_enabled: false,
        swizzled: false,
        specialized: false,
        multi_row_strategy: Some(MultiRowStrategy::Always(2)),
        partition_k: Some(2),
    }
}

/// Tiling of the multi-rows interleaved routine, with the interleaved
/// tile-level product: many rows balanced on an
/// `8x32x16` tile when the device supports it, else an `8x8x8` tile, else
/// the general selector with the fallback options.
pub fn multi_rows_tiling(supports_8_32_16: bool, supports_8_8_8: bool, num_sms: Option<u32>) -> (r: TilingChoice)
    ensures
        r == if supports_8_32_16 {
            TilingChoice::Fixed {
                tile_matmul: TileMatmulKind::Interleaved,
                tiling: tiling((8, 32, 16), (4, 4, 2), (4, 1, 1)),
                hyperruda: swizzled_hyperruda(num_sms),
                load_only: false,
                shared_swizzle: None,
            }
        } else if supports_8_8_8 {
            TilingChoice::Fixed {
                tile_matmul: TileMatmulKind::Interleaved,
                tiling: tiling((8, 8, 8), (4, 8, 2), (4, 1, 1)),
                hyperruda: swizzled_hyperruda(num_sms),
                load_only: false,
                shared_swizzle: None,
            }
        } else {
            TilingChoice::Selector(fallback_options())
        },
{
    let count = ruda_count_strategy(num_sms);
    let hyperruda = HyperrudaBlueprint { global_order: GlobalOrder::SwizzleRow(4), ruda_count_strategy: count };
    if supports_8_32_16 {
        TilingChoice::Fixed {
            tile_matmul: TileMatmulKind::Interleaved,
            tiling: TilingScheme {
                tile_size: MatmulDims { m: 8, n: 32, k: 16 },
                partition_size: MatmulDims { m: 4, n: 4, k: 2 },
                stage_size: MatmulDims { m: 4, n: 1, k: 1 },
            },
            hyperruda,
            load_only: false,
            shared_swizzle: None,
        }
    } else if supports_8_8_8 {
        TilingChoice::Fixed {
            tile_matmul: TileMatmulKind::Interleaved,
            tiling: TilingScheme {
                tile_size: MatmulDims { m: 8, n: 8, k: 8 },
                partition_size: MatmulDims { m: 4, n: 8, k: 2 },
                stage_size: MatmulDims { m: 4, n: 1, k: 1 },
            },
            hyperruda,
            load_only: false,
            shared_swizzle: None,
        }
    } else {
        TilingChoice::Selector(fallback_selector_options())
    }
}

/// Shared-memory swizzle of the specialized routine: the stage widths of
/// [`stage_swizzle_dims`] when swizzling is asked for, none otherwise.
pub open spec fn specialized_swizzle(swizzle: bool, t: TilingScheme, lhs_layout: MatrixLayout, rhs_layout: MatrixLayout) -> Option<SwizzleWidths> {
    if swizzle {
        let d = stage_swizzle_dims(t, lhs_layout, rhs_layout);
        Some(SwizzleWidths { lhs: d.0, rhs: d.1 })
    } else {
        None
    }
}

/// A fixed tiling of the specialized routine: load-only input planes, the
/// swizzled scheduling, and the shared-memory swizzle when asked for.
pub open spec fn specialized_fixed(
    tile_matmul: TileMatmulKind,
    t: TilingScheme,
    num_sms: Option<u32>,
    swizzle: bool,
    lhs_layout: MatrixLayout,
    rhs_layout: MatrixLayout,
) -> TilingChoice {
    TilingChoice::Fixed {
        tile_matmul,
        tiling: t,
        hyperruda: swizzled_hyperruda(num_sms),
        load_only: true,
        shared_swizzle: specialized_swizzle(swizzle, t, lhs_layout, rhs_layout),
    }
}

/// A fixed tiling of the specialized routine (see [`specialized_fixed`]).
fn specialized_fixed_choice(
    tile_matmul: TileMatmulKind,
    t: TilingScheme,
    num_sms: Option<u32>,
    swizzle: bool,
    lhs_layout: MatrixLayout,
    rhs_layout: MatrixLayout,
) -> (r: TilingChoice)
    requires
        elements_along_m(t) <= usize::MAX,
        elements_along_n(t) <= usize::MAX,
        elements_along_k(t) <= usize::MAX,
    ensures
        r == specialized_fixed(tile_matmul, t, num_sms, swizzle, lhs_layout, rhs_layout),
{
    let count = ruda_count_strategy(num_sms);
    let hyperruda = HyperrudaBlueprint { global_order: GlobalOrder::SwizzleRow(4), ruda_count_strategy: count };
    let shared_swizzle = if swizzle {
        let (lhs, rhs) = specialized_swizzle_dims(t, lhs_layout, rhs_layout);
        Some(SwizzleWidths { lhs, rhs })
    } else {
        None
    };
    TilingChoice::Fixed { tile_matmul, tiling: t, hyperruda, load_only: true, shared_swizzle }
}

/// Tiling of the specialized routine with tile-level product `tile_matmul`
/// (whose support of each tile size the device reports): a `16x8x16` tile when supported, else
/// `16x16x16`, both with load-only input planes and, when `swizzle` is
/// asked for, the shared-memory swizzle over the stage widths that the
/// operands' layouts read contiguously; else the general selector with the
/// fallback options.
pub fn specialized_tiling(
    tile_matmul: TileMatmulKind,
    supports_16_8_16: bool,
    supports_16_16_16: bool,
    num_sms: Option<u32>,
    swizzle: bool,
    lhs_layout: MatrixLayout,
    rhs_layout: MatrixLayout,
) -> (r: TilingChoice)
    ensures
        r == if supports_16_8_16 {
            specialized_fixed(tile_matmul, tiling((16, 8, 16), (1, 8, 2), (4, 1, 1)), num_sms, swizzle, lhs_layout, rhs_layout)
        } else if supports_16_16_16 {
            specialized_fixed(tile_matmul, tiling((16, 16, 16), (1, 4, 2), (4, 1, 1)), num_sms, swizzle, lhs_layout, rhs_layout)
        } else {
            TilingChoice::Selector(fallback_options())
        },
{
    if supports_16_8_16 {
        let t = TilingScheme {
            tile_size: MatmulDims { m: 16, n: 8, k: 16 },
            partition_size: MatmulDims { m: 1, n: 8, k: 2 },
            stage_size: MatmulDims { m: 4, n: 1, k: 1 },
        };
        specialized_fixed_choice(tile_matmul, t, num_sms, swizzle, lhs_layout, rhs_layout)
    } else if supports_16_16_16 {
        let t = TilingScheme {
            tile_size: MatmulDims { m: 16, n: 16, k: 16 },
            partition_size: MatmulDims { m: 1, n: 4, k: 2 },
            stage_size: MatmulDims { m: 4, n: 1, k: 1 },
        };
        specialized_fixed_choice(tile_matmul, t, num_sms, swizzle, lhs_layout, rhs_layout)
    } else {
        TilingChoice::Selector(fallback_selector_options())
    }
}

/// Where a routine's blueprint comes from.
#[derive(Copy, Clone, Debug, PartialEq, Eq, Structural)]
pub enum BlueprintSource {
    /// The blueprint the caller forced.
    Forced,
    /// The multi-rows tiling (see [`multi_rows_tiling`]).
    MultiRows,
    /// The general plane selector with these options.
    Selector(PlaneSelectorOptions),
}

/// Blueprint source of the interleaved routine: a forced blueprint as is;
/// otherwise the multi-rows tiling when asked, the plane selector with the
/// interleaved options else.
pub fn interleaved_blueprint_source(forced: bool, multi_rows: bool, swizzled: bool) -> (r: BlueprintSource)
    ensures
        r == if forced {
            BlueprintSource::Forced
        } else if multi_rows {
            BlueprintSource::MultiRows
        } else {
            BlueprintSource::Selector(interleaved_options(swizzled))
        },
{
    if forced {
        BlueprintSource::Forced
    } else if multi_rows {
        BlueprintSource::MultiRows
    } else {
        BlueprintSource::Selector(
            PlaneSelectorOptions {
                single_partition_buffering: true,
                tiny_selection_enabled: true,
                swizzled,
                specialized: false,
                multi_row_strategy: None,
                partition_k: None,
            },
        )
    }
}

/// Blueprint source of the specialized routine: a forced blueprint as is,
/// the plane selector with the specialized options otherwise.
pub fn specialized_blueprint_source(forced: bool, swizzled: bool) -> (r: BlueprintSource)
    ensures
        r == if forced {
            BlueprintSource::Forced
        } else {
            BlueprintSource::Selector(specialized_options(swizzled))
        },
{
    if forced {
        BlueprintSource::Forced
    } else {
        BlueprintSource::Selector(
            PlaneSelectorOptions {
                single_partition_buffering: false,
                tiny_selection_enabled: false,
                swizzled,
                specialized: true,
                multi_row_strategy: Some(MultiRowStrategy::Adaptive { minimum_stage_count: 8 }),
                partition_k: None,
            },
        )
    }
}

/// Elements of one stage along `m`: tile rows times tiles per partition times partitions per stage.
pub open spec fn elements_along_m(t: TilingScheme) -> int {
    t.tile_size.m * t.partition_size.m * t.stage_size.m
}

/// Elements of one stage along `n`.
pub open spec fn elements_along_n(t: TilingScheme) -> int {
    t.tile_size.n * t.partition_size.n * t.stage_size.n
}

/// Elements of one stage along `k`.
pub open spec fn elements_along_k(t: TilingScheme) -> int {
    t.tile_size.k * t.partition_size.k * t.stage_size.k
}

/// Product of three sizes along one axis.
fn elements_along(tile: u32, partition: u32, stage: u32) -> (r: usize)
    requires
        tile * partition * stage <= usize::MAX,
    ensures
        r == tile * partition * stage,
{
    assert(tile * partition <= u64::MAX) by (nonlinear_arith)
        requires
            tile <= u32::MAX,
            partition <= u32::MAX,
    ;
    let tp = tile as u64 * partition as u64;
    assert(tp * stage <= u128::MAX) by (nonlinear_arith)
        requires
            tp <= u64::MAX,
            stage <= u32::MAX,
    ;
    let all = tp as u128 * stage as u128;
    all as usize
}

/// The stage extent that each operand reads contiguously: `k` for a
/// row-major left-hand side, `m` for a column-major one; `n` for a
/// row-major right-hand side, `k` for a column-major one.
pub open spec fn stage_swizzle_dims(t: TilingScheme, lhs_layout: MatrixLayout, rhs_layout: MatrixLayout) -> (usize, usize) {
    (
        (match lhs_layout {
            MatrixLayout::RowMajor => elements_along_k(t),
            MatrixLayout::ColMajor => elements_along_m(t),
        }) as usize,
        (match rhs_layout {
            MatrixLayout::RowMajor => elements_along_n(t),
            MatrixLayout::ColMajor => elements_along_k(t),
        }) as usize,
    )
}

/// Shared-memory swizzle widths of the specialized routine: the contiguous
/// stage extent of each operand (`k` for a row-major left-hand side, `m` for
/// a column-major one; `n` for a row-major right-hand side, `k` for a
/// column-major one).
pub fn specialized_swizzle_dims(t: TilingScheme, lhs_layout: MatrixLayout, rhs_layout: MatrixLayout) -> (r: (usize, usize))
    requires
        elements_along_m(t) <= usize::MAX,
        elements_along_n(t) <= usize::MAX,
        elements_along_k(t) <= usize::MAX,
    ensures
        r == stage_swizzle_dims(t, lhs_layout, rhs_layout),
        r.0 == match lhs_layout {
            MatrixLayout::RowMajor => elements_along_k(t),
            MatrixLayout::ColMajor => elements_along_m(t),
        },
        r.1 == match rhs_layout {
            MatrixLayout::RowMajor => elements_along_n(t),
            MatrixLayout::ColMajor => elements_along_k(t),
        },
{
    let m = elements_along(t.tile_size.m, t.partition_size.m, t.stage_size.m);
    let n = elements_along(t.tile_size.n, t.partition_size.n, t.stage_size.n);
    let k = elements_along(t.tile_size.k, t.partition_size.k, t.stage_size.k);
    let lhs = match lhs_layout {
        MatrixLayout::RowMajor => k,
        MatrixLayout::ColMajor => m,
    };
    let rhs = match rhs_layout {
        MatrixLayout::RowMajor => n,
        MatrixLayout::ColMajor => k,
    };
    (lhs, rhs)
}

/// Largest work-group count per axis of the naive routine.
pub const MAX_RUDA_COUNT: u32 = 65535u32;

/// The naive routine's work-group count exceeds the limit on some axis.
#[derive(Copy, Clone, Debug, PartialEq, Eq, Structural)]
pub struct RudaCountTooBig {
    pub m_rudas: u32,
    pub n_rudas: u32,
    pub batch_rudas: u32,
}

/// Product, from the left, of the dimensions read as `u32` (truncated).
pub open spec fn u32_prod(s: Seq<usize>) -> int
    decreases s.len(),
{
    if s.len() == 0 {
        1
    } else {
        u32_prod(s.drop_last()) * (s.last() as u32)
    }
}

/// Every leading product of the batch counts fits in `u32`.
pub open spec fn u32_prods_fit(s: Seq<usize>) -> bool {
    forall|i: int| 0 <= i <= s.len() ==> #[trigger] u32_prod(s.take(i)) <= u32::MAX
}

/// Work-group counts of the naive routine along `m`, `n` and the batches,
/// given the counts along `m` and `n` (the problem size over the work-group
/// size, rounded up): the batch count is the product of the first
/// `batch_axes` output dimensions; each count must stay within
/// [`MAX_RUDA_COUNT`].
pub fn naive_ruda_count(m_rudas: u32, n_rudas: u32, output_shape: &[usize], batch_axes: usize) -> (r: Result<
    (u32, u32, u32),
    RudaCountTooBig,
>)
    requires
        batch_axes <= output_shape@.len(),
        u32_prods_fit(output_shape@.take(batch_axes as int)),
    ensures
        ({
            let b = u32_prod(output_shape@.take(batch_axes as int));
            r == if m_rudas > MAX_RUDA_COUNT || n_rudas > MAX_RUDA_COUNT || b > MAX_RUDA_COUNT {
                Err::<(u32, u32, u32), RudaCountTooBig>(
                    RudaCountTooBig { m_rudas, n_rudas, batch_rudas: b as u32 },
                )
            } else {
                Ok((m_rudas, n_rudas, b as u32))
            }
        }),
{
    let ghost batch = output_shape@.take(batch_axes as int);
    let mut batch_rudas: u32 = 1;
    let mut i: usize = 0;
    proof {
        assert(batch.take(0) =~= Seq::<usize>::empty());
    }
    while i < batch_axes
        invariant
            i <= batch_axes,
            batch_axes <= output_shape@.len(),
            batch == output_shape@.take(batch_axes as int),
            u32_prods_fit(batch),
            batch_rudas as int == u32_prod(batch.take(i as int)),
        decreases batch_axes - i,
    {
        proof {
            assert(batch.take(i + 1).drop_last() =~= batch.take(i as int));
            assert(batch.take(i + 1).last() == output_shape@[i as int]);
            assert(u32_prod(batch.take(i + 1)) <= u32::MAX);
        }
        batch_rudas = batch_rudas * (output_shape[i] as u32);
        i = i + 1;
    }
    proof {
        assert(batch.take(batch_axes as int) =~= batch);
    }
    if m_rudas > MAX_RUDA_COUNT || n_rudas > MAX_RUDA_COUNT || batch_rudas > MAX_RUDA_COUNT {
        return Err(RudaCountTooBig { m_rudas, n_rudas, batch_rudas });
    }
    Ok((m_rudas, n_rudas, batch_rudas))
}

/// Whether every leading product of the first `batch_axes` output dimensions,
/// read as `u32`, fits in `u32` (see [`naive_ruda_count`]).
pub fn batch_counts_fit(output_shape: &[usize], batch_axes: usize) -> (r: bool)
    requires
        batch_axes <= output_shape@.len(),
    ensures
        r == u32_prods_fit(output_shape@.take(batch_axes as int)),
{
    let ghost batch = output_shape@.take(batch_axes as int);
    let mut acc: u32 = 1;
    let mut i: usize = 0;
    proof {
        assert(batch.take(0) =~= Seq::<usize>::empty());
    }
    while i < batch_axes
        invariant
            i <= batch_axes,
            batch_axes <= output_shape@.len(),
            batch == output_shape@.take(batch_axes as int),
            acc as int == u32_prod(batch.take(i as int)),
            forall|j: int| 0 <= j <= i ==> #[trigger] u32_prod(batch.take(j)) <= u32::MAX,
        decreases batch_axes - i,
    {
        proof {
            assert(batch.take(i + 1).drop_last() =~= batch.take(i as int));
            assert(batch.take(i + 1).last() == output_shape@[i as int]);
        }
        match acc.checked_mul(output_shape[i] as u32) {
            Some(v) => {
                acc = v;
            },
            None => {
                assert(u32_prod(batch.take(i + 1)) > u32::MAX);
                return false;
            },
        }
        i = i + 1;
    }
    proof {
        assert(batch.take(batch_axes as int) =~= batch);
    }
    true
}

/// The blueprint of the plane-parallel matrix-vector routine: a forced
/// blueprint as is, otherwise the plan that [`gemv_plan`] infers.
pub fn gemv_blueprint(
    forced: Option<GemvPlan>,
    kind: GemvKind,
    target_num_planes: Option<usize>,
    concurrent_planes: usize,
    m: usize,
    n: usize,
    k: usize,
    plane_dim: u32,
    vector_size_rhs: usize,
) -> (r: GemvPlan)
    requires
        forced is None ==> plane_dim > 0 && vector_size_rhs > 0 && plane_dim * vector_size_rhs
            <= usize::MAX,
    ensures
        match forced {
            Some(p) => r == p,
            None => is_gemv_plan(r, kind, target_num_planes, concurrent_planes, m, n, k, plane_dim, vector_size_rhs),
        },
{
    match forced {
        Some(p) => p,
        None => gemv_plan(kind, target_num_planes, concurrent_planes, m, n, k, plane_dim, vector_size_rhs),
    }
}

/// Law: the problems that planes share. A column-major vector-matrix product
/// has one per output column (`n`), a row-major matrix-vector product one per
/// output row (`m`); the other two kinds share whole output tiles of
/// `tile_dim` elements: `p` tiles with `p * tile_dim <= n < (p + 1) * tile_dim`
/// (row-major vector-matrix) or the same bound on `m` (column-major
/// matrix-vector).
pub proof fn lemma_gemv_parallel_problems(kind: GemvKind, m: int, n: int, tile_dim: int)
    requires
        m >= 0,
        n >= 0,
        tile_dim > 0,
    ensures
        ({
            let p = gemv_parallel_problems_spec(kind, m, n, tile_dim);
            &&& kind == GemvKind::VecMatColMajor ==> p == n
            &&& kind == GemvKind::MatVecRowMajor ==> p == m
            &&& kind == GemvKind::VecMatRowMajor ==> p * tile_dim <= n < (p + 1) * tile_dim
            &&& kind == GemvKind::MatVecColMajor ==> p * tile_dim <= m < (p + 1) * tile_dim
        }),
{
    vstd::arithmetic::div_mod::lemma_fundamental_div_mod(n, tile_dim);
    vstd::arithmetic::div_mod::lemma_fundamental_div_mod(m, tile_dim);
    let pn = n / tile_dim;
    let pm = m / tile_dim;
    assert(pn * tile_dim <= n < (pn + 1) * tile_dim) by (nonlinear_arith)
        requires
            n == tile_dim * pn + n % tile_dim,
            0 <= n % tile_dim < tile_dim,
    ;
    assert(pm * tile_dim <= m < (pm + 1) * tile_dim) by (nonlinear_arith)
        requires
            m == tile_dim * pm + m % tile_dim,
            0 <= m % tile_dim < tile_dim,
    ;
}

} // verus!
