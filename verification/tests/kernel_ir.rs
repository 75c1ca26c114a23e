use rublas::kernel_ir::config::{BatchConfig, CheckBounds, GlobalLayoutConfig, MatrixLayout, NaiveMatmulConfig};
use rublas::kernel_ir::iterator::{GlobalIterator, ViewDirection, ViewSlice};
use rublas::kernel_ir::planes::{ruda_dim_validation, unit_coordinates, RudaDimTooBig};
use rublas::kernel_ir::routines::{
    default_plane_dim, gemv_num_parallel_problems, gemv_plan, gemv_working_rudas, multi_rows_tiling,
    ruda_count_strategy, specialized_swizzle_dims, specialized_tiling, GemvKind, GemvPlaneParallelStrategy,
    GlobalOrder, InterleavedArgs, MatmulDims, NaiveStrategy, RudaCountStrategy, SmAllocation,
    SpecializedStrategy, TileMatmulKind, TilingChoice, BlueprintSource, MultiRowStrategy,
    PlaneSelectorOptions, interleaved_blueprint_source, specialized_blueprint_source, batch_counts_fit,
    naive_ruda_count, RudaCountTooBig, SwizzleWidths, gemv_blueprint,
};

#[test]
fn naive_config_layouts() {
    let c = NaiveMatmulConfig { fused_accumulation: false, sequential_accumulation: true };
    let unchecked = |matrix_layout| GlobalLayoutConfig { matrix_layout, check_row_bounds: false, check_col_bounds: false };
    assert_eq!(c.lhs_global_layout_config(), unchecked(MatrixLayout::RowMajor));
    assert_eq!(c.rhs_global_layout_config(), unchecked(MatrixLayout::ColMajor));
    assert_eq!(c.out_global_layout_config(), unchecked(MatrixLayout::RowMajor));
}

#[test]
fn global_iterator_advances_with_first_step() {
    let mut it = GlobalIterator::new((64, 256), 32, ViewDirection::Col, true);
    assert_eq!(it.offset(), 0);
    assert_eq!(it.view(), ViewSlice { offset: (0, 0), size: (64, 32), checked: true });
    it.set_first_step(16);
    assert_eq!(it.view(), ViewSlice { offset: (0, 0), size: (64, 16), checked: true });
    it.advance();
    assert_eq!(it.offset(), 16);
    assert_eq!(it.view(), ViewSlice { offset: (0, 16), size: (64, 32), checked: true });
    it.advance();
    assert_eq!(it.offset(), 48);
    let mut row = GlobalIterator::new((128, 8), 4, ViewDirection::Row, false);
    row.advance();
    assert_eq!(row.view(), ViewSlice { offset: (4, 0), size: (4, 8), checked: false });
    let fixed = GlobalIterator::new((3, 5), 7, ViewDirection::Fixed, false);
    assert_eq!(fixed.view(), ViewSlice { offset: (0, 0), size: (3, 5), checked: false });
}

#[test]
fn unit_coordinates_row_major() {
    assert_eq!(unit_coordinates(5, 2, 32, 8), (8, 5));
    assert_eq!(unit_coordinates(0, 0, 32, 3), (0, 0));
}

#[test]
fn strategy_labels_and_defaults() {
    assert_eq!(InterleavedArgs { multi_rows: true }.label(), "_multi_rows");
    assert_eq!(InterleavedArgs::default().label(), "");
    assert_eq!(NaiveStrategy::from(()).label(), "");
    assert_eq!(GemvPlaneParallelStrategy { target_num_planes: Some(12) }.label(), "_Some(12)");
    assert_eq!(GemvPlaneParallelStrategy::default().label(), "_None");
    let mut s = SpecializedStrategy::default();
    assert_eq!(s.tile_matmul, TileMatmulKind::Cmma);
    s.set_tile_matmul(TileMatmulKind::Interleaved);
    assert_eq!(s.tile_matmul, TileMatmulKind::Interleaved);
    assert_eq!(SpecializedStrategy::from(()).tile_matmul, TileMatmulKind::Cmma);
}

#[test]
fn gemv_planning() {
    // Tile of 32 * 4 = 128 elements; k = 1024 gives 8 tiles.
    let p = gemv_plan(GemvKind::MatVecRowMajor, None, 16, 100, 1, 1024, 32, 4);
    assert_eq!(p.tile_dim, 128);
    assert_eq!(p.num_planes, 8);
    assert_eq!(p.check_bounds, CheckBounds::Terminate);
    assert_eq!(p.hyperruda.global_order, GlobalOrder::RowMajor);
    assert_eq!(p.hyperruda.ruda_count_strategy, RudaCountStrategy::Flattened);
    let q = gemv_plan(GemvKind::VecMatColMajor, Some(4), 16, 1, 64, 1024, 32, 4);
    assert_eq!(q.num_planes, 4);
    assert_eq!(q.check_bounds, CheckBounds::NoCheck);
    let r = gemv_plan(GemvKind::MatVecRowMajor, Some(4), 16, 7, 1, 64, 32, 4);
    assert_eq!(r.num_planes, 1);
    let w = gemv_plan(GemvKind::VecMatRowMajor, Some(500), 16, 1, 1024, 64, 32, 1);
    assert_eq!(w.num_planes, 32);
    assert_eq!(gemv_num_parallel_problems(GemvKind::MatVecColMajor, 1000, 1, 128), 7);
    assert_eq!(gemv_working_rudas(100, 8), 13);
    assert_eq!(gemv_working_rudas(96, 8), 12);
    assert_eq!(gemv_working_rudas(0, 8), 0);
}

#[test]
fn plane_dim_and_tilings() {
    assert_eq!(default_plane_dim(0), 32);
    assert_eq!(default_plane_dim(64), 64);
    assert_eq!(ruda_count_strategy(None), RudaCountStrategy::Flattened);
    assert_eq!(
        ruda_count_strategy(Some(80)),
        RudaCountStrategy::Sm { num_sms: 80, sm_usage: SmAllocation::Exact, rudas_first: true }
    );
    match multi_rows_tiling(false, true, None) {
        TilingChoice::Fixed { tile_matmul, tiling, hyperruda, load_only, shared_swizzle } => {
            assert_eq!(tile_matmul, TileMatmulKind::Interleaved);
            assert_eq!(shared_swizzle, None);
            assert_eq!(tiling.tile_size, MatmulDims { m: 8, n: 8, k: 8 });
            assert_eq!(tiling.partition_size, MatmulDims { m: 4, n: 8, k: 2 });
            assert_eq!(hyperruda.global_order, GlobalOrder::SwizzleRow(4));
            assert_eq!(hyperruda.ruda_count_strategy, RudaCountStrategy::Flattened);
            assert!(!load_only);
        }
        TilingChoice::Selector(_) => panic!("expected a fixed tiling"),
    }
    let fallback = PlaneSelectorOptions {
        single_partition_buffering: true,
        tiny_selection_enabled: false,
        swizzled: false,
        specialized: false,
        multi_row_strategy: Some(MultiRowStrategy::Always(2)),
        partition_k: Some(2),
    };
    assert_eq!(multi_rows_tiling(false, false, Some(1)), TilingChoice::Selector(fallback));
    assert_eq!(
        specialized_tiling(TileMatmulKind::Cmma, false, false, Some(1), true, MatrixLayout::RowMajor, MatrixLayout::RowMajor),
        TilingChoice::Selector(fallback)
    );
    match specialized_tiling(TileMatmulKind::Cmma, true, true, Some(4), true, MatrixLayout::RowMajor, MatrixLayout::ColMajor) {
        TilingChoice::Fixed { tiling, load_only, shared_swizzle, .. } => {
            assert!(load_only);
            assert_eq!(tiling.tile_size, MatmulDims { m: 16, n: 8, k: 16 });
            assert_eq!(shared_swizzle, Some(SwizzleWidths { lhs: 32, rhs: 32 }));
            let (l2, r2) = specialized_swizzle_dims(tiling, MatrixLayout::ColMajor, MatrixLayout::RowMajor);
            assert_eq!((l2, r2), (64, 64));
        }
        TilingChoice::Selector(_) => panic!("expected a fixed tiling"),
    }
    match specialized_tiling(TileMatmulKind::Interleaved, false, true, None, true, MatrixLayout::ColMajor, MatrixLayout::RowMajor) {
        TilingChoice::Fixed { tile_matmul, tiling, shared_swizzle, .. } => {
            assert_eq!(tile_matmul, TileMatmulKind::Interleaved);
            assert_eq!(tiling.partition_size, MatmulDims { m: 1, n: 4, k: 2 });
            assert_eq!(shared_swizzle, Some(SwizzleWidths { lhs: 64, rhs: 64 }));
        }
        TilingChoice::Selector(_) => panic!("expected a fixed tiling"),
    }
    match specialized_tiling(TileMatmulKind::Cmma, true, false, None, false, MatrixLayout::RowMajor, MatrixLayout::RowMajor) {
        TilingChoice::Fixed { shared_swizzle, .. } => assert_eq!(shared_swizzle, None),
        TilingChoice::Selector(_) => panic!("expected a fixed tiling"),
    }
}

#[test]
fn blueprint_sources() {
    assert_eq!(interleaved_blueprint_source(true, true, false), BlueprintSource::Forced);
    assert_eq!(interleaved_blueprint_source(false, true, false), BlueprintSource::MultiRows);
    match interleaved_blueprint_source(false, false, true) {
        BlueprintSource::Selector(o) => {
            assert!(o.single_partition_buffering && o.tiny_selection_enabled && o.swizzled);
            assert!(!o.specialized);
            assert_eq!(o.multi_row_strategy, None);
        }
        other => panic!("unexpected source {:?}", other),
    }
    assert_eq!(specialized_blueprint_source(true, true), BlueprintSource::Forced);
    match specialized_blueprint_source(false, false) {
        BlueprintSource::Selector(o) => {
            assert!(o.specialized && !o.swizzled);
            assert_eq!(o.multi_row_strategy, Some(MultiRowStrategy::Adaptive { minimum_stage_count: 8 }));
        }
        other => panic!("unexpected source {:?}", other),
    }
}

#[test]
fn naive_work_group_counts() {
    assert!(batch_counts_fit(&[2, 3, 8, 8], 2));
    assert_eq!(naive_ruda_count(4, 5, &[2, 3, 8, 8], 2), Ok((4, 5, 6)));
    assert_eq!(naive_ruda_count(1, 1, &[8, 8], 0), Ok((1, 1, 1)));
    assert_eq!(
        naive_ruda_count(70000, 1, &[2, 8, 8], 1),
        Err(RudaCountTooBig { m_rudas: 70000, n_rudas: 1, batch_rudas: 2 })
    );
    assert_eq!(
        naive_ruda_count(1, 1, &[300, 300, 8, 8], 2),
        Err(RudaCountTooBig { m_rudas: 1, n_rudas: 1, batch_rudas: 90000 })
    );
    assert!(!batch_counts_fit(&[1 << 20, 1 << 20, 1, 1], 2));
    assert!(batch_counts_fit(&[1 << 20, 1 << 20, 1, 1], 1));
}

#[test]
fn work_group_size_on_apple_platforms() {
    assert_eq!(ruda_dim_validation(511, true), Ok(()));
    assert_eq!(ruda_dim_validation(512, true), Err(RudaDimTooBig { num_elems: 512 }));
    assert_eq!(ruda_dim_validation(1024, false), Ok(()));
}

#[test]
fn gemv_blueprint_keeps_a_forced_plan() {
    let inferred = gemv_blueprint(None, GemvKind::MatVecRowMajor, None, 16, 100, 1, 1024, 32, 4);
    assert_eq!(inferred, gemv_plan(GemvKind::MatVecRowMajor, None, 16, 100, 1, 1024, 32, 4));
    let forced = gemv_plan(GemvKind::VecMatColMajor, Some(4), 16, 1, 64, 1024, 32, 4);
    assert_eq!(gemv_blueprint(Some(forced), GemvKind::MatVecRowMajor, None, 16, 100, 1, 1024, 0, 0), forced);
}
