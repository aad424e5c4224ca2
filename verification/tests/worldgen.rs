use hexworldgen::builder::{build_world_map, BuildError, WorldParams};
use hexworldgen::heightmap::{validate_generation, GeoBounds, Heightmap, HeightmapError, HeightmapGenerator, NoiseParams};
use hexworldgen::hexgrid::{CoordSystem, GridError, GridParity, GridTilt, HexCoordinate, HexTile, TerrainGrid};
use hexworldgen::paths::AssetPaths;
use hexworldgen::terrain::{classify, TerrainIndexTable, TerrainType, SAMPLE_SCALE};
use hexworldgen::tilemap::{ChunkConfig, ChunkedTileMap, TileMapError};

fn test_params(chunk_width: usize, chunk_height: usize) -> WorldParams {
    WorldParams {
        threshold: SAMPLE_SCALE / 20,
        table: TerrainIndexTable { ocean: 0, land: 2 },
        tilt: GridTilt::Flat,
        parity: GridParity::Even,
        chunk_width,
        chunk_height,
        tile_pixel_width: 32,
        tile_pixel_height: 32,
        atlas_pixel_width: 128,
        atlas_pixel_height: 32,
    }
}

fn flat_heightmap(width: usize, height: usize, value: i64) -> Heightmap {
    let samples = vec![value; width * height];
    Heightmap::from_samples(width, height, samples).unwrap()
}

fn offset(col: i32, row: i32) -> HexCoordinate {
    HexCoordinate { sys: CoordSystem::Offset, col, row }
}

// Heightmap construction and validation

#[test]
fn heightmap_keeps_dimensions_and_samples() {
    let samples = vec![0, 100, -100, SAMPLE_SCALE, -SAMPLE_SCALE, 42];
    let hm = Heightmap::from_samples(3, 2, samples).unwrap();
    assert_eq!(hm.width(), 3);
    assert_eq!(hm.height(), 2);
    assert_eq!(hm.samples_len(), 6);
    // Row-major layout: (x, y) sits at index y * width + x.
    assert_eq!(hm.sample(0, 0), 0);
    assert_eq!(hm.sample(1, 0), 100);
    assert_eq!(hm.sample(2, 0), -100);
    assert_eq!(hm.sample(0, 1), SAMPLE_SCALE);
    assert_eq!(hm.sample(1, 1), -SAMPLE_SCALE);
    assert_eq!(hm.sample(2, 1), 42);
}

#[test]
fn heightmap_rejects_zero_dimensions() {
    assert_eq!(
        Heightmap::from_samples(0, 4, vec![]).unwrap_err(),
        HeightmapError::InvalidParameter
    );
    assert_eq!(
        Heightmap::from_samples(4, 0, vec![]).unwrap_err(),
        HeightmapError::InvalidParameter
    );
}

#[test]
fn heightmap_rejects_wrong_sample_count() {
    assert_eq!(
        Heightmap::from_samples(2, 2, vec![0, 0, 0]).unwrap_err(),
        HeightmapError::InvalidParameter
    );
}

#[test]
fn heightmap_rejects_out_of_range_sample() {
    assert_eq!(
        Heightmap::from_samples(2, 1, vec![0, SAMPLE_SCALE + 1]).unwrap_err(),
        HeightmapError::InvalidParameter
    );
    assert_eq!(
        Heightmap::from_samples(2, 1, vec![-SAMPLE_SCALE - 1, 0]).unwrap_err(),
        HeightmapError::InvalidParameter
    );
}

#[test]
fn generation_parameters_are_validated() {
    let good = NoiseParams {
        seed: 1234,
        persistence: SAMPLE_SCALE / 2,
        frequency: SAMPLE_SCALE,
        lacunarity: 2 * SAMPLE_SCALE,
        bounds: GeoBounds {
            lat_min: -90 * SAMPLE_SCALE,
            lat_max: 90 * SAMPLE_SCALE,
            lon_min: -180 * SAMPLE_SCALE,
            lon_max: 180 * SAMPLE_SCALE,
        },
    };
    assert!(validate_generation(384, 192, &good).is_ok());
    assert_eq!(
        validate_generation(0, 192, &good).unwrap_err(),
        HeightmapError::InvalidParameter
    );
    assert_eq!(
        validate_generation(384, 0, &good).unwrap_err(),
        HeightmapError::InvalidParameter
    );
    let bad = NoiseParams { persistence: 0, ..good };
    assert_eq!(
        validate_generation(384, 192, &bad).unwrap_err(),
        HeightmapError::InvalidParameter
    );
    let bad = NoiseParams { frequency: -1, ..good };
    assert!(validate_generation(384, 192, &bad).is_err());
    let bad = NoiseParams { lacunarity: 0, ..good };
    assert!(validate_generation(384, 192, &bad).is_err());
}

#[test]
fn generator_combines_both_validations() {
    let good = NoiseParams {
        seed: 7,
        persistence: SAMPLE_SCALE / 2,
        frequency: SAMPLE_SCALE,
        lacunarity: 2 * SAMPLE_SCALE,
        bounds: GeoBounds { lat_min: 0, lat_max: SAMPLE_SCALE, lon_min: 0, lon_max: SAMPLE_SCALE },
    };
    let hm = HeightmapGenerator::generate(2, 2, &good, vec![1, 2, 3, 4]).unwrap();
    assert_eq!(hm.sample(1, 1), 4);
    let bad_params = NoiseParams { lacunarity: -5, ..good };
    assert!(HeightmapGenerator::generate(2, 2, &bad_params, vec![1, 2, 3, 4]).is_err());
    assert_eq!(
        HeightmapGenerator::generate(2, 2, &good, vec![1, 2, 3]).unwrap_err(),
        HeightmapError::InvalidParameter
    );
}

// Terrain classification

#[test]
fn classify_is_closed_on_the_land_side() {
    let threshold = SAMPLE_SCALE / 20;
    assert_eq!(classify(threshold, threshold), TerrainType::Land);
    assert_eq!(classify(threshold + 1, threshold), TerrainType::Land);
    assert_eq!(classify(SAMPLE_SCALE, threshold), TerrainType::Land);
    assert_eq!(classify(threshold - 1, threshold), TerrainType::Ocean);
    assert_eq!(classify(0, threshold), TerrainType::Ocean);
    assert_eq!(classify(-SAMPLE_SCALE, threshold), TerrainType::Ocean);
}

#[test]
fn terrain_index_table_maps_each_variant() {
    let table = TerrainIndexTable { ocean: 0, land: 2 };
    assert_eq!(table.index_of(TerrainType::Ocean), 0);
    assert_eq!(table.index_of(TerrainType::Land), 2);
}

// Hex grid

#[test]
fn grid_get_returns_what_was_added() {
    let mut grid = TerrainGrid::new(GridTilt::Flat, GridParity::Even, CoordSystem::Offset);
    let c = offset(3, 5);
    let tile = HexTile { coordinate: c, terrain: TerrainType::Land };
    grid.add(c, tile).unwrap();
    assert_eq!(grid.get(c), Some(tile));
    assert_eq!(grid.get(offset(5, 3)), None);
    assert_eq!(grid.get(offset(0, 0)), None);
    assert_eq!(grid.len(), 1);
}

#[test]
fn grid_handles_negative_coordinates() {
    let mut grid = TerrainGrid::new(GridTilt::Flat, GridParity::Even, CoordSystem::Offset);
    let c = offset(-7, -11);
    let tile = HexTile { coordinate: c, terrain: TerrainType::Ocean };
    grid.add(c, tile).unwrap();
    assert_eq!(grid.get(c), Some(tile));
    assert_eq!(grid.get(offset(-11, -7)), None);
}

#[test]
fn duplicate_add_is_rejected_and_grid_unchanged() {
    let mut grid = TerrainGrid::new(GridTilt::Flat, GridParity::Even, CoordSystem::Offset);
    let c = offset(2, 2);
    let first = HexTile { coordinate: c, terrain: TerrainType::Ocean };
    let second = HexTile { coordinate: c, terrain: TerrainType::Land };
    grid.add(c, first).unwrap();
    assert_eq!(grid.add(c, second).unwrap_err(), GridError::DuplicateCoordinate);
    // The second tile was not stored.
    assert_eq!(grid.get(c), Some(first));
    assert_eq!(grid.len(), 1);
}

#[test]
fn mismatched_coordinate_system_fails_fast() {
    let mut grid = TerrainGrid::new(GridTilt::Flat, GridParity::Even, CoordSystem::Offset);
    let axial = HexCoordinate { sys: CoordSystem::Axial, col: 1, row: 1 };
    let tile = HexTile { coordinate: axial, terrain: TerrainType::Land };
    assert_eq!(
        grid.add(axial, tile).unwrap_err(),
        GridError::MismatchedCoordinateSystem
    );
    assert_eq!(grid.len(), 0);
    assert_eq!(grid.get(axial), None);

    let mut axial_grid = TerrainGrid::new(GridTilt::Pointy, GridParity::Odd, CoordSystem::Axial);
    let o = offset(1, 1);
    let tile = HexTile { coordinate: o, terrain: TerrainType::Land };
    assert_eq!(
        axial_grid.add(o, tile).unwrap_err(),
        GridError::MismatchedCoordinateSystem
    );
    // A grid of another system stores under its own system only.
    axial_grid.add(axial, HexTile { coordinate: axial, terrain: TerrainType::Ocean }).unwrap();
    assert_eq!(axial_grid.get(o), None);
    assert_eq!(
        axial_grid.get(axial),
        Some(HexTile { coordinate: axial, terrain: TerrainType::Ocean })
    );
}

#[test]
fn grid_enumerates_insertion_order() {
    let mut grid = TerrainGrid::new(GridTilt::Flat, GridParity::Even, CoordSystem::Offset);
    let a = offset(0, 0);
    let b = offset(1, 0);
    grid.add(a, HexTile { coordinate: a, terrain: TerrainType::Ocean }).unwrap();
    grid.add(b, HexTile { coordinate: b, terrain: TerrainType::Land }).unwrap();
    assert_eq!(grid.coordinates().as_slice(), &[a, b]);
}

// Chunked tile map

fn small_config() -> ChunkConfig {
    ChunkConfig {
        chunk_cols: 2,
        chunk_rows: 2,
        chunk_width: 2,
        chunk_height: 2,
        tile_pixel_width: 32,
        tile_pixel_height: 32,
        atlas_pixel_width: 128,
        atlas_pixel_height: 32,
    }
}

#[test]
fn config_validity() {
    assert!(small_config().is_valid());
    assert!(!ChunkConfig { chunk_cols: 0, ..small_config() }.is_valid());
    assert!(!ChunkConfig { chunk_width: 0, ..small_config() }.is_valid());
    assert!(!ChunkConfig {
        chunk_cols: 0x10000,
        chunk_rows: 0x10000,
        ..small_config()
    }
    .is_valid());
}

#[test]
fn add_tile_places_at_expected_chunk_and_offset() {
    let mut map = ChunkedTileMap::new(small_config());
    assert_eq!(map.chunk_count(), 4);
    map.add_tile(3, 2, 7).unwrap();
    let rec = map.get_tile(3, 2).unwrap();
    assert_eq!(rec.visual_index, 7);
    // (3, 2) with 2x2 chunks resolves to chunk (1, 1), local (1, 0).
    assert_eq!(rec.local_x, 1);
    assert_eq!(rec.local_y, 0);
    // Every other coordinate is still empty.
    for x in 0..4 {
        for y in 0..4 {
            if (x, y) != (3, 2) {
                assert!(map.get_tile(x, y).is_none());
            }
        }
    }
}

#[test]
fn add_tile_rejects_out_of_bounds() {
    let mut map = ChunkedTileMap::new(small_config());
    assert_eq!(map.add_tile(-1, 0, 7).unwrap_err(), TileMapError::OutOfBounds);
    assert_eq!(map.add_tile(0, -1, 7).unwrap_err(), TileMapError::OutOfBounds);
    assert_eq!(map.add_tile(4, 0, 7).unwrap_err(), TileMapError::OutOfBounds);
    assert_eq!(map.add_tile(0, 4, 7).unwrap_err(), TileMapError::OutOfBounds);
    // No mutation happened.
    for x in 0..4 {
        for y in 0..4 {
            assert!(map.get_tile(x, y).is_none());
        }
    }
}

#[test]
fn add_tile_rejects_double_placement() {
    let mut map = ChunkedTileMap::new(small_config());
    map.add_tile(1, 1, 3).unwrap();
    assert_eq!(map.add_tile(1, 1, 9).unwrap_err(), TileMapError::TileAlreadyPlaced);
    // The first record is untouched.
    assert_eq!(map.get_tile(1, 1).unwrap().visual_index, 3);
}

#[test]
fn tile_sits_in_exactly_one_chunk() {
    let cfg = small_config();
    let mut map = ChunkedTileMap::new(cfg);
    map.add_tile(3, 2, 7).unwrap();
    // Exactly one chunk holds the tile, at the expected local offset.
    let mut found = 0;
    for chunk in &map.chunks {
        for lx in 0..cfg.chunk_width {
            for ly in 0..cfg.chunk_height {
                if let Some(rec) = chunk.tile_at_local(lx, ly, &cfg) {
                    found += 1;
                    assert_eq!((chunk.chunk_x, chunk.chunk_y), (1, 1));
                    assert_eq!((lx, ly), (1, 0));
                    assert_eq!(rec.visual_index, 7);
                }
            }
        }
    }
    assert_eq!(found, 1);
}

#[test]
fn build_reports_the_layout() {
    let map = ChunkedTileMap::new(small_config());
    let handle = map.build();
    assert_eq!(handle.config, small_config());
    assert_eq!(handle.chunk_count, 4);
}

// End-to-end world builds

#[test]
fn world_at_threshold_is_all_land() {
    // Chunk size 2x2 over a 4x4 world: 4 chunks, threshold exactly met.
    let hm = flat_heightmap(4, 4, SAMPLE_SCALE / 20);
    let world = build_world_map(&hm, test_params(2, 2)).unwrap();
    assert_eq!(world.map.chunk_count(), 4);
    for x in 0..4 {
        for y in 0..4 {
            assert_eq!(world.map.get_tile(x, y).unwrap().visual_index, 2);
        }
    }
}

#[test]
fn world_below_threshold_is_all_ocean() {
    let hm = flat_heightmap(4, 4, 0);
    let world = build_world_map(&hm, test_params(2, 2)).unwrap();
    for x in 0..4 {
        for y in 0..4 {
            assert_eq!(world.map.get_tile(x, y).unwrap().visual_index, 0);
        }
    }
}

#[test]
fn world_build_is_deterministic() {
    let mut samples = Vec::new();
    for i in 0..(6 * 4) {
        samples.push((i as i64 * 37) % SAMPLE_SCALE - SAMPLE_SCALE / 2);
    }
    let hm1 = Heightmap::from_samples(6, 4, samples.clone()).unwrap();
    let hm2 = Heightmap::from_samples(6, 4, samples).unwrap();
    let w1 = build_world_map(&hm1, test_params(3, 2)).unwrap();
    let w2 = build_world_map(&hm2, test_params(3, 2)).unwrap();
    for x in 0..6 {
        for y in 0..4 {
            assert_eq!(w1.map.get_tile(x, y), w2.map.get_tile(x, y));
            let c = offset(x, y);
            assert_eq!(w1.grid.get(c), w2.grid.get(c));
        }
    }
}

#[test]
fn world_covers_every_cell_exactly_once() {
    // 6x4 world with evenly dividing 3x2 chunks.
    let hm = flat_heightmap(6, 4, SAMPLE_SCALE / 2);
    let world = build_world_map(&hm, test_params(3, 2)).unwrap();
    assert_eq!(world.map.chunk_count(), 4);
    let mut placed = 0;
    for x in 0..6 {
        for y in 0..4 {
            assert!(world.map.get_tile(x, y).is_some());
            placed += 1;
        }
    }
    assert_eq!(placed, 6 * 4);
    // Nothing outside the extent.
    for x in 0..7 {
        assert!(world.map.get_tile(x, 4).is_none());
    }
    for y in 0..5 {
        assert!(world.map.get_tile(6, y).is_none());
    }
    assert_eq!(world.grid.len(), 6 * 4);
}

#[test]
fn world_with_ragged_edge_covers_only_the_extent() {
    // A 5x3 world with 2x2 chunks: 3x2 chunks, partial chunks at the edges.
    let hm = flat_heightmap(5, 3, 0);
    let world = build_world_map(&hm, test_params(2, 2)).unwrap();
    assert_eq!(world.map.chunk_count(), 6);
    for x in 0..5 {
        for y in 0..3 {
            assert!(world.map.get_tile(x, y).is_some());
        }
    }
    // The padding cells of partial chunks stay empty.
    assert!(world.map.get_tile(5, 0).is_none());
    assert!(world.map.get_tile(0, 3).is_none());
    assert!(world.map.get_tile(5, 3).is_none());
}

#[test]
fn world_build_rejects_bad_parameters() {
    let hm = flat_heightmap(4, 4, 0);
    let bad = WorldParams { chunk_width: 0, ..test_params(2, 2) };
    match build_world_map(&hm, bad) {
        Err(BuildError::InvalidParameter) => {},
        _ => panic!("a zero chunk width must be rejected"),
    }
    let bad = WorldParams { chunk_height: 0, ..test_params(2, 2) };
    assert!(build_world_map(&hm, bad).is_err());
}

#[test]
fn world_grid_matches_the_map() {
    let mut samples = Vec::new();
    for i in 0..16 {
        samples.push(if i % 3 == 0 { SAMPLE_SCALE / 10 } else { -SAMPLE_SCALE / 10 });
    }
    let hm = Heightmap::from_samples(4, 4, samples).unwrap();
    let params = test_params(2, 2);
    let world = build_world_map(&hm, params).unwrap();
    for x in 0..4 {
        for y in 0..4 {
            let tile = world.grid.get(offset(x, y)).unwrap();
            let expected = params.table.index_of(tile.terrain);
            assert_eq!(world.map.get_tile(x, y).unwrap().visual_index, expected);
        }
    }
}

// Asset paths

#[test]
fn asset_paths_defaults() {
    let paths = AssetPaths::defaults();
    assert_eq!(paths.fira_sans, "fonts/FiraSans-Regular.ttf");
    assert_eq!(paths.texture_tileset, "textures/tileset.png");
    assert_eq!(paths.ui_tileset, "textures/ui_tileset.png");
}
