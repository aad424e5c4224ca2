//! World-map orchestration: heightmap in, populated hex grid and chunked
//! tile map out.
//!
//! The pipeline runs in two row-major sweeps over the heightmap's domain:
//! first every sample is classified and inserted into the hex grid, then
//! every grid tile's visual index is placed into the chunked tile map. Any
//! failure aborts the whole build; no partial world is returned.

use vstd::prelude::*;
use vstd::arithmetic::div_mod::lemma_fundamental_div_mod;
use vstd::set_lib::lemma_set_disjoint_lens;
use crate::heightmap::{Heightmap, lemma_row_major_in_range};
use crate::hexgrid::{
    CoordSystem, GridError, GridParity, GridTilt, HexCoordinate, HexTile, TerrainGrid,
    COORD_LIMIT, GRID_CAPACITY,
};
use crate::terrain::{spec_classify, classify, TerrainIndexTable};
use crate::tilemap::{ChunkConfig, ChunkedTileMap, TileMapError};

verus! {

/// Everything a world build is configured with, besides the heightmap
/// itself: the classification threshold, the terrain-to-atlas table, the
/// grid orientation, and the chunk layout.
#[derive(Clone, Copy, Debug, PartialEq, Eq, Structural)]
pub struct WorldParams {
    pub threshold: i64,
    pub table: TerrainIndexTable,
    pub tilt: GridTilt,
    pub parity: GridParity,
    pub chunk_width: usize,
    pub chunk_height: usize,
    pub tile_pixel_width: u32,
    pub tile_pixel_height: u32,
    pub atlas_pixel_width: u32,
    pub atlas_pixel_height: u32,
}

/// Any failure of the build: rejected inputs, or a propagated grid or
/// tile-map error (the sweeps below never trigger the latter two, but a
/// failure anywhere aborts the whole build).
#[derive(Clone, Copy, Debug, PartialEq, Eq, Structural)]
pub enum BuildError {
    InvalidParameter,
    Grid(GridError),
    TileMap(TileMapError),
}

/// The finished world: the authoritative terrain grid and the renderable
/// tile map derived from it.
pub struct WorldMap {
    pub grid: TerrainGrid,
    pub map: ChunkedTileMap,
}

/// The offset coordinate of heightmap cell `(x, y)`.
pub open spec fn world_coord(x: int, y: int) -> HexCoordinate {
    HexCoordinate { sys: CoordSystem::Offset, col: x as i32, row: y as i32 }
}

/// The tile the pipeline stores for cell `(x, y)`.
pub open spec fn expected_tile(hm: Heightmap, threshold: i64, x: int, y: int) -> HexTile {
    HexTile {
        coordinate: world_coord(x, y),
        terrain: spec_classify(hm.spec_sample(x, y), threshold),
    }
}

/// The visual index the pipeline places for cell `(x, y)`.
pub open spec fn expected_index(
    hm: Heightmap,
    threshold: i64,
    table: TerrainIndexTable,
    x: int,
    y: int,
) -> u32 {
    table.spec_index_of(spec_classify(hm.spec_sample(x, y), threshold))
}

/// The fully populated grid: one classified tile per heightmap cell.
pub open spec fn expected_grid(hm: Heightmap, threshold: i64) -> Map<HexCoordinate, HexTile> {
    Map::new(
        |c: HexCoordinate|
            c.sys == CoordSystem::Offset && 0 <= (c.col as int) && (c.col as int) < (
            hm.spec_width() as int) && 0 <= (c.row as int) && (c.row as int) < (
            hm.spec_height() as int),
        |c: HexCoordinate| expected_tile(hm, threshold, c.col as int, c.row as int),
    )
}

/// The fully placed map: one visual index per heightmap cell.
pub open spec fn expected_placed(hm: Heightmap, threshold: i64, table: TerrainIndexTable) -> Map<
    (int, int),
    u32,
> {
    Map::new(
        |p: (int, int)| 0 <= p.0 < (hm.spec_width() as int) && 0 <= p.1 < (hm.spec_height() as int),
        |p: (int, int)| expected_index(hm, threshold, table, p.0, p.1),
    )
}

/// The grid contents after the first sweep has covered every row before
/// `y` and, on row `y`, every column before `x`.
pub open spec fn grid_prefix(hm: Heightmap, threshold: i64, y: int, x: int) -> Map<
    HexCoordinate,
    HexTile,
> {
    Map::new(
        |c: HexCoordinate|
            c.sys == CoordSystem::Offset && 0 <= (c.col as int) && (c.col as int) < (
            hm.spec_width() as int) && 0 <= (c.row as int) && (c.row as int) < (
            hm.spec_height() as int) && ((c.row as int) < y || ((c.row as int) == y && (
            c.col as int) < x)),
        |c: HexCoordinate| expected_tile(hm, threshold, c.col as int, c.row as int),
    )
}

/// The placed map contents after the second sweep has covered every row
/// before `y` and, on row `y`, every column before `x`.
pub open spec fn placed_prefix(
    hm: Heightmap,
    threshold: i64,
    table: TerrainIndexTable,
    y: int,
    x: int,
) -> Map<(int, int), u32> {
    Map::new(
        |p: (int, int)|
            0 <= p.0 < (hm.spec_width() as int) && 0 <= p.1 < (hm.spec_height() as int) && (
            p.1 < y || (p.1 == y && p.0 < x)),
        |p: (int, int)| expected_index(hm, threshold, table, p.0, p.1),
    )
}

/// Rounding division upward.
pub open spec fn spec_ceil_div(a: int, b: int) -> int {
    a / b + if a % b == 0 {
        0int
    } else {
        1int
    }
}

/// The chunk layout the build derives: just enough chunks to cover the
/// heightmap's extent at the configured chunk granularity.
pub open spec fn spec_chunk_config(hm: Heightmap, p: WorldParams) -> ChunkConfig {
    ChunkConfig {
        chunk_cols: spec_ceil_div(hm.spec_width() as int, p.chunk_width as int) as usize,
        chunk_rows: spec_ceil_div(hm.spec_height() as int, p.chunk_height as int) as usize,
        chunk_width: p.chunk_width,
        chunk_height: p.chunk_height,
        tile_pixel_width: p.tile_pixel_width,
        tile_pixel_height: p.tile_pixel_height,
        atlas_pixel_width: p.atlas_pixel_width,
        atlas_pixel_height: p.atlas_pixel_height,
    }
}

/// The inputs a build accepts: positive chunk dimensions, a heightmap small
/// enough for the grid store and the coordinate limits, and a derived chunk
/// layout whose products stay in range.
pub open spec fn spec_world_valid(hm: Heightmap, p: WorldParams) -> bool {
    &&& 1 <= p.chunk_width
    &&& 1 <= p.chunk_height
    &&& hm.spec_width() <= COORD_LIMIT
    &&& hm.spec_height() <= COORD_LIMIT
    &&& hm.spec_width() * hm.spec_height() <= GRID_CAPACITY
    &&& spec_chunk_config(hm, p).valid()
}

/// Ceiling division covers the dividend: `ceil(a / b) * b` is at least `a`.
proof fn lemma_ceil_div_covers(a: int, b: int)
    requires
        0 <= a,
        1 <= b,
    ensures
        a <= spec_ceil_div(a, b) * b,
{
    lemma_fundamental_div_mod(a, b);
    vstd::arithmetic::div_mod::lemma_mod_bound(a, b);
    vstd::arithmetic::div_mod::lemma_div_pos_is_pos(a, b);
    let q = a / b;
    let r = a % b;
    if r == 0 {
        assert(a == b * q);
        assert(spec_ceil_div(a, b) * b == q * b);
        assert(q * b == b * q) by (nonlinear_arith);
    } else {
        assert(spec_ceil_div(a, b) * b == (q + 1) * b);
        assert((q + 1) * b == b * q + b) by (nonlinear_arith);
    }
}

/// Builds a world map from a sampled heightmap: classifies every cell,
/// populates the hex grid, and places every cell's visual index into a
/// chunked tile map covering the heightmap's extent. Rejected inputs fail
/// with `InvalidParameter`; nothing else can fail, and no partial world is
/// ever returned.
pub fn build_world_map(hm: &Heightmap, params: WorldParams) -> (r: Result<WorldMap, BuildError>)
    requires
        hm.wf(),
    ensures
        r is Ok <==> spec_world_valid(*hm, params),
        r matches Ok(wm) ==> wm.grid.wf() && wm.grid.sys == CoordSystem::Offset && wm.grid.tilt
            == params.tilt && wm.grid.parity == params.parity && wm.grid.model() == expected_grid(
            *hm,
            params.threshold,
        ),
        r matches Ok(wm) ==> wm.map.wf() && wm.map.config == spec_chunk_config(*hm, params)
            && wm.map.placed() == expected_placed(*hm, params.threshold, params.table),
        r is Err ==> r == Result::<WorldMap, BuildError>::Err(BuildError::InvalidParameter),
{
    let width = hm.width();
    let height = hm.height();
    if params.chunk_width == 0 || params.chunk_height == 0 {
        return Err(BuildError::InvalidParameter);
    }
    let limit = COORD_LIMIT as usize;
    if width > limit || height > limit {
        return Err(BuildError::InvalidParameter);
    }
    let n = hm.samples_len();
    proof {
        assert(n == width * height);
    }
    let total = width * height;
    if total > GRID_CAPACITY {
        return Err(BuildError::InvalidParameter);
    }
    let chunk_cols = width / params.chunk_width + (if width % params.chunk_width != 0 {
        1
    } else {
        0
    });
    let chunk_rows = height / params.chunk_height + (if height % params.chunk_height != 0 {
        1
    } else {
        0
    });
    let config = ChunkConfig {
        chunk_cols,
        chunk_rows,
        chunk_width: params.chunk_width,
        chunk_height: params.chunk_height,
        tile_pixel_width: params.tile_pixel_width,
        tile_pixel_height: params.tile_pixel_height,
        atlas_pixel_width: params.atlas_pixel_width,
        atlas_pixel_height: params.atlas_pixel_height,
    };
    proof {
        assert(config == spec_chunk_config(*hm, params));
    }
    if !config.is_valid() {
        return Err(BuildError::InvalidParameter);
    }
    proof {
        lemma_ceil_div_covers(width as int, params.chunk_width as int);
        lemma_ceil_div_covers(height as int, params.chunk_height as int);
        assert(width as int <= config.map_width());
        assert(height as int <= config.map_height());
    }

    // First sweep: classify every sample and populate the grid.
    let mut grid = TerrainGrid::new(params.tilt, params.parity, CoordSystem::Offset);
    proof {
        assert(grid.model() =~= grid_prefix(*hm, params.threshold, 0, 0));
    }
    let mut y: usize = 0;
    while y < height
        invariant
            hm.wf(),
            width == hm.spec_width(),
            height == hm.spec_height(),
            width <= COORD_LIMIT,
            height <= COORD_LIMIT,
            width * height <= GRID_CAPACITY,
            y <= height,
            grid.wf(),
            grid.sys == CoordSystem::Offset,
            grid.tilt == params.tilt,
            grid.parity == params.parity,
            grid.coords@.len() == y * width,
            grid.model() == grid_prefix(*hm, params.threshold, y as int, 0),
        decreases height - y,
    {
        let mut x: usize = 0;
        while x < width
            invariant
                hm.wf(),
                width == hm.spec_width(),
                height == hm.spec_height(),
                width <= COORD_LIMIT,
                height <= COORD_LIMIT,
                width * height <= GRID_CAPACITY,
                y < height,
                x <= width,
                grid.wf(),
                grid.sys == CoordSystem::Offset,
                grid.tilt == params.tilt,
                grid.parity == params.parity,
                grid.coords@.len() == y * width + x,
                grid.model() == grid_prefix(*hm, params.threshold, y as int, x as int),
            decreases width - x,
        {
            proof {
                lemma_row_major_in_range(x as int, y as int, width as int, height as int);
            }
            let sample = hm.sample(x, y);
            let terrain = classify(sample, params.threshold);
            let c = HexCoordinate { sys: CoordSystem::Offset, col: x as i32, row: y as i32 };
            let tile = HexTile { coordinate: c, terrain };
            let ghost pre_model = grid.model();
            match grid.add(c, tile) {
                Ok(()) => {},
                Err(e) => {
                    proof {
                        assert(!pre_model.dom().contains(c));
                        assert(false);
                    }
                    return Err(BuildError::Grid(e));
                },
            }
            proof {
                assert(grid.model() =~= grid_prefix(
                    *hm,
                    params.threshold,
                    y as int,
                    x as int + 1,
                ));
            }
            x = x + 1;
        }
        proof {
            assert(grid.model() =~= grid_prefix(*hm, params.threshold, y as int + 1, 0));
            assert(y * width + width == (y + 1) * width) by (nonlinear_arith);
        }
        y = y + 1;
    }
    proof {
        assert(grid.model() =~= expected_grid(*hm, params.threshold));
    }

    // Second sweep: read every tile back and place its visual index.
    let mut map = ChunkedTileMap::new(config);
    proof {
        assert(map.placed() =~= placed_prefix(*hm, params.threshold, params.table, 0, 0));
    }
    let mut y: usize = 0;
    while y < height
        invariant
            hm.wf(),
            width == hm.spec_width(),
            height == hm.spec_height(),
            width <= COORD_LIMIT,
            height <= COORD_LIMIT,
            width as int <= config.map_width(),
            height as int <= config.map_height(),
            y <= height,
            grid.wf(),
            grid.sys == CoordSystem::Offset,
            grid.model() == expected_grid(*hm, params.threshold),
            map.wf(),
            map.config == config,
            config == spec_chunk_config(*hm, params),
            map.placed() == placed_prefix(*hm, params.threshold, params.table, y as int, 0),
        decreases height - y,
    {
        let mut x: usize = 0;
        while x < width
            invariant
                hm.wf(),
                width == hm.spec_width(),
                height == hm.spec_height(),
                width <= COORD_LIMIT,
                height <= COORD_LIMIT,
                width as int <= config.map_width(),
                height as int <= config.map_height(),
                y < height,
                x <= width,
                grid.wf(),
                grid.sys == CoordSystem::Offset,
                grid.model() == expected_grid(*hm, params.threshold),
                map.wf(),
                map.config == config,
                config == spec_chunk_config(*hm, params),
                map.placed() == placed_prefix(*hm, params.threshold, params.table, y as int, x as int),
            decreases width - x,
        {
            let c = HexCoordinate { sys: CoordSystem::Offset, col: x as i32, row: y as i32 };
            let tile = match grid.get(c) {
                Some(tile) => tile,
                None => {
                    proof {
                        assert(grid.model().dom().contains(c));
                        assert(false);
                    }
                    return Err(BuildError::InvalidParameter);
                },
            };
            let idx = params.table.index_of(tile.terrain);
            let ghost pre_placed = map.placed();
            match map.add_tile(x as i32, y as i32, idx) {
                Ok(()) => {},
                Err(e) => {
                    proof {
                        assert(map.config.coord_in_bounds(x as int, y as int));
                        assert(!pre_placed.dom().contains((x as int, y as int)));
                        assert(false);
                    }
                    return Err(BuildError::TileMap(e));
                },
            }
            proof {
                assert(tile == expected_tile(*hm, params.threshold, x as int, y as int));
                assert(map.placed() =~= placed_prefix(
                    *hm,
                    params.threshold,
                    params.table,
                    y as int,
                    x as int + 1,
                ));
            }
            x = x + 1;
        }
        proof {
            assert(map.placed() =~= placed_prefix(
                *hm,
                params.threshold,
                params.table,
                y as int + 1,
                0,
            ));
        }
        y = y + 1;
    }
    proof {
        assert(map.placed() =~= expected_placed(*hm, params.threshold, params.table));
    }
    Ok(WorldMap { grid, map })
}

/// Law: the build is deterministic — any two worlds whose models match the
/// expected grid and placement for the same inputs agree with each other.
pub proof fn lemma_build_deterministic(
    a: WorldMap,
    b: WorldMap,
    hm: Heightmap,
    p: WorldParams,
)
    requires
        a.grid.model() == expected_grid(hm, p.threshold),
        b.grid.model() == expected_grid(hm, p.threshold),
        a.map.placed() == expected_placed(hm, p.threshold, p.table),
        b.map.placed() == expected_placed(hm, p.threshold, p.table),
    ensures
        a.grid.model() == b.grid.model(),
        a.map.placed() == b.map.placed(),
{
}

/// The coordinates of a `w`-wide row at height `y`.
spec fn row_dom(w: int, y: int) -> Set<(int, int)> {
    Set::new(|p: (int, int)| 0 <= p.0 < w && p.1 == y)
}

/// The coordinates of a `w` by `h` rectangle anchored at the origin.
spec fn rect_dom(w: int, h: int) -> Set<(int, int)> {
    Set::new(|p: (int, int)| 0 <= p.0 < w && 0 <= p.1 < h)
}

proof fn lemma_row_card(w: int, y: int)
    requires
        0 <= w,
    ensures
        row_dom(w, y).finite(),
        row_dom(w, y).len() == w,
    decreases w,
{
    if w == 0 {
        assert(row_dom(0, y) =~= Set::empty());
    } else {
        lemma_row_card(w - 1, y);
        assert(row_dom(w, y) =~= row_dom(w - 1, y).insert((w - 1, y)));
    }
}

proof fn lemma_rect_card(w: int, h: int)
    requires
        0 <= w,
        0 <= h,
    ensures
        rect_dom(w, h).finite(),
        rect_dom(w, h).len() == w * h,
    decreases h,
{
    if h == 0 {
        assert(rect_dom(w, 0) =~= Set::empty());
    } else {
        lemma_rect_card(w, h - 1);
        lemma_row_card(w, h - 1);
        assert(rect_dom(w, h) =~= rect_dom(w, h - 1) + row_dom(w, h - 1));
        assert(rect_dom(w, h - 1).disjoint(row_dom(w, h - 1)));
        lemma_set_disjoint_lens(rect_dom(w, h - 1), row_dom(w, h - 1));
        assert(w * (h - 1) + w == w * h) by (nonlinear_arith);
    }
}

/// Law: a built world places exactly one tile per heightmap cell — the
/// placed domain is the full rectangle, so it holds exactly
/// `width * height` tiles, with no duplicates and no gaps.
pub proof fn lemma_world_tile_count(hm: Heightmap, threshold: i64, table: TerrainIndexTable)
    ensures
        expected_placed(hm, threshold, table).dom().finite(),
        expected_placed(hm, threshold, table).dom().len() == hm.spec_width() * hm.spec_height(),
        forall|x: int, y: int|
            0 <= x < (hm.spec_width() as int) && 0 <= y < (hm.spec_height() as int)
                ==> #[trigger] expected_placed(hm, threshold, table).dom().contains((x, y)),
{
    let w = hm.spec_width() as int;
    let h = hm.spec_height() as int;
    assert(expected_placed(hm, threshold, table).dom() =~= rect_dom(w, h));
    lemma_rect_card(w, h);
}

} // verus!
