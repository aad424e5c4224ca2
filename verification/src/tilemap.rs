//! Chunked tile maps: a rectangular tile space partitioned into fixed-size
//! chunks, each holding a dense grid of tile records.
//!
//! A logical tile coordinate `(x, y)` resolves to chunk
//! `(x / chunk_width, y / chunk_height)` and local offset
//! `(x % chunk_width, y % chunk_height)`; the resolution is a pure function
//! of the coordinate and the chunk dimensions, and chunk bounds partition
//! the declared coordinate space without gaps or overlaps.

use vstd::prelude::*;
use vstd::arithmetic::div_mod::{lemma_div_pos_is_pos, lemma_fundamental_div_mod, lemma_mod_bound};

verus! {

/// One placed tile: its offset inside its chunk and the index of its
/// sub-image in the texture atlas.
#[derive(Clone, Copy, Debug, PartialEq, Eq, Structural)]
pub struct TileRecord {
    pub local_x: usize,
    pub local_y: usize,
    pub visual_index: u32,
}

/// A fixed-size rectangular sub-region of the map: a dense, row-major grid
/// of optional tile records.
pub struct Chunk {
    pub chunk_x: usize,
    pub chunk_y: usize,
    pub tiles: Vec<Option<TileRecord>>,
}

/// The layout a map is built with: the chunk grid, the per-chunk tile grid,
/// and the pixel geometry the rendering host needs.
#[derive(Clone, Copy, Debug, PartialEq, Eq, Structural)]
pub struct ChunkConfig {
    pub chunk_cols: usize,
    pub chunk_rows: usize,
    pub chunk_width: usize,
    pub chunk_height: usize,
    pub tile_pixel_width: u32,
    pub tile_pixel_height: u32,
    pub atlas_pixel_width: u32,
    pub atlas_pixel_height: u32,
}

/// Tile placement misuse, discovered when a tile is added.
#[derive(Clone, Copy, Debug, PartialEq, Eq, Structural)]
pub enum TileMapError {
    OutOfBounds,
    TileAlreadyPlaced,
}

/// The opaque summary of a built map that a rendering host consumes.
#[derive(Clone, Copy, Debug, PartialEq, Eq, Structural)]
pub struct MapHandle {
    pub config: ChunkConfig,
    pub chunk_count: usize,
}

impl ChunkConfig {
    /// A usable layout: no dimension is zero, and every product the map
    /// computes stays within `i32` range.
    pub open spec fn valid(self) -> bool {
        &&& 1 <= self.chunk_cols
        &&& 1 <= self.chunk_rows
        &&& 1 <= self.chunk_width
        &&& 1 <= self.chunk_height
        &&& self.chunk_cols * self.chunk_rows <= 0x7fff_ffff
        &&& self.chunk_width * self.chunk_height <= 0x7fff_ffff
        &&& self.chunk_cols * self.chunk_width <= 0x7fff_ffff
        &&& self.chunk_rows * self.chunk_height <= 0x7fff_ffff
    }

    /// The map's extent in tiles along x.
    pub open spec fn map_width(self) -> int {
        self.chunk_cols * self.chunk_width
    }

    /// The map's extent in tiles along y.
    pub open spec fn map_height(self) -> int {
        self.chunk_rows * self.chunk_height
    }

    /// Whether a logical tile coordinate lies within the declared extent.
    pub open spec fn coord_in_bounds(self, x: int, y: int) -> bool {
        0 <= x < self.map_width() && 0 <= y < self.map_height()
    }

    pub fn is_valid(&self) -> (b: bool)
        ensures
            b == self.valid(),
    {
        if self.chunk_cols < 1 || self.chunk_rows < 1 || self.chunk_width < 1
            || self.chunk_height < 1 {
            return false;
        }
        let checks: [Option<usize>; 4] = [
            self.chunk_cols.checked_mul(self.chunk_rows),
            self.chunk_width.checked_mul(self.chunk_height),
            self.chunk_cols.checked_mul(self.chunk_width),
            self.chunk_rows.checked_mul(self.chunk_height),
        ];
        let limit: usize = 0x7fff_ffff;
        (match checks[0] {
            Some(p) => p <= limit,
            None => false,
        }) && (match checks[1] {
            Some(p) => p <= limit,
            None => false,
        }) && (match checks[2] {
            Some(p) => p <= limit,
            None => false,
        }) && (match checks[3] {
            Some(p) => p <= limit,
            None => false,
        })
    }
}

/// The index of the chunk that owns logical coordinate `(x, y)`, in the
/// row-major chunk list.
pub open spec fn spec_chunk_index(cfg: ChunkConfig, x: int, y: int) -> int {
    (y / chunk_height_of(cfg)) * cfg.chunk_cols + (x / chunk_width_of(cfg))
}

/// The index of `(x, y)`'s slot inside its chunk's row-major tile list.
pub open spec fn spec_slot_index(cfg: ChunkConfig, x: int, y: int) -> int {
    (y % chunk_height_of(cfg)) * cfg.chunk_width + (x % chunk_width_of(cfg))
}

pub open spec fn chunk_width_of(cfg: ChunkConfig) -> int {
    cfg.chunk_width as int
}

pub open spec fn chunk_height_of(cfg: ChunkConfig) -> int {
    cfg.chunk_height as int
}

impl Chunk {
    /// Every stored record sits at the slot matching its local offset, and
    /// the chunk's tile list has exactly one slot per cell.
    pub open spec fn wf(self, cfg: ChunkConfig, ci: int) -> bool {
        &&& self.chunk_x == ci % (cfg.chunk_cols as int)
        &&& self.chunk_y == ci / (cfg.chunk_cols as int)
        &&& self.tiles@.len() == cfg.chunk_width * cfg.chunk_height
        &&& (forall|s: int|
            0 <= s < self.tiles@.len() ==> ((#[trigger] self.tiles@[s]) matches Some(t) ==> (
            t.local_x == s % (cfg.chunk_width as int) && t.local_y == s / (
            cfg.chunk_width as int))))
    }

    /// Creates a chunk with every slot empty.
    pub fn new_empty(chunk_x: usize, chunk_y: usize, cfg: &ChunkConfig) -> (c: Chunk)
        requires
            cfg.valid(),
        ensures
            c.chunk_x == chunk_x,
            c.chunk_y == chunk_y,
            c.tiles@.len() == cfg.chunk_width * cfg.chunk_height,
            forall|s: int| 0 <= s < c.tiles@.len() ==> #[trigger] c.tiles@[s] is None,
    {
        let total = cfg.chunk_width * cfg.chunk_height;
        let mut tiles: Vec<Option<TileRecord>> = Vec::new();
        let mut i: usize = 0;
        while i < total
            invariant
                i <= total,
                tiles@.len() == i,
                forall|s: int| 0 <= s < i ==> #[trigger] tiles@[s] is None,
            decreases total - i,
        {
            tiles.push(None);
            i = i + 1;
        }
        Chunk { chunk_x, chunk_y, tiles }
    }

    /// Reads the record at local offset `(lx, ly)`, if one was placed there.
    pub fn tile_at_local(&self, lx: usize, ly: usize, cfg: &ChunkConfig) -> (r: Option<TileRecord>)
        requires
            cfg.valid(),
            self.tiles@.len() == cfg.chunk_width * cfg.chunk_height,
            lx < cfg.chunk_width,
            ly < cfg.chunk_height,
        ensures
            r == self.tiles@[ly * cfg.chunk_width + lx],
    {
        proof {
            crate::heightmap::lemma_row_major_in_range(
                lx as int,
                ly as int,
                cfg.chunk_width as int,
                cfg.chunk_height as int,
            );
        }
        self.tiles[ly * cfg.chunk_width + lx]
    }
}

/// A chunked tile map: global layout metadata plus the row-major list of
/// chunks, allocated eagerly for the whole declared chunk grid.
pub struct ChunkedTileMap {
    pub config: ChunkConfig,
    pub chunks: Vec<Chunk>,
}

impl ChunkedTileMap {
    /// Structural invariant: one well-formed chunk per cell of the chunk
    /// grid.
    pub open spec fn wf(self) -> bool {
        &&& self.config.valid()
        &&& self.chunks@.len() == self.config.chunk_cols * self.config.chunk_rows
        &&& (forall|ci: int|
            0 <= ci < self.chunks@.len() ==> (#[trigger] self.chunks@[ci]).wf(self.config, ci))
    }

    /// The record stored for logical coordinate `(x, y)`: out-of-extent
    /// coordinates hold nothing.
    pub open spec fn tile_at(self, x: int, y: int) -> Option<TileRecord> {
        if self.config.coord_in_bounds(x, y) {
            self.chunks@[spec_chunk_index(self.config, x, y)].tiles@[spec_slot_index(
                self.config,
                x,
                y,
            )]
        } else {
            None
        }
    }

    /// The map as a mapping from placed logical coordinates to visual
    /// indices.
    pub open spec fn placed(self) -> Map<(int, int), u32> {
        Map::new(
            |p: (int, int)| self.tile_at(p.0, p.1) is Some,
            |p: (int, int)|
                match self.tile_at(p.0, p.1) {
                    Some(t) => t.visual_index,
                    None => 0,
                },
        )
    }

    /// Creates a map for the declared chunk grid, every chunk allocated and
    /// empty.
    pub fn new(config: ChunkConfig) -> (m: ChunkedTileMap)
        requires
            config.valid(),
        ensures
            m.wf(),
            m.config == config,
            forall|x: int, y: int| #[trigger] m.tile_at(x, y) is None,
            m.placed() == Map::<(int, int), u32>::empty(),
    {
        let total = config.chunk_cols * config.chunk_rows;
        let mut chunks: Vec<Chunk> = Vec::new();
        let mut ci: usize = 0;
        while ci < total
            invariant
                config.valid(),
                total == config.chunk_cols * config.chunk_rows,
                ci <= total,
                chunks@.len() == ci,
                forall|j: int| 0 <= j < ci ==> (#[trigger] chunks@[j]).wf(config, j),
                forall|j: int, s: int|
                    0 <= j < ci && 0 <= s < chunks@[j].tiles@.len() ==> #[trigger] chunks@[j].tiles@[s] is None,
            decreases total - ci,
        {
            let cx = ci % config.chunk_cols;
            let cy = ci / config.chunk_cols;
            let c = Chunk::new_empty(cx, cy, &config);
            chunks.push(c);
            ci = ci + 1;
        }
        let m = ChunkedTileMap { config, chunks };
        proof {
            assert forall|x: int, y: int| #[trigger] m.tile_at(x, y) is None by {
                if m.config.coord_in_bounds(x, y) {
                    m.lemma_resolution_in_range(x, y);
                }
            }
            assert(m.placed() =~= Map::<(int, int), u32>::empty());
        }
        m
    }

    /// Finishes construction for the rendering host: hands back the layout
    /// summary it uses to materialize the chunks (allocation itself is done
    /// eagerly by `new`).
    pub fn build(&self) -> (h: MapHandle)
        requires
            self.wf(),
        ensures
            h.config == self.config,
            h.chunk_count == self.chunks@.len(),
    {
        MapHandle { config: self.config, chunk_count: self.chunks.len() }
    }

    /// How many chunks the map owns.
    pub fn chunk_count(&self) -> (n: usize)
        ensures
            n == self.chunks@.len(),
    {
        self.chunks.len()
    }

    /// For an in-extent coordinate, the resolved chunk and slot indices lie
    /// within their lists.
    pub proof fn lemma_resolution_in_range(self, x: int, y: int)
        requires
            self.wf(),
            self.config.coord_in_bounds(x, y),
        ensures
            0 <= spec_chunk_index(self.config, x, y) < self.chunks@.len(),
            0 <= spec_slot_index(self.config, x, y) < self.config.chunk_width
                * self.config.chunk_height,
            0 <= x / chunk_width_of(self.config) < self.config.chunk_cols,
            0 <= y / chunk_height_of(self.config) < self.config.chunk_rows,
    {
        let cw = chunk_width_of(self.config);
        let chh = chunk_height_of(self.config);
        lemma_div_pos_is_pos(x, cw);
        lemma_div_pos_is_pos(y, chh);
        lemma_div_lt_iff(x, cw, self.config.chunk_cols as int);
        lemma_div_lt_iff(y, chh, self.config.chunk_rows as int);
        lemma_mod_bound(x, cw);
        lemma_mod_bound(y, chh);
        crate::heightmap::lemma_row_major_in_range(
            x / cw,
            y / chh,
            self.config.chunk_cols as int,
            self.config.chunk_rows as int,
        );
        crate::heightmap::lemma_row_major_in_range(
            x % cw,
            y % chh,
            cw,
            chh,
        );
    }

    /// Reads the record placed at logical coordinate `(x, y)`.
    pub fn get_tile(&self, x: i32, y: i32) -> (r: Option<TileRecord>)
        requires
            self.wf(),
        ensures
            r == self.tile_at(x as int, y as int),
    {
        if x < 0 || y < 0 {
            return None;
        }
        let ux = x as usize;
        let uy = y as usize;
        let cw = self.config.chunk_width;
        let chh = self.config.chunk_height;
        let cx = ux / cw;
        let cy = uy / chh;
        proof {
            lemma_div_lt_iff(ux as int, cw as int, self.config.chunk_cols as int);
            lemma_div_lt_iff(uy as int, chh as int, self.config.chunk_rows as int);
        }
        if cx >= self.config.chunk_cols || cy >= self.config.chunk_rows {
            return None;
        }
        proof {
            self.lemma_resolution_in_range(ux as int, uy as int);
        }
        let ci = cy * self.config.chunk_cols + cx;
        let slot = (uy % chh) * cw + (ux % cw);
        self.chunks[ci].tiles[slot]
    }

    /// Places a tile with the given visual index at logical coordinate
    /// `(x, y)`. Fails with `OutOfBounds` for a coordinate outside the
    /// declared extent (negative included) and with `TileAlreadyPlaced` for
    /// an occupied slot; on failure the map is unchanged.
    pub fn add_tile(&mut self, x: i32, y: i32, visual_index: u32) -> (r: Result<(), TileMapError>)
        requires
            old(self).wf(),
        ensures
            final(self).wf(),
            final(self).config == old(self).config,
            r is Ok <==> old(self).config.coord_in_bounds(x as int, y as int) && !old(
                self,
            ).placed().dom().contains((x as int, y as int)),
            r == Result::<(), TileMapError>::Err(TileMapError::OutOfBounds) <==> !old(
                self,
            ).config.coord_in_bounds(x as int, y as int),
            r == Result::<(), TileMapError>::Err(TileMapError::TileAlreadyPlaced) <==> old(
                self,
            ).config.coord_in_bounds(x as int, y as int) && old(self).placed().dom().contains(
                (x as int, y as int),
            ),
            r is Ok ==> final(self).placed() == old(self).placed().insert(
                (x as int, y as int),
                visual_index,
            ),
            r is Ok ==> (final(self).tile_at(x as int, y as int) matches Some(t) && t.visual_index
                == visual_index && t.local_x == (x as int) % chunk_width_of(old(self).config)
                && t.local_y == (y as int) % chunk_height_of(old(self).config)),
            r is Err ==> *final(self) == *old(self),
    {
        if x < 0 || y < 0 {
            return Err(TileMapError::OutOfBounds);
        }
        let ux = x as usize;
        let uy = y as usize;
        let cw = self.config.chunk_width;
        let chh = self.config.chunk_height;
        let cx = ux / cw;
        let cy = uy / chh;
        proof {
            lemma_div_lt_iff(ux as int, cw as int, self.config.chunk_cols as int);
            lemma_div_lt_iff(uy as int, chh as int, self.config.chunk_rows as int);
        }
        if cx >= self.config.chunk_cols || cy >= self.config.chunk_rows {
            return Err(TileMapError::OutOfBounds);
        }
        proof {
            self.lemma_resolution_in_range(ux as int, uy as int);
        }
        let ci = cy * self.config.chunk_cols + cx;
        let lx = ux % cw;
        let ly = uy % chh;
        let slot = ly * cw + lx;
        if self.chunks[ci].tiles[slot].is_some() {
            return Err(TileMapError::TileAlreadyPlaced);
        }
        let ghost pre = *self;
        let rec = TileRecord { local_x: lx, local_y: ly, visual_index };
        self.chunks[ci].tiles[slot] = Some(rec);
        proof {
            pre.lemma_place_updates(*self, ux as int, uy as int, rec);
        }
        Ok(())
    }

    /// After writing one slot, the map's placed model is the old model plus
    /// that one coordinate, and well-formedness is preserved.
    proof fn lemma_place_updates(self, post: ChunkedTileMap, x: int, y: int, rec: TileRecord)
        requires
            self.wf(),
            self.config.coord_in_bounds(x, y),
            post.config == self.config,
            rec.local_x == x % chunk_width_of(self.config),
            rec.local_y == y % chunk_height_of(self.config),
            post.chunks@.len() == self.chunks@.len(),
            forall|j: int|
                0 <= j < self.chunks@.len() && j != spec_chunk_index(self.config, x, y)
                    ==> post.chunks@[j] == #[trigger] self.chunks@[j],
            post.chunks@[spec_chunk_index(self.config, x, y)].chunk_x == self.chunks@[
                spec_chunk_index(self.config, x, y)].chunk_x,
            post.chunks@[spec_chunk_index(self.config, x, y)].chunk_y == self.chunks@[
                spec_chunk_index(self.config, x, y)].chunk_y,
            post.chunks@[spec_chunk_index(self.config, x, y)].tiles@ == self.chunks@[
                spec_chunk_index(self.config, x, y)].tiles@.update(
                spec_slot_index(self.config, x, y),
                Some(rec),
            ),
        ensures
            post.wf(),
            post.placed() == self.placed().insert((x, y), rec.visual_index),
            post.tile_at(x, y) == Some(rec),
    {
        let cfg = self.config;
        let cw = chunk_width_of(cfg);
        let chh = chunk_height_of(cfg);
        let ci = spec_chunk_index(cfg, x, y);
        let slot = spec_slot_index(cfg, x, y);
        self.lemma_resolution_in_range(x, y);
        lemma_mod_bound(x, cw);
        lemma_mod_bound(y, chh);
        lemma_row_major_decompose(x % cw, y % chh, cw);
        assert(slot % cw == x % cw && slot / cw == y % chh);
        assert forall|j: int| 0 <= j < post.chunks@.len() implies (#[trigger] post.chunks@[j]).wf(
            cfg,
            j,
        ) by {
            if j != ci {
                assert(post.chunks@[j] == self.chunks@[j]);
            }
        }
        assert(post.wf());
        assert(post.tile_at(x, y) == Some(rec));
        assert forall|p: (int, int)| true implies #[trigger] post.tile_at(p.0, p.1)
            == (if p == (x, y) {
            Some(rec)
        } else {
            self.tile_at(p.0, p.1)
        }) by {
            let (px, py) = p;
            if cfg.coord_in_bounds(px, py) {
                let cj = spec_chunk_index(cfg, px, py);
                let sj = spec_slot_index(cfg, px, py);
                self.lemma_resolution_in_range(px, py);
                if cj == ci && sj == slot {
                    lemma_resolution_unique(cfg, px, py, x, y);
                    assert(p == (x, y));
                } else if cj == ci {
                    assert(post.chunks@[cj].tiles@[sj] == self.chunks@[cj].tiles@[sj]);
                } else {
                    assert(post.chunks@[cj] == self.chunks@[cj]);
                }
            }
        }
        assert forall|p: (int, int)| true implies #[trigger] post.placed().dom().contains(p)
            == self.placed().insert((x, y), rec.visual_index).dom().contains(p) by {
            assert(post.tile_at(p.0, p.1) == (if p == (x, y) {
                Some(rec)
            } else {
                self.tile_at(p.0, p.1)
            }));
        }
        assert forall|p: (int, int)| post.placed().dom().contains(p) implies #[trigger] post
            .placed()[p] == self.placed().insert((x, y), rec.visual_index)[p] by {
            assert(post.tile_at(p.0, p.1) == (if p == (x, y) {
                Some(rec)
            } else {
                self.tile_at(p.0, p.1)
            }));
        }
        assert(post.placed() =~= self.placed().insert((x, y), rec.visual_index));
    }
}

/// For a non-negative `x` and positive divisor `d`, the quotient is below
/// `n` exactly when `x` is below `n * d`.
pub proof fn lemma_div_lt_iff(x: int, d: int, n: int)
    requires
        0 <= x,
        1 <= d,
        0 <= n,
    ensures
        (x / d < n) <==> (x < n * d),
{
    lemma_fundamental_div_mod(x, d);
    lemma_mod_bound(x, d);
    lemma_div_pos_is_pos(x, d);
    let q = x / d;
    let r = x % d;
    if q < n {
        assert(d * q + r < n * d) by (nonlinear_arith)
            requires
                q < n,
                1 <= d,
                0 <= r < d,
        ;
    } else {
        assert(d * q + r >= n * d) by (nonlinear_arith)
            requires
                q >= n,
                1 <= d,
                0 <= r,
        ;
    }
}

/// In a row-major layout with width `w`, the index `b * w + a` decomposes
/// back into exactly `a` and `b`.
pub proof fn lemma_row_major_decompose(a: int, b: int, w: int)
    requires
        1 <= w,
        0 <= a < w,
        0 <= b,
    ensures
        (b * w + a) % w == a,
        (b * w + a) / w == b,
{
    vstd::arithmetic::div_mod::lemma_fundamental_div_mod_converse(b * w + a, w, b, a);
}

/// Law: chunk/local resolution is injective — two in-extent coordinates
/// that resolve to the same chunk and the same slot are the same
/// coordinate, so chunk bounds partition the coordinate space.
pub proof fn lemma_resolution_unique(cfg: ChunkConfig, x1: int, y1: int, x2: int, y2: int)
    requires
        cfg.valid(),
        cfg.coord_in_bounds(x1, y1),
        cfg.coord_in_bounds(x2, y2),
        spec_chunk_index(cfg, x1, y1) == spec_chunk_index(cfg, x2, y2),
        spec_slot_index(cfg, x1, y1) == spec_slot_index(cfg, x2, y2),
    ensures
        x1 == x2,
        y1 == y2,
{
    let cw = chunk_width_of(cfg);
    let chh = chunk_height_of(cfg);
    let cols = cfg.chunk_cols as int;
    lemma_div_pos_is_pos(x1, cw);
    lemma_div_pos_is_pos(x2, cw);
    lemma_div_pos_is_pos(y1, chh);
    lemma_div_pos_is_pos(y2, chh);
    lemma_div_lt_iff(x1, cw, cols);
    lemma_div_lt_iff(x2, cw, cols);
    lemma_mod_bound(x1, cw);
    lemma_mod_bound(x2, cw);
    lemma_mod_bound(y1, chh);
    lemma_mod_bound(y2, chh);
    lemma_row_major_unique(x1 / cw, y1 / chh, x2 / cw, y2 / chh, cols);
    lemma_row_major_unique(x1 % cw, y1 % chh, x2 % cw, y2 % chh, cw);
    lemma_fundamental_div_mod(x1, cw);
    lemma_fundamental_div_mod(x2, cw);
    lemma_fundamental_div_mod(y1, chh);
    lemma_fundamental_div_mod(y2, chh);
}

/// Row-major indices are unique: with both columns below the width, equal
/// indices force equal coordinates.
proof fn lemma_row_major_unique(a1: int, b1: int, a2: int, b2: int, w: int)
    requires
        1 <= w,
        0 <= a1 < w,
        0 <= a2 < w,
        0 <= b1,
        0 <= b2,
        b1 * w + a1 == b2 * w + a2,
    ensures
        a1 == a2,
        b1 == b2,
{
    assert(a1 == a2 && b1 == b2) by (nonlinear_arith)
        requires
            1 <= w,
            0 <= a1 < w,
            0 <= a2 < w,
            0 <= b1,
            0 <= b2,
            b1 * w + a1 == b2 * w + a2,
    ;
}

} // verus!
