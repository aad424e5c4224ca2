//! Hex-grid coordinates and the terrain grid.
//!
//! The grid itself is the `chickenwire` crate's hexagonal grid; this module
//! wraps it behind a small trusted layer and keeps the bookkeeping that the
//! contracts need: which coordinates were inserted, under which coordinate
//! system, and what each one maps to.

use vstd::prelude::*;
use crate::terrain::TerrainType;

verus! {

/// The coordinate system a grid is fixed to at construction.
#[derive(Clone, Copy, Debug, PartialEq, Eq, Hash, Structural)]
pub enum CoordSystem {
    Offset,
    Axial,
    Cube,
}

/// Hexagon orientation: flat-topped or pointy-topped.
#[derive(Clone, Copy, Debug, PartialEq, Eq, Hash, Structural)]
pub enum GridTilt {
    Flat,
    Pointy,
}

/// Which rows or columns are indented in the offset layout.
#[derive(Clone, Copy, Debug, PartialEq, Eq, Hash, Structural)]
pub enum GridParity {
    Even,
    Odd,
}

/// One cell address: an ordered pair of signed integers read under a
/// declared coordinate system. Equality is structural.
#[derive(Clone, Copy, Debug, PartialEq, Eq, Hash, Structural)]
pub struct HexCoordinate {
    pub sys: CoordSystem,
    pub col: i32,
    pub row: i32,
}

/// Coordinates the grid accepts stay well inside `i32`, so the coordinate
/// conversions behind the store cannot overflow.
pub const COORD_LIMIT: i32 = 100_000_000;

/// The grid's backing store indexes nodes and edges with 32-bit handles;
/// staying below this many cells keeps every insertion in range.
pub const GRID_CAPACITY: usize = 0x1000_0000;

pub open spec fn coord_in_limit(c: HexCoordinate) -> bool {
    -COORD_LIMIT <= c.col <= COORD_LIMIT && -COORD_LIMIT <= c.row <= COORD_LIMIT
}

/// One grid cell's persistent record.
#[derive(Clone, Copy, Debug, PartialEq, Eq, Structural)]
pub struct HexTile {
    pub coordinate: HexCoordinate,
    pub terrain: TerrainType,
}

/// Grid population misuse, discovered at insertion time.
#[derive(Clone, Copy, Debug, PartialEq, Eq, Structural)]
pub enum GridError {
    DuplicateCoordinate,
    MismatchedCoordinateSystem,
}

/// The backing store: a chickenwire grid of this crate's tiles.
pub type TileStore = chickenwire::hexgrid::HexGrid<HexTile>;

/// What a chickenwire grid holds, keyed by the raw integer pair that the
/// wrappers below pass as an offset coordinate.
pub uninterp spec fn store_model(g: TileStore) -> Map<(int, int), HexTile>;

#[verifier::external_type_specification]
#[verifier::external_body]
#[verifier::reject_recursive_types(T)]
pub struct ExChickenwireHexGrid<T>(chickenwire::hexgrid::HexGrid<T>);

/// Relies on chickenwire's `HexGrid::new`: a freshly created grid holds no
/// values.
#[verifier::external_body]
fn store_new(tilt: GridTilt, parity: GridParity) -> (r: TileStore)
    ensures
        store_model(r) =~= Map::empty(),
{
    chickenwire::hexgrid::HexGrid::new(
        match tilt {
            GridTilt::Flat => chickenwire::hexgrid::Tilt::Flat,
            GridTilt::Pointy => chickenwire::hexgrid::Tilt::Sharp,
        },
        match parity {
            GridParity::Even => chickenwire::hexgrid::Parity::Even,
            GridParity::Odd => chickenwire::hexgrid::Parity::Odd,
        },
        chickenwire::coordinate::CoordSys::Offset,
    )
}

/// Relies on chickenwire's `HexGrid::add`: it refuses a coordinate that is
/// already occupied, leaving the grid as it was, and otherwise stores the
/// value at that coordinate.
#[verifier::external_body]
fn store_add(g: &mut TileStore, col: i32, row: i32, tile: HexTile) -> (r: Result<(), String>)
    requires
        -COORD_LIMIT <= col <= COORD_LIMIT,
        -COORD_LIMIT <= row <= COORD_LIMIT,
        store_model(*old(g)).dom().finite(),
        store_model(*old(g)).dom().len() < GRID_CAPACITY,
    ensures
        r is Ok <==> !store_model(*old(g)).dom().contains((col as int, row as int)),
        r is Ok ==> store_model(*final(g)) == store_model(*old(g)).insert(
            (col as int, row as int),
            tile,
        ),
        r is Err ==> *final(g) == *old(g),
{
    g.add(chickenwire::coordinate::MultiCoord::offset(col, row), tile)
}

/// Relies on chickenwire's `HexGrid::get`: it returns the value stored at
/// the coordinate, if any.
#[verifier::external_body]
fn store_get(g: &TileStore, col: i32, row: i32) -> (r: Option<HexTile>)
    requires
        -COORD_LIMIT <= col <= COORD_LIMIT,
        -COORD_LIMIT <= row <= COORD_LIMIT,
    ensures
        r == (if store_model(*g).dom().contains((col as int, row as int)) {
            Some(store_model(*g)[(col as int, row as int)])
        } else {
            None::<HexTile>
        }),
{
    g.get(chickenwire::coordinate::MultiCoord::offset(col, row)).copied()
}

/// A terrain grid: at most one tile per coordinate, all coordinates under
/// the one system fixed at construction.
///
/// The backing store always files a cell under its raw integer pair, laid
/// out as an offset coordinate; which system that pair is read under is
/// enforced here, above the store, so one grid never mixes systems.
pub struct TerrainGrid {
    pub sys: CoordSystem,
    pub tilt: GridTilt,
    pub parity: GridParity,
    pub coords: Vec<HexCoordinate>,
    pub store: TileStore,
}

impl TerrainGrid {
    /// The integer pair a coordinate is stored under.
    pub open spec fn spec_key(c: HexCoordinate) -> (int, int) {
        (c.col as int, c.row as int)
    }

    /// The backing store's contents, keyed by raw integer pair.
    pub open spec fn contents(self) -> Map<(int, int), HexTile> {
        store_model(self.store)
    }

    /// The grid as a mapping from coordinates to tiles.
    pub open spec fn model(self) -> Map<HexCoordinate, HexTile> {
        Map::new(
            |c: HexCoordinate|
                c.sys == self.sys && coord_in_limit(c) && self.contents().dom().contains(
                    Self::spec_key(c),
                ),
            |c: HexCoordinate| self.contents()[Self::spec_key(c)],
        )
    }

    /// Structural invariant: the inserted coordinate list mirrors the store's
    /// contents exactly, without duplicates, all under the grid's system and
    /// within coordinate limits.
    pub open spec fn wf(self) -> bool {
        &&& self.contents().dom().finite()
        &&& self.contents().dom().len() == self.coords@.len()
        &&& (forall|i: int|
            0 <= i < self.coords@.len() ==> (#[trigger] self.coords@[i]).sys == self.sys
                && coord_in_limit(self.coords@[i]))
        &&& (forall|i: int|
            0 <= i < self.coords@.len() ==> self.contents().dom().contains(
                Self::spec_key(#[trigger] self.coords@[i]),
            ))
        &&& (forall|k: (int, int)| #[trigger]
            self.contents().dom().contains(k) ==> exists|i: int|
                0 <= i < self.coords@.len() && Self::spec_key(#[trigger] self.coords@[i]) == k)
        &&& (forall|i: int, j: int|
            0 <= i < j < self.coords@.len() ==> Self::spec_key(#[trigger] self.coords@[i])
                != Self::spec_key(#[trigger] self.coords@[j]))
    }

    /// Creates an empty grid fixed to the given orientation, parity and
    /// coordinate system.
    pub fn new(tilt: GridTilt, parity: GridParity, sys: CoordSystem) -> (g: TerrainGrid)
        ensures
            g.wf(),
            g.sys == sys,
            g.tilt == tilt,
            g.parity == parity,
            g.model() == Map::<HexCoordinate, HexTile>::empty(),
            g.coords@.len() == 0,
    {
        let store = store_new(tilt, parity);
        let g = TerrainGrid { sys, tilt, parity, coords: Vec::new(), store };
        proof {
            assert(g.model() =~= Map::<HexCoordinate, HexTile>::empty());
        }
        g
    }

    /// How many tiles the grid holds.
    pub fn len(&self) -> (n: usize)
        requires
            self.wf(),
        ensures
            n == self.coords@.len(),
            n == self.model().dom().len(),
    {
        proof {
            self.lemma_model_dom_len();
        }
        self.coords.len()
    }

    /// The inserted coordinates, in insertion order.
    pub fn coordinates(&self) -> (cs: &Vec<HexCoordinate>)
        ensures
            cs@ == self.coords@,
    {
        &self.coords
    }

    /// The coordinate-keyed model has exactly one entry per inserted
    /// coordinate: its domain is the set of inserted coordinates.
    pub proof fn lemma_model_dom_len(self)
        requires
            self.wf(),
        ensures
            self.model().dom().finite(),
            self.model().dom().len() == self.coords@.len(),
            self.model().dom() =~= self.coords@.to_set(),
    {
        broadcast use vstd::seq_lib::seq_to_set_is_finite;

        assert forall|c: HexCoordinate| self.model().dom().contains(c) implies self.coords@.to_set().contains(c) by {
            let k = Self::spec_key(c);
            let i = choose|i: int|
                0 <= i < self.coords@.len() && Self::spec_key(self.coords@[i]) == k;
            assert(self.coords@[i].sys == self.sys);
            assert(self.coords@[i] == c);
            assert(self.coords@.contains(c));
        }
        assert forall|c: HexCoordinate| self.coords@.to_set().contains(c) implies self.model().dom().contains(c) by {
            let i = choose|i: int| 0 <= i < self.coords@.len() && self.coords@[i] == c;
            assert(self.contents().dom().contains(Self::spec_key(self.coords@[i])));
        }
        assert(self.model().dom() =~= self.coords@.to_set());
        assert forall|i: int, j: int|
            0 <= i < self.coords@.len() && 0 <= j < self.coords@.len() && i != j implies self.coords@[i]
            != self.coords@[j] by {
            if i < j {
                assert(Self::spec_key(self.coords@[i]) != Self::spec_key(self.coords@[j]));
            } else {
                assert(Self::spec_key(self.coords@[j]) != Self::spec_key(self.coords@[i]));
            }
        }
        assert(self.coords@.no_duplicates());
        self.coords@.unique_seq_to_set();
    }

    /// Inserts `tile` at `c`. Fails with `MismatchedCoordinateSystem` if `c`
    /// is not under the grid's coordinate system, and with
    /// `DuplicateCoordinate` if a tile is already stored at `c`; on failure
    /// the grid is left unchanged.
    pub fn add(&mut self, c: HexCoordinate, tile: HexTile) -> (r: Result<(), GridError>)
        requires
            old(self).wf(),
            coord_in_limit(c),
            old(self).coords@.len() < GRID_CAPACITY,
        ensures
            final(self).wf(),
            final(self).sys == old(self).sys,
            final(self).tilt == old(self).tilt,
            final(self).parity == old(self).parity,
            r is Ok <==> c.sys == old(self).sys && !old(self).model().dom().contains(c),
            r is Ok ==> final(self).model() == old(self).model().insert(c, tile),
            r is Ok ==> final(self).coords@ == old(self).coords@.push(c),
            r is Err ==> *final(self) == *old(self),
            r == Result::<(), GridError>::Err(GridError::MismatchedCoordinateSystem) <==> c.sys
                != old(self).sys,
            r == Result::<(), GridError>::Err(GridError::DuplicateCoordinate) <==> c.sys == old(
                self,
            ).sys && old(self).model().dom().contains(c),
    {
        if c.sys != self.sys {
            return Err(GridError::MismatchedCoordinateSystem);
        }
        let ghost pre = *self;
        match store_add(&mut self.store, c.col, c.row, tile) {
            Ok(()) => {
                self.coords.push(c);
                proof {
                    pre.lemma_add_updates_model(*self, c, tile);
                }
                Ok(())
            },
            Err(_) => {
                proof {
                    assert(*self == pre);
                    assert(pre.model().dom().contains(c));
                }
                Err(GridError::DuplicateCoordinate)
            },
        }
    }

    /// After a successful store insert and coordinate push, the new grid is
    /// well formed and its model is the old model plus the one new entry.
    proof fn lemma_add_updates_model(self, post: TerrainGrid, c: HexCoordinate, tile: HexTile)
        requires
            self.wf(),
            coord_in_limit(c),
            c.sys == self.sys,
            !self.contents().dom().contains(Self::spec_key(c)),
            post.sys == self.sys,
            post.tilt == self.tilt,
            post.parity == self.parity,
            post.contents() == self.contents().insert(Self::spec_key(c), tile),
            post.coords@ == self.coords@.push(c),
        ensures
            post.wf(),
            post.model() == self.model().insert(c, tile),
            !self.model().dom().contains(c),
    {
        assert(post.contents().dom() =~= self.contents().dom().insert(Self::spec_key(c)));
        assert forall|k: (int, int)| #[trigger] post.contents().dom().contains(k) implies exists|
            i: int,
        | 0 <= i < post.coords@.len() && Self::spec_key(post.coords@[i]) == k by {
            if k == Self::spec_key(c) {
                assert(post.coords@[post.coords@.len() - 1] == c);
            } else {
                let i = choose|i: int|
                    0 <= i < self.coords@.len() && Self::spec_key(self.coords@[i]) == k;
                assert(post.coords@[i] == self.coords@[i]);
            }
        }
        assert(post.wf());
        assert forall|d: HexCoordinate| true implies #[trigger] post.model().dom().contains(d)
            == self.model().insert(c, tile).dom().contains(d) by {
            if d.sys == self.sys && coord_in_limit(d) && Self::spec_key(d) == Self::spec_key(c) {
                assert(d == c);
            }
        }
        assert forall|d: HexCoordinate| post.model().dom().contains(d) implies #[trigger] post
            .model()[d] == self.model().insert(c, tile)[d] by {
            if d == c {
            } else {
                assert(Self::spec_key(d) != Self::spec_key(c) || d.sys != self.sys);
            }
        }
        assert(post.model() =~= self.model().insert(c, tile));
    }

    /// Looks up the tile stored at `c`, returning nothing if `c` was never
    /// inserted (including any coordinate under another system or outside
    /// the coordinate limits, which the grid never stores).
    pub fn get(&self, c: HexCoordinate) -> (r: Option<HexTile>)
        requires
            self.wf(),
        ensures
            r == (if self.model().dom().contains(c) {
                Some(self.model()[c])
            } else {
                None::<HexTile>
            }),
    {
        if c.sys != self.sys {
            return None;
        }
        if c.col < -COORD_LIMIT || c.col > COORD_LIMIT || c.row < -COORD_LIMIT || c.row
            > COORD_LIMIT {
            return None;
        }
        store_get(&self.store, c.col, c.row)
    }
}

/// Law: after adding `tile` at `c`, a lookup at `c` yields exactly `tile`,
/// and a coordinate that was never inserted still yields nothing.
pub proof fn lemma_add_then_get(pre: Map<HexCoordinate, HexTile>, c: HexCoordinate, tile: HexTile, other: HexCoordinate)
    ensures
        pre.insert(c, tile).dom().contains(c),
        pre.insert(c, tile)[c] == tile,
        other != c && !pre.dom().contains(other) ==> !pre.insert(c, tile).dom().contains(other),
{
}

} // verus!
