//! Terrain categories and the threshold classifier.

use vstd::prelude::*;

verus! {

/// One fixed-point unit set: the real height `v` is represented by the
/// integer `v * SAMPLE_SCALE`, so the conventional classifier threshold of
/// `0.05` is written `SAMPLE_SCALE / 20`.
pub const SAMPLE_SCALE: i64 = 1_000_000;

/// The closed set of terrain categories a height sample can classify to.
#[derive(Clone, Copy, Debug, PartialEq, Eq, Structural)]
pub enum TerrainType {
    Ocean,
    Land,
}

/// What `classify` returns: heights at or above the threshold are land,
/// everything below is ocean (the boundary belongs to the land side).
pub open spec fn spec_classify(sample: i64, threshold: i64) -> TerrainType {
    if sample >= threshold {
        TerrainType::Land
    } else {
        TerrainType::Ocean
    }
}

/// Single-threshold binary terrain classification.
pub fn classify(sample: i64, threshold: i64) -> (t: TerrainType)
    ensures
        t == spec_classify(sample, threshold),
        t == TerrainType::Land <==> sample >= threshold,
{
    if sample >= threshold {
        TerrainType::Land
    } else {
        TerrainType::Ocean
    }
}

/// Assigns each terrain variant the index of its sub-image in the texture
/// atlas. The mapping is configuration, not a fixed rule; it is well formed
/// when no two variants share an index.
#[derive(Clone, Copy, Debug, PartialEq, Eq, Structural)]
pub struct TerrainIndexTable {
    pub ocean: u32,
    pub land: u32,
}

impl TerrainIndexTable {
    /// Every variant's visual index is distinct.
    pub open spec fn wf(self) -> bool {
        self.ocean != self.land
    }

    /// The visual index assigned to `t`.
    pub open spec fn spec_index_of(self, t: TerrainType) -> u32 {
        match t {
            TerrainType::Ocean => self.ocean,
            TerrainType::Land => self.land,
        }
    }

    pub fn index_of(&self, t: TerrainType) -> (i: u32)
        ensures
            i == self.spec_index_of(t),
    {
        match t {
            TerrainType::Ocean => self.ocean,
            TerrainType::Land => self.land,
        }
    }
}

} // verus!
