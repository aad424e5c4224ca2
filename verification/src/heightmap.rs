//! Fixed-point heightmaps and the parameters that drive their generation.
//!
//! The sampling itself is fractal noise over floating-point coordinates and
//! runs outside this crate; what enters the verified pipeline is the sampled
//! field, one fixed-point value per grid cell, normalized so that every
//! sample lies in `[-SAMPLE_SCALE, SAMPLE_SCALE]` (the real interval
//! `[-1, 1]`). This module validates generation parameters and holds the
//! sampled field under that invariant.

use vstd::prelude::*;
use crate::terrain::SAMPLE_SCALE;

verus! {

/// Geographic bounds of the sampled domain (sphere-mapped noise), in
/// fixed-point degrees at `SAMPLE_SCALE`.
#[derive(Clone, Copy, Debug, PartialEq, Eq, Structural)]
pub struct GeoBounds {
    pub lat_min: i64,
    pub lat_max: i64,
    pub lon_min: i64,
    pub lon_max: i64,
}

/// Fractal (fBm-style) noise parameters. Persistence, frequency and
/// lacunarity are fixed-point at `SAMPLE_SCALE`; all three must be positive.
#[derive(Clone, Copy, Debug, PartialEq, Eq, Structural)]
pub struct NoiseParams {
    pub seed: u32,
    pub persistence: i64,
    pub frequency: i64,
    pub lacunarity: i64,
    pub bounds: GeoBounds,
}

/// Rejected generation inputs: a zero-sized domain, a non-positive noise
/// parameter, or a sample field that does not match its declared dimensions
/// or range.
#[derive(Clone, Copy, Debug, PartialEq, Eq, Structural)]
pub enum HeightmapError {
    InvalidParameter,
}

impl NoiseParams {
    /// The parameters a generator accepts: persistence, frequency and
    /// lacunarity are all positive.
    pub open spec fn valid(self) -> bool {
        self.persistence > 0 && self.frequency > 0 && self.lacunarity > 0
    }

    pub fn is_valid(&self) -> (b: bool)
        ensures
            b == self.valid(),
    {
        self.persistence > 0 && self.frequency > 0 && self.lacunarity > 0
    }
}

/// Checks a full set of generation inputs as the generator itself would:
/// the domain must be non-empty and the noise parameters positive.
pub fn validate_generation(width: usize, height: usize, params: &NoiseParams) -> (r: Result<
    (),
    HeightmapError,
>)
    ensures
        r is Ok <==> width > 0 && height > 0 && params.valid(),
        r is Err ==> r == Result::<(), HeightmapError>::Err(HeightmapError::InvalidParameter),
{
    if width > 0 && height > 0 && params.is_valid() {
        Ok(())
    } else {
        Err(HeightmapError::InvalidParameter)
    }
}

/// The heightmap generator's verified half. The coherent-noise sampling
/// itself runs outside this crate and hands its field in as fixed-point
/// values; this end validates the generation inputs and the field, and is
/// what pins down the generator's contract.
pub struct HeightmapGenerator;

impl HeightmapGenerator {
    /// Accepts a generation request: the domain must be non-empty, the
    /// noise parameters positive, and the sampled field must carry exactly
    /// `width * height` samples, each inside the documented output range.
    /// Anything else fails with `InvalidParameter`.
    pub fn generate(width: usize, height: usize, params: &NoiseParams, samples: Vec<i64>) -> (r:
        Result<Heightmap, HeightmapError>)
        ensures
            r is Ok <==> width > 0 && height > 0 && params.valid() && samples@.len() == width
                * height && (forall|i: int|
                0 <= i < samples@.len() ==> -SAMPLE_SCALE <= #[trigger] samples@[i]
                    <= SAMPLE_SCALE),
            r matches Ok(h) ==> h.wf() && h.spec_width() == width && h.spec_height() == height
                && h@ == samples@,
            r is Err ==> r == Result::<Heightmap, HeightmapError>::Err(
                HeightmapError::InvalidParameter,
            ),
    {
        validate_generation(width, height, params)?;
        Heightmap::from_samples(width, height, samples)
    }
}

/// A sampled scalar field over a `width` by `height` grid, stored row-major:
/// the sample for cell `(x, y)` sits at index `y * width + x`.
#[derive(Clone, Debug)]
pub struct Heightmap {
    pub width: usize,
    pub height: usize,
    pub samples: Vec<i64>,
}

impl Heightmap {
    /// Structural invariant: non-empty dimensions, exactly one sample per
    /// cell, and every sample within the documented output range.
    pub open spec fn wf(self) -> bool {
        &&& self.width > 0
        &&& self.height > 0
        &&& self.samples@.len() == self.width * self.height
        &&& forall|i: int|
            0 <= i < self.samples@.len() ==> -SAMPLE_SCALE <= #[trigger] self.samples@[i]
                <= SAMPLE_SCALE
    }

    pub open spec fn spec_width(self) -> usize {
        self.width
    }

    pub open spec fn spec_height(self) -> usize {
        self.height
    }

    /// The sample stored for cell `(x, y)`.
    pub open spec fn spec_sample(self, x: int, y: int) -> i64 {
        self.samples@[y * self.width + x]
    }

    /// Wraps an externally sampled field, rejecting it unless the dimensions
    /// are non-empty, the sample count is exactly `width * height`, and every
    /// sample lies in `[-SAMPLE_SCALE, SAMPLE_SCALE]`.
    pub fn from_samples(width: usize, height: usize, samples: Vec<i64>) -> (r: Result<
        Heightmap,
        HeightmapError,
    >)
        ensures
            r is Ok <==> width > 0 && height > 0 && samples@.len() == width * height && (forall|
                i: int,
            |
                0 <= i < samples@.len() ==> -SAMPLE_SCALE <= #[trigger] samples@[i]
                    <= SAMPLE_SCALE),
            r matches Ok(h) ==> h.wf() && h.spec_width() == width && h.spec_height() == height
                && h@ == samples@,
            r is Err ==> r == Result::<Heightmap, HeightmapError>::Err(
                HeightmapError::InvalidParameter,
            ),
    {
        if width == 0 || height == 0 {
            return Err(HeightmapError::InvalidParameter);
        }
        let n = samples.len();
        let expected = match width.checked_mul(height) {
            Some(e) => e,
            None => {
                // More cells than a vector can hold, so the sample count
                // cannot match.
                assert(n < width * height);
                return Err(HeightmapError::InvalidParameter);
            },
        };
        if n != expected {
            return Err(HeightmapError::InvalidParameter);
        }
        let mut i: usize = 0;
        while i < samples.len()
            invariant
                0 <= i <= samples@.len(),
                forall|j: int| 0 <= j < i ==> -SAMPLE_SCALE <= #[trigger] samples@[j] <= SAMPLE_SCALE,
            decreases samples@.len() - i,
        {
            let s = samples[i];
            if s < -SAMPLE_SCALE || s > SAMPLE_SCALE {
                return Err(HeightmapError::InvalidParameter);
            }
            i = i + 1;
        }
        Ok(Heightmap { width, height, samples })
    }

    pub fn width(&self) -> (w: usize)
        ensures
            w == self.spec_width(),
    {
        self.width
    }

    /// The total number of samples, `width * height`.
    pub fn samples_len(&self) -> (n: usize)
        ensures
            n == self@.len(),
    {
        self.samples.len()
    }

    pub fn height(&self) -> (h: usize)
        ensures
            h == self.spec_height(),
    {
        self.height
    }

    /// Reads the sample for cell `(x, y)`.
    pub fn sample(&self, x: usize, y: usize) -> (s: i64)
        requires
            self.wf(),
            x < self.spec_width(),
            y < self.spec_height(),
        ensures
            s == self.spec_sample(x as int, y as int),
            -SAMPLE_SCALE <= s <= SAMPLE_SCALE,
    {
        let n = self.samples.len();
        proof {
            lemma_row_major_in_range(x as int, y as int, self.width as int, self.height as int);
            assert(n == self.width * self.height);
        }
        self.samples[y * self.width + x]
    }
}

impl View for Heightmap {
    type V = Seq<i64>;

    /// The raw row-major sample sequence.
    open spec fn view(&self) -> Seq<i64> {
        self.samples@
    }
}

/// Row-major indexing stays inside the field: for any cell `(x, y)` of a
/// `w` by `h` grid, `y * w + x` lies below `w * h`.
pub proof fn lemma_row_major_in_range(x: int, y: int, w: int, h: int)
    requires
        0 <= x < w,
        0 <= y < h,
    ensures
        0 <= y * w,
        0 <= y * w + x < w * h,
{
    assert(y * w + x < w * h) by (nonlinear_arith)
        requires
            0 <= x < w,
            0 <= y < h,
    ;
    assert(0 <= y * w) by (nonlinear_arith)
        requires
            0 <= y,
            0 < w,
    ;
}

} // verus!
