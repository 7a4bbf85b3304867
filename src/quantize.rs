use vstd::prelude::*;

verus! {

/// Quantized positions: three signed lanes per vertex, each holding a level
/// in biased storage, plus the per-axis reconstruction metadata. `scale` and
/// `offset` are IEEE-754 single-precision values kept as their bit patterns:
/// a coordinate is recovered as `(lane + 32768) * scale + offset`.
pub struct QuantizedPositions {
    pub data: Vec<i16>,
    pub scale: [u32; 3],
    pub offset: [u32; 3],
}

/// Octahedral normals: two unsigned lanes per vertex.
pub struct QuantizedNormalsOct {
    pub data: Vec<u16>,
}

/// Texture coordinates: two unsigned lanes per vertex.
pub struct QuantizedUVs {
    pub data: Vec<u16>,
}

/// Highest quantization level of a 16-bit lane.
pub const MAX_LEVEL: i64 = 65535;

/// Bias between an unsigned position level and its signed 16-bit storage.
pub const LEVEL_BIAS: i64 = 32768;

pub open spec fn clamped(x: int, lo: int, hi: int) -> int {
    if x < lo {
        lo
    } else if x > hi {
        hi
    } else {
        x
    }
}

/// A rounded level forced into `0..=65535`.
pub open spec fn saturated(level: int) -> int {
    clamped(level, 0, MAX_LEVEL as int)
}

/// The signed lane that stores a level: the saturated level less the bias.
pub open spec fn biased(level: int) -> int {
    saturated(level) - LEVEL_BIAS
}

/// The level that a signed lane stores: the lane plus the bias.
pub open spec fn unbiased(lane: int) -> int {
    lane + LEVEL_BIAS
}

/// Limits `x` to `lo..=hi`.
pub fn clamp(x: i64, lo: i64, hi: i64) -> (r: i64)
    requires
        lo <= hi,
    ensures
        r as int == clamped(x as int, lo as int, hi as int),
{
    if x < lo {
        lo
    } else if x > hi {
        hi
    } else {
        x
    }
}

/// Stores a rounded position level in a signed lane. Levels outside
/// `0..=65535` are first saturated; the stored lane is the level minus 32768.
pub fn bias_level(level: i64) -> (lane: i16)
    ensures
        lane as int == biased(level as int),
{
    let t = clamp(level, 0, MAX_LEVEL);
    (t - LEVEL_BIAS) as i16
}

/// Recovers the unsigned level stored in a signed position lane by adding
/// 32768 back.
pub fn unbias_lane(lane: i16) -> (level: u16)
    ensures
        level as int == unbiased(lane as int),
{
    (lane as i32 + LEVEL_BIAS as i32) as u16
}

/// Saturates a rounded level into an unsigned 16-bit lane.
pub fn saturate_level(level: i64) -> (q: u16)
    ensures
        q as int == saturated(level as int),
{
    clamp(level, 0, MAX_LEVEL) as u16
}

/// Unbiasing a stored level gives the level back, and biasing the level of
/// any lane gives the lane back.
pub proof fn lemma_bias_round_trip(level: int, lane: i16)
    requires
        0 <= level <= MAX_LEVEL,
    ensures
        unbiased(biased(level)) == level,
        biased(unbiased(lane as int)) == lane as int,
{
}

/// A level below zero is stored as zero is, and one above 65535 as 65535 is.
pub proof fn lemma_out_of_range_levels_saturate(level: int)
    ensures
        level < 0 ==> saturated(level) == saturated(0),
        level > MAX_LEVEL ==> saturated(level) == saturated(MAX_LEVEL as int),
{
}

/// Stores rounded position levels, one per coordinate, in biased lanes.
pub fn positions_from_levels(levels: &Vec<i64>, scale: [u32; 3], offset: [u32; 3]) -> (q:
    QuantizedPositions)
    ensures
        q.data@.len() == levels@.len(),
        forall|i: int| 0 <= i < levels@.len() ==> #[trigger] q.data@[i] as int == biased(levels@[i] as int),
        q.scale == scale,
        q.offset == offset,
{
    let mut data: Vec<i16> = Vec::with_capacity(levels.len());
    let mut k: usize = 0;
    while k < levels.len()
        invariant
            k <= levels@.len(),
            data@.len() == k,
            forall|i: int| 0 <= i < k ==> #[trigger] data@[i] as int == biased(levels@[i] as int),
        decreases levels@.len() - k,
    {
        data.push(bias_level(levels[k]));
        k += 1;
    }
    QuantizedPositions { data, scale, offset }
}

/// The unsigned level held by each position lane.
pub fn position_levels(q: &QuantizedPositions) -> (levels: Vec<u16>)
    ensures
        levels@.len() == q.data@.len(),
        forall|i: int| 0 <= i < q.data@.len() ==> #[trigger] levels@[i] as int == unbiased(q.data@[i] as int),
{
    let mut levels: Vec<u16> = Vec::with_capacity(q.data.len());
    let mut k: usize = 0;
    while k < q.data.len()
        invariant
            k <= q.data@.len(),
            levels@.len() == k,
            forall|i: int| 0 <= i < k ==> #[trigger] levels@[i] as int == unbiased(q.data@[i] as int),
        decreases q.data@.len() - k,
    {
        levels.push(unbias_lane(q.data[k]));
        k += 1;
    }
    levels
}

/// Saturates every rounded level into an unsigned lane.
fn saturate_all(levels: &Vec<i64>) -> (lanes: Vec<u16>)
    ensures
        lanes@.len() == levels@.len(),
        forall|i: int| 0 <= i < levels@.len() ==> #[trigger] lanes@[i] as int == saturated(levels@[i] as int),
{
    let mut lanes: Vec<u16> = Vec::with_capacity(levels.len());
    let mut k: usize = 0;
    while k < levels.len()
        invariant
            k <= levels@.len(),
            lanes@.len() == k,
            forall|i: int| 0 <= i < k ==> #[trigger] lanes@[i] as int == saturated(levels@[i] as int),
        decreases levels@.len() - k,
    {
        lanes.push(saturate_level(levels[k]));
        k += 1;
    }
    lanes
}

/// Stores rounded octahedral levels, two per vertex, saturated to 16 bits.
pub fn normals_from_levels(levels: &Vec<i64>) -> (q: QuantizedNormalsOct)
    ensures
        q.data@.len() == levels@.len(),
        forall|i: int| 0 <= i < levels@.len() ==> #[trigger] q.data@[i] as int == saturated(levels@[i] as int),
{
    QuantizedNormalsOct { data: saturate_all(levels) }
}

/// Stores rounded texture-coordinate levels, two per vertex, saturated to
/// 16 bits; a coordinate outside `[0, 1]` lands on the nearest end.
pub fn uvs_from_levels(levels: &Vec<i64>) -> (q: QuantizedUVs)
    ensures
        q.data@.len() == levels@.len(),
        forall|i: int| 0 <= i < levels@.len() ==> #[trigger] q.data@[i] as int == saturated(levels@[i] as int),
{
    QuantizedUVs { data: saturate_all(levels) }
}

} // verus!
