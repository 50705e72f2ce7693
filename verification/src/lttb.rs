//! Largest-Triangle-Three-Buckets downsampling of a waveform.
//!
//! The first and the last point are always kept. The points between them are
//! cut into buckets, and from each bucket the point is kept that spans the
//! largest triangle with the point kept before it and the centroid of the
//! bucket after it.

use vstd::prelude::*;
use vstd::slice::slice_to_vec;
use crate::data_processor::DataProcessor;
use crate::fixed::MICRO;

verus! {

/// Largest number of points that one waveform may hold.
pub const MAX_POINTS: usize = 0xffff_ffff;

/// One point of a waveform.
#[derive(Debug, Clone, Copy, PartialEq, Eq, Structural)]
pub struct LttbDataPoint {
    /// Time in milliseconds, or a sample index.
    pub x: u64,
    /// Amplitude normalized to the range from -1 to 1, in millionths.
    pub y: i32,
}

impl LttbDataPoint {
    /// The amplitude lies within the normalized range.
    pub open spec fn wf(&self) -> bool {
        -MICRO <= self.y <= MICRO
    }
}

/// Every point of the waveform is well-formed.
pub open spec fn all_wf(points: Seq<LttbDataPoint>) -> bool {
    forall|i: int| 0 <= i < points.len() ==> (#[trigger] points[i]).wf()
}

/// Index at which bucket `i` begins, when the points between the first and
/// the last of `len` points are cut into `threshold - 2` buckets of equal
/// (fractional) width.
pub open spec fn bucket_start(i: int, len: int, threshold: int) -> int {
    i * (len - 2) / (threshold - 2) + 1
}

/// Index just past bucket `i`: the start of the next bucket, within the waveform.
pub open spec fn bucket_end(i: int, len: int, threshold: int) -> int {
    if bucket_start(i + 1, len, threshold) < len {
        bucket_start(i + 1, len, threshold)
    } else {
        len
    }
}

/// Sum of the `x` coordinates of the points at `lo..hi`.
pub open spec fn sum_x(points: Seq<LttbDataPoint>, lo: int, hi: int) -> int
    decreases hi - lo,
{
    if hi <= lo {
        0
    } else {
        sum_x(points, lo, hi - 1) + points[hi - 1].x
    }
}

/// Sum of the `y` coordinates of the points at `lo..hi`.
pub open spec fn sum_y(points: Seq<LttbDataPoint>, lo: int, hi: int) -> int
    decreases hi - lo,
{
    if hi <= lo {
        0
    } else {
        sum_y(points, lo, hi - 1) + points[hi - 1].y
    }
}

/// Size of the triangle between the anchor `a`, the candidate `b` and the
/// centroid of `count` points whose coordinates sum to `(total_x, total_y)`.
///
/// The value is the area given by the shoelace formula, multiplied by
/// `2 * count`, which keeps it a whole number and leaves the order of the
/// candidates of one bucket as it is.
pub open spec fn triangle_rank(
    a: LttbDataPoint,
    b: LttbDataPoint,
    total_x: int,
    total_y: int,
    count: int,
) -> int {
    let twice = a.x * (count * b.y - total_y) + b.x * (total_y - count * a.y) + total_x * (a.y
        - b.y);
    if twice < 0 {
        -twice
    } else {
        twice
    }
}

/// The rank of the candidate at `index` of bucket `i`, seen from `anchor`.
pub open spec fn candidate_rank(
    points: Seq<LttbDataPoint>,
    threshold: int,
    i: int,
    anchor: int,
    index: int,
) -> int {
    let len = points.len() as int;
    let lo = bucket_end(i, len, threshold);
    let hi = bucket_end(i + 1, len, threshold);
    triangle_rank(
        points[anchor],
        points[index],
        sum_x(points, lo, hi),
        sum_y(points, lo, hi),
        hi - lo,
    )
}

/// The first index among `lo..hi` whose candidate has the largest rank in
/// bucket `i`; `lo` where the range is empty.
pub open spec fn best_in(
    points: Seq<LttbDataPoint>,
    threshold: int,
    i: int,
    anchor: int,
    lo: int,
    hi: int,
) -> int
    decreases hi - lo,
{
    if hi <= lo + 1 {
        lo
    } else {
        let before = best_in(points, threshold, i, anchor, lo, hi - 1);
        if candidate_rank(points, threshold, i, anchor, hi - 1) > candidate_rank(
            points,
            threshold,
            i,
            anchor,
            before,
        ) {
            hi - 1
        } else {
            before
        }
    }
}

/// Index of the point that is kept from bucket `i`. The anchor of the first
/// bucket is the first point; that of every other bucket is the point kept
/// from the bucket before it.
pub open spec fn picked(points: Seq<LttbDataPoint>, threshold: int, i: int) -> int
    decreases i,
{
    let len = points.len() as int;
    let anchor = if i <= 0 {
        0
    } else {
        picked(points, threshold, i - 1)
    };
    best_in(
        points,
        threshold,
        i,
        anchor,
        bucket_start(i, len, threshold),
        bucket_end(i, len, threshold),
    )
}

/// The waveform reduced to `threshold` points.
///
/// A waveform of at most `threshold` points is kept whole; a threshold of at
/// most 2 keeps the first and the last point; otherwise the first point, one
/// point from each of the `threshold - 2` buckets, and the last point.
pub open spec fn downsampled(points: Seq<LttbDataPoint>, threshold: int) -> Seq<LttbDataPoint> {
    if points.len() <= threshold {
        points
    } else if threshold <= 2 {
        seq![points[0], points[points.len() - 1]]
    } else {
        Seq::new(
            threshold as nat,
            |k: int|
                if k == 0 {
                    points[0]
                } else if k == threshold - 1 {
                    points[points.len() - 1]
                } else {
                    points[picked(points, threshold, k - 1)]
                },
        )
    }
}

/// The buckets lie between the first and the last point, each holds at least
/// one point, and together they cover every point between the two.
pub proof fn lemma_bucket_bounds(i: int, len: int, threshold: int)
    requires
        2 < threshold < len,
        0 <= i,
    ensures
        bucket_start(0, len, threshold) == 1,
        bucket_start(threshold - 2, len, threshold) == len - 1,
        bucket_start(i, len, threshold) < bucket_start(i + 1, len, threshold),
        1 <= bucket_start(i, len, threshold),
        i <= threshold - 2 ==> bucket_start(i, len, threshold) <= len - 1,
        i < threshold - 2 ==> bucket_end(i, len, threshold) == bucket_start(
            i + 1,
            len,
            threshold,
        ),
        i >= threshold - 2 ==> bucket_end(i, len, threshold) == len,
{
    let d = len - 2;
    let k = threshold - 2;
    assert(0 * d == 0);
    assert(0int / k == 0) by (nonlinear_arith)
        requires
            k > 0,
    ;
    vstd::arithmetic::div_mod::lemma_div_multiples_vanish(d, k);
    assert(k * d == d * k) by (nonlinear_arith);
    assert(0 <= i * d) by (nonlinear_arith)
        requires
            0 <= i,
            0 <= d,
    ;
    assert((i + 1) * d == i * d + d) by (nonlinear_arith);
    vstd::arithmetic::div_mod::lemma_div_plus_one(i * d, k);
    vstd::arithmetic::div_mod::lemma_div_is_ordered(i * d + k, i * d + d, k);
    vstd::arithmetic::div_mod::lemma_div_is_ordered(0, i * d, k);
    if i <= k {
        assert(i * d <= k * d) by (nonlinear_arith)
            requires
                i <= k,
                0 <= d,
        ;
        vstd::arithmetic::div_mod::lemma_div_is_ordered(i * d, k * d, k);
    }
    if i + 1 <= k {
        assert((i + 1) * d <= k * d) by (nonlinear_arith)
            requires
                i + 1 <= k,
                0 <= d,
        ;
        vstd::arithmetic::div_mod::lemma_div_is_ordered((i + 1) * d, k * d, k);
    }
    if i + 1 > k {
        assert((i + 1) * d >= (k + 1) * d) by (nonlinear_arith)
            requires
                i + 1 >= k + 1,
                0 <= d,
        ;
        assert((k + 1) * d == d * k + d) by (nonlinear_arith);
        vstd::arithmetic::div_mod::lemma_div_plus_one(d * k, k);
        vstd::arithmetic::div_mod::lemma_div_is_ordered(d * k + k, d * k + d, k);
        vstd::arithmetic::div_mod::lemma_div_is_ordered((k + 1) * d, (i + 1) * d, k);
    }
}

/// The index that [`best_in`] names lies in the range, no candidate of the
/// range has a larger rank, and every candidate before it has a smaller one.
pub proof fn lemma_best_in_is_first_largest(
    points: Seq<LttbDataPoint>,
    threshold: int,
    i: int,
    anchor: int,
    lo: int,
    hi: int,
)
    requires
        lo < hi,
    ensures
        lo <= best_in(points, threshold, i, anchor, lo, hi) < hi,
        forall|j: int|
            lo <= j < hi ==> #[trigger] candidate_rank(points, threshold, i, anchor, j)
                <= candidate_rank(
                points,
                threshold,
                i,
                anchor,
                best_in(points, threshold, i, anchor, lo, hi),
            ),
        forall|j: int|
            lo <= j < best_in(points, threshold, i, anchor, lo, hi) ==> #[trigger] candidate_rank(
                points,
                threshold,
                i,
                anchor,
                j,
            ) < candidate_rank(
                points,
                threshold,
                i,
                anchor,
                best_in(points, threshold, i, anchor, lo, hi),
            ),
    decreases hi - lo,
{
    if hi > lo + 1 {
        lemma_best_in_is_first_largest(points, threshold, i, anchor, lo, hi - 1);
    }
}

/// Each kept point comes from its own bucket, strictly between the first and
/// the last point.
pub proof fn lemma_picked_in_bucket(points: Seq<LttbDataPoint>, threshold: int, i: int)
    requires
        2 < threshold < points.len(),
        0 <= i < threshold - 2,
    ensures
        bucket_start(i, points.len() as int, threshold) <= picked(points, threshold, i)
            < bucket_start(i + 1, points.len() as int, threshold),
        0 < picked(points, threshold, i) < points.len() - 1,
{
    let len = points.len() as int;
    let anchor = if i <= 0 {
        0
    } else {
        picked(points, threshold, i - 1)
    };
    lemma_bucket_bounds(i, len, threshold);
    lemma_bucket_bounds(i + 1, len, threshold);
    lemma_best_in_is_first_largest(
        points,
        threshold,
        i,
        anchor,
        bucket_start(i, len, threshold),
        bucket_end(i, len, threshold),
    );
}

/// A product lies within the product of the bounds of its factors.
proof fn lemma_product_within(x: int, y: int, bound_x: int, bound_y: int)
    by (nonlinear_arith)
    requires
        -bound_x <= x <= bound_x,
        -bound_y <= y <= bound_y,
    ensures
        -(bound_x * bound_y) <= x * y <= bound_x * bound_y,
{
}

/// Sums over a range that is longer by one point.
proof fn lemma_sums_bounded(points: Seq<LttbDataPoint>, lo: int, hi: int)
    requires
        0 <= lo <= hi <= points.len(),
        all_wf(points),
    ensures
        0 <= sum_x(points, lo, hi) <= (hi - lo) * u64::MAX,
        -(hi - lo) * MICRO <= sum_y(points, lo, hi) <= (hi - lo) * MICRO,
    decreases hi - lo,
{
    if lo < hi {
        lemma_sums_bounded(points, lo, hi - 1);
        assert(points[hi - 1].wf());
    }
}

/// Computes [`bucket_start`].
fn bucket_start_at(i: usize, len: usize, threshold: usize) -> (start: u64)
    requires
        2 < threshold < len <= MAX_POINTS,
        i <= threshold,
    ensures
        start == bucket_start(i as int, len as int, threshold as int),
{
    let width: u64 = (len - 2) as u64;
    let buckets: u64 = (threshold - 2) as u64;
    assert(i * width <= 0xffff_ffff * 0xffff_ffff) by (nonlinear_arith)
        requires
            0 <= i <= 0xffff_ffff,
            0 <= width <= 0xffff_ffff,
    ;
    (i as u64) * width / buckets + 1
}

/// Computes [`bucket_end`].
fn bucket_end_at(i: usize, len: usize, threshold: usize) -> (end: usize)
    requires
        2 < threshold < len <= MAX_POINTS,
        i < threshold,
    ensures
        end == bucket_end(i as int, len as int, threshold as int),
        end <= len,
{
    let start: u64 = bucket_start_at(i + 1, len, threshold);
    if start < len as u64 {
        start as usize
    } else {
        len
    }
}

/// Computes [`sum_x`] and [`sum_y`] over the points at `lo..hi`.
fn bucket_totals(data: &[LttbDataPoint], lo: usize, hi: usize) -> (totals: (u128, i64))
    requires
        lo <= hi <= data@.len() <= MAX_POINTS,
        all_wf(data@),
    ensures
        totals.0 == sum_x(data@, lo as int, hi as int),
        totals.1 == sum_y(data@, lo as int, hi as int),
{
    let mut total_x: u128 = 0;
    let mut total_y: i64 = 0;
    let mut j: usize = lo;
    while j < hi
        invariant
            lo <= j <= hi <= data@.len() <= MAX_POINTS,
            all_wf(data@),
            total_x == sum_x(data@, lo as int, j as int),
            total_y == sum_y(data@, lo as int, j as int),
        decreases hi - j,
    {
        proof {
            lemma_sums_bounded(data@, lo as int, j as int);
            assert(data@[j as int].wf());
            assert((j - lo) * u64::MAX <= 0xffff_ffff * u64::MAX) by (nonlinear_arith)
                requires
                    0 <= j - lo <= 0xffff_ffff,
            ;
            assert((j - lo) * MICRO <= 0xffff_ffff * MICRO) by (nonlinear_arith)
                requires
                    0 <= j - lo <= 0xffff_ffff,
            ;
        }
        total_x = total_x + data[j].x as u128;
        total_y = total_y + data[j].y as i64;
        j = j + 1;
    }
    (total_x, total_y)
}

/// Computes [`triangle_rank`].
fn rank_of(a: LttbDataPoint, b: LttbDataPoint, total_x: u128, total_y: i64, count: u64) -> (rank:
    i128)
    requires
        a.wf(),
        b.wf(),
        count <= MAX_POINTS,
        total_x <= count * u64::MAX,
        -count * MICRO <= total_y <= count * MICRO,
    ensures
        rank == triangle_rank(a, b, total_x as int, total_y as int, count as int),
{
    proof {
        assert(count * u64::MAX <= 0xffff_ffff * u64::MAX) by (nonlinear_arith)
            requires
                0 <= count <= 0xffff_ffff,
        ;
        assert(count * MICRO <= 0xffff_ffff * MICRO) by (nonlinear_arith)
            requires
                0 <= count <= 0xffff_ffff,
        ;
        lemma_product_within(count as int, b.y as int, 0xffff_ffff, MICRO as int);
        lemma_product_within(count as int, a.y as int, 0xffff_ffff, MICRO as int);
    }
    let scaled_b: i128 = count as i128 * b.y as i128;
    let scaled_a: i128 = count as i128 * a.y as i128;
    let rise_b: i128 = scaled_b - total_y as i128;
    let rise_a: i128 = total_y as i128 - scaled_a;
    let drop: i128 = a.y as i128 - b.y as i128;
    proof {
        lemma_product_within(a.x as int, rise_b as int, u64::MAX as int, 2 * 0xffff_ffff * MICRO);
        lemma_product_within(b.x as int, rise_a as int, u64::MAX as int, 2 * 0xffff_ffff * MICRO);
        lemma_product_within(
            total_x as int,
            drop as int,
            0xffff_ffff * u64::MAX,
            2 * MICRO,
        );
    }
    let twice: i128 = a.x as i128 * rise_b + b.x as i128 * rise_a + total_x as i128 * drop;
    if twice < 0 {
        -twice
    } else {
        twice
    }
}

impl DataProcessor {
    /// Reduces a waveform to `threshold` points that keep its shape.
    ///
    /// A waveform of at most `threshold` points comes back unchanged, and a
    /// threshold of at most 2 gives the first and the last point. Otherwise
    /// the result has exactly `threshold` points: the first point, then from
    /// each bucket the first of the points that span the largest triangle
    /// with the point chosen before and the centroid of the next bucket, and
    /// the last point.
    pub fn lttb_downsample(data: &[LttbDataPoint], threshold: usize) -> (sampled: Vec<
        LttbDataPoint,
    >)
        requires
            data@.len() <= MAX_POINTS,
            all_wf(data@),
        ensures
            sampled@ == downsampled(data@, threshold as int),
            data@.len() <= threshold ==> sampled@ == data@,
            data@.len() > threshold && threshold <= 2 ==> sampled@ == seq![
                data@[0],
                data@[data@.len() - 1],
            ],
            data@.len() > threshold > 2 ==> sampled@.len() == threshold,
            data@.len() > 0 ==> sampled@.len() > 0 && sampled@[0] == data@[0] && sampled@[sampled@.len()
                - 1] == data@[data@.len() - 1],
            all_wf(sampled@),
    {
        let len: usize = data.len();
        if len <= threshold {
            return slice_to_vec(data);
        }
        if threshold <= 2 {
            let mut ends: Vec<LttbDataPoint> = Vec::with_capacity(2);
            ends.push(data[0]);
            ends.push(data[len - 1]);
            assert(ends@ == seq![data@[0], data@[data@.len() - 1]]);
            return ends;
        }
        let mut sampled: Vec<LttbDataPoint> = Vec::with_capacity(threshold);
        assert(data@[0].wf());
        sampled.push(data[0]);
        let mut anchor: usize = 0;
        let mut i: usize = 0;
        while i < threshold - 2
            invariant
                2 < threshold < len <= MAX_POINTS,
                len == data@.len(),
                all_wf(data@),
                i <= threshold - 2,
                sampled@.len() == i + 1,
                sampled@[0] == data@[0],
                all_wf(sampled@),
                forall|k: int|
                    0 < k <= i ==> sampled@[k] == data@[picked(data@, threshold as int, k - 1)],
                anchor == if i == 0 {
                    0
                } else {
                    picked(data@, threshold as int, i - 1)
                },
                anchor < len,
            decreases threshold - 2 - i,
        {
            proof {
                lemma_bucket_bounds(i as int, len as int, threshold as int);
                lemma_bucket_bounds(i + 1, len as int, threshold as int);
                lemma_picked_in_bucket(data@, threshold as int, i as int);
            }
            let lo: usize = bucket_start_at(i, len, threshold) as usize;
            let hi: usize = bucket_end_at(i, len, threshold);
            let next_hi: usize = bucket_end_at(i + 1, len, threshold);
            let totals = bucket_totals(data, hi, next_hi);
            let count: u64 = (next_hi - hi) as u64;
            proof {
                lemma_sums_bounded(data@, hi as int, next_hi as int);
            }
            let from: LttbDataPoint = data[anchor];
            let mut best: usize = lo;
            let mut best_rank: i128 = rank_of(from, data[lo], totals.0, totals.1, count);
            let mut j: usize = lo + 1;
            while j < hi
                invariant
                    lo < j <= hi <= len,
                    len == data@.len(),
                    len <= MAX_POINTS,
                    all_wf(data@),
                    anchor < len,
                    from == data@[anchor as int],
                    hi == bucket_end(i as int, len as int, threshold as int),
                    next_hi == bucket_end(i + 1, len as int, threshold as int),
                    hi <= next_hi,
                    count == next_hi - hi,
                    count <= MAX_POINTS,
                    totals.0 == sum_x(data@, hi as int, next_hi as int),
                    totals.1 == sum_y(data@, hi as int, next_hi as int),
                    totals.0 <= count * u64::MAX,
                    -count * MICRO <= totals.1 <= count * MICRO,
                    best == best_in(
                        data@,
                        threshold as int,
                        i as int,
                        anchor as int,
                        lo as int,
                        j as int,
                    ),
                    lo <= best < j,
                    best_rank == candidate_rank(
                        data@,
                        threshold as int,
                        i as int,
                        anchor as int,
                        best as int,
                    ),
                decreases hi - j,
            {
                let rank: i128 = rank_of(from, data[j], totals.0, totals.1, count);
                if rank > best_rank {
                    best = j;
                    best_rank = rank;
                }
                j = j + 1;
            }
            assert(data@[best as int].wf());
            sampled.push(data[best]);
            anchor = best;
            i = i + 1;
        }
        assert(data@[len - 1].wf());
        sampled.push(data[len - 1]);
        assert(sampled@ =~= downsampled(data@, threshold as int));
        sampled
    }
}

/// Largest magnitude of a normalization bound: any 32-bit sample, in millionths.
pub const RANGE_LIMIT: i64 = 2_147_483_648_000_000;

/// Number of most recent points from which the range is recalculated.
pub const RECENT_POINTS: usize = 500;

/// Settings of the compressor.
#[derive(Debug, Clone, Copy, PartialEq, Eq, Structural)]
pub struct LttbConfig {
    /// Number of raw points at which a compression is made.
    pub buffer_size: usize,
    /// How many raw points stand behind one compressed point.
    pub compression_ratio: usize,
    /// Whether the normalization range follows the recent signal.
    pub enable_dynamic_range: bool,
    /// Number of samples between two recalculations of the range.
    pub range_update_interval: u64,
}

impl Default for LttbConfig {
    /// The usual settings: see [`LttbConfig::standard`].
    fn default() -> (config: Self)
        ensures
            config == LttbConfig::standard(),
    {
        LttbConfig {
            buffer_size: 1000,
            compression_ratio: 10,
            enable_dynamic_range: true,
            range_update_interval: 500,
        }
    }
}

impl LttbConfig {
    /// The usual settings: a compression at every 1000 raw points, ten raw
    /// points to one compressed point, and a range that follows the signal
    /// and is recalculated every 500 samples.
    pub open spec fn standard() -> LttbConfig {
        LttbConfig {
            buffer_size: 1000,
            compression_ratio: 10,
            enable_dynamic_range: true,
            range_update_interval: 500,
        }
    }

    /// The settings can be used: the ratio is not 0, the buffer size is below
    /// [`MAX_POINTS`], and a range that follows the signal has an interval
    /// that is not 0.
    pub open spec fn wf(&self) -> bool {
        &&& self.compression_ratio > 0
        &&& self.buffer_size < MAX_POINTS
        &&& self.enable_dynamic_range ==> self.range_update_interval > 0
    }
}

/// Running state of the compressor.
///
/// A bound of the range that is `None` has not seen a sample yet: it stands
/// for positive infinity as the minimum and negative infinity as the maximum.
#[derive(Debug, Clone)]
pub struct LttbProcessingState {
    /// Points that wait for the next compression, oldest first.
    pub raw_buffer: Vec<LttbDataPoint>,
    /// Result of the last compression.
    pub compressed_buffer: Vec<LttbDataPoint>,
    /// Number of raw points at which a compression is made.
    pub buffer_size: usize,
    /// How many raw points stand behind one compressed point.
    pub compression_ratio: usize,
    /// Lower bound of the normalization range, in millionths of a count.
    pub global_min: Option<i64>,
    /// Upper bound of the normalization range, in millionths of a count.
    pub global_max: Option<i64>,
    /// Number of samples taken so far.
    pub sample_counter: u64,
}

/// Mathematical content of an [`LttbProcessingState`].
pub struct LttbModel {
    pub raw: Seq<LttbDataPoint>,
    pub compressed: Seq<LttbDataPoint>,
    pub buffer_size: usize,
    pub compression_ratio: usize,
    pub global_min: Option<i64>,
    pub global_max: Option<i64>,
    pub sample_counter: u64,
}

impl View for LttbProcessingState {
    type V = LttbModel;

    open spec fn view(&self) -> LttbModel {
        LttbModel {
            raw: self.raw_buffer@,
            compressed: self.compressed_buffer@,
            buffer_size: self.buffer_size,
            compression_ratio: self.compression_ratio,
            global_min: self.global_min,
            global_max: self.global_max,
            sample_counter: self.sample_counter,
        }
    }
}

/// The minimum after it has seen `value`.
pub open spec fn lowered(bound: Option<i64>, value: int) -> int {
    match bound {
        Some(b) if b <= value => b as int,
        _ => value,
    }
}

/// The maximum after it has seen `value`.
pub open spec fn raised(bound: Option<i64>, value: int) -> int {
    match bound {
        Some(b) if b >= value => b as int,
        _ => value,
    }
}

/// A value mapped from the range `lo..hi` onto -1 to 1, in millionths and
/// rounded down: `2 * (value - lo) / (hi - lo) - 1`, and 0 for a range of
/// no width.
pub open spec fn normalized(value: int, lo: int, hi: int) -> int {
    if hi != lo {
        2 * MICRO * (value - lo) / (hi - lo) - MICRO
    } else {
        0
    }
}

/// A normalized amplitude mapped back onto the range `lo..hi`, rounded down:
/// `(y + 1) / 2 * (hi - lo) + lo`.
pub open spec fn restored(y: int, lo: int, hi: int) -> int {
    (y + MICRO) * (hi - lo) / (2 * MICRO) + lo
}

/// A bound moved one tenth of the way towards a fresh value, rounded down:
/// `bound * 0.9 + fresh * 0.1`.
pub open spec fn smoothed(bound: int, fresh: int) -> int {
    (9 * bound + fresh) / 10
}

/// Index from which the recent points of a buffer of `len` points begin.
pub open spec fn recent_start(len: int) -> int {
    if len > RECENT_POINTS {
        len - RECENT_POINTS
    } else {
        0
    }
}

/// Largest restored value among the points at `from..to`, which is not empty.
pub open spec fn max_restored(points: Seq<LttbDataPoint>, from: int, to: int, lo: int, hi: int)
    -> int
    decreases to - from,
{
    if to <= from + 1 {
        restored(points[from].y as int, lo, hi)
    } else {
        let before = max_restored(points, from, to - 1, lo, hi);
        let last = restored(points[to - 1].y as int, lo, hi);
        if last > before {
            last
        } else {
            before
        }
    }
}

/// Smallest restored value among the points at `from..to`, which is not empty.
pub open spec fn min_restored(points: Seq<LttbDataPoint>, from: int, to: int, lo: int, hi: int)
    -> int
    decreases to - from,
{
    if to <= from + 1 {
        restored(points[from].y as int, lo, hi)
    } else {
        let before = min_restored(points, from, to - 1, lo, hi);
        let last = restored(points[to - 1].y as int, lo, hi);
        if last < before {
            last
        } else {
            before
        }
    }
}

impl LttbModel {
    /// The state before any sample.
    pub open spec fn initial(config: LttbConfig) -> LttbModel {
        LttbModel {
            raw: Seq::empty(),
            compressed: Seq::empty(),
            buffer_size: config.buffer_size,
            compression_ratio: config.compression_ratio,
            global_min: None,
            global_max: None,
            sample_counter: 0,
        }
    }

    /// The raw buffer holds normalized points, and the bounds of the range
    /// are within [`RANGE_LIMIT`].
    pub open spec fn in_limits(self) -> bool {
        &&& all_wf(self.raw)
        &&& self.global_min matches Some(lo) ==> -RANGE_LIMIT <= lo <= RANGE_LIMIT
        &&& self.global_max matches Some(hi) ==> -RANGE_LIMIT <= hi <= RANGE_LIMIT
    }

    /// The state is within its limits, the ratio is not 0, the raw buffer
    /// holds no more points than the buffer size, which is below
    /// [`MAX_POINTS`], and the compressed waveform no more than [`MAX_POINTS`].
    pub open spec fn wf(self) -> bool {
        &&& self.in_limits()
        &&& self.compression_ratio > 0
        &&& self.buffer_size < MAX_POINTS
        &&& self.raw.len() <= self.buffer_size
        &&& self.compressed.len() <= MAX_POINTS
    }

    /// The range widened so that it holds the sample.
    pub open spec fn widen(self, ecg_value: i32) -> LttbModel {
        LttbModel {
            global_min: Some(lowered(self.global_min, ecg_value * MICRO) as i64),
            global_max: Some(raised(self.global_max, ecg_value * MICRO) as i64),
            ..self
        }
    }

    /// The amplitude that the sample gets in a range that already holds it.
    pub open spec fn amplitude(self, ecg_value: i32) -> int
        recommends
            self.global_min is Some,
            self.global_max is Some,
    {
        normalized(
            ecg_value * MICRO,
            self.global_min.unwrap() as int,
            self.global_max.unwrap() as int,
        )
    }

    /// The point is appended to the raw buffer and counted.
    pub open spec fn append(self, point: LttbDataPoint) -> LttbModel {
        LttbModel {
            raw: self.raw.push(point),
            sample_counter: (self.sample_counter + 1) as u64,
            ..self
        }
    }

    /// Both bounds moved one tenth of the way towards the extremes that the
    /// recent points have under the current range. An empty buffer changes
    /// nothing.
    pub open spec fn recalculate(self) -> LttbModel
        recommends
            self.global_min is Some,
            self.global_max is Some,
    {
        if self.raw.len() == 0 {
            self
        } else {
            let lo = self.global_min.unwrap() as int;
            let hi = self.global_max.unwrap() as int;
            let from = recent_start(self.raw.len() as int);
            let to = self.raw.len() as int;
            LttbModel {
                global_max: Some(smoothed(hi, max_restored(self.raw, from, to, lo, hi)) as i64),
                global_min: Some(smoothed(lo, min_restored(self.raw, from, to, lo, hi)) as i64),
                ..self
            }
        }
    }

    /// Whether the raw buffer has reached the size at which it is compressed.
    pub open spec fn is_full(self) -> bool {
        self.raw.len() >= self.buffer_size
    }

    /// The raw buffer downsampled into the compressed buffer, and cut down
    /// to its most recent quarter of the buffer size.
    pub open spec fn compress(self) -> LttbModel
        recommends
            self.is_full(),
    {
        LttbModel {
            compressed: downsampled(self.raw, self.buffer_size as int / self.compression_ratio as int),
            raw: self.raw.subrange(self.raw.len() - self.buffer_size as int / 4, self.raw.len() as int),
            ..self
        }
    }

    /// The state after one sample that came at `timestamp`.
    pub open spec fn step(self, ecg_value: i32, timestamp: u64, config: LttbConfig) -> LttbModel {
        let widened = self.widen(ecg_value);
        let point = LttbDataPoint { x: timestamp, y: widened.amplitude(ecg_value) as i32 };
        let appended = widened.append(point);
        let ranged = if config.enable_dynamic_range && appended.sample_counter as int
            % config.range_update_interval as int == 0 {
            appended.recalculate()
        } else {
            appended
        };
        if ranged.is_full() {
            ranged.compress()
        } else {
            ranged
        }
    }
}

/// An amplitude of a value inside its range lies between -1 and 1, with the
/// lower bound at -1 and the upper bound at 1.
pub proof fn lemma_normalized_in_range(value: int, lo: int, hi: int)
    requires
        lo <= value <= hi,
    ensures
        -MICRO <= normalized(value, lo, hi) <= MICRO,
        lo < hi ==> normalized(lo, lo, hi) == -MICRO && normalized(hi, lo, hi) == MICRO,
{
    if hi != lo {
        let d = hi - lo;
        assert(0 <= 2 * MICRO * (value - lo) <= 2 * MICRO * d) by (nonlinear_arith)
            requires
                0 <= value - lo <= d,
        ;
        vstd::arithmetic::div_mod::lemma_div_is_ordered(0, 2 * MICRO * (value - lo), d);
        vstd::arithmetic::div_mod::lemma_div_is_ordered(
            2 * MICRO * (value - lo),
            2 * MICRO * d,
            d,
        );
        vstd::arithmetic::div_mod::lemma_div_multiples_vanish(2 * MICRO, d);
        assert(2 * MICRO * d == d * (2 * MICRO)) by (nonlinear_arith);
        assert(0int / d == 0) by (nonlinear_arith)
            requires
                d > 0,
        ;
        assert(2 * MICRO * (lo - lo) == 0);
    }
}

/// A restored value lies between the two bounds of the range.
pub proof fn lemma_restored_in_range(y: int, lo: int, hi: int)
    requires
        -MICRO <= y <= MICRO,
    ensures
        lo <= hi ==> lo <= restored(y, lo, hi) <= hi,
        hi <= lo ==> hi <= restored(y, lo, hi) <= lo,
{
    let w = y + MICRO;
    let d = hi - lo;
    let m = 2 * MICRO;
    vstd::arithmetic::div_mod::lemma_div_multiples_vanish(d, m);
    assert(0int / m == 0);
    if d >= 0 {
        assert(0 <= w * d <= d * m) by (nonlinear_arith)
            requires
                0 <= w <= m,
                0 <= d,
        ;
        vstd::arithmetic::div_mod::lemma_div_is_ordered(0, w * d, m);
        vstd::arithmetic::div_mod::lemma_div_is_ordered(w * d, d * m, m);
    } else {
        assert(d * m <= w * d <= 0) by (nonlinear_arith)
            requires
                0 <= w <= m,
                d <= 0,
        ;
        vstd::arithmetic::div_mod::lemma_div_is_ordered(w * d, 0, m);
        vstd::arithmetic::div_mod::lemma_div_is_ordered(d * m, w * d, m);
    }
}

/// A sample that fills the raw buffer makes a compression: the compressed
/// waveform becomes the downsampled buffer, and the raw buffer keeps its last
/// quarter of the buffer size. Any other sample lengthens the raw buffer by
/// its point and leaves the compressed waveform as it is.
pub proof fn lemma_step_compresses_when_full(
    model: LttbModel,
    ecg_value: i32,
    timestamp: u64,
    config: LttbConfig,
)
    requires
        model.wf(),
    ensures
        ({
            let after = model.step(ecg_value, timestamp, config);
            let target = model.buffer_size as int / model.compression_ratio as int;
            &&& model.raw.len() + 1 >= model.buffer_size ==> {
                &&& after.raw.len() == model.buffer_size / 4
                &&& after.raw.len() > 0 ==> after.raw.last().x == timestamp
                &&& model.raw.len() + 1 > target > 2 ==> after.compressed.len() == target
                &&& after.compressed.len() > 0
            }
            &&& model.raw.len() + 1 < model.buffer_size ==> {
                &&& after.raw.len() == model.raw.len() + 1
                &&& after.raw.last().x == timestamp
                &&& after.compressed == model.compressed
            }
        }),
{
    let widened = model.widen(ecg_value);
    let point = LttbDataPoint { x: timestamp, y: widened.amplitude(ecg_value) as i32 };
    let appended = widened.append(point);
    let ranged = if config.enable_dynamic_range && appended.sample_counter as int
        % config.range_update_interval as int == 0 {
        appended.recalculate()
    } else {
        appended
    };
    assert(ranged.raw == appended.raw);
    assert(ranged.buffer_size == model.buffer_size);
    assert(appended.raw.last() == point);
}

impl LttbProcessingState {
    /// The compressor is well-formed: see [`LttbModel::wf`].
    pub open spec fn wf(&self) -> bool {
        self@.wf()
    }

    /// The state before any sample, for the given settings.
    pub fn new(config: &LttbConfig) -> (state: LttbProcessingState)
        ensures
            state@ == LttbModel::initial(*config),
            config.wf() ==> state.wf(),
    {
        LttbProcessingState {
            raw_buffer: Vec::new(),
            compressed_buffer: Vec::new(),
            buffer_size: config.buffer_size,
            compression_ratio: config.compression_ratio,
            global_min: None,
            global_max: None,
            sample_counter: 0,
        }
    }
}

/// Computes [`restored`].
fn restore(y: i32, lo: i64, hi: i64) -> (value: i64)
    requires
        -MICRO <= y <= MICRO,
        -RANGE_LIMIT <= lo <= RANGE_LIMIT,
        -RANGE_LIMIT <= hi <= RANGE_LIMIT,
    ensures
        value == restored(y as int, lo as int, hi as int),
        -RANGE_LIMIT <= value <= RANGE_LIMIT,
{
    let weight: i128 = y as i128 + MICRO as i128;
    let width: i128 = hi as i128 - lo as i128;
    proof {
        lemma_product_within(weight as int, width as int, 2 * MICRO, 2 * RANGE_LIMIT);
        lemma_restored_in_range(y as int, lo as int, hi as int);
    }
    let share: i128 = crate::fixed::div_floor(weight * width, 2 * MICRO as i128);
    (share + lo as i128) as i64
}

/// Computes [`smoothed`].
fn smooth(bound: i64, fresh: i64) -> (value: i64)
    requires
        -RANGE_LIMIT <= bound <= RANGE_LIMIT,
        -RANGE_LIMIT <= fresh <= RANGE_LIMIT,
    ensures
        value == smoothed(bound as int, fresh as int),
        -RANGE_LIMIT <= value <= RANGE_LIMIT,
{
    let mixed: i128 = 9 * (bound as i128) + fresh as i128;
    crate::fixed::div_floor(mixed, 10) as i64
}

impl DataProcessor {
    /// Moves both bounds of the normalization range one tenth of the way
    /// towards the extremes of the recent signal.
    ///
    /// The extremes are taken over the last [`RECENT_POINTS`] raw points (all
    /// of them where there are fewer), each mapped back from its amplitude
    /// under the range as it is now. An empty buffer leaves the range as it is.
    pub fn recalculate_global_range(state: &mut LttbProcessingState)
        requires
            old(state)@.in_limits(),
            old(state).global_min is Some,
            old(state).global_max is Some,
        ensures
            final(state)@ == old(state)@.recalculate(),
            final(state)@.in_limits(),
            old(state).wf() ==> final(state).wf(),
    {
        let len: usize = state.raw_buffer.len();
        if len == 0 {
            return ;
        }
        let lo: i64 = state.global_min.unwrap();
        let hi: i64 = state.global_max.unwrap();
        let start: usize = if len > RECENT_POINTS {
            len - RECENT_POINTS
        } else {
            0
        };
        assert(state.raw_buffer@[start as int].wf());
        let first: i64 = restore(state.raw_buffer[start].y, lo, hi);
        let mut new_max: i64 = first;
        let mut new_min: i64 = first;
        let mut j: usize = start + 1;
        while j < len
            invariant
                start < j <= len,
                len == state.raw_buffer@.len(),
                all_wf(state.raw_buffer@),
                -RANGE_LIMIT <= lo <= RANGE_LIMIT,
                -RANGE_LIMIT <= hi <= RANGE_LIMIT,
                -RANGE_LIMIT <= new_max <= RANGE_LIMIT,
                -RANGE_LIMIT <= new_min <= RANGE_LIMIT,
                new_max == max_restored(
                    state.raw_buffer@,
                    start as int,
                    j as int,
                    lo as int,
                    hi as int,
                ),
                new_min == min_restored(
                    state.raw_buffer@,
                    start as int,
                    j as int,
                    lo as int,
                    hi as int,
                ),
            decreases len - j,
        {
            assert(state.raw_buffer@[j as int].wf());
            let value: i64 = restore(state.raw_buffer[j].y, lo, hi);
            if value > new_max {
                new_max = value;
            }
            if value < new_min {
                new_min = value;
            }
            j = j + 1;
        }
        state.global_max = Some(smooth(hi, new_max));
        state.global_min = Some(smooth(lo, new_min));
    }

    /// Takes one ECG sample into the compressor and returns its normalized
    /// amplitude, in millionths, with the compressed waveform as it stands
    /// after the sample.
    ///
    /// The range is first widened to hold the sample, so the amplitude lies
    /// between -1 and 1, and is 0 while the range has no width. The sample
    /// joins the raw buffer as a point at `timestamp`. Where the range
    /// follows the signal, every `range_update_interval` samples it is
    /// recalculated. A raw buffer that has reached the buffer size is
    /// downsampled to `buffer_size / compression_ratio` points, which replace
    /// the compressed waveform, and keeps its last `buffer_size / 4` points.
    pub fn process_ecg_lttb(
        ecg_value: i32,
        timestamp: u64,
        lttb_state: &mut LttbProcessingState,
        lttb_config: &LttbConfig,
    ) -> (out: (i32, Vec<LttbDataPoint>))
        requires
            old(lttb_state).wf(),
            old(lttb_state).sample_counter < u64::MAX,
            lttb_config.enable_dynamic_range ==> lttb_config.range_update_interval > 0,
        ensures
            final(lttb_state)@ == old(lttb_state)@.step(ecg_value, timestamp, *lttb_config),
            final(lttb_state).wf(),
            out.0 == old(lttb_state)@.widen(ecg_value).amplitude(ecg_value),
            -MICRO <= out.0 <= MICRO,
            out.1@ == final(lttb_state)@.compressed,
    {
        let value: i64 = ecg_value as i64 * MICRO;
        let hi: i64 = match lttb_state.global_max {
            Some(bound) => if bound >= value {
                bound
            } else {
                value
            },
            None => value,
        };
        let lo: i64 = match lttb_state.global_min {
            Some(bound) => if bound <= value {
                bound
            } else {
                value
            },
            None => value,
        };
        lttb_state.global_max = Some(hi);
        lttb_state.global_min = Some(lo);
        proof {
            lemma_normalized_in_range(value as int, lo as int, hi as int);
        }
        let ecg_normalized: i32 = if hi != lo {
            let offset: i128 = value as i128 - lo as i128;
            let width: i128 = hi as i128 - lo as i128;
            assert(2 * MICRO * offset <= 2 * MICRO * (2 * RANGE_LIMIT)) by (nonlinear_arith)
                requires
                    0 <= offset <= 2 * RANGE_LIMIT,
            ;
            assert(0 <= 2 * MICRO * offset) by (nonlinear_arith)
                requires
                    0 <= offset,
            ;
            ((2 * MICRO as i128 * offset) / width - MICRO as i128) as i32
        } else {
            0
        };
        let data_point = LttbDataPoint { x: timestamp, y: ecg_normalized };
        lttb_state.raw_buffer.push(data_point);
        lttb_state.sample_counter = lttb_state.sample_counter + 1;
        assert(lttb_state@ == old(lttb_state)@.widen(ecg_value).append(data_point));
        assert(all_wf(lttb_state.raw_buffer@)) by {
            assert forall|i: int| 0 <= i < lttb_state.raw_buffer@.len() implies (
            #[trigger] lttb_state.raw_buffer@[i]).wf() by {
                if i < old(lttb_state).raw_buffer@.len() {
                    assert(old(lttb_state).raw_buffer@[i].wf());
                }
            }
        }
        if lttb_config.enable_dynamic_range && lttb_state.sample_counter
            % lttb_config.range_update_interval == 0 {
            Self::recalculate_global_range(lttb_state);
        }
        let ghost ranged = lttb_state@;
        if lttb_state.raw_buffer.len() >= lttb_state.buffer_size {
            let target_points: usize = lttb_state.buffer_size / lttb_state.compression_ratio;
            let compressed = Self::lttb_downsample(lttb_state.raw_buffer.as_slice(), target_points);
            let keep_size: usize = lttb_state.buffer_size / 4;
            let drain_end: usize = lttb_state.raw_buffer.len() - keep_size;
            let kept = lttb_state.raw_buffer.split_off(drain_end);
            lttb_state.raw_buffer = kept;
            lttb_state.compressed_buffer = compressed;
            assert(lttb_state@ == ranged.compress());
        }
        let snapshot = lttb_state.compressed_buffer.clone();
        assert(snapshot@ == lttb_state.compressed_buffer@);
        (ecg_normalized, snapshot)
    }
}

} // verus!
