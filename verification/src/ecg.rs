//! Heart-rate estimation from the raw ECG stream.
//!
//! A three-sample window finds local maxima; a maximum that rises far enough
//! above the baseline of the last completed calibration epoch counts as an
//! R-wave. The number of samples between two R-waves gives the heart rate,
//! which is held until the next R-wave.

use vstd::prelude::*;
use std::collections::VecDeque;
use crate::data_processor::DataProcessor;

verus! {

/// Samples per second that the estimate assumes.
pub const SAMPLE_RATE_HZ: u64 = 250;

/// Length of a calibration epoch, in samples.
pub const EPOCH_SAMPLES: u32 = 300;

/// Largest heart rate that is ever reported: 100 beats per minute, in millionths.
pub const MAX_HEART_RATE: u64 = 100_000_000;

/// Beat interval, in samples, at which the heart rate is exactly the maximum.
pub const MIN_BEAT_SAMPLES: u64 = 150;

/// Running state of the heart-rate estimator.
///
/// An extreme that is `None` stands for the infinite starting value of that
/// accumulator: negative infinity for `ecg_point_max`, positive infinity for
/// `ecg_point_min` and `ecg_point_min_new`. The maximum that is being
/// accumulated starts at 0, not at negative infinity.
#[derive(Debug, Clone)]
pub struct EcgProcessingState {
    /// Largest sample of the last completed epoch.
    pub ecg_point_max: Option<i32>,
    /// Smallest sample of the last completed epoch.
    pub ecg_point_min: Option<i32>,
    /// Largest sample of the epoch in progress, and at least 0.
    pub ecg_point_max_new: i32,
    /// Smallest sample of the epoch in progress.
    pub ecg_point_min_new: Option<i32>,
    /// The last samples, oldest first; at most three.
    pub ecg_points: VecDeque<i32>,
    /// Samples counted since the last R-wave.
    pub peak_interval_num: u32,
    /// Samples seen in the epoch in progress.
    pub counter: u32,
    /// Heart rate of the last beat, in millionths of a beat per minute; 0 before any.
    pub last_heart_rate: u64,
    /// RR interval of the last beat, in microseconds; 0 before any.
    pub last_rr_interval: u64,
}

/// Mathematical content of an [`EcgProcessingState`].
pub struct EcgModel {
    pub point_max: Option<i32>,
    pub point_min: Option<i32>,
    pub point_max_new: i32,
    pub point_min_new: Option<i32>,
    pub points: Seq<i32>,
    pub peak_interval: u32,
    pub counter: u32,
    pub heart_rate: u64,
    pub rr_interval: u64,
}

impl View for EcgProcessingState {
    type V = EcgModel;

    open spec fn view(&self) -> EcgModel {
        EcgModel {
            point_max: self.ecg_point_max,
            point_min: self.ecg_point_min,
            point_max_new: self.ecg_point_max_new,
            point_min_new: self.ecg_point_min_new,
            points: self.ecg_points@,
            peak_interval: self.peak_interval_num,
            counter: self.counter,
            heart_rate: self.last_heart_rate,
            rr_interval: self.last_rr_interval,
        }
    }
}

impl EcgModel {
    /// The state before any sample.
    pub open spec fn initial() -> EcgModel {
        EcgModel {
            point_max: None,
            point_min: None,
            point_max_new: 0,
            point_min_new: None,
            points: Seq::empty(),
            peak_interval: 0,
            counter: 0,
            heart_rate: 0,
            rr_interval: 0,
        }
    }

    /// The epoch counter is below the epoch length, the window holds at most
    /// three samples, and the held heart rate is within its maximum.
    pub open spec fn wf(self) -> bool {
        &&& self.counter < EPOCH_SAMPLES
        &&& self.points.len() <= 3
        &&& self.heart_rate <= MAX_HEART_RATE
    }

    /// The sample is taken into the extremes of the epoch in progress.
    pub open spec fn accumulate(self, value: i32) -> EcgModel {
        EcgModel {
            point_max_new: if value > self.point_max_new {
                value
            } else {
                self.point_max_new
            },
            point_min_new: match self.point_min_new {
                Some(m) if m <= value => Some(m),
                _ => Some(value),
            },
            ..self
        }
    }

    /// One more sample is counted; the epoch that reaches its full length is
    /// committed as the new baseline and the accumulators start over.
    pub open spec fn roll_epoch(self) -> EcgModel {
        if self.counter + 1 >= EPOCH_SAMPLES {
            EcgModel {
                point_max: Some(self.point_max_new),
                point_min: self.point_min_new,
                point_max_new: 0,
                point_min_new: None,
                counter: 0,
                ..self
            }
        } else {
            EcgModel { counter: (self.counter + 1) as u32, ..self }
        }
    }

    /// The window after the sample has entered it: appended while fewer than
    /// three samples are held, otherwise in place of the oldest.
    pub open spec fn slide(self, value: i32) -> EcgModel {
        if self.points.len() < 3 {
            EcgModel { points: self.points.push(value), ..self }
        } else {
            EcgModel { points: self.points.drop_first().push(value), ..self }
        }
    }

    /// Whether the sample completes a window in which a beat is looked for:
    /// the window was already full before the sample came.
    pub open spec fn examines(self) -> bool {
        self.points.len() == 3
    }

    /// The bookkeeping for a full window: an R-wave that follows an earlier
    /// one sets the heart rate and restarts the interval; an R-wave with no
    /// interval counted changes nothing; anything else lengthens the interval.
    pub open spec fn detect(self) -> EcgModel
        recommends
            self.points.len() == 3,
    {
        if is_r_wave(self.points, self.point_max, self.point_min) {
            if self.peak_interval != 0 {
                EcgModel {
                    heart_rate: heart_rate_of(self.peak_interval as nat) as u64,
                    rr_interval: rr_interval_of(self.peak_interval as nat) as u64,
                    peak_interval: 0,
                    ..self
                }
            } else {
                self
            }
        } else {
            EcgModel { peak_interval: (self.peak_interval + 1) as u32, ..self }
        }
    }

    /// The state after one sample.
    pub open spec fn step(self, value: i32) -> EcgModel {
        let rolled = self.accumulate(value).roll_epoch();
        if self.examines() {
            rolled.slide(value).detect()
        } else {
            rolled.slide(value)
        }
    }

    /// The state after a run of samples, fed oldest first.
    pub open spec fn run(self, values: Seq<i32>) -> EcgModel
        decreases values.len(),
    {
        if values.len() == 0 {
            self
        } else {
            self.run(values.drop_last()).step(values.last())
        }
    }
}

/// The middle of three samples is strictly above both neighbours.
pub open spec fn is_local_peak(window: Seq<i32>) -> bool
    recommends
        window.len() == 3,
{
    window[0] < window[1] && window[1] > window[2]
}

/// Whether a peak rises above the baseline minimum by more than six tenths
/// of the baseline span.
///
/// With no minimum the rise is infinitely negative and never enough; with a
/// minimum but no maximum the span is infinitely negative and every rise is
/// enough.
pub open spec fn above_threshold(peak: i32, point_max: Option<i32>, point_min: Option<i32>)
    -> bool {
    match (point_max, point_min) {
        (_, None) => false,
        (None, Some(_)) => true,
        (Some(hi), Some(lo)) => 5 * (peak - lo) > 3 * (hi - lo),
    }
}

/// The window shows a peak that is high enough to be an R-wave.
pub open spec fn is_r_wave(window: Seq<i32>, point_max: Option<i32>, point_min: Option<i32>)
    -> bool
    recommends
        window.len() == 3,
{
    is_local_peak(window) && above_threshold(window[1], point_max, point_min)
}

/// The beat interval that the reported values rest on: the counted interval,
/// but no shorter than the interval of the maximum heart rate.
pub open spec fn beat_samples(interval: nat) -> nat {
    if interval < MIN_BEAT_SAMPLES {
        MIN_BEAT_SAMPLES as nat
    } else {
        interval
    }
}

/// Heart rate for a beat interval in samples, in millionths of a beat per
/// minute, rounded down: sixty seconds over the duration of the interval,
/// and no more than the maximum.
pub open spec fn heart_rate_of(interval: nat) -> nat
    recommends
        interval > 0,
{
    (60 * SAMPLE_RATE_HZ * crate::fixed::MICRO / (beat_samples(interval) as int)) as nat
}

/// RR interval in microseconds for a beat interval in samples: sixty over the
/// heart rate in beats per minute, which is the duration of the interval that
/// the heart rate rests on.
pub open spec fn rr_interval_of(interval: nat) -> nat
    recommends
        interval > 0,
{
    (beat_samples(interval) * crate::fixed::MICRO / (SAMPLE_RATE_HZ as int)) as nat
}

/// The heart rate is the unclamped rate `60 / (interval / 250)` cut off at
/// 100 beats per minute, it is positive, and the RR interval is a whole
/// number of microseconds.
pub proof fn lemma_heart_rate_is_clamped(interval: nat)
    requires
        0 < interval <= u32::MAX,
    ensures
        heart_rate_of(interval) == if 15_000_000_000int / (interval as int) > MAX_HEART_RATE {
            MAX_HEART_RATE as int
        } else {
            15_000_000_000int / (interval as int)
        },
        0 < heart_rate_of(interval) <= MAX_HEART_RATE,
        rr_interval_of(interval) == 4000 * beat_samples(interval),
        rr_interval_of(interval) * heart_rate_of(interval) <= 60_000_000_000_000,
{
    let n = interval as int;
    let b = beat_samples(interval) as int;
    assert(15_000_000_000int / 150 == 100_000_000);
    if n < 150 {
        assert(15_000_000_000int / n >= 100_000_000) by (nonlinear_arith)
            requires
                0 < n < 150,
        ;
        assert(15_000_000_000int / n > 100_000_000) by (nonlinear_arith)
            requires
                0 < n < 150,
                15_000_000_000int / n >= 100_000_000,
        {
            vstd::arithmetic::div_mod::lemma_fundamental_div_mod(15_000_000_000, n);
            vstd::arithmetic::div_mod::lemma_mod_bound(15_000_000_000, n);
        }
    } else {
        assert(15_000_000_000int / n <= 100_000_000) by (nonlinear_arith)
            requires
                n >= 150,
        ;
    }
    assert(0 < 15_000_000_000int / b <= 100_000_000) by (nonlinear_arith)
        requires
            150 <= b <= 0xffff_ffff,
    ;
    assert(b * 1_000_000 / 250 == 4000 * b);
    assert((4000 * b) * (15_000_000_000int / b) <= 60_000_000_000_000) by (nonlinear_arith)
        requires
            150 <= b,
    {
        vstd::arithmetic::div_mod::lemma_fundamental_div_mod(15_000_000_000, b);
        vstd::arithmetic::div_mod::lemma_mod_bound(15_000_000_000, b);
    }
}

/// Whatever samples arrive, a well-formed state stays well-formed; in
/// particular the held heart rate never exceeds 100 beats per minute.
pub proof fn lemma_step_keeps_wf(state: EcgModel, value: i32)
    requires
        state.wf(),
    ensures
        state.step(value).wf(),
        state.step(value).heart_rate <= MAX_HEART_RATE,
{
    let rolled = state.accumulate(value).roll_epoch();
    let slid = rolled.slide(value);
    if state.examines() && slid.peak_interval != 0 {
        lemma_heart_rate_is_clamped(slid.peak_interval as nat);
    }
}

/// The heart rate and the RR interval change only at a sample that completes
/// an R-wave after a counted interval; at every other sample they are held.
pub proof fn lemma_heart_rate_is_held(state: EcgModel, value: i32)
    ensures
        ({
            let window = state.accumulate(value).roll_epoch().slide(value);
            let beat = state.examines() && state.peak_interval != 0 && is_r_wave(
                window.points,
                window.point_max,
                window.point_min,
            );
            &&& !beat ==> state.step(value).heart_rate == state.heart_rate && state.step(
                value,
            ).rr_interval == state.rr_interval
            &&& beat ==> state.step(value).heart_rate == heart_rate_of(state.peak_interval as nat)
                && state.step(value).rr_interval == rr_interval_of(state.peak_interval as nat)
                && state.step(value).heart_rate > 0
        }),
{
    if state.peak_interval != 0 {
        lemma_heart_rate_is_clamped(state.peak_interval as nat);
    }
}

/// The epoch counter counts the samples modulo the epoch length: after a run
/// of samples from the initial state it holds the remainder of their number.
pub proof fn lemma_epoch_counter(values: Seq<i32>)
    ensures
        EcgModel::initial().run(values).counter == values.len() % (EPOCH_SAMPLES as nat),
    decreases values.len(),
{
    if values.len() > 0 {
        lemma_epoch_counter(values.drop_last());
    }
}

/// From the initial state, the heart rate after any run of samples lies
/// between 0 and 100 beats per minute.
pub proof fn lemma_heart_rate_bounded(values: Seq<i32>)
    ensures
        EcgModel::initial().run(values).wf(),
        0 <= EcgModel::initial().run(values).heart_rate <= MAX_HEART_RATE,
    decreases values.len(),
{
    if values.len() > 0 {
        lemma_heart_rate_bounded(values.drop_last());
        lemma_step_keeps_wf(EcgModel::initial().run(values.drop_last()), values.last());
    }
}

impl EcgProcessingState {
    /// The estimator is well-formed: see [`EcgModel::wf`].
    pub open spec fn wf(&self) -> bool {
        self@.wf()
    }

    /// The state before any sample.
    pub fn new() -> (state: EcgProcessingState)
        ensures
            state@ == EcgModel::initial(),
            state.wf(),
    {
        EcgProcessingState {
            ecg_point_max: None,
            ecg_point_min: None,
            ecg_point_max_new: 0,
            ecg_point_min_new: None,
            ecg_points: VecDeque::with_capacity(3),
            peak_interval_num: 0,
            counter: 0,
            last_heart_rate: 0,
            last_rr_interval: 0,
        }
    }
}

/// Decides [`above_threshold`] without leaving 64-bit arithmetic.
fn exceeds_threshold(peak: i32, point_max: Option<i32>, point_min: Option<i32>) -> (b: bool)
    ensures
        b == above_threshold(peak, point_max, point_min),
{
    match point_min {
        None => false,
        Some(lo) => match point_max {
            None => true,
            Some(hi) => {
                let rise: i64 = peak as i64 - lo as i64;
                let span: i64 = hi as i64 - lo as i64;
                5 * rise > 3 * span
            },
        },
    }
}

impl DataProcessor {
    /// Feeds one raw ECG sample to the estimator and returns the heart rate
    /// (millionths of a beat per minute) and the RR interval (microseconds)
    /// that are held after it.
    ///
    /// The values are those of the most recent R-wave that followed another;
    /// between such beats they stay as they are.
    pub fn process_ecg_data(ecg_value: i32, ecg_state: &mut EcgProcessingState) -> (out: (
        u64,
        u64,
    ))
        requires
            old(ecg_state).wf(),
            old(ecg_state).peak_interval_num < u32::MAX,
        ensures
            final(ecg_state)@ == old(ecg_state)@.step(ecg_value),
            final(ecg_state).wf(),
            out.0 == final(ecg_state).last_heart_rate,
            out.1 == final(ecg_state).last_rr_interval,
            0 <= out.0 <= MAX_HEART_RATE,
            final(ecg_state).peak_interval_num <= old(ecg_state).peak_interval_num + 1,
    {
        proof {
            lemma_step_keeps_wf(ecg_state@, ecg_value);
        }
        if ecg_value > ecg_state.ecg_point_max_new {
            ecg_state.ecg_point_max_new = ecg_value;
        }
        let lower = match ecg_state.ecg_point_min_new {
            Some(m) => ecg_value < m,
            None => true,
        };
        if lower {
            ecg_state.ecg_point_min_new = Some(ecg_value);
        }
        ecg_state.counter = ecg_state.counter + 1;
        if ecg_state.counter >= EPOCH_SAMPLES {
            ecg_state.ecg_point_max = Some(ecg_state.ecg_point_max_new);
            ecg_state.ecg_point_min = ecg_state.ecg_point_min_new;
            ecg_state.ecg_point_max_new = 0;
            ecg_state.ecg_point_min_new = None;
            ecg_state.counter = 0;
        }
        if ecg_state.ecg_points.len() < 3 {
            ecg_state.ecg_points.push_back(ecg_value);
        } else {
            let _ = ecg_state.ecg_points.pop_front();
            ecg_state.ecg_points.push_back(ecg_value);
            let before: i32 = ecg_state.ecg_points[0];
            let middle: i32 = ecg_state.ecg_points[1];
            let after: i32 = ecg_state.ecg_points[2];
            if before < middle && middle > after && exceeds_threshold(
                middle,
                ecg_state.ecg_point_max,
                ecg_state.ecg_point_min,
            ) {
                if ecg_state.peak_interval_num != 0 {
                    let interval: u64 = ecg_state.peak_interval_num as u64;
                    let beat: u64 = if interval < MIN_BEAT_SAMPLES {
                        MIN_BEAT_SAMPLES
                    } else {
                        interval
                    };
                    proof {
                        lemma_heart_rate_is_clamped(interval as nat);
                    }
                    ecg_state.last_heart_rate = 15_000_000_000 / beat;
                    ecg_state.last_rr_interval = 4000 * beat;
                    ecg_state.peak_interval_num = 0;
                }
            } else {
                ecg_state.peak_interval_num = ecg_state.peak_interval_num + 1;
            }
        }
        assert(ecg_state.ecg_points@ == old(ecg_state)@.step(ecg_value).points);
        (ecg_state.last_heart_rate, ecg_state.last_rr_interval)
    }
}

} // verus!
