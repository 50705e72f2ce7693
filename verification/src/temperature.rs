//! Body-temperature calibration and outlier rejection.
//!
//! Each raw code is calibrated and checked for a sensor fault. Calibrated
//! readings collect in a window; the reading that fills the window is
//! answered with the mean of the window without its extremes, and the window
//! starts over.

use vstd::prelude::*;
use vstd::relations::{sorted_by, total_ordering};
use vstd::seq_lib::{lemma_sorted_unique, to_multiset_build, to_multiset_insert};
use crate::data_processor::DataProcessor;
use crate::fixed::{div_floor, MICRO};

verus! {

/// Number of readings that fill the window.
pub const WINDOW_SIZE: usize = 70;

/// Number of readings that are left out at each end of the sorted window.
pub const TRIM: usize = 10;

/// How far below room temperature a reading may lie before it counts as a
/// sensor fault: ten degrees, in millionths.
pub const FAULT_MARGIN: i64 = 10_000_000;

/// Running state of the temperature filter. Temperatures are in millionths
/// of a degree Celsius.
#[derive(Debug, Clone)]
pub struct TemperatureProcessingState {
    /// Calibrated readings of the window in progress, oldest first.
    pub temperatures: Vec<i64>,
    /// Gain of the calibration, in millionths.
    pub scale_factor: i32,
    /// Offset of the calibration.
    pub offset: i32,
    /// Largest filtered temperature that is reported.
    pub max_temp: i32,
    /// Temperature that stands in for a faulty reading.
    pub room_temperature: i32,
}

/// Mathematical content of a [`TemperatureProcessingState`].
pub struct TemperatureModel {
    pub readings: Seq<i64>,
    pub scale_factor: i32,
    pub offset: i32,
    pub max_temp: i32,
    pub room_temperature: i32,
}

impl View for TemperatureProcessingState {
    type V = TemperatureModel;

    open spec fn view(&self) -> TemperatureModel {
        TemperatureModel {
            readings: self.temperatures@,
            scale_factor: self.scale_factor,
            offset: self.offset,
            max_temp: self.max_temp,
            room_temperature: self.room_temperature,
        }
    }
}

/// The order by which the window is sorted.
pub open spec fn ascending() -> spec_fn(i64, i64) -> bool {
    |a: i64, b: i64| a <= b
}

/// Sum of the readings at `lo..hi`.
pub open spec fn sum_of(readings: Seq<i64>, lo: int, hi: int) -> int
    decreases hi - lo,
{
    if hi <= lo {
        0
    } else {
        sum_of(readings, lo, hi - 1) + readings[hi - 1]
    }
}

/// Mean of a full window without its [`TRIM`] lowest and [`TRIM`] highest
/// readings, rounded down.
pub open spec fn trimmed_mean(window: Seq<i64>) -> int {
    let sorted = window.sort_by(ascending());
    sum_of(sorted, TRIM as int, window.len() - TRIM) / (window.len() - 2 * TRIM)
}

impl TemperatureModel {
    /// The filter with an empty window and the usual calibration: a gain of
    /// 0.8, no offset, at most 37.2 degrees, and a room at 23.2 degrees.
    pub open spec fn initial() -> TemperatureModel {
        TemperatureModel {
            readings: Seq::empty(),
            scale_factor: 800_000,
            offset: 0,
            max_temp: 37_200_000,
            room_temperature: 23_200_000,
        }
    }

    /// The window holds no more readings than fill it.
    pub open spec fn wf(self) -> bool {
        self.readings.len() <= WINDOW_SIZE
    }

    /// The temperature that a raw code stands for, rounded down: a tenth of
    /// the code, times the gain, plus the offset.
    pub open spec fn calibrated(self, raw_temp: i32) -> int {
        raw_temp * self.scale_factor / 10 + self.offset
    }

    /// The reading that enters the window: the calibrated temperature, or
    /// room temperature where that lies more than the fault margin below it.
    pub open spec fn admitted(self, raw_temp: i32) -> int {
        if self.calibrated(raw_temp) < self.room_temperature - FAULT_MARGIN {
            self.room_temperature as int
        } else {
            self.calibrated(raw_temp)
        }
    }

    /// The window after the reading has entered it; a window that would be
    /// too long loses its oldest reading.
    pub open spec fn window(self, raw_temp: i32) -> Seq<i64> {
        let pushed = self.readings.push(self.admitted(raw_temp) as i64);
        if pushed.len() > WINDOW_SIZE {
            pushed.drop_first()
        } else {
            pushed
        }
    }

    /// Whether the reading fills the window.
    pub open spec fn fills(self, raw_temp: i32) -> bool {
        self.window(raw_temp).len() == WINDOW_SIZE
    }

    /// The state after one raw code: a window that has been filled is empty
    /// again.
    pub open spec fn step(self, raw_temp: i32) -> TemperatureModel {
        TemperatureModel {
            readings: if self.fills(raw_temp) {
                Seq::empty()
            } else {
                self.window(raw_temp)
            },
            ..self
        }
    }

    /// The temperature that is reported for one raw code: the trimmed mean of
    /// the window, and no more than the maximum, where the code fills the
    /// window; else the reading that entered the window.
    pub open spec fn output(self, raw_temp: i32) -> int {
        if self.fills(raw_temp) {
            let mean = trimmed_mean(self.window(raw_temp));
            if mean > self.max_temp {
                self.max_temp as int
            } else {
                mean
            }
        } else {
            self.admitted(raw_temp)
        }
    }

    /// The state after a run of raw codes, fed oldest first.
    pub open spec fn run(self, codes: Seq<i32>) -> TemperatureModel
        decreases codes.len(),
    {
        if codes.len() == 0 {
            self
        } else {
            self.run(codes.drop_last()).step(codes.last())
        }
    }

    /// The readings that a run of raw codes puts into the window.
    pub open spec fn admitted_all(self, codes: Seq<i32>) -> Seq<i64> {
        Seq::new(codes.len(), |i: int| self.admitted(codes[i]) as i64)
    }
}

/// A calibrated temperature, and with it every reading, fits 64 bits.
pub proof fn lemma_calibrated_fits(model: TemperatureModel, raw_temp: i32)
    ensures
        -500_000_000_000_000_000 <= model.calibrated(raw_temp) <= 500_000_000_000_000_000,
        -500_000_000_000_000_000 <= model.admitted(raw_temp) <= 500_000_000_000_000_000,
{
    let product = raw_temp * model.scale_factor;
    assert(-0x4000_0000_0000_0000 <= product <= 0x4000_0000_0000_0000) by (nonlinear_arith)
        requires
            product == raw_temp * model.scale_factor,
            -0x8000_0000 <= raw_temp <= 0x8000_0000,
            -0x8000_0000 <= model.scale_factor <= 0x8000_0000,
    ;
}

/// While the window is not full, a run of raw codes from an empty window
/// leaves in it the readings of exactly those codes.
pub proof fn lemma_run_collects(model: TemperatureModel, codes: Seq<i32>)
    requires
        model.readings.len() == 0,
        codes.len() < WINDOW_SIZE,
    ensures
        model.run(codes).readings == model.admitted_all(codes),
        model.run(codes) == (TemperatureModel { readings: model.admitted_all(codes), ..model }),
    decreases codes.len(),
{
    if codes.len() == 0 {
        assert(model.admitted_all(codes) =~= model.readings);
    } else {
        let before = codes.drop_last();
        lemma_run_collects(model, before);
        let prior = model.run(before);
        assert(prior.admitted(codes.last()) == model.admitted(codes.last()));
        assert(prior.window(codes.last()) =~= model.admitted_all(codes));
    }
}

/// Seventy raw codes fed to an empty window are answered, at the seventieth,
/// with the mean of the middle fifty of their sorted readings, or with the
/// maximum where that mean lies above it; and the window is empty again.
pub proof fn lemma_full_window_gives_trimmed_mean(model: TemperatureModel, codes: Seq<i32>)
    requires
        model.readings.len() == 0,
        codes.len() == WINDOW_SIZE,
    ensures
        ({
            let filled = model.run(codes.drop_last());
            let mean = trimmed_mean(model.admitted_all(codes));
            &&& mean <= model.max_temp ==> filled.output(codes.last()) == mean
            &&& mean > model.max_temp ==> filled.output(codes.last()) == model.max_temp
            &&& mean == sum_of(model.admitted_all(codes).sort_by(ascending()), 10, 60) / 50
            &&& filled.step(codes.last()).readings.len() == 0
            &&& model.run(codes).readings.len() == 0
        }),
{
    let before = codes.drop_last();
    lemma_run_collects(model, before);
    let filled = model.run(before);
    assert(filled.admitted(codes.last()) == model.admitted(codes.last()));
    assert(filled.window(codes.last()) =~= model.admitted_all(codes));
}

/// A reading that lies more than ten degrees below room temperature is
/// answered with room temperature, unless it fills the window.
pub proof fn lemma_fault_gives_room_temperature(model: TemperatureModel, raw_temp: i32)
    requires
        model.calibrated(raw_temp) < model.room_temperature - FAULT_MARGIN,
        !model.fills(raw_temp),
    ensures
        model.output(raw_temp) == model.room_temperature,
{
}

impl TemperatureProcessingState {
    /// The filter is well-formed: see [`TemperatureModel::wf`].
    pub open spec fn wf(&self) -> bool {
        self@.wf()
    }

    /// The filter with an empty window and the usual calibration.
    pub fn new() -> (state: TemperatureProcessingState)
        ensures
            state@ == TemperatureModel::initial(),
            state.wf(),
    {
        TemperatureProcessingState {
            temperatures: Vec::with_capacity(WINDOW_SIZE),
            scale_factor: 800_000,
            offset: 0,
            max_temp: 37_200_000,
            room_temperature: 23_200_000,
        }
    }
}

/// The order by which the window is sorted is a total order.
proof fn lemma_ascending_is_total()
    ensures
        total_ordering(ascending()),
{
}

/// A copy of the readings in ascending order.
fn sorted_copy(readings: &Vec<i64>) -> (sorted: Vec<i64>)
    ensures
        sorted@ == readings@.sort_by(ascending()),
        sorted@.len() == readings@.len(),
{
    let mut sorted: Vec<i64> = Vec::with_capacity(readings.len());
    let mut i: usize = 0;
    assert(sorted@ =~= readings@.subrange(0, 0));
    while i < readings.len()
        invariant
            i <= readings@.len(),
            sorted@.len() == i,
            sorted_by(sorted@, ascending()),
            sorted@.to_multiset() == readings@.subrange(0, i as int).to_multiset(),
        decreases readings@.len() - i,
    {
        let reading: i64 = readings[i];
        let mut at: usize = 0;
        while at < sorted.len() && sorted[at] <= reading
            invariant
                at <= sorted@.len(),
                forall|k: int| 0 <= k < at ==> sorted@[k] <= reading,
            decreases sorted@.len() - at,
        {
            at = at + 1;
        }
        proof {
            let grown = sorted@.insert(at as int, reading);
            assert forall|a: int, b: int| 0 <= a < b < grown.len() implies (
            #[trigger] ascending()(grown[a], grown[b])) by {
                if a < at && b > at {
                    assert(ascending()(sorted@[a], sorted@[b - 1]));
                } else if a < at && b < at {
                    assert(ascending()(sorted@[a], sorted@[b]));
                } else if a > at {
                    assert(ascending()(sorted@[a - 1], sorted@[b - 1]));
                } else if a == at {
                    assert(ascending()(sorted@[at as int], sorted@[b - 1]));
                }
            }
            to_multiset_insert(sorted@, at as int, reading);
            to_multiset_build(readings@.subrange(0, i as int), reading);
            assert(readings@.subrange(0, i + 1) =~= readings@.subrange(0, i as int).push(
                reading,
            ));
        }
        sorted.insert(at, reading);
        i = i + 1;
    }
    proof {
        assert(readings@.subrange(0, i as int) =~= readings@);
        readings@.lemma_sort_by_ensures(ascending());
        lemma_ascending_is_total();
        lemma_sorted_unique(sorted@, readings@.sort_by(ascending()), ascending());
    }
    sorted
}

/// Computes [`sum_of`].
fn sum_range(readings: &Vec<i64>, lo: usize, hi: usize) -> (total: i128)
    requires
        lo <= hi <= readings@.len(),
        hi - lo <= WINDOW_SIZE,
    ensures
        total == sum_of(readings@, lo as int, hi as int),
{
    let mut total: i128 = 0;
    let mut j: usize = lo;
    while j < hi
        invariant
            lo <= j <= hi <= readings@.len(),
            hi - lo <= WINDOW_SIZE,
            total == sum_of(readings@, lo as int, j as int),
            -(j - lo) * 0x8000_0000_0000_0000 <= total <= (j - lo) * 0x8000_0000_0000_0000,
        decreases hi - j,
    {
        total = total + readings[j] as i128;
        j = j + 1;
    }
    total
}

impl DataProcessor {
    /// Calibrates one raw temperature code, takes it into the window, and
    /// returns the temperature to report, in millionths of a degree Celsius.
    ///
    /// The code stands for a tenth of a degree; the reading is the code
    /// times the gain plus the offset, or room temperature where that lies
    /// more than ten degrees below it. Until the window is full the reading
    /// itself is returned. The reading that fills the window is answered
    /// with the trimmed mean of the window, cut off at the maximum, and
    /// empties the window.
    pub fn process_body_temperature(raw_temp: i32, temp_state: &mut TemperatureProcessingState)
        -> (celsius: i64)
        requires
            old(temp_state).wf(),
        ensures
            final(temp_state)@ == old(temp_state)@.step(raw_temp),
            final(temp_state).wf(),
            final(temp_state)@.readings.len() < WINDOW_SIZE,
            celsius == old(temp_state)@.output(raw_temp),
    {
        proof {
            lemma_calibrated_fits(temp_state@, raw_temp);
        }
        let product: i128 = raw_temp as i128 * temp_state.scale_factor as i128;
        let temp_value: i64 = (div_floor(product, 10) + temp_state.offset as i128) as i64;
        let adjusted_temp: i64 = if temp_value < temp_state.room_temperature as i64
            - FAULT_MARGIN {
            temp_state.room_temperature as i64
        } else {
            temp_value
        };
        temp_state.temperatures.push(adjusted_temp);
        if temp_state.temperatures.len() > WINDOW_SIZE {
            let _ = temp_state.temperatures.remove(0);
        }
        assert(temp_state.temperatures@ =~= old(temp_state)@.window(raw_temp));
        if temp_state.temperatures.len() == WINDOW_SIZE {
            let sorted_temps = sorted_copy(&temp_state.temperatures);
            let total: i128 = sum_range(&sorted_temps, TRIM, WINDOW_SIZE - TRIM);
            proof {
                lemma_sum_bounds(sorted_temps@, TRIM as int, WINDOW_SIZE - TRIM);
            }
            let average_temp: i128 = div_floor(total, (WINDOW_SIZE - 2 * TRIM) as i128);
            temp_state.temperatures.clear();
            if average_temp > temp_state.max_temp as i128 {
                temp_state.max_temp as i64
            } else {
                proof {
                    lemma_mean_fits(sorted_temps@, TRIM as int, WINDOW_SIZE - TRIM);
                }
                average_temp as i64
            }
        } else {
            adjusted_temp
        }
    }
}

/// The mean of 64-bit readings, rounded down, is no smaller than a 64-bit value.
proof fn lemma_mean_fits(readings: Seq<i64>, lo: int, hi: int)
    requires
        0 <= lo < hi <= readings.len(),
    ensures
        -0x8000_0000_0000_0000 <= sum_of(readings, lo, hi) / (hi - lo),
{
    lemma_sum_bounds(readings, lo, hi);
    let n = hi - lo;
    assert(-0x8000_0000_0000_0000 * n == n * (-0x8000_0000_0000_0000)) by (nonlinear_arith);
    vstd::arithmetic::div_mod::lemma_div_multiples_vanish(-0x8000_0000_0000_0000, n);
    vstd::arithmetic::div_mod::lemma_div_is_ordered(
        -0x8000_0000_0000_0000 * n,
        sum_of(readings, lo, hi),
        n,
    );
}

/// A sum of 64-bit readings lies within as many times the 64-bit limits.
proof fn lemma_sum_bounds(readings: Seq<i64>, lo: int, hi: int)
    requires
        0 <= lo <= hi <= readings.len(),
    ensures
        -0x8000_0000_0000_0000 * (hi - lo) <= sum_of(readings, lo, hi) <= 0x8000_0000_0000_0000
            * (hi - lo),
    decreases hi - lo,
{
    if lo < hi {
        lemma_sum_bounds(readings, lo, hi - 1);
    }
}

} // verus!
