//! The processing pipeline: queue of raw samples, processors, history.
//!
//! The pipeline itself never waits and never reads a clock. Whoever drives it
//! calls [`DataProcessor::poll`] in a loop, hands in the time, and sleeps for
//! as long as the answer says.

use vstd::prelude::*;
use crate::ecg::{EcgModel, EcgProcessingState, MAX_HEART_RATE};
use crate::fixed::MICRO;
use crate::lttb::{LttbConfig, LttbDataPoint, LttbModel, LttbProcessingState, MAX_POINTS};
use crate::oxygen::validated_oxygen;
use crate::queue::{latest, pushed, QUEUE_CAPACITY};
use crate::temperature::{TemperatureModel, TemperatureProcessingState};
use crate::types::{
    records,
    DataQueue,
    EcgStatistics,
    PerformanceMetrics,
    ProcessedDataQueue,
    ProcessedRecord,
    ProcessedVitalSigns,
    VitalSigns,
};

verus! {

/// Pause after a poll that found no sample, in milliseconds, while few polls
/// in a row have found none.
pub const SHORT_PAUSE_MS: u64 = 50;

/// Pause after a poll that found no sample, in milliseconds, once
/// [`PATIENCE`] polls in a row have found none.
pub const LONG_PAUSE_MS: u64 = 200;

/// Number of polls in a row without a sample from which the pause is long.
pub const PATIENCE: u32 = 10;

/// Time between two performance reports, in milliseconds.
pub const REPORT_INTERVAL_MS: u64 = 5000;

/// Signal quality that the statistics report: 85 of 100, in millionths.
pub const SIGNAL_QUALITY: u64 = 85_000_000;

/// The pipeline: input queue, processors and output history.
pub struct DataProcessor {
    raw_data_queue: DataQueue,
    processed_data_queue: ProcessedDataQueue,
    ecg_state: EcgProcessingState,
    temp_state: TemperatureProcessingState,
    lttb_state: LttbProcessingState,
    lttb_config: LttbConfig,
    is_running: bool,
    start_time: u64,
    total_processed: u64,
    consecutive_empty_count: u32,
    last_performance_log: u64,
}

/// Counts that go into a performance report.
#[derive(Debug, Clone, Copy, PartialEq, Eq, Structural)]
pub struct PerformanceReport {
    /// Samples processed since the pipeline was made.
    pub total_processed: u64,
    /// Points in the raw buffer of the compressor.
    pub raw_points: usize,
    /// Number of raw points at which the compressor compresses.
    pub buffer_size: usize,
    /// Points in the compressed waveform.
    pub compressed_points: usize,
}

/// What the driver of the pipeline is to do after a poll.
#[derive(Debug, Clone, Copy, PartialEq, Eq, Structural)]
pub enum WorkerAction {
    /// A sample was processed; poll again at once. A report is due where
    /// one is given.
    Continue { report: Option<PerformanceReport> },
    /// No sample was waiting; poll again after so many milliseconds.
    Sleep { millis: u64 },
    /// The pipeline is stopped; leave the loop.
    Exit,
}

/// Mathematical content of a [`DataProcessor`].
pub struct PipelineModel {
    /// Raw samples that wait, oldest first.
    pub raw: Seq<VitalSigns>,
    /// Processed samples, oldest first.
    pub processed: Seq<ProcessedRecord>,
    pub ecg: EcgModel,
    pub temperature: TemperatureModel,
    pub lttb: LttbModel,
    pub config: LttbConfig,
    pub running: bool,
    /// Time at which the pipeline was made.
    pub start_time: u64,
    pub total_processed: u64,
    /// Polls in a row that found no sample.
    pub idle_polls: u32,
    /// Time of the last performance report.
    pub last_report: u64,
}

/// The states of the three processors.
pub struct ProcessorsModel {
    pub ecg: EcgModel,
    pub temperature: TemperatureModel,
    pub lttb: LttbModel,
}

impl ProcessorsModel {
    /// The states after one sample has gone through the processors.
    pub open spec fn step(self, sample: VitalSigns, timestamp: u64, config: LttbConfig)
        -> ProcessorsModel {
        ProcessorsModel {
            ecg: self.ecg.step(sample.ecg),
            temperature: self.temperature.step(sample.temp),
            lttb: self.lttb.step(sample.ecg, timestamp, config),
        }
    }

    /// The record that the processors make of one sample.
    pub open spec fn record(self, sample: VitalSigns, timestamp: u64, config: LttbConfig)
        -> ProcessedRecord {
        ProcessedRecord {
            ecg_raw: sample.ecg,
            ecg_normalized: self.lttb.widen(sample.ecg).amplitude(sample.ecg) as i32,
            ecg_lttb_compressed: self.lttb.step(sample.ecg, timestamp, config).compressed,
            body_temperature: self.temperature.output(sample.temp) as i64,
            blood_oxygen: validated_oxygen(sample.spo2),
            heart_rate: self.ecg.step(sample.ecg).heart_rate,
            rr_interval: self.ecg.step(sample.ecg).rr_interval,
            timestamp,
        }
    }

    /// The processors are well-formed.
    pub open spec fn wf(self) -> bool {
        &&& self.ecg.wf()
        &&& self.temperature.wf()
        &&& self.lttb.wf()
    }

    /// No counter of the processors is at its limit.
    pub open spec fn has_headroom(self) -> bool {
        &&& self.ecg.peak_interval < u32::MAX
        &&& self.lttb.sample_counter < u64::MAX
    }
}

impl PipelineModel {
    /// The pipeline as it is made: stopped, with fresh processors and an
    /// empty history.
    pub open spec fn initial(raw: Seq<VitalSigns>, config: LttbConfig, now_ms: u64)
        -> PipelineModel {
        PipelineModel {
            raw,
            processed: Seq::empty(),
            ecg: EcgModel::initial(),
            temperature: TemperatureModel::initial(),
            lttb: LttbModel::initial(config),
            config,
            running: false,
            start_time: now_ms,
            total_processed: 0,
            idle_polls: 0,
            last_report: now_ms,
        }
    }

    /// The states of the processors.
    pub open spec fn processors(self) -> ProcessorsModel {
        ProcessorsModel { ecg: self.ecg, temperature: self.temperature, lttb: self.lttb }
    }

    /// Queue and history are within their capacity, the processors are
    /// well-formed, and the settings can be used.
    pub open spec fn wf(self) -> bool {
        &&& self.raw.len() <= QUEUE_CAPACITY
        &&& self.processed.len() <= QUEUE_CAPACITY
        &&& self.processors().wf()
        &&& self.config.enable_dynamic_range ==> self.config.range_update_interval > 0
    }

    /// No counter is at its limit, so one more sample can be processed.
    pub open spec fn has_headroom(self) -> bool {
        &&& self.processors().has_headroom()
        &&& self.total_processed < u64::MAX
    }

    /// Whether a performance report is due at `now_ms`.
    pub open spec fn report_due(self, now_ms: u64) -> bool {
        now_ms >= self.last_report && now_ms - self.last_report >= REPORT_INTERVAL_MS
    }

    /// The pipeline after a poll that processed the oldest waiting sample.
    pub open spec fn consume(self, now_ms: u64) -> PipelineModel
        recommends
            self.raw.len() > 0,
    {
        let after = self.processors().step(self.raw[0], now_ms, self.config);
        PipelineModel {
            raw: self.raw.drop_first(),
            processed: pushed(
                self.processed,
                self.processors().record(self.raw[0], now_ms, self.config),
            ),
            ecg: after.ecg,
            temperature: after.temperature,
            lttb: after.lttb,
            total_processed: (self.total_processed + 1) as u64,
            idle_polls: 0,
            last_report: if self.report_due(now_ms) {
                now_ms
            } else {
                self.last_report
            },
            ..self
        }
    }

    /// The report that a poll gives after it has processed a sample, where
    /// one is due.
    pub open spec fn report(self, now_ms: u64) -> Option<PerformanceReport>
        recommends
            self.raw.len() > 0,
    {
        if self.report_due(now_ms) {
            let after = self.consume(now_ms);
            Some(
                PerformanceReport {
                    total_processed: after.total_processed,
                    raw_points: after.lttb.raw.len() as usize,
                    buffer_size: after.lttb.buffer_size,
                    compressed_points: after.lttb.compressed.len() as usize,
                },
            )
        } else {
            None
        }
    }

    /// The pipeline after a poll that found no sample.
    pub open spec fn idle(self) -> PipelineModel {
        PipelineModel {
            idle_polls: if self.idle_polls < u32::MAX {
                (self.idle_polls + 1) as u32
            } else {
                self.idle_polls
            },
            ..self
        }
    }

    /// The pause after a poll that found no sample: short while fewer than
    /// [`PATIENCE`] polls in a row have found none, this one counted.
    pub open spec fn pause(self) -> u64 {
        if self.idle().idle_polls < PATIENCE {
            SHORT_PAUSE_MS
        } else {
            LONG_PAUSE_MS
        }
    }

    /// The pipeline after one poll.
    pub open spec fn poll(self, now_ms: u64) -> PipelineModel {
        if !self.running {
            self
        } else if self.raw.len() > 0 {
            self.consume(now_ms)
        } else {
            self.idle()
        }
    }

    /// What one poll tells the driver to do.
    pub open spec fn action(self, now_ms: u64) -> WorkerAction {
        if !self.running {
            WorkerAction::Exit
        } else if self.raw.len() > 0 {
            WorkerAction::Continue { report: self.report(now_ms) }
        } else {
            WorkerAction::Sleep { millis: self.pause() }
        }
    }

    /// Time since the pipeline was made, in milliseconds; 0 where the clock
    /// reads earlier than then.
    pub open spec fn elapsed(self, now_ms: u64) -> int {
        if now_ms >= self.start_time {
            now_ms - self.start_time
        } else {
            0
        }
    }

    /// The figures on the heart rate and the compression.
    ///
    /// Mean, largest and smallest heart rate are the heart rate held now,
    /// the variability is the RR interval held now, and the efficiency is the
    /// number of raw points per compressed point, or 1 where there is no
    /// compressed point.
    pub open spec fn statistics(self) -> EcgStatistics {
        EcgStatistics {
            current_heart_rate: self.ecg.heart_rate,
            average_heart_rate: self.ecg.heart_rate,
            max_heart_rate: self.ecg.heart_rate,
            min_heart_rate: self.ecg.heart_rate,
            rr_variability: self.ecg.rr_interval,
            signal_quality: SIGNAL_QUALITY,
            compression_efficiency: if self.lttb.compressed.len() > 0 {
                (self.lttb.raw.len() * MICRO / (self.lttb.compressed.len() as int)) as u64
            } else {
                MICRO as u64
            },
        }
    }

    /// The figures on the throughput at `now_ms`.
    ///
    /// The rate is the number of processed samples over the seconds since
    /// the pipeline was made, and 0 where no time has passed. The saving is
    /// `(1 - compressed / raw) * 100`, and 0 where there is no compressed
    /// point.
    pub open spec fn metrics(self, now_ms: u64) -> PerformanceMetrics {
        PerformanceMetrics {
            processing_rate: if self.elapsed(now_ms) > 0 {
                (self.total_processed * 1000 * MICRO / self.elapsed(now_ms)) as u128
            } else {
                0
            },
            memory_usage: 0,
            cpu_usage: 0,
            queue_length: self.processed.len() as usize,
            compression_ratio_achieved: if self.lttb.compressed.len() == 0 {
                Some(0i64)
            } else if self.lttb.raw.len() == 0 {
                None
            } else {
                Some(
                    ((self.lttb.raw.len() - self.lttb.compressed.len()) * 100 * MICRO / (
                    self.lttb.raw.len() as int)) as i64,
                )
            },
        }
    }
}

impl View for DataProcessor {
    type V = PipelineModel;

    /// The content of the pipeline.
    closed spec fn view(&self) -> PipelineModel {
        PipelineModel {
            raw: self.raw_data_queue@,
            processed: records(self.processed_data_queue@),
            ecg: self.ecg_state@,
            temperature: self.temp_state@,
            lttb: self.lttb_state@,
            config: self.lttb_config,
            running: self.is_running,
            start_time: self.start_time,
            total_processed: self.total_processed,
            idle_polls: self.consecutive_empty_count,
            last_report: self.last_performance_log,
        }
    }
}

impl DataProcessor {
    /// The pipeline is well-formed: see [`PipelineModel::wf`].
    pub open spec fn wf(&self) -> bool {
        self@.wf()
    }

    /// A stopped pipeline over the given queue of raw samples, with the
    /// default settings of the compressor, made at `now_ms`.
    pub fn new(raw_data_queue: DataQueue, now_ms: u64) -> (processor: Self)
        requires
            raw_data_queue.wf(),
        ensures
            processor@ == PipelineModel::initial(raw_data_queue@, LttbConfig::standard(), now_ms),
            processor.wf(),
    {
        Self::with_config(raw_data_queue, LttbConfig::default(), now_ms)
    }

    /// A stopped pipeline over the given queue of raw samples, with the
    /// given settings of the compressor, made at `now_ms`.
    pub fn with_config(raw_data_queue: DataQueue, lttb_config: LttbConfig, now_ms: u64) -> (processor:
        Self)
        requires
            raw_data_queue.wf(),
            lttb_config.wf(),
        ensures
            processor@ == PipelineModel::initial(raw_data_queue@, lttb_config, now_ms),
            processor.wf(),
    {
        let processor = DataProcessor {
            raw_data_queue,
            processed_data_queue: ProcessedDataQueue::new(),
            ecg_state: EcgProcessingState::new(),
            temp_state: TemperatureProcessingState::new(),
            lttb_state: LttbProcessingState::new(&lttb_config),
            lttb_config,
            is_running: false,
            start_time: now_ms,
            total_processed: 0,
            consecutive_empty_count: 0,
            last_performance_log: now_ms,
        };
        assert(processor@.processed =~= Seq::empty());
        processor
    }

    /// Sets the pipeline running; polls process samples from now on. The
    /// count of idle polls starts over, and the next report is due one
    /// interval after `now_ms`.
    pub fn start(&mut self, now_ms: u64)
        ensures
            final(self)@ == (PipelineModel {
                running: true,
                idle_polls: 0,
                last_report: now_ms,
                ..old(self)@
            }),
    {
        self.is_running = true;
        self.consecutive_empty_count = 0;
        self.last_performance_log = now_ms;
    }

    /// Stops the pipeline; the next poll tells the driver to leave its loop.
    pub fn stop(&mut self)
        ensures
            final(self)@ == (PipelineModel { running: false, ..old(self)@ }),
    {
        self.is_running = false;
    }

    /// Whether the pipeline is running.
    pub fn is_running(&self) -> (running: bool)
        ensures
            running == self@.running,
    {
        self.is_running
    }

    /// Puts a raw sample into the queue; a full queue drops its oldest sample.
    pub fn submit(&mut self, sample: VitalSigns)
        ensures
            final(self)@ == (PipelineModel { raw: pushed(old(self)@.raw, sample), ..old(self)@ }),
            old(self).wf() ==> final(self).wf(),
    {
        self.raw_data_queue.push(sample);
    }

    /// Whether one more sample can be processed without a counter running over.
    pub fn can_process(&self) -> (able: bool)
        ensures
            able == self@.has_headroom(),
    {
        self.ecg_state.peak_interval_num < u32::MAX && self.lttb_state.sample_counter < u64::MAX
            && self.total_processed < u64::MAX
    }

    /// Runs one sample through the processors, in the order temperature,
    /// blood oxygen, heart rate, compression, and returns the record of it.
    pub fn process_vital_signs(
        vital_signs: VitalSigns,
        timestamp: u64,
        ecg_state: &mut EcgProcessingState,
        temp_state: &mut TemperatureProcessingState,
        lttb_state: &mut LttbProcessingState,
        lttb_config: &LttbConfig,
    ) -> (processed: ProcessedVitalSigns)
        requires
            old(ecg_state).wf(),
            old(temp_state).wf(),
            old(lttb_state).wf(),
            old(ecg_state).peak_interval_num < u32::MAX,
            old(lttb_state).sample_counter < u64::MAX,
            lttb_config.enable_dynamic_range ==> lttb_config.range_update_interval > 0,
        ensures
            final(ecg_state)@ == old(ecg_state)@.step(vital_signs.ecg),
            final(temp_state)@ == old(temp_state)@.step(vital_signs.temp),
            final(lttb_state)@ == old(lttb_state)@.step(vital_signs.ecg, timestamp, *lttb_config),
            final(ecg_state).wf(),
            final(temp_state).wf(),
            final(lttb_state).wf(),
            processed@ == (ProcessorsModel {
                ecg: old(ecg_state)@,
                temperature: old(temp_state)@,
                lttb: old(lttb_state)@,
            }).record(vital_signs, timestamp, *lttb_config),
            0 <= processed.heart_rate <= MAX_HEART_RATE,
            -MICRO <= processed.ecg_normalized <= MICRO,
            processed.blood_oxygen >= 0,
    {
        let body_temperature = Self::process_body_temperature(vital_signs.temp, temp_state);
        let blood_oxygen = Self::process_blood_oxygen(vital_signs.spo2);
        let (heart_rate, rr_interval) = Self::process_ecg_data(vital_signs.ecg, ecg_state);
        let (ecg_normalized, ecg_lttb_compressed) = Self::process_ecg_lttb(
            vital_signs.ecg,
            timestamp,
            lttb_state,
            lttb_config,
        );
        ProcessedVitalSigns {
            ecg_raw: vital_signs.ecg,
            ecg_normalized,
            ecg_lttb_compressed,
            body_temperature,
            blood_oxygen,
            heart_rate,
            rr_interval,
            timestamp,
        }
    }

    /// One turn of the worker loop at time `now_ms`.
    ///
    /// A stopped pipeline does nothing and tells the driver to leave. A
    /// running pipeline takes the oldest waiting sample, processes it with
    /// `now_ms` as its timestamp, and appends the record to the history; the
    /// driver polls again at once. With no sample waiting nothing changes but
    /// the count of idle polls, and the driver is told how long to sleep.
    pub fn poll(&mut self, now_ms: u64) -> (action: WorkerAction)
        requires
            old(self).wf(),
            old(self)@.has_headroom(),
        ensures
            final(self)@ == old(self)@.poll(now_ms),
            action == old(self)@.action(now_ms),
            final(self).wf(),
    {
        if !self.is_running {
            return WorkerAction::Exit;
        }
        let raw_data = self.raw_data_queue.pop_front();
        match raw_data {
            Some(vital_signs) => {
                self.consecutive_empty_count = 0;
                let processed = Self::process_vital_signs(
                    vital_signs,
                    now_ms,
                    &mut self.ecg_state,
                    &mut self.temp_state,
                    &mut self.lttb_state,
                    &self.lttb_config,
                );
                self.total_processed = self.total_processed + 1;
                let report = if now_ms >= self.last_performance_log && now_ms
                    - self.last_performance_log >= REPORT_INTERVAL_MS {
                    self.last_performance_log = now_ms;
                    Some(
                        PerformanceReport {
                            total_processed: self.total_processed,
                            raw_points: self.lttb_state.raw_buffer.len(),
                            buffer_size: self.lttb_state.buffer_size,
                            compressed_points: self.lttb_state.compressed_buffer.len(),
                        },
                    )
                } else {
                    None
                };
                let ghost history = self.processed_data_queue@;
                self.processed_data_queue.push(processed);
                proof {
                    assert(records(pushed(history, processed)) =~= pushed(
                        records(history),
                        processed@,
                    ));
                }
                WorkerAction::Continue { report }
            },
            None => {
                if self.consecutive_empty_count < u32::MAX {
                    self.consecutive_empty_count = self.consecutive_empty_count + 1;
                }
                let millis = if self.consecutive_empty_count < PATIENCE {
                    SHORT_PAUSE_MS
                } else {
                    LONG_PAUSE_MS
                };
                WorkerAction::Sleep { millis }
            },
        }
    }

    /// The `count` most recent records of the history, newest first; all of
    /// them where there are fewer.
    pub fn get_processed_data(&self, count: usize) -> (data: Vec<ProcessedVitalSigns>)
        ensures
            records(data@) == latest(self@.processed, count as int),
    {
        let len = self.processed_data_queue.len();
        let take = if count < len {
            count
        } else {
            len
        };
        let mut data: Vec<ProcessedVitalSigns> = Vec::with_capacity(take);
        let mut i: usize = 0;
        while i < take
            invariant
                i <= take <= len,
                len == self.processed_data_queue@.len(),
                data@.len() == i,
                forall|k: int|
                    0 <= k < i ==> (#[trigger] data@[k])@ == self.processed_data_queue@[len - 1
                        - k]@,
            decreases take - i,
        {
            let copy = self.processed_data_queue.get(len - 1 - i).duplicate();
            data.push(copy);
            i = i + 1;
        }
        assert(records(data@) =~= latest(self@.processed, count as int));
        data
    }

    /// The compressed waveform as it stands.
    pub fn get_lttb_compressed_data(&self) -> (data: Vec<LttbDataPoint>)
        ensures
            data@ == self@.lttb.compressed,
    {
        let data = self.lttb_state.compressed_buffer.clone();
        assert(data@ == self.lttb_state.compressed_buffer@);
        data
    }

    /// The figures on the heart rate and the compression.
    pub fn get_ecg_statistics(&self) -> (statistics: EcgStatistics)
        requires
            self.wf(),
        ensures
            statistics == self@.statistics(),
    {
        let raw_points = self.lttb_state.raw_buffer.len();
        let compressed_points = self.lttb_state.compressed_buffer.len();
        let compression_efficiency: u64 = if compressed_points > 0 {
            assert(raw_points * MICRO <= 0xffff_ffff * MICRO) by (nonlinear_arith)
                requires
                    0 <= raw_points <= 0xffff_ffff,
            ;
            proof {
                vstd::arithmetic::div_mod::lemma_div_is_ordered_by_denominator(
                    raw_points * MICRO,
                    1,
                    compressed_points as int,
                );
                vstd::arithmetic::div_mod::lemma_div_pos_is_pos(
                    raw_points * MICRO,
                    compressed_points as int,
                );
            }
            raw_points as u64 * (MICRO as u64) / compressed_points as u64
        } else {
            MICRO as u64
        };
        EcgStatistics {
            current_heart_rate: self.ecg_state.last_heart_rate,
            average_heart_rate: self.ecg_state.last_heart_rate,
            max_heart_rate: self.ecg_state.last_heart_rate,
            min_heart_rate: self.ecg_state.last_heart_rate,
            rr_variability: self.ecg_state.last_rr_interval,
            signal_quality: SIGNAL_QUALITY,
            compression_efficiency,
        }
    }

    /// The figures on the throughput at `now_ms`.
    pub fn get_performance_metrics(&self, now_ms: u64) -> (metrics: PerformanceMetrics)
        requires
            self.wf(),
        ensures
            metrics == self@.metrics(now_ms),
    {
        let elapsed_ms: u64 = if now_ms >= self.start_time {
            now_ms - self.start_time
        } else {
            0
        };
        let processing_rate: u128 = if elapsed_ms > 0 {
            assert(self.total_processed * 1000 * MICRO <= 0xffff_ffff_ffff_ffff * 1_000_000_000)
                by (nonlinear_arith)
                requires
                    0 <= self.total_processed <= 0xffff_ffff_ffff_ffff,
                    MICRO == 1_000_000,
            ;
            proof {
                vstd::arithmetic::div_mod::lemma_div_is_ordered_by_denominator(
                    self.total_processed * 1000 * MICRO,
                    1,
                    elapsed_ms as int,
                );
                vstd::arithmetic::div_mod::lemma_div_pos_is_pos(
                    self.total_processed * 1000 * MICRO,
                    elapsed_ms as int,
                );
            }
            self.total_processed as u128 * 1000 * (MICRO as u128) / elapsed_ms as u128
        } else {
            0
        };
        let queue_length = self.processed_data_queue.len();
        let raw_points = self.lttb_state.raw_buffer.len();
        let compressed_points = self.lttb_state.compressed_buffer.len();
        let compression_ratio_achieved: Option<i64> = if compressed_points == 0 {
            Some(0)
        } else if raw_points == 0 {
            None
        } else {
            let saved: i128 = raw_points as i128 - compressed_points as i128;
            proof {
                lemma_saving_fits(raw_points as int, compressed_points as int);
            }
            Some(crate::fixed::div_floor(saved * 100 * MICRO as i128, raw_points as i128) as i64)
        };
        PerformanceMetrics {
            processing_rate,
            memory_usage: 0,
            cpu_usage: 0,
            queue_length,
            compression_ratio_achieved,
        }
    }
}

/// The saving of a compression lies between minus the largest number of
/// points, in percent, and 100 percent.
proof fn lemma_saving_fits(raw_points: int, compressed_points: int)
    requires
        0 < raw_points <= MAX_POINTS,
        0 <= compressed_points <= MAX_POINTS,
    ensures
        -(0xffff_ffff * 100 * MICRO) <= (raw_points - compressed_points) * 100 * MICRO,
        (raw_points - compressed_points) * 100 * MICRO <= 0xffff_ffff * 100 * MICRO,
        -(0xffff_ffff * 100 * MICRO) <= (raw_points - compressed_points) * 100 * MICRO
            / raw_points <= 100 * MICRO,
{
    let saved = (raw_points - compressed_points) * 100 * MICRO;
    assert(saved == (raw_points - compressed_points) * 100_000_000);
    assert(saved <= raw_points * 100_000_000);
    assert(raw_points * 100_000_000 == 100_000_000 * raw_points);
    vstd::arithmetic::div_mod::lemma_div_multiples_vanish(100_000_000, raw_points);
    vstd::arithmetic::div_mod::lemma_div_is_ordered(saved, 100_000_000 * raw_points, raw_points);
    if saved >= 0 {
        vstd::arithmetic::div_mod::lemma_div_pos_is_pos(saved, raw_points);
    } else {
        let low = -(0xffff_ffff * 100_000_000int);
        assert(low * raw_points <= saved) by (nonlinear_arith)
            requires
                low <= saved <= 0,
                raw_points >= 1,
                low <= 0,
        ;
        vstd::arithmetic::div_mod::lemma_div_multiples_vanish(low, raw_points);
        assert(low * raw_points == raw_points * low) by (nonlinear_arith);
        vstd::arithmetic::div_mod::lemma_div_is_ordered(low * raw_points, saved, raw_points);
    }
}

} // verus!
