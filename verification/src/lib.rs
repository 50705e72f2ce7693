//! Streaming core of a vital-signs monitor.
//!
//! Raw samples (ECG amplitude, blood-oxygen saturation, temperature code)
//! wait in a bounded queue. The pipeline takes them one by one through four
//! processors, in this order: the temperature filter, the blood-oxygen
//! validation, the heart-rate estimator and the waveform compressor. The
//! record of each sample enters a bounded history.
//!
//! # Numbers
//!
//! The library computes with integers only. A real-valued quantity is held
//! in millionths of its unit ([`fixed::MICRO`] steps to one unit), and where a
//! result has no exact value in millionths it is rounded down. So a
//! temperature of 29.6 degrees is `29_600_000`, a heart rate of 75 beats per
//! minute is `75_000_000`, and a normalized amplitude lies between
//! `-1_000_000` and `1_000_000`. Every contract states the result exactly.
//!
//! # Time, threads and devices
//!
//! The library never waits, never reads a clock and never opens a device.
//! The host hands in the time, runs the loops and does what the library
//! answers: see [`data_processor::DataProcessor::poll`] for the pipeline and
//! [`serial_manager::SerialManager`] for the source of the samples.

pub mod fixed;
pub mod text;
pub mod queue;
pub mod types;
pub mod oxygen;
pub mod ecg;
pub mod lttb;
pub mod temperature;
pub mod data_processor;
pub mod serial_reader;
pub mod test_reader;
pub mod serial_manager;
