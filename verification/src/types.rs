//! Records that pass through the pipeline, and the figures derived from them.

use vstd::prelude::*;
use crate::lttb::LttbDataPoint;
use crate::queue::BoundedQueue;

verus! {

/// One raw sample as the sensor delivers it.
#[derive(Debug, Clone, Copy, PartialEq, Eq, Structural)]
pub struct VitalSigns {
    /// ECG amplitude, in counts.
    pub ecg: i32,
    /// Blood-oxygen saturation, in percent.
    pub spo2: i32,
    /// Temperature code, in tenths of a degree before calibration.
    pub temp: i32,
}

/// One processed sample. Real-valued fields are in millionths of their unit.
#[derive(Debug, Clone, PartialEq, Eq)]
pub struct ProcessedVitalSigns {
    /// ECG amplitude as it came.
    pub ecg_raw: i32,
    /// ECG amplitude normalized to the range from -1 to 1.
    pub ecg_normalized: i32,
    /// Compressed waveform as it stood after this sample.
    pub ecg_lttb_compressed: Vec<LttbDataPoint>,
    /// Filtered body temperature, in degrees Celsius.
    pub body_temperature: i64,
    /// Validated blood-oxygen saturation, in percent.
    pub blood_oxygen: i32,
    /// Heart rate, in beats per minute.
    pub heart_rate: u64,
    /// RR interval, in seconds.
    pub rr_interval: u64,
    /// Time at which the sample was processed, in milliseconds since the epoch.
    pub timestamp: u64,
}

/// Mathematical content of a [`ProcessedVitalSigns`].
pub struct ProcessedRecord {
    pub ecg_raw: i32,
    pub ecg_normalized: i32,
    pub ecg_lttb_compressed: Seq<LttbDataPoint>,
    pub body_temperature: i64,
    pub blood_oxygen: i32,
    pub heart_rate: u64,
    pub rr_interval: u64,
    pub timestamp: u64,
}

impl View for ProcessedVitalSigns {
    type V = ProcessedRecord;

    open spec fn view(&self) -> ProcessedRecord {
        ProcessedRecord {
            ecg_raw: self.ecg_raw,
            ecg_normalized: self.ecg_normalized,
            ecg_lttb_compressed: self.ecg_lttb_compressed@,
            body_temperature: self.body_temperature,
            blood_oxygen: self.blood_oxygen,
            heart_rate: self.heart_rate,
            rr_interval: self.rr_interval,
            timestamp: self.timestamp,
        }
    }
}

impl ProcessedVitalSigns {
    /// A copy of the record.
    pub fn duplicate(&self) -> (copy: ProcessedVitalSigns)
        ensures
            copy@ == self@,
    {
        let waveform = self.ecg_lttb_compressed.clone();
        assert(waveform@ == self.ecg_lttb_compressed@);
        ProcessedVitalSigns {
            ecg_raw: self.ecg_raw,
            ecg_normalized: self.ecg_normalized,
            ecg_lttb_compressed: waveform,
            body_temperature: self.body_temperature,
            blood_oxygen: self.blood_oxygen,
            heart_rate: self.heart_rate,
            rr_interval: self.rr_interval,
            timestamp: self.timestamp,
        }
    }
}

/// The records of a sequence, each by its content.
pub open spec fn records(items: Seq<ProcessedVitalSigns>) -> Seq<ProcessedRecord> {
    items.map_values(|item: ProcessedVitalSigns| item@)
}

/// Queue of raw samples that wait to be processed.
pub type DataQueue = BoundedQueue<VitalSigns>;

/// History of processed samples.
pub type ProcessedDataQueue = BoundedQueue<ProcessedVitalSigns>;

/// Serial line to read samples from.
#[derive(Debug, Clone, PartialEq, Eq)]
pub struct SerialConfig {
    /// Name of the port.
    pub port_name: String,
    /// Speed of the line, in baud.
    pub baud_rate: u32,
}

/// Where the samples come from.
#[derive(Debug, Clone, Copy, PartialEq, Eq, Structural)]
pub enum DataSourceType {
    /// A device on a serial line.
    RealSerial,
    /// The built-in generator of test samples.
    TestSimulation,
}

/// The source that a name stands for: `real` for a device on a serial line,
/// `test` for the generator of test samples.
pub open spec fn source_named(name: Seq<char>) -> Option<DataSourceType> {
    if name == "real"@ {
        Some(DataSourceType::RealSerial)
    } else if name == "test"@ {
        Some(DataSourceType::TestSimulation)
    } else {
        None
    }
}

impl DataSourceType {
    /// The source that a name stands for, or an error for a name that stands
    /// for none.
    pub fn from_name(name: &str) -> (result: Result<DataSourceType, String>)
        ensures
            match source_named(name@) {
                Some(source) => result == Ok::<DataSourceType, String>(source),
                None => result matches Err(reason) && reason@
                    == "无效的数据源类型，请使用 'real' 或 'test'"@,
            },
    {
        let given = name.to_owned();
        if given == "real".to_owned() {
            Ok(DataSourceType::RealSerial)
        } else if given == "test".to_owned() {
            Ok(DataSourceType::TestSimulation)
        } else {
            Err("无效的数据源类型，请使用 'real' 或 'test'".to_string())
        }
    }

    /// The name of the source: `real` or `test`.
    pub fn name(&self) -> (name: String)
        ensures
            name@ == match self {
                DataSourceType::RealSerial => "real"@,
                DataSourceType::TestSimulation => "test"@,
            },
            source_named(name@) == Some(*self),
    {
        proof {
            reveal_strlit("real");
            reveal_strlit("test");
            assert("real"@[0] != "test"@[0]);
        }
        match self {
            DataSourceType::RealSerial => "real".to_string(),
            DataSourceType::TestSimulation => "test".to_string(),
        }
    }
}

/// State of the connection to the source of samples.
#[derive(Debug, Clone, PartialEq, Eq)]
pub enum SerialStatus {
    /// Connected; holds the name of the port.
    Connected(String),
    /// Not connected.
    Disconnected,
    /// Failed; holds the reason.
    Error(String),
}

/// State of the processing.
#[derive(Debug, Clone, PartialEq, Eq)]
pub enum ProcessingStatus {
    /// Nothing to do.
    Idle,
    /// Samples are being processed.
    Processing,
    /// A compression is being made.
    Compressing,
    /// Failed; holds the reason.
    Error(String),
}

/// Figures on the heart rate and the compression. Real-valued fields are in
/// millionths of their unit.
#[derive(Debug, Clone, Copy, PartialEq, Eq, Structural)]
pub struct EcgStatistics {
    /// Heart rate held now, in beats per minute.
    pub current_heart_rate: u64,
    /// Mean heart rate, in beats per minute.
    pub average_heart_rate: u64,
    /// Largest heart rate, in beats per minute.
    pub max_heart_rate: u64,
    /// Smallest heart rate, in beats per minute.
    pub min_heart_rate: u64,
    /// Variability of the RR interval, in seconds.
    pub rr_variability: u64,
    /// Quality of the signal, from 0 to 100.
    pub signal_quality: u64,
    /// Raw points per compressed point.
    pub compression_efficiency: u64,
}

/// Figures on the throughput of the pipeline. Real-valued fields are in
/// millionths of their unit.
#[derive(Debug, Clone, Copy, PartialEq, Eq, Structural)]
pub struct PerformanceMetrics {
    /// Samples processed per second.
    pub processing_rate: u128,
    /// Memory in use, in megabytes; not measured.
    pub memory_usage: u64,
    /// Processor load, in percent; not measured.
    pub cpu_usage: u64,
    /// Number of records in the history.
    pub queue_length: usize,
    /// Share of the raw points that the compression saved, in percent;
    /// `None` where there is a compressed waveform and no raw point to
    /// compare it with.
    pub compression_ratio_achieved: Option<i64>,
}

/// One processed sample with the figures that go with it.
#[derive(Debug, Clone, PartialEq, Eq)]
pub struct RealtimeDataPacket {
    /// The processed sample.
    pub vital_signs: ProcessedVitalSigns,
    /// Figures on the heart rate and the compression.
    pub ecg_statistics: EcgStatistics,
    /// State of the processing.
    pub processing_status: ProcessingStatus,
    /// Figures on the throughput.
    pub performance_metrics: PerformanceMetrics,
}

} // verus!
