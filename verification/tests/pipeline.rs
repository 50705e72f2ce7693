use vital_signs::data_processor::{DataProcessor, PerformanceReport, WorkerAction};
use vital_signs::lttb::LttbConfig;
use vital_signs::queue::BoundedQueue;
use vital_signs::types::{ProcessedVitalSigns, VitalSigns};

fn sample(ecg: i32) -> VitalSigns {
    VitalSigns { ecg, spo2: 98, temp: 370 }
}

fn ramp_cycle() -> Vec<i32> {
    let mut cycle = Vec::new();
    for step in 0..12 {
        cycle.push(100 + 50 * step);
    }
    for step in 0..11 {
        cycle.push(600 - 50 * step);
    }
    cycle
}

#[test]
fn pipeline_starts_stopped_and_empty() {
    let mut processor = DataProcessor::new(BoundedQueue::new(), 10);
    assert!(!processor.is_running());
    assert!(processor.can_process());
    assert!(processor.get_processed_data(5).is_empty());
    assert!(processor.get_lttb_compressed_data().is_empty());
    assert_eq!(processor.poll(11), WorkerAction::Exit);
}

#[test]
fn pipeline_stopped_does_not_consume() {
    let mut processor = DataProcessor::new(BoundedQueue::new(), 0);
    processor.submit(sample(100));
    assert_eq!(processor.poll(1), WorkerAction::Exit);
    assert!(processor.get_processed_data(1).is_empty());
    processor.start(2);
    assert!(processor.is_running());
    assert_eq!(processor.poll(3), WorkerAction::Continue { report: None });
    assert_eq!(processor.get_processed_data(1).len(), 1);
    processor.stop();
    assert!(!processor.is_running());
    processor.submit(sample(100));
    assert_eq!(processor.poll(4), WorkerAction::Exit);
    assert_eq!(processor.get_processed_data(9).len(), 1);
}

#[test]
fn pipeline_takes_the_queue_it_is_given() {
    let mut queue = BoundedQueue::new();
    queue.push(sample(1));
    queue.push(sample(2));
    let mut processor = DataProcessor::new(queue, 0);
    processor.start(0);
    assert_eq!(processor.poll(1), WorkerAction::Continue { report: None });
    assert_eq!(processor.poll(2), WorkerAction::Continue { report: None });
    assert_eq!(processor.poll(3), WorkerAction::Sleep { millis: 50 });
    let data = processor.get_processed_data(2);
    assert_eq!(data[0].ecg_raw, 2);
    assert_eq!(data[1].ecg_raw, 1);
}

#[test]
fn pipeline_backs_off_when_idle() {
    let mut processor = DataProcessor::new(BoundedQueue::new(), 0);
    processor.start(0);
    for _ in 0..9 {
        assert_eq!(processor.poll(1), WorkerAction::Sleep { millis: 50 });
    }
    for _ in 0..5 {
        assert_eq!(processor.poll(1), WorkerAction::Sleep { millis: 200 });
    }
    processor.submit(sample(100));
    assert_eq!(processor.poll(1), WorkerAction::Continue { report: None });
    assert_eq!(processor.poll(1), WorkerAction::Sleep { millis: 50 });
}

#[test]
fn pipeline_start_resets_the_idle_count() {
    let mut processor = DataProcessor::new(BoundedQueue::new(), 0);
    processor.start(0);
    for _ in 0..12 {
        processor.poll(1);
    }
    assert_eq!(processor.poll(1), WorkerAction::Sleep { millis: 200 });
    processor.stop();
    processor.start(5);
    assert_eq!(processor.poll(6), WorkerAction::Sleep { millis: 50 });
}

#[test]
fn pipeline_processes_one_sample() {
    let mut processor = DataProcessor::new(BoundedQueue::new(), 1000);
    processor.start(1000);
    processor.submit(VitalSigns { ecg: 100, spo2: 0, temp: 100 });
    assert_eq!(processor.poll(1234), WorkerAction::Continue { report: None });
    let data = processor.get_processed_data(10);
    assert_eq!(
        data,
        vec![ProcessedVitalSigns {
            ecg_raw: 100,
            ecg_normalized: 0,
            ecg_lttb_compressed: Vec::new(),
            body_temperature: 23_200_000,
            blood_oxygen: 0,
            heart_rate: 0,
            rr_interval: 0,
            timestamp: 1234,
        }]
    );
}

#[test]
fn pipeline_ramp_scenario_updates_heart_rate() {
    let mut processor = DataProcessor::new(BoundedQueue::new(), 5000);
    processor.start(5000);
    let cycle = ramp_cycle();
    let mut timestamp = 5000;
    for _ in 0..14 {
        for ecg in &cycle {
            processor.submit(sample(*ecg));
            assert_eq!(processor.poll(timestamp), WorkerAction::Continue { report: None });
            timestamp += 1;
        }
    }
    let mut data = processor.get_processed_data(1000);
    data.reverse();
    assert_eq!(data.len(), 322);
    for index in 0..311 {
        assert_eq!(data[index].heart_rate, 0);
        assert_eq!(data[index].rr_interval, 0);
    }
    for index in 311..322 {
        assert_eq!(data[index].heart_rate, 48_701_298);
        assert_eq!(data[index].rr_interval, 1_232_000);
    }
    for record in &data {
        assert_eq!(record.blood_oxygen, 98);
        assert!(record.ecg_lttb_compressed.is_empty());
    }
    assert_eq!(data[0].ecg_normalized, 0);
    assert_eq!(data[11].ecg_raw, 650);
    assert_eq!(data[11].ecg_normalized, 1_000_000);
    assert_eq!(data[11].timestamp, 5011);
    assert_eq!(data[68].body_temperature, 29_600_000);
    assert_eq!(data[69].body_temperature, 29_600_000);
    assert_eq!(data[69].ecg_normalized, -1_000_000);
    assert_eq!(data[70].ecg_normalized, -818_182);
    assert_eq!(data[311].ecg_raw, 600);
    assert_eq!(data[311].ecg_normalized, 818_181);
    let statistics = processor.get_ecg_statistics();
    assert_eq!(statistics.current_heart_rate, 48_701_298);
    assert_eq!(statistics.average_heart_rate, 48_701_298);
    assert_eq!(statistics.max_heart_rate, 48_701_298);
    assert_eq!(statistics.min_heart_rate, 48_701_298);
    assert_eq!(statistics.rr_variability, 1_232_000);
    assert_eq!(statistics.signal_quality, 85_000_000);
    assert_eq!(statistics.compression_efficiency, 1_000_000);
}

#[test]
fn pipeline_1000_samples_compress_once() {
    let config = LttbConfig {
        buffer_size: 1000,
        compression_ratio: 10,
        enable_dynamic_range: false,
        range_update_interval: 500,
    };
    let mut processor = DataProcessor::with_config(BoundedQueue::new(), config, 0);
    processor.start(0);
    for i in 0..1000u64 {
        processor.submit(sample(((i * 7) % 200) as i32));
    }
    for i in 0..1000u64 {
        assert_eq!(processor.poll(1000 + i), WorkerAction::Continue { report: None });
    }
    assert_eq!(processor.poll(2000), WorkerAction::Sleep { millis: 50 });
    let compressed = processor.get_lttb_compressed_data();
    assert_eq!(compressed.len(), 100);
    assert_eq!(compressed[0].x, 1000);
    assert_eq!(compressed[99].x, 1999);
    let data = processor.get_processed_data(1000);
    assert_eq!(data.len(), 1000);
    assert_eq!(data[0].ecg_lttb_compressed, compressed);
    assert_eq!(data[0].ecg_normalized, 939_698);
    for record in &data[1..] {
        assert!(record.ecg_lttb_compressed.is_empty());
    }
    let statistics = processor.get_ecg_statistics();
    assert_eq!(statistics.compression_efficiency, 2_500_000);
    let metrics = processor.get_performance_metrics(2000);
    assert_eq!(metrics.compression_ratio_achieved, Some(60_000_000));
    assert_eq!(metrics.queue_length, 1000);
    assert_eq!(metrics.processing_rate, 500_000_000);
    assert_eq!(metrics.memory_usage, 0);
    assert_eq!(metrics.cpu_usage, 0);
}

#[test]
fn pipeline_history_drops_oldest() {
    let mut processor = DataProcessor::new(BoundedQueue::new(), 0);
    processor.start(0);
    for i in 0..1001 {
        processor.submit(sample(i));
        processor.poll(i as u64);
    }
    let data = processor.get_processed_data(2000);
    assert_eq!(data.len(), 1000);
    assert_eq!(data[0].ecg_raw, 1000);
    assert_eq!(data[999].ecg_raw, 1);
    let three = processor.get_processed_data(3);
    assert_eq!(three.len(), 3);
    assert_eq!(three[0].ecg_raw, 1000);
    assert_eq!(three[2].ecg_raw, 998);
    assert!(processor.get_processed_data(0).is_empty());
}

#[test]
fn pipeline_input_queue_drops_oldest() {
    let mut processor = DataProcessor::new(BoundedQueue::new(), 0);
    processor.start(0);
    for i in 0..1001 {
        processor.submit(sample(i));
    }
    processor.poll(0);
    assert_eq!(processor.get_processed_data(1)[0].ecg_raw, 1);
}

#[test]
fn pipeline_reports_every_five_seconds() {
    let mut processor = DataProcessor::new(BoundedQueue::new(), 100);
    processor.start(100);
    for _ in 0..4 {
        processor.submit(sample(100));
    }
    assert_eq!(processor.poll(5099), WorkerAction::Continue { report: None });
    assert_eq!(
        processor.poll(5100),
        WorkerAction::Continue {
            report: Some(PerformanceReport {
                total_processed: 2,
                raw_points: 2,
                buffer_size: 1000,
                compressed_points: 0,
            }),
        }
    );
    assert_eq!(processor.poll(10_099), WorkerAction::Continue { report: None });
    assert_eq!(
        processor.poll(20_000),
        WorkerAction::Continue {
            report: Some(PerformanceReport {
                total_processed: 4,
                raw_points: 4,
                buffer_size: 1000,
                compressed_points: 0,
            }),
        }
    );
}

#[test]
fn pipeline_clock_running_backwards_gives_no_report() {
    let mut processor = DataProcessor::new(BoundedQueue::new(), 10_000);
    processor.start(10_000);
    processor.submit(sample(100));
    assert_eq!(processor.poll(0), WorkerAction::Continue { report: None });
    let metrics = processor.get_performance_metrics(0);
    assert_eq!(metrics.processing_rate, 0);
}

#[test]
fn metrics_before_any_sample() {
    let processor = DataProcessor::new(BoundedQueue::new(), 50);
    let metrics = processor.get_performance_metrics(50);
    assert_eq!(metrics.processing_rate, 0);
    assert_eq!(metrics.queue_length, 0);
    assert_eq!(metrics.compression_ratio_achieved, Some(0));
    let later = processor.get_performance_metrics(1050);
    assert_eq!(later.processing_rate, 0);
}

#[test]
fn metrics_rate_rounds_down() {
    let mut processor = DataProcessor::new(BoundedQueue::new(), 0);
    processor.start(0);
    processor.submit(sample(1));
    processor.poll(1);
    assert_eq!(processor.get_performance_metrics(3).processing_rate, 333_333_333);
    assert_eq!(processor.get_performance_metrics(1000).processing_rate, 1_000_000);
}

#[test]
fn metrics_tiny_buffer_has_no_saving_to_tell() {
    let config = LttbConfig {
        buffer_size: 3,
        compression_ratio: 1,
        enable_dynamic_range: false,
        range_update_interval: 500,
    };
    let mut processor = DataProcessor::with_config(BoundedQueue::new(), config, 0);
    processor.start(0);
    for i in 0..3 {
        processor.submit(sample(i));
        processor.poll(i as u64);
    }
    assert_eq!(processor.get_lttb_compressed_data().len(), 3);
    assert_eq!(processor.get_performance_metrics(10).compression_ratio_achieved, None);
    assert_eq!(processor.get_ecg_statistics().compression_efficiency, 0);
    processor.submit(sample(9));
    processor.poll(4);
    assert_eq!(
        processor.get_performance_metrics(10).compression_ratio_achieved,
        Some(-200_000_000)
    );
    assert_eq!(processor.get_ecg_statistics().compression_efficiency, 333_333);
}

#[test]
fn process_vital_signs_runs_all_processors() {
    let config = LttbConfig::default();
    let mut ecg_state = vital_signs::ecg::EcgProcessingState::new();
    let mut temp_state = vital_signs::temperature::TemperatureProcessingState::new();
    let mut lttb_state = vital_signs::lttb::LttbProcessingState::new(&config);
    let record = DataProcessor::process_vital_signs(
        VitalSigns { ecg: 100, spo2: 98, temp: 370 },
        77,
        &mut ecg_state,
        &mut temp_state,
        &mut lttb_state,
        &config,
    );
    assert_eq!(record.ecg_raw, 100);
    assert_eq!(record.ecg_normalized, 0);
    assert_eq!(record.body_temperature, 29_600_000);
    assert_eq!(record.blood_oxygen, 98);
    assert_eq!(record.heart_rate, 0);
    assert_eq!(record.timestamp, 77);
    assert_eq!(ecg_state.counter, 1);
    assert_eq!(temp_state.temperatures.len(), 1);
    assert_eq!(lttb_state.raw_buffer.len(), 1);
    assert_eq!(record.duplicate(), record);
}
