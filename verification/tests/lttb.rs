use vital_signs::data_processor::DataProcessor;
use vital_signs::lttb::{LttbConfig, LttbDataPoint, LttbProcessingState};

fn point(x: u64, y: i32) -> LttbDataPoint {
    LttbDataPoint { x, y }
}

fn zigzag() -> Vec<LttbDataPoint> {
    let mut points = Vec::new();
    for i in 0..10i32 {
        points.push(point(i as u64, ((i * 37) % 21 - 10) * 100_000));
    }
    points
}

#[test]
fn downsample_keeps_short_input() {
    let points = zigzag();
    assert_eq!(DataProcessor::lttb_downsample(&points, 10), points);
    assert_eq!(DataProcessor::lttb_downsample(&points, 11), points);
    assert_eq!(DataProcessor::lttb_downsample(&points, usize::MAX), points);
}

#[test]
fn downsample_of_nothing_is_nothing() {
    let points: Vec<LttbDataPoint> = Vec::new();
    assert_eq!(DataProcessor::lttb_downsample(&points, 0), points);
    assert_eq!(DataProcessor::lttb_downsample(&points, 5), points);
}

#[test]
fn downsample_small_threshold_gives_ends() {
    let points = zigzag();
    let ends = vec![points[0], points[9]];
    assert_eq!(DataProcessor::lttb_downsample(&points, 0), ends);
    assert_eq!(DataProcessor::lttb_downsample(&points, 1), ends);
    assert_eq!(DataProcessor::lttb_downsample(&points, 2), ends);
}

#[test]
fn downsample_single_point_below_threshold_is_doubled() {
    let points = vec![point(4, 5)];
    assert_eq!(DataProcessor::lttb_downsample(&points, 0), vec![point(4, 5), point(4, 5)]);
    assert_eq!(DataProcessor::lttb_downsample(&points, 1), vec![point(4, 5)]);
}

#[test]
fn downsample_picks_largest_triangles() {
    let points = zigzag();
    assert_eq!(
        DataProcessor::lttb_downsample(&points, 3),
        vec![point(0, -1_000_000), point(1, 600_000), point(9, 800_000)]
    );
    assert_eq!(
        DataProcessor::lttb_downsample(&points, 4),
        vec![point(0, -1_000_000), point(1, 600_000), point(8, -800_000), point(9, 800_000)]
    );
    assert_eq!(
        DataProcessor::lttb_downsample(&points, 5),
        vec![
            point(0, -1_000_000),
            point(1, 600_000),
            point(4, -900_000),
            point(8, -800_000),
            point(9, 800_000),
        ]
    );
}

#[test]
fn downsample_has_threshold_points_and_both_ends() {
    let mut points = Vec::new();
    for i in 0..500i32 {
        points.push(point(1_700_000_000_000 + i as u64 * 4, ((i * i) % 2001) * 999 - 999_000));
    }
    for threshold in 3..60usize {
        let sampled = DataProcessor::lttb_downsample(&points, threshold);
        assert_eq!(sampled.len(), threshold);
        assert_eq!(sampled[0], points[0]);
        assert_eq!(sampled[threshold - 1], points[499]);
        for pair in sampled.windows(2) {
            assert!(pair[0].x < pair[1].x);
        }
    }
}

#[test]
fn downsample_first_of_equal_candidates_wins() {
    let mut points = Vec::new();
    for i in 0..9u64 {
        points.push(point(i, 0));
    }
    assert_eq!(
        DataProcessor::lttb_downsample(&points, 4),
        vec![point(0, 0), point(1, 0), point(4, 0), point(8, 0)]
    );
}

#[test]
fn downsample_handles_extreme_coordinates() {
    let mut points = Vec::new();
    for i in 0..40u64 {
        let y = if i % 2 == 0 { 1_000_000 } else { -1_000_000 };
        points.push(point(u64::MAX - 40 + i, y));
    }
    let sampled = DataProcessor::lttb_downsample(&points, 7);
    assert_eq!(sampled.len(), 7);
    assert_eq!(sampled[0], points[0]);
    assert_eq!(sampled[6], points[39]);
}

#[test]
fn config_default_values() {
    let config = LttbConfig::default();
    assert_eq!(config.buffer_size, 1000);
    assert_eq!(config.compression_ratio, 10);
    assert!(config.enable_dynamic_range);
    assert_eq!(config.range_update_interval, 500);
}

#[test]
fn compressor_initial_state() {
    let state = LttbProcessingState::new(&LttbConfig::default());
    assert_eq!(state.raw_buffer.len(), 0);
    assert_eq!(state.compressed_buffer.len(), 0);
    assert_eq!(state.buffer_size, 1000);
    assert_eq!(state.compression_ratio, 10);
    assert_eq!(state.global_min, None);
    assert_eq!(state.global_max, None);
    assert_eq!(state.sample_counter, 0);
}

#[test]
fn compressor_normalizes_into_the_range() {
    let config = LttbConfig::default();
    let mut state = LttbProcessingState::new(&config);
    let (first, snapshot) = DataProcessor::process_ecg_lttb(100, 5, &mut state, &config);
    assert_eq!(first, 0);
    assert!(snapshot.is_empty());
    assert_eq!(state.global_min, Some(100_000_000));
    assert_eq!(state.global_max, Some(100_000_000));
    assert_eq!(DataProcessor::process_ecg_lttb(200, 6, &mut state, &config).0, 1_000_000);
    assert_eq!(DataProcessor::process_ecg_lttb(150, 7, &mut state, &config).0, 0);
    assert_eq!(DataProcessor::process_ecg_lttb(125, 8, &mut state, &config).0, -500_000);
    assert_eq!(DataProcessor::process_ecg_lttb(100, 9, &mut state, &config).0, -1_000_000);
    assert_eq!(DataProcessor::process_ecg_lttb(133, 10, &mut state, &config).0, -340_000);
    assert_eq!(state.raw_buffer.len(), 6);
    assert_eq!(state.raw_buffer[3], point(8, -500_000));
    assert_eq!(state.sample_counter, 6);
}

#[test]
fn compressor_normalization_rounds_down() {
    let config = LttbConfig::default();
    let mut state = LttbProcessingState::new(&config);
    DataProcessor::process_ecg_lttb(0, 0, &mut state, &config);
    DataProcessor::process_ecg_lttb(3, 1, &mut state, &config);
    assert_eq!(DataProcessor::process_ecg_lttb(1, 2, &mut state, &config).0, -333_334);
    assert_eq!(DataProcessor::process_ecg_lttb(2, 3, &mut state, &config).0, 333_333);
}

#[test]
fn compressor_handles_extreme_samples() {
    let config = LttbConfig::default();
    let mut state = LttbProcessingState::new(&config);
    assert_eq!(DataProcessor::process_ecg_lttb(i32::MIN, 0, &mut state, &config).0, 0);
    assert_eq!(DataProcessor::process_ecg_lttb(i32::MAX, 1, &mut state, &config).0, 1_000_000);
    assert_eq!(DataProcessor::process_ecg_lttb(0, 2, &mut state, &config).0, 0);
    assert_eq!(DataProcessor::process_ecg_lttb(-1, 3, &mut state, &config).0, -1);
}

#[test]
fn compressor_fires_once_in_1000_samples() {
    let config = LttbConfig {
        buffer_size: 1000,
        compression_ratio: 10,
        enable_dynamic_range: false,
        range_update_interval: 500,
    };
    let mut state = LttbProcessingState::new(&config);
    let mut events = 0;
    let mut last = (0, Vec::new());
    for i in 0..1000u64 {
        let before = state.raw_buffer.len();
        last = DataProcessor::process_ecg_lttb(((i * 7) % 200) as i32, 1000 + i, &mut state, &config);
        if state.raw_buffer.len() <= before {
            events += 1;
        }
        if i == 998 {
            assert_eq!(last.0, 869_346);
            assert!(last.1.is_empty());
            assert_eq!(state.raw_buffer.len(), 999);
        }
    }
    assert_eq!(events, 1);
    assert_eq!(last.0, 939_698);
    assert_eq!(last.1.len(), 100);
    assert_eq!(state.compressed_buffer, last.1);
    assert_eq!(state.raw_buffer.len(), 250);
    assert_eq!(state.raw_buffer[0], point(1750, -497_488));
    assert_eq!(state.raw_buffer[249], point(1999, 939_698));
    assert_eq!(last.1[0], point(1000, 0));
    assert_eq!(last.1[1], point(1001, 1_000_000));
    assert_eq!(last.1[2], point(1020, 1_000_000));
    assert_eq!(last.1[3], point(1029, -969_388));
    assert_eq!(last.1[98], point(1988, 165_829));
    assert_eq!(last.1[99], point(1999, 939_698));
    assert_eq!(state.global_min, Some(0));
    assert_eq!(state.global_max, Some(199_000_000));
    assert_eq!(state.sample_counter, 1000);
}

#[test]
fn compressor_range_follows_the_signal() {
    let config = LttbConfig {
        buffer_size: 8,
        compression_ratio: 2,
        enable_dynamic_range: true,
        range_update_interval: 4,
    };
    let mut state = LttbProcessingState::new(&config);
    let samples = [10, 20, 15, 12, 30, 5, 7, 8, 9];
    let amplitudes = [0, 1_000_000, 0, -600_000, 1_000_000, -1_000_000, -840_000, -760_000, -680_000];
    let minima = [10_000_000, 10_000_000, 10_000_000, 10_200_000, 10_200_000, 5_000_000, 5_000_000,
        5_000_000, 5_000_000];
    let maxima = [10_000_000, 20_000_000, 20_000_000, 20_000_000, 30_000_000, 30_000_000,
        30_000_000, 30_000_000, 30_000_000];
    let lengths = [1, 2, 3, 4, 5, 6, 7, 2, 3];
    for i in 0..9 {
        let (amplitude, snapshot) =
            DataProcessor::process_ecg_lttb(samples[i], i as u64, &mut state, &config);
        assert_eq!(amplitude, amplitudes[i]);
        assert_eq!(state.global_min, Some(minima[i]));
        assert_eq!(state.global_max, Some(maxima[i]));
        assert_eq!(state.raw_buffer.len(), lengths[i]);
        if i < 7 {
            assert!(snapshot.is_empty());
        } else {
            assert_eq!(
                snapshot,
                vec![point(0, 0), point(1, 1_000_000), point(4, 1_000_000), point(7, -760_000)]
            );
        }
    }
    assert_eq!(state.raw_buffer, vec![point(6, -840_000), point(7, -760_000), point(8, -680_000)]);
}

#[test]
fn recalculate_moves_a_tenth_towards_recent_extremes() {
    let config = LttbConfig::default();
    let mut state = LttbProcessingState::new(&config);
    state.global_min = Some(0);
    state.global_max = Some(100_000_000);
    state.raw_buffer = vec![point(0, -500_000), point(1, 0), point(2, 500_000)];
    DataProcessor::recalculate_global_range(&mut state);
    assert_eq!(state.global_min, Some(2_500_000));
    assert_eq!(state.global_max, Some(97_500_000));
    assert_eq!(state.raw_buffer.len(), 3);
}

#[test]
fn recalculate_looks_at_the_last_500_points_only() {
    let config = LttbConfig::default();
    let mut state = LttbProcessingState::new(&config);
    state.global_min = Some(0);
    state.global_max = Some(100_000_000);
    state.raw_buffer = vec![point(0, 0); 501];
    state.raw_buffer[0] = point(0, 1_000_000);
    state.raw_buffer[1] = point(0, -1_000_000);
    DataProcessor::recalculate_global_range(&mut state);
    assert_eq!(state.global_min, Some(0));
    assert_eq!(state.global_max, Some(95_000_000));
}

#[test]
fn recalculate_leaves_an_empty_buffer_alone() {
    let config = LttbConfig::default();
    let mut state = LttbProcessingState::new(&config);
    state.global_min = Some(-7);
    state.global_max = Some(9);
    DataProcessor::recalculate_global_range(&mut state);
    assert_eq!(state.global_min, Some(-7));
    assert_eq!(state.global_max, Some(9));
}

#[test]
fn recalculate_rounds_down_below_zero() {
    let config = LttbConfig::default();
    let mut state = LttbProcessingState::new(&config);
    state.global_min = Some(-15);
    state.global_max = Some(-4);
    state.raw_buffer = vec![point(0, 0)];
    DataProcessor::recalculate_global_range(&mut state);
    assert_eq!(state.global_min, Some(-15));
    assert_eq!(state.global_max, Some(-5));
}
