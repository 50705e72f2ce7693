use vital_signs::data_processor::DataProcessor;
use vital_signs::temperature::TemperatureProcessingState;

#[test]
fn temperature_initial_state() {
    let state = TemperatureProcessingState::new();
    assert_eq!(state.temperatures.len(), 0);
    assert_eq!(state.scale_factor, 800_000);
    assert_eq!(state.offset, 0);
    assert_eq!(state.max_temp, 37_200_000);
    assert_eq!(state.room_temperature, 23_200_000);
}

#[test]
fn temperature_code_is_calibrated() {
    let mut state = TemperatureProcessingState::new();
    assert_eq!(DataProcessor::process_body_temperature(370, &mut state), 29_600_000);
    assert_eq!(state.temperatures, vec![29_600_000]);
}

#[test]
fn temperature_offset_is_added() {
    let mut state = TemperatureProcessingState::new();
    state.offset = 1_500_000;
    assert_eq!(DataProcessor::process_body_temperature(370, &mut state), 31_100_000);
}

#[test]
fn temperature_fault_gives_room_temperature() {
    let mut state = TemperatureProcessingState::new();
    assert_eq!(DataProcessor::process_body_temperature(100, &mut state), 23_200_000);
    assert_eq!(DataProcessor::process_body_temperature(-5, &mut state), 23_200_000);
    assert_eq!(state.temperatures, vec![23_200_000, 23_200_000]);
}

#[test]
fn temperature_at_the_fault_margin_is_kept() {
    let mut state = TemperatureProcessingState::new();
    assert_eq!(DataProcessor::process_body_temperature(165, &mut state), 13_200_000);
    assert_eq!(DataProcessor::process_body_temperature(164, &mut state), 23_200_000);
}

#[test]
fn temperature_window_of_70_gives_trimmed_mean() {
    let mut state = TemperatureProcessingState::new();
    let mut out = Vec::new();
    for step in 0..70 {
        out.push(DataProcessor::process_body_temperature(360 + step, &mut state));
    }
    assert_eq!(out[0], 28_800_000);
    assert_eq!(out[1], 28_880_000);
    assert_eq!(out[68], 34_240_000);
    assert_eq!(out[69], 31_560_000);
    assert_eq!(state.temperatures.len(), 0);
}

#[test]
fn temperature_trimmed_mean_ignores_order_and_extremes() {
    let mut state = TemperatureProcessingState::new();
    let mut last = 0;
    for step in 0..70 {
        let code = if step % 7 == 0 {
            445
        } else if step % 7 == 3 {
            300
        } else {
            371
        };
        last = DataProcessor::process_body_temperature(code, &mut state);
    }
    assert_eq!(last, 29_680_000);
}

#[test]
fn temperature_mean_is_capped() {
    let mut state = TemperatureProcessingState::new();
    let mut out = Vec::new();
    for _ in 0..70 {
        out.push(DataProcessor::process_body_temperature(500, &mut state));
    }
    assert_eq!(out[0], 40_000_000);
    assert_eq!(out[68], 40_000_000);
    assert_eq!(out[69], 37_200_000);
}

#[test]
fn temperature_window_starts_over_after_it_was_full() {
    let mut state = TemperatureProcessingState::new();
    for _ in 0..70 {
        DataProcessor::process_body_temperature(370, &mut state);
    }
    assert_eq!(state.temperatures.len(), 0);
    for round in 0..69 {
        assert_eq!(DataProcessor::process_body_temperature(380, &mut state), 30_400_000);
        assert_eq!(state.temperatures.len(), round + 1);
    }
    assert_eq!(DataProcessor::process_body_temperature(380, &mut state), 30_400_000);
    assert_eq!(state.temperatures.len(), 0);
}

#[test]
fn temperature_full_window_slides_before_it_is_averaged() {
    let mut state = TemperatureProcessingState::new();
    state.temperatures = vec![36_000_000; 70];
    state.temperatures[0] = 1_000_000_000;
    let out = DataProcessor::process_body_temperature(450, &mut state);
    assert_eq!(out, 36_000_000);
    assert_eq!(state.temperatures.len(), 0);
}

#[test]
fn temperature_rounds_down() {
    let mut state = TemperatureProcessingState::new();
    state.scale_factor = 800_001;
    assert_eq!(DataProcessor::process_body_temperature(371, &mut state), 29_680_037);
    state.room_temperature = -100_000_000;
    assert_eq!(DataProcessor::process_body_temperature(-371, &mut state), -29_680_038);
}

#[test]
fn temperature_mean_rounds_down() {
    let mut state = TemperatureProcessingState::new();
    state.room_temperature = -100_000_000;
    state.max_temp = 0;
    state.temperatures = vec![-1; 69];
    for index in 0..10 {
        state.temperatures[index] = -2;
    }
    state.scale_factor = 0;
    state.offset = -2;
    let out = DataProcessor::process_body_temperature(0, &mut state);
    assert_eq!(out, -2);
}
