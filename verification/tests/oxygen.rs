use vital_signs::data_processor::DataProcessor;

#[test]
fn oxygen_zero_is_invalid() {
    assert_eq!(DataProcessor::process_blood_oxygen(0), 0);
}

#[test]
fn oxygen_negative_is_invalid() {
    assert_eq!(DataProcessor::process_blood_oxygen(-5), 0);
}

#[test]
fn oxygen_valid_passes_through() {
    assert_eq!(DataProcessor::process_blood_oxygen(97), 97);
    assert_eq!(DataProcessor::process_blood_oxygen(1), 1);
}
