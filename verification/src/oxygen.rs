//! Blood-oxygen validation.

use vstd::prelude::*;
use crate::data_processor::DataProcessor;

verus! {

/// The saturation that is reported for a raw reading: readings below 1 are
/// invalid and reported as 0, every other reading is reported as it came.
pub open spec fn validated_oxygen(raw_spo2: i32) -> i32 {
    if raw_spo2 < 1 {
        0
    } else {
        raw_spo2
    }
}

impl DataProcessor {
    /// Validates one raw blood-oxygen reading.
    pub fn process_blood_oxygen(raw_spo2: i32) -> (pct: i32)
        ensures
            pct == validated_oxygen(raw_spo2),
            pct >= 0,
            raw_spo2 >= 1 ==> pct == raw_spo2,
            raw_spo2 < 1 ==> pct == 0,
    {
        if raw_spo2 < 1 {
            0
        } else {
            raw_spo2
        }
    }
}

} // verus!
