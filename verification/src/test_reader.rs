//! Generator of test samples, for running without a device.

use vstd::prelude::*;
use rand::Rng;
use crate::queue::pushed;
use crate::types::{DataQueue, VitalSigns};

verus! {

/// Largest distance of a test ECG value from its base line.
pub const ECG_NOISE: i32 = 50;

/// Pause between two test samples, in milliseconds.
pub const TEST_SAMPLE_PAUSE_MS: u64 = 100;

/// State of the generator of test samples.
#[derive(Debug)]
pub struct TestReader {
    stop_flag: bool,
}

impl View for TestReader {
    type V = bool;

    /// Whether the generator has been told to stop.
    closed spec fn view(&self) -> bool {
        self.stop_flag
    }
}

/// `rand::rngs::ThreadRng`, the handle to the random number generator of a
/// thread. It is carried from `rand::thread_rng` to `Rng::gen_range` and
/// nothing is known of what it holds.
#[verifier::external_type_specification]
#[verifier::external_body]
pub struct ExThreadRng(rand::rngs::ThreadRng);

/// `rand::thread_rng` hands out the generator of the calling thread, seeded
/// by the system. Nothing is claimed of it.
pub assume_specification[ rand::thread_rng ]() -> (rng: rand::rngs::ThreadRng);

/// `Rng::gen_range` on a half-open range of `i32`: the value that comes back
/// lies in the range, whatever the generator does. The call panics on an empty
/// range, which the precondition rules out.
#[verifier::external_body]
fn gen_range(rng: &mut rand::rngs::ThreadRng, low: i32, high: i32) -> (value: i32)
    requires
        low < high,
    ensures
        low <= value < high,
{
    rng.gen_range(low..high)
}

/// What holds of every test sample around the base line `ecg_base`.
pub open spec fn is_test_sample(sample: VitalSigns, ecg_base: i32) -> bool {
    &&& ecg_base - ECG_NOISE <= sample.ecg < ecg_base + ECG_NOISE
    &&& 95 <= sample.spo2 <= 100
    &&& 360 <= sample.temp < 375
}

impl TestReader {
    /// A generator that has not been told to stop.
    pub fn new() -> (reader: Self)
        ensures
            !reader@,
    {
        TestReader { stop_flag: false }
    }

    /// The generator needs no connection: always `Ok`.
    pub fn test_connection(&self) -> (result: Result<(), String>)
        ensures
            result is Ok,
    {
        Ok(())
    }

    /// The generator sends nothing anywhere: always `Ok`.
    pub fn send_data(&self, data: &str) -> (result: Result<(), String>)
        ensures
            result is Ok,
    {
        Ok(())
    }

    /// Tells the generator to stop before its next sample.
    pub fn stop(&mut self)
        ensures
            final(self)@,
    {
        self.stop_flag = true;
    }

    /// Whether the generator has been told to stop.
    pub fn is_stopped(&self) -> (stopped: bool)
        ensures
            stopped == self@,
    {
        self.stop_flag
    }

    /// A random sample in the range of a healthy adult: an ECG value within
    /// [`ECG_NOISE`] of the base line, a saturation from 95 to 100 percent,
    /// and a temperature code from 36.0 up to, but not reaching, 37.5 degrees.
    pub fn generate_test_data(ecg_base: i32) -> (sample: VitalSigns)
        requires
            i32::MIN + ECG_NOISE <= ecg_base <= i32::MAX - ECG_NOISE,
        ensures
            is_test_sample(sample, ecg_base),
    {
        let mut rng = rand::thread_rng();
        let ecg_noise: i32 = gen_range(&mut rng, -ECG_NOISE, ECG_NOISE);
        let ecg: i32 = ecg_base + ecg_noise;
        let spo2: i32 = gen_range(&mut rng, 95, 101);
        let temp: i32 = gen_range(&mut rng, 360, 375);
        VitalSigns { ecg, spo2, temp }
    }

    /// One turn of the generator: a test sample around `ecg_base` goes into
    /// the queue, and the pause until the next turn is returned in
    /// milliseconds.
    pub fn produce(&self, ecg_base: i32, queue: &mut DataQueue) -> (pause: u64)
        requires
            i32::MIN + ECG_NOISE <= ecg_base <= i32::MAX - ECG_NOISE,
        ensures
            pause == TEST_SAMPLE_PAUSE_MS,
            exists|sample: VitalSigns|
                is_test_sample(sample, ecg_base) && final(queue)@ == pushed(old(queue)@, sample),
            old(queue).wf() ==> final(queue).wf(),
    {
        let sample = Self::generate_test_data(ecg_base);
        queue.push(sample);
        TEST_SAMPLE_PAUSE_MS
    }
}

} // verus!
