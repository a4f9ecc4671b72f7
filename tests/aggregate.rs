use std::sync::{Arc, Mutex};

use disco_tester::aggregate::{DeviceHistogram, TestState};
use disco_tester::readings::{
    reading_bits, reading_key, summarize, DEFAULT_LOWER_KEY, DEFAULT_UPPER_KEY,
};
use disco_tester::report::output_filename;
use disco_tester::text::clean_name;

fn key(v: f32) -> u32 {
    reading_key(v.to_bits())
}

fn find<'a>(data: &'a [DeviceHistogram], device: &str) -> &'a DeviceHistogram {
    data.iter().find(|h| h.device == device).unwrap()
}

fn count(h: &DeviceHistogram, v: f32) -> u64 {
    h.counts.iter().find(|(k, _)| *k == key(v)).map(|(_, c)| *c).unwrap_or(0)
}

#[test]
fn default_bounds_are_the_documented_ones() {
    assert_eq!(DEFAULT_LOWER_KEY, key(35.8));
    assert_eq!(DEFAULT_UPPER_KEY, key(36.2));
}

#[test]
fn keys_follow_float_order() {
    let values = [
        f32::NEG_INFINITY,
        -f32::MAX,
        -36.0,
        -1.0,
        -f32::MIN_POSITIVE,
        0.0,
        f32::MIN_POSITIVE,
        1.0,
        35.9,
        36.0,
        f32::MAX,
        f32::INFINITY,
        f32::NAN,
    ];
    for w in values.windows(2) {
        assert!(key(w[0]) < key(w[1]), "{} < {}", w[0], w[1]);
    }
    assert_eq!(key(-0.0), key(0.0));
    assert_eq!(key(f32::NAN), key(-f32::NAN));
    for v in [36.0f32, -2.5, 0.0, f32::MAX, f32::INFINITY] {
        assert_eq!(f32::from_bits(reading_bits(key(v))), v);
    }
    assert!(f32::from_bits(reading_bits(key(f32::NAN))).is_nan());
}

#[test]
fn pass_computation() {
    let counts = vec![(key(35.9), 3), (key(36.0), 5), (key(36.3), 2)];
    let s = summarize(&counts, DEFAULT_LOWER_KEY, DEFAULT_UPPER_KEY);
    assert_eq!(s.iterations, 10);
    assert_eq!(s.passing, 8);
    assert_eq!(s.pass_percent, 80);
}

#[test]
fn pass_is_strict_and_empty_is_zero() {
    let counts = vec![(key(35.8), 1), (key(36.2), 1), (key(36.1), 1)];
    let s = summarize(&counts, DEFAULT_LOWER_KEY, DEFAULT_UPPER_KEY);
    assert_eq!((s.iterations, s.passing, s.pass_percent), (3, 1, 33));
    let s = summarize(&Vec::new(), DEFAULT_LOWER_KEY, DEFAULT_UPPER_KEY);
    assert_eq!((s.iterations, s.passing, s.pass_percent), (0, 0, 0));
    let counts = vec![(key(f32::MAX), 4), (key(f32::NAN), 1)];
    let s = summarize(&counts, DEFAULT_LOWER_KEY, DEFAULT_UPPER_KEY);
    assert_eq!((s.iterations, s.passing, s.pass_percent), (5, 0, 0));
}

#[test]
fn new_state_lists_cleaned_devices_once() {
    let state = TestState::new(vec![
        " dev-A\0\0".to_string(),
        "dev-B".to_string(),
        "dev-A".to_string(),
    ]);
    let data = state.get_data();
    let names: Vec<&str> = data.iter().map(|h| h.device.as_str()).collect();
    assert_eq!(names, vec!["dev-A", "dev-B"]);
    assert!(data.iter().all(|h| h.iterations == 0 && h.counts.is_empty()));
}

#[test]
fn repeated_add_counts() {
    let mut state = TestState::new(vec!["dev-A".to_string()]);
    for _ in 0..7 {
        assert!(state.add_iteration("dev-A", 36.0f32.to_bits()));
    }
    assert!(state.add_iteration("dev-A\0", 35.9f32.to_bits()));
    assert!(state.add_iteration("dev-C", 36.0f32.to_bits()));
    let data = state.get_data();
    let a = find(&data, "dev-A");
    assert_eq!(count(a, 36.0), 7);
    assert_eq!(count(a, 35.9), 1);
    assert_eq!(a.iterations, 8);
    assert_eq!(a.counts.iter().map(|(_, c)| c).sum::<u64>(), a.iterations);
    assert_eq!(a.counts[0].0, key(35.9));
    let c = find(&data, "dev-C");
    assert_eq!((c.iterations, count(c, 36.0)), (1, 1));
    assert_eq!(data[1].device, "dev-C");
}

#[test]
fn snapshot_is_a_copy() {
    let mut state = TestState::new(vec!["d".to_string()]);
    state.add_iteration("d", 1.0f32.to_bits());
    let before = state.get_data();
    state.add_iteration("d", 1.0f32.to_bits());
    assert_eq!(count(find(&before, "d"), 1.0), 1);
    assert_eq!(count(find(&state.get_data(), "d"), 1.0), 2);
}

#[test]
fn aggregator_under_contention() {
    // eight workers, each holding its own handle on the shared state, take
    // turns adding the same reading
    let state = Arc::new(Mutex::new(TestState::new(vec!["dev-A".to_string()])));
    let workers: Vec<Arc<Mutex<TestState>>> = (0..8).map(|_| Arc::clone(&state)).collect();
    for _ in 0..10_000 {
        for worker in workers.iter() {
            assert!(worker.lock().unwrap().add_iteration("dev-A", 36.0f32.to_bits()));
        }
    }
    let data = state.lock().unwrap().get_data();
    let a = find(&data, "dev-A");
    assert_eq!(count(a, 36.0), 80_000);
    assert_eq!(a.iterations, 80_000);
}

#[test]
fn names_are_cleaned() {
    assert_eq!(clean_name("  SN-1 \0\0"), "SN-1 ");
    assert_eq!(clean_name("\u{a0}SN-2\u{3000}"), "SN-2");
    assert_eq!(clean_name(""), "");
    assert_eq!(clean_name("\0 x"), "\0 x");
}

#[test]
fn output_file_name() {
    assert_eq!(output_filename("2024-03-01T09:41:07.123+01:00"), "output/2024-03-01.09_41.txt");
    assert_eq!(output_filename("2024T1:2"), "output/2024.1_2.txt");
}
