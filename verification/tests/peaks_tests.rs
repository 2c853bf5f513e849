use voice_keyboard::peaks::{send_peaks, PeakMeter, THROTTLE_NANOS};

const MS: u64 = 1_000_000;

#[test]
fn throttle_interval_is_ten_milliseconds() {
    assert_eq!(THROTTLE_NANOS, 10 * MS);
}

#[test]
fn first_peak_is_always_forwarded() {
    assert_eq!(send_peaks(&[(0, 42)]), vec![42]);
    assert_eq!(send_peaks(&[(3, -7)]), vec![-7]);
    assert_eq!(send_peaks(&[(u64::MAX, 1)]), vec![1]);
    let mut meter = PeakMeter::new();
    assert_eq!(meter.last_emit(), None);
    assert_eq!(meter.offer(5, 9), Some(9));
    assert_eq!(meter.last_emit(), Some(5));
}

#[test]
fn nothing_arrives_nothing_is_forwarded() {
    assert_eq!(send_peaks(&[]), Vec::<i16>::new());
}

#[test]
fn peaks_closer_than_ten_milliseconds_are_dropped() {
    let events = [
        (0, 1),
        (5 * MS, 2),
        (10 * MS - 1, 3),
        (10 * MS, 4),
        (15 * MS, 5),
        (20 * MS - 1, 6),
        (20 * MS, 7),
        (45 * MS, 8),
        (50 * MS, 9),
        (55 * MS, 10),
    ];
    assert_eq!(send_peaks(&events), vec![1, 4, 7, 8, 10]);
}

#[test]
fn forwarded_peaks_are_never_less_than_ten_milliseconds_apart() {
    let mut events: Vec<(u64, i16)> = Vec::new();
    let mut t: u64 = 17;
    for k in 0..400u64 {
        t += (k * 7919) % (4 * MS);
        events.push((t, k as i16));
    }
    let sent = send_peaks(&events);
    assert_eq!(sent[0], 0);
    let mut meter = PeakMeter::new();
    let mut times: Vec<u64> = Vec::new();
    let mut peaks: Vec<i16> = Vec::new();
    for &(at, peak) in &events {
        if let Some(p) = meter.offer(at, peak) {
            times.push(at);
            peaks.push(p);
        }
    }
    assert_eq!(peaks, sent);
    for pair in times.windows(2) {
        assert!(pair[1] - pair[0] >= 10 * MS);
    }
    assert!(sent.len() > 1);
    assert!(sent.len() < events.len());
}

#[test]
fn the_boundary_is_inclusive() {
    let mut meter = PeakMeter::new();
    assert_eq!(meter.offer(100, 1), Some(1));
    assert_eq!(meter.offer(100 + THROTTLE_NANOS - 1, 2), None);
    assert_eq!(meter.last_emit(), Some(100));
    assert_eq!(meter.offer(100 + THROTTLE_NANOS, 3), Some(3));
    assert_eq!(meter.last_emit(), Some(100 + THROTTLE_NANOS));
}

#[test]
fn a_dropped_peak_does_not_move_the_window() {
    assert_eq!(send_peaks(&[(0, 1), (6 * MS, 2), (12 * MS, 3), (18 * MS, 4)]), vec![1, 3]);
}

#[test]
fn a_time_before_the_last_forwarded_one_is_dropped() {
    assert_eq!(send_peaks(&[(100 * MS, 1), (50 * MS, 2), (110 * MS, 3)]), vec![1, 3]);
    let mut meter = PeakMeter::new();
    assert_eq!(meter.offer(u64::MAX, 1), Some(1));
    assert_eq!(meter.offer(0, 2), None);
}

#[test]
fn the_forwarded_peak_is_the_one_that_arrived() {
    let mut meter = PeakMeter::new();
    assert_eq!(meter.offer(0, i16::MIN), Some(i16::MIN));
    assert_eq!(meter.offer(10 * MS, i16::MAX), Some(i16::MAX));
    assert_eq!(meter.offer(30 * MS, 0), Some(0));
}
