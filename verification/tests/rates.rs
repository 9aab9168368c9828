use macsftp_app::model::TransferId;
use macsftp_app::rate_sampler::{
    format_eta, format_running_detail, format_speed, Eta, Pace, Progress, RateSnapshot, Speed,
    TransferRateBook,
};

const SECOND: u64 = 1_000_000_000;
const MILLI: u64 = 1_000_000;

fn id(n: u64) -> TransferId {
    TransferId(n)
}

/// A whole number of bytes per second.
fn speed(whole: u128) -> Speed {
    Speed { whole, part: 0 }
}

/// A number of bytes at a number of bytes per second.
fn at_pace(bytes: u64, per_second: u64) -> Eta {
    Eta { bytes, pace: Pace::Measured(Progress { bytes: per_second, nanos: SECOND }) }
}

fn bps(speed: Speed) -> f64 {
    speed.whole as f64 + speed.part as f64 / 1e18
}

fn secs(eta: Eta) -> f64 {
    match eta.pace {
        Pace::Measured(seen) => {
            eta.bytes as f64 * seen.nanos as f64 / seen.bytes as f64 / SECOND as f64
        }
        Pace::Total(speed) => eta.bytes as f64 / bps(speed),
    }
}

#[test]
fn speed_uses_window_endpoints() {
    let t0 = 5 * SECOND;
    let mut book = TransferRateBook::new();
    book.observe(id(1), 0, t0);
    book.observe(id(1), 1_000_000, t0 + SECOND);
    let snap = book.snapshot(id(1), 1_000_000, Some(10_000_000), t0 + SECOND);
    assert!(bps(snap.speed.unwrap()) > 900_000.0 && bps(snap.speed.unwrap()) < 1_100_000.0);
    assert!(!snap.stalled);
    assert!(secs(snap.eta.unwrap()) > 8.0 && secs(snap.eta.unwrap()) < 12.0);
    assert_eq!(snap.speed, Some(speed(1_000_000)));
    assert_eq!(format_eta(snap.eta), "9s");
}

#[test]
fn warmup_yields_no_speed() {
    let t0 = 5 * SECOND;
    let mut book = TransferRateBook::new();
    book.observe(id(1), 0, t0);
    book.observe(id(1), 100, t0 + 100 * MILLI);
    let snap = book.snapshot(id(1), 100, Some(1000), t0 + 100 * MILLI);
    assert!(snap.speed.is_none());
    assert!(!snap.stalled);
}

#[test]
fn stalled_when_bytes_unchanged_past_threshold() {
    let t0 = 5 * SECOND;
    let mut book = TransferRateBook::new();
    book.observe(id(1), 500, t0);
    book.observe(id(1), 500, t0 + SECOND);
    book.observe(id(1), 500, t0 + 4 * SECOND);
    let snap = book.snapshot(id(1), 500, Some(1000), t0 + 4 * SECOND);
    assert!(snap.stalled);
    assert!(snap.eta.is_none());
}

#[test]
fn clear_removes_sampler() {
    let t0 = 5 * SECOND;
    let mut book = TransferRateBook::new();
    book.observe(id(1), 0, t0);
    book.clear(id(1));
    let snap = book.snapshot(id(1), 0, Some(100), t0 + 2 * SECOND);
    assert!(snap.speed.is_none());
}

#[test]
fn format_running_detail_stalled_and_normal() {
    let stalled = RateSnapshot {
        speed: Some(speed(0)),
        stalled: true,
        eta: None,
    };
    let s = format_running_detail("1.0 MB", Some("2.0 MB"), &stalled);
    assert!(s.contains("Stalled"), "{s}");
    assert!(!s.contains("— MB/s") || s.contains("Stalled"));

    let normal = RateSnapshot {
        speed: Some(speed(1_048_576)),
        stalled: false,
        eta: Some(at_pace(10, 1)),
    };
    let s = format_running_detail("1.0 MB", Some("2.0 MB"), &normal);
    assert!(s.contains("MB/s") || s.contains("KB/s"), "{s}");
    assert!(s.contains("ETA"), "{s}");
    assert!(!s.contains("— MB/s · ETA —"), "{s}");
    assert_eq!(s, "1.0 MB / 2.0 MB · 1.0 MB/s · ETA 10s");
    assert_eq!(
        format_running_detail("1.0 MB", None, &normal),
        "1.0 MB · 1.0 MB/s"
    );
}

#[test]
fn aggregate_sums_running_speeds() {
    let t0 = 5 * SECOND;
    let mut book = TransferRateBook::new();
    book.observe(id(1), 0, t0);
    book.observe(id(1), 2_000_000, t0 + SECOND);
    book.observe(id(2), 0, t0);
    book.observe(id(2), 2_000_000, t0 + SECOND);
    let now = t0 + SECOND;
    let agg = book.aggregate(
        &vec![
            (id(1), 2_000_000, Some(10_000_000)),
            (id(2), 2_000_000, Some(10_000_000)),
        ],
        now,
    );
    assert!(bps(agg.speed.unwrap()) > 3_500_000.0);
    assert!(agg.eta.is_some());
    assert_eq!(agg.speed, Some(speed(4_000_000)));
    assert_eq!(format_eta(agg.eta), "4s");
}

#[test]
fn old_reports_leave_the_window() {
    let t0 = 5 * SECOND;
    let mut book = TransferRateBook::new();
    book.observe(id(1), 0, t0);
    book.observe(id(1), 9_000_000, t0 + SECOND);
    book.observe(id(1), 10_000_000, t0 + 6 * SECOND);
    // Only the last report lies in the window, so no speed is told.
    let snap = book.snapshot(id(1), 10_000_000, None, t0 + 6 * SECOND);
    assert_eq!(snap.speed, None);
    book.observe(id(1), 12_000_000, t0 + 8 * SECOND);
    let snap = book.snapshot(id(1), 12_000_000, None, t0 + 8 * SECOND);
    assert_eq!(snap.speed, Some(speed(1_000_000)));
}

#[test]
fn speeds_and_estimates_as_shown() {
    assert_eq!(format_speed(None), "— MB/s");
    assert_eq!(format_speed(Some(speed(1_500))), "1.5 KB/s");
    assert_eq!(format_speed(Some(speed(999_999))), "1000.0 KB/s");
    assert_eq!(format_speed(Some(speed(2_340_000))), "2.3 MB/s");
    assert_eq!(format_eta(None), "—");
    assert_eq!(format_eta(Some(at_pace(59, 1))), "59s");
    assert_eq!(format_eta(Some(at_pace(119, 2))), "60s");
    assert_eq!(format_eta(Some(at_pace(61, 1))), "1m 1s");
    assert_eq!(format_eta(Some(at_pace(239, 2))), "1m 60s");
    assert_eq!(format_eta(Some(at_pace(3_725, 1))), "1h 2m");
    assert_eq!(format_eta(Some(at_pace(3, 2))), "2s");
}

#[test]
fn whole_seconds_stay_whole() {
    let t0 = 5 * SECOND;
    let now = t0 + 3 * SECOND;
    let mut book = TransferRateBook::new();
    for n in [1, 2] {
        book.observe(id(n), 0, t0);
        book.observe(id(n), 100, now);
    }
    let snap = book.snapshot(id(1), 100, Some(200), now);
    assert_eq!(snap.eta, Some(Eta {
            bytes: 100,
            pace: Pace::Measured(Progress { bytes: 100, nanos: 3 * SECOND }),
        }));
    assert_eq!(format_eta(snap.eta), "3s");
    let all = vec![(id(1), 100, Some(200)), (id(2), 100, Some(200))];
    assert_eq!(format_eta(book.aggregate(&all, now).eta), "3s");
    // A byte more takes a second more.
    let snap = book.snapshot(id(1), 100, Some(201), now);
    assert_eq!(format_eta(snap.eta), "4s");
}

#[test]
fn speeds_are_shown_as_the_nearest_tenth_of_their_double() {
    // The double nearest to 1.05 lies above it, and so does that nearest to 0.05.
    assert_eq!(format_speed(Some(speed(1_050_000))), "1.1 MB/s");
    assert_eq!(format_speed(Some(speed(50))), "0.1 KB/s");
    // The double nearest to 1.15 lies below it.
    assert_eq!(format_speed(Some(speed(1_150_000))), "1.1 MB/s");
    // 0.25 and 0.75 are doubles: halfway, and the even tenth is shown.
    assert_eq!(format_speed(Some(speed(250))), "0.2 KB/s");
    assert_eq!(format_speed(Some(speed(750))), "0.8 KB/s");
    assert_eq!(format_speed(Some(speed(0))), "0.0 KB/s");
    for n in [1u128, 49, 51, 150, 349, 350, 351, 450, 999_949, 999_950, 999_951] {
        assert_eq!(format_speed(Some(speed(n))), format!("{:.1} KB/s", n as f64 / 1e3));
    }
    for n in [1_000_000u128, 1_049_999, 1_250_000, 2_050_000, 2_150_000, 7_950_000, 123_450_000] {
        assert_eq!(format_speed(Some(speed(n))), format!("{:.1} MB/s", n as f64 / 1e6));
    }
}

#[test]
fn a_total_without_progress_has_no_estimate() {
    let t0 = 5 * SECOND;
    let now = t0 + SECOND;
    let mut book = TransferRateBook::new();
    for (n, bytes) in [(1, 500), (2, 1_500)] {
        book.observe(id(n), 0, t0);
        book.observe(id(n), bytes, now);
    }
    // Only one of them has a known size: its bytes are to go, at the pace of both.
    let agg = book.aggregate(&vec![(id(1), 500, None), (id(2), 1_500, Some(5_500))], now);
    assert_eq!(agg.speed, Some(speed(2_000)));
    assert_eq!(agg.eta, Some(Eta { bytes: 4_000, pace: Pace::Total(speed(2_000)) }));
    let agg = book.aggregate(&vec![(id(1), 500, None)], now);
    assert_eq!((agg.speed, agg.eta), (Some(speed(500)), None));
    // A transfer that nothing was reported of adds nothing.
    let agg = book.aggregate(&vec![(id(3), 0, Some(10))], now);
    assert_eq!((agg.speed, agg.eta), (None, None));
}
