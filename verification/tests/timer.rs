use bkrbk::timer::DateTime;
use bkrbk::timer::FpsPrinter;
use bkrbk::timer::Time;
use bkrbk::timer::TimeZone;
use bkrbk::timer::Timer;

#[test]
fn new_timer_interval_from_fps() {
    let t = Timer::new(1, 500);
    assert_eq!(t.interval, 1000);
    let t30 = Timer::new(30, 0);
    assert_eq!(t30.interval, 1000 / 30);
}

#[test]
fn sleep_waits_out_the_interval() {
    let mut t = Timer::new(1, 0);
    // no time has passed: wait a whole interval
    assert_eq!(t.sleep(0), 1000);
    // woke 500 ms into the next interval: wait only the rest
    assert_eq!(t.sleep(1500), 500);
    // woke 100 ms in: wait 900
    assert_eq!(t.sleep(2100), 900);
}

#[test]
fn sleep_skips_overshot_intervals() {
    let mut t = Timer::new(1, 0);
    assert_eq!(t.sleep(0), 1000);
    // 3.5 intervals late: the three whole intervals are skipped,
    // only the residual 500 ms is made up
    assert_eq!(t.sleep(4500), 500);
}

#[test]
fn sleep_drift_does_not_accumulate() {
    let mut t = Timer::new(1, 0);
    t.interval = 100;
    let jitters: [u64; 8] = [3, 17, 0, 250, 99, 1, 42, 180];
    let mut now: u64 = 0;
    for j in jitters {
        // wake at or after the schedule, overshooting by the jitter
        let wait = t.sleep(now + j);
        assert!(wait >= 1 && wait <= 100);
        now = now + j + wait;
        assert_eq!(t.last_updated, now);
        // the schedule stays on the exact 100 ms grid ...
        assert_eq!(now % 100, 0);
        // ... and never drifts more than one interval past the wake time
        assert!(t.last_updated - (now - wait) <= 100);
    }
}

#[test]
fn sleep_zero_interval_returns_at_once() {
    let mut t = Timer::new(1, 0);
    t.interval = 0;
    assert_eq!(t.sleep(123), 0);
}

#[test]
fn operating_time_in_seconds() {
    let t = Timer::new(1, 5000);
    assert_eq!(t.get_operating_time(5000), 0);
    assert_eq!(t.get_operating_time(5999), 0);
    assert_eq!(t.get_operating_time(12_345), 7);
}

#[test]
fn fps_printer_samples_when_window_closes() {
    let mut p = FpsPrinter::new(2, 0);
    assert_eq!(p.print(500), None);
    // second tick closes the window: 2 frames in 500 ms is 4.000 fps
    assert_eq!(p.print(500), Some(4000));
    // a new window opens at 500
    assert_eq!(p.print(700), None);
    assert_eq!(p.print(1500), Some(2000));
}

#[test]
fn fps_printer_no_sample_without_elapsed_time() {
    let mut p = FpsPrinter::new(1, 0);
    assert_eq!(p.print(0), None);
}

#[test]
fn timer_print_measures_rate() {
    let mut t = Timer::new(1, 0);
    assert_eq!(t.print(), None);
    t.sleep(0);
    // one frame in 1000 ms is 1.000 fps
    assert_eq!(t.print(), Some(1000));
}

#[test]
fn iso_8601_format() {
    let time = Time {
        datetime: DateTime::new(2024, 3, 7, 9, 5, 30, 123),
        timezone: TimeZone { hour: 9, minute: 0 },
    };
    assert_eq!(time.format_iso_8601(), "2024-03-07T09:05:30.123+09:00");
}

#[test]
fn iso_8601_format_pads_small_fields() {
    let time = Time {
        datetime: DateTime::new(42, 12, 31, 23, 59, 1, 7),
        timezone: TimeZone { hour: 0, minute: 30 },
    };
    assert_eq!(time.format_iso_8601(), "0042-12-31T23:59:01.7+00:30");
}
