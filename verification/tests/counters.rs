use audio_widget::clock::{elapsed_us, micros, now_unix, unix_seconds, Span};
use audio_widget::config::load_config;
use audio_widget::snapshot::{avg_u64, snapshot_at, stats_snapshot, throughput_bps};
use audio_widget::stats::{atomic_max, complete_stream, record_stream_status, Stats, StreamGuard};
use std::time::{Duration, Instant, SystemTime, UNIX_EPOCH};

fn zero() -> Stats {
    Stats::starting_at(1000)
}

#[test]
fn clock_readings() {
    let before = SystemTime::now().duration_since(UNIX_EPOCH).unwrap().as_secs();
    let now = now_unix();
    let after = SystemTime::now().duration_since(UNIX_EPOCH).unwrap().as_secs();
    assert!(before <= now && now <= after);
    assert_eq!(unix_seconds(None), 0);
    assert_eq!(unix_seconds(Some(Span { secs: 12, nanos: 999_999_999 })), 12);
}

#[test]
fn microseconds_of_spans() {
    assert_eq!(micros(Span { secs: 0, nanos: 999 }), 0);
    assert_eq!(micros(Span { secs: 0, nanos: 1_000 }), 1);
    assert_eq!(micros(Span { secs: 3, nanos: 999_999_999 }), 3_999_999);
    assert_eq!(micros(Span { secs: 18_446_744_073_709, nanos: 551_615_999 }), u64::MAX);
    assert_eq!(micros(Span { secs: 18_446_744_073_709, nanos: 551_614_000 }), u64::MAX - 1);
    assert_eq!(micros(Span { secs: u64::MAX, nanos: 0 }), u64::MAX);
    let span = Duration::new(77, 123_456_789);
    let parts = Span { secs: span.as_secs(), nanos: span.subsec_nanos() };
    assert_eq!(u128::from(micros(parts)), span.as_micros());
}

#[test]
fn elapsed_microseconds() {
    let started = Instant::now();
    while started.elapsed() < Duration::from_millis(2) {}
    let us = elapsed_us(started);
    let upper = started.elapsed().as_micros();
    assert!(us >= 2_000 && u128::from(us) <= upper);
}

#[test]
fn larger_numbers_are_kept() {
    let mut n = 5;
    atomic_max(&mut n, 3);
    assert_eq!(n, 5);
    atomic_max(&mut n, 9);
    assert_eq!(n, 9);
    atomic_max(&mut n, 9);
    assert_eq!(n, 9);
}

#[test]
fn counters_start_at_zero() {
    let stats = Stats::new();
    assert!(now_unix() - stats.started_at_unix <= 1);
    assert_eq!(stats, Stats::starting_at(stats.started_at_unix));
    assert_eq!(stats.stream_requests, 0);
    assert_eq!(stats.prefetch_read_us_total, 0);
}

#[test]
fn reset_forgets_everything() {
    let mut stats = zero();
    stats.begin_stream(true);
    stats.count_range(true);
    stats.count_requested(10);
    stats.count_open(1);
    stats.count_seek(2);
    stats.count_setup(3);
    stats.count_read(4);
    stats.count_first_chunk(5);
    stats.count_sent(6);
    stats.complete_after(7);
    stats.cancel_stream();
    stats.refuse_stream(404);
    stats.count_file_list();
    stats.count_meta();
    stats.begin_upload();
    stats.count_upload(8);
    stats.prefetch_bytes = 9;
    stats.reset();
    assert!(now_unix() - stats.started_at_unix <= 1);
    assert_eq!(stats, Stats::starting_at(stats.started_at_unix));
}

#[test]
fn streams_are_counted_when_they_begin() {
    let mut stats = zero();
    stats.begin_stream(false);
    stats.begin_stream(true);
    stats.cancel_stream();
    stats.begin_stream(false);
    assert_eq!(stats.stream_requests, 3);
    assert_eq!(stats.stream_active, 2);
    assert_eq!(stats.stream_active_max, 2);
    assert_eq!(stats.stream_head_requests, 1);
    assert_eq!(stats.stream_canceled, 1);
}

#[test]
fn statuses_are_counted() {
    let mut stats = zero();
    for status in [200, 206, 206, 400, 416, 499, 500, 599, 100, 201, 304, 399, 600] {
        record_stream_status(&mut stats, status);
    }
    assert_eq!(stats.stream_status_200, 1);
    assert_eq!(stats.stream_status_206, 2);
    assert_eq!(stats.stream_status_4xx, 3);
    assert_eq!(stats.stream_status_5xx, 2);
}

#[test]
fn refused_streams_end() {
    let mut stats = zero();
    stats.begin_stream(false);
    stats.refuse_stream(416);
    assert_eq!(stats.stream_active, 0);
    assert_eq!(stats.stream_errors, 1);
    assert_eq!(stats.stream_status_4xx, 1);
}

#[test]
fn times_are_added_up() {
    let mut stats = zero();
    stats.count_open(5);
    stats.count_open(3);
    stats.count_seek(2);
    stats.count_setup(4);
    stats.count_read(9);
    stats.count_read(11);
    assert_eq!((stats.stream_open_us_total, stats.stream_open_us_max), (8, 5));
    assert_eq!((stats.stream_seek_us_total, stats.stream_seek_us_max), (2, 2));
    assert_eq!((stats.stream_setup_us_total, stats.stream_setup_us_max), (4, 4));
    assert_eq!((stats.stream_read_us_total, stats.stream_read_us_max), (20, 11));
}

#[test]
fn slow_streams_are_counted() {
    let mut stats = zero();
    stats.count_first_chunk(499_999);
    assert_eq!(stats.stream_slow_first_chunk, 0);
    stats.count_first_chunk(500_000);
    assert_eq!(stats.stream_slow_first_chunk, 1);
    assert_eq!(stats.stream_first_chunk_us_total, 999_999);
    assert_eq!(stats.stream_first_chunk_us_max, 500_000);
    stats.complete_after(4_999_999);
    assert_eq!(stats.stream_slow_completed, 0);
    stats.complete_after(5_000_000);
    assert_eq!(stats.stream_slow_completed, 1);
    assert_eq!(stats.stream_completed, 2);
    assert_eq!(stats.stream_duration_us_total, 9_999_999);
    assert_eq!(stats.stream_duration_us_max, 5_000_000);
}

#[test]
fn counters_start_over() {
    let mut stats = zero();
    stats.stream_bytes = u64::MAX;
    stats.stream_chunks = u64::MAX;
    stats.count_sent(3);
    assert_eq!((stats.stream_bytes, stats.stream_chunks), (2, 0));
    stats.break_stream();
    assert_eq!(stats.stream_active, u64::MAX);
    stats.begin_stream(false);
    assert_eq!(stats.stream_active, 0);
}

#[test]
fn streams_add_up_across_a_reset() {
    let mut stats = zero();
    stats.begin_stream(false);
    stats.begin_stream(false);
    stats.reset();
    stats.complete_after(1);
    stats.cancel_stream();
    stats.begin_stream(false);
    stats.refuse_stream(404);
    let ended = stats.stream_errors + stats.stream_canceled + stats.stream_completed;
    assert_eq!(stats.stream_active.wrapping_add(ended), stats.stream_requests);
}

#[test]
fn completed_stream_takes_the_time_since_the_request() {
    let started = Instant::now();
    while started.elapsed() < Duration::from_millis(1) {}
    let mut stats = zero();
    stats.begin_stream(false);
    complete_stream(&mut stats, started);
    assert_eq!(stats.stream_completed, 1);
    assert_eq!(stats.stream_active, 0);
    assert!(stats.stream_duration_us_total >= 1_000);
    assert_eq!(stats.stream_duration_us_max, stats.stream_duration_us_total);
}

#[test]
fn guard_counts_one_completion() {
    let mut stats = zero();
    stats.begin_stream(false);
    let mut guard = StreamGuard::new(Instant::now());
    guard.finish(&mut stats);
    guard.finish(&mut stats);
    guard.finish_after(&mut stats, 77);
    guard.drop(&mut stats);
    assert_eq!(stats.stream_completed, 1);
    assert_eq!(stats.stream_canceled, 0);
    assert_eq!(stats.stream_active, 0);
}

#[test]
fn guard_counts_the_first_time() {
    let mut stats = zero();
    stats.begin_stream(false);
    let mut guard = StreamGuard::new(Instant::now());
    guard.finish_after(&mut stats, 42);
    guard.finish_after(&mut stats, 77);
    assert_eq!(stats.stream_duration_us_total, 42);
}

#[test]
fn guard_counts_a_cancellation() {
    let mut stats = zero();
    stats.begin_stream(false);
    StreamGuard::new(Instant::now()).drop(&mut stats);
    assert_eq!(stats.stream_canceled, 1);
    assert_eq!(stats.stream_completed, 0);
    assert_eq!(stats.stream_active, 0);
}

#[test]
fn guard_counts_an_error() {
    let mut stats = zero();
    stats.begin_stream(false);
    let mut guard = StreamGuard::new(Instant::now());
    guard.fail(&mut stats);
    guard.finish(&mut stats);
    guard.drop(&mut stats);
    assert_eq!(stats.stream_errors, 1);
    assert_eq!(stats.stream_canceled, 0);
    assert_eq!(stats.stream_completed, 0);
    assert_eq!(stats.stream_active, 0);
}

#[test]
fn averages() {
    assert_eq!(avg_u64(10, 0), 0);
    assert_eq!(avg_u64(10, 3), 3);
    assert_eq!(avg_u64(9, 3), 3);
    assert_eq!(avg_u64(u64::MAX, 1), u64::MAX);
}

#[test]
fn throughputs() {
    assert_eq!(throughput_bps(5, 0), 0);
    assert_eq!(throughput_bps(5, 1_000_000), 5);
    assert_eq!(throughput_bps(1, 3), 333_333);
    assert_eq!(throughput_bps(u64::MAX, 2), u64::MAX / 2);
    assert_eq!(throughput_bps(18_446_744_073_709, 1), 18_446_744_073_709_000_000);
    assert_eq!(throughput_bps(18_446_744_073_710, 1), u64::MAX);
}

#[test]
fn report_of_the_counters() {
    let config = load_config(None, None, None, None);
    let mut stats = zero();
    stats.stream_requests = 4;
    stats.stream_completed = 3;
    stats.stream_chunks = 10;
    stats.stream_bytes = 1000;
    stats.stream_duration_us_total = 500;
    stats.stream_first_chunk_us_total = 81;
    stats.stream_open_us_total = 41;
    stats.stream_seek_us_total = 42;
    stats.stream_setup_us_total = 44;
    stats.stream_read_us_total = 99;
    stats.stream_active = 1;
    stats.stream_active_max = 2;
    stats.stream_slow_completed = 6;
    stats.upload_bytes = 5;
    stats.meta_requests = 7;
    stats.file_list_requests = 8;
    stats.upload_requests = 9;
    stats.prefetch_completed = 2;
    stats.prefetch_bytes = 9;
    stats.prefetch_read_us_total = 11;
    stats.prefetch_skipped_busy = 12;
    let report = snapshot_at(&stats, config, 1234);
    assert_eq!(report.started_at_unix, 1000);
    assert_eq!(report.uptime_seconds, 234);
    assert_eq!(report.config, config);
    assert_eq!(report.requests.file_list, 8);
    assert_eq!(report.requests.meta, 7);
    assert_eq!(report.requests.upload, 9);
    assert_eq!(report.requests.upload_bytes, 5);
    assert_eq!(report.stream.requests, 4);
    assert_eq!(report.stream.active, 1);
    assert_eq!(report.stream.active_max, 2);
    assert_eq!(report.stream.avg_bytes_per_request, 333);
    assert_eq!(report.stream.avg_bytes_per_chunk, 100);
    assert_eq!(report.stream.avg_throughput_bytes_per_second, 2_000_000);
    assert_eq!(report.stream.avg_first_chunk_us, 20);
    assert_eq!(report.stream.avg_open_us, 10);
    assert_eq!(report.stream.avg_seek_us, 10);
    assert_eq!(report.stream.avg_setup_us, 11);
    assert_eq!(report.stream.avg_read_us, 9);
    assert_eq!(report.stream.avg_duration_us, 166);
    assert_eq!(report.stream.slow_completed, 6);
    assert_eq!(report.prefetch.avg_bytes, 4);
    assert_eq!(report.prefetch.avg_read_us, 5);
    assert_eq!(report.prefetch.skipped_busy, 12);
    stats.stream_chunks = 3;
    assert_eq!(snapshot_at(&stats, config, 0).stream.avg_first_chunk_us, 27);
    assert_eq!(snapshot_at(&stats, config, 0).uptime_seconds, 0);
}

#[test]
fn report_of_now() {
    let config = load_config(None, None, None, None);
    let stats = Stats::new();
    let report = stats_snapshot(&stats, config);
    assert!(report.uptime_seconds <= 1);
    assert_eq!(report, snapshot_at(&stats, config, stats.started_at_unix + report.uptime_seconds));
}
