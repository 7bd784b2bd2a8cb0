//! What the service reports of its counters.

use crate::clock::{is_unix_time, now_unix};
use crate::config::StreamConfig;
use crate::stats::Stats;
use vstd::prelude::*;

verus! {

/// The smaller of two numbers.
pub open spec fn smaller(a: u64, b: u64) -> u64 {
    if b < a {
        b
    } else {
        a
    }
}

/// A total per count, rounded down; zero if nothing was counted.
pub open spec fn average(total: u64, count: u64) -> u64 {
    if count == 0 {
        0
    } else {
        total / count
    }
}

/// An average is the largest number that, taken once for each count, does not
/// exceed the total.
pub proof fn law_average(total: u64, count: u64)
    requires
        count > 0,
    ensures
        average(total, count) * count <= total < (average(total, count) + 1) * count,
{
    assert(total / count * count <= total < (total / count + 1) * count) by (nonlinear_arith)
        requires
            count > 0,
    ;
}

/// A total per count, rounded down; zero if nothing was counted.
pub fn avg_u64(total: u64, count: u64) -> (r: u64)
    ensures
        r == average(total, count),
{
    if count == 0 {
        0
    } else {
        total / count
    }
}

/// Bytes per second for bytes in microseconds, rounded down; zero for no time.
/// The bytes are taken a million times first, and that product is capped at the
/// largest number of 64 bits.
pub open spec fn throughput(bytes: u64, duration_us: u64) -> u64 {
    if duration_us == 0 {
        0
    } else {
        let scaled: u64 = if bytes * 1_000_000 <= u64::MAX {
            (bytes * 1_000_000) as u64
        } else {
            u64::MAX
        };
        scaled / duration_us
    }
}

/// Bytes per second for bytes in microseconds.
pub fn throughput_bps(bytes: u64, duration_us: u64) -> (r: u64)
    ensures
        r == throughput(bytes, duration_us),
{
    if duration_us == 0 {
        0
    } else {
        let scaled: u64 = match bytes.checked_mul(1_000_000) {
            Some(n) => n,
            None => u64::MAX,
        };
        scaled / duration_us
    }
}

/// Requests other than streams.
#[derive(Clone, Copy, Debug, PartialEq, Eq)]
pub struct RequestNumbers {
    pub file_list: u64,
    pub meta: u64,
    pub upload: u64,
    pub upload_bytes: u64,
}

/// Streams. Times are in microseconds.
#[derive(Clone, Copy, Debug, PartialEq, Eq)]
pub struct StreamNumbers {
    pub requests: u64,
    pub active: u64,
    pub active_max: u64,
    pub head_requests: u64,
    pub range_requests: u64,
    pub full_requests: u64,
    pub status_200: u64,
    pub status_206: u64,
    pub status_4xx: u64,
    pub status_5xx: u64,
    pub errors: u64,
    pub canceled: u64,
    pub completed: u64,
    pub requested_bytes: u64,
    pub bytes: u64,
    pub chunks: u64,
    pub avg_bytes_per_request: u64,
    pub avg_bytes_per_chunk: u64,
    pub avg_throughput_bytes_per_second: u64,
    pub avg_first_chunk_us: u64,
    pub avg_open_us: u64,
    pub avg_seek_us: u64,
    pub avg_setup_us: u64,
    pub avg_read_us: u64,
    pub avg_duration_us: u64,
    pub max_first_chunk_us: u64,
    pub max_open_us: u64,
    pub max_seek_us: u64,
    pub max_setup_us: u64,
    pub max_read_us: u64,
    pub max_duration_us: u64,
    pub slow_first_chunk: u64,
    pub slow_completed: u64,
}

/// Reading ahead. Times are in microseconds.
#[derive(Clone, Copy, Debug, PartialEq, Eq)]
pub struct PrefetchNumbers {
    pub scheduled: u64,
    pub active: u64,
    pub completed: u64,
    pub errors: u64,
    pub bytes: u64,
    pub skipped_disabled: u64,
    pub skipped_eof: u64,
    pub skipped_duplicate: u64,
    pub skipped_busy: u64,
    pub avg_bytes: u64,
    pub avg_read_us: u64,
}

/// What the service reports of its counters.
#[derive(Clone, Copy, Debug, PartialEq, Eq)]
pub struct StatsSnapshot {
    pub started_at_unix: u64,
    pub uptime_seconds: u64,
    pub config: StreamConfig,
    pub requests: RequestNumbers,
    pub stream: StreamNumbers,
    pub prefetch: PrefetchNumbers,
}

/// The report at a given time.
pub open spec fn report(stats: Stats, config: StreamConfig, now: u64) -> StatsSnapshot {
    StatsSnapshot {
        started_at_unix: stats.started_at_unix,
        uptime_seconds: now.saturating_sub(stats.started_at_unix),
        config,
        requests: RequestNumbers {
            file_list: stats.file_list_requests,
            meta: stats.meta_requests,
            upload: stats.upload_requests,
            upload_bytes: stats.upload_bytes,
        },
        stream: StreamNumbers {
            requests: stats.stream_requests,
            active: stats.stream_active,
            active_max: stats.stream_active_max,
            head_requests: stats.stream_head_requests,
            range_requests: stats.stream_range_requests,
            full_requests: stats.stream_full_requests,
            status_200: stats.stream_status_200,
            status_206: stats.stream_status_206,
            status_4xx: stats.stream_status_4xx,
            status_5xx: stats.stream_status_5xx,
            errors: stats.stream_errors,
            canceled: stats.stream_canceled,
            completed: stats.stream_completed,
            requested_bytes: stats.stream_requested_bytes,
            bytes: stats.stream_bytes,
            chunks: stats.stream_chunks,
            avg_bytes_per_request: average(stats.stream_bytes, stats.stream_completed),
            avg_bytes_per_chunk: average(stats.stream_bytes, stats.stream_chunks),
            avg_throughput_bytes_per_second: throughput(stats.stream_bytes, stats.stream_duration_us_total),
            avg_first_chunk_us: average(stats.stream_first_chunk_us_total, smaller(stats.stream_chunks, stats.stream_requests)),
            avg_open_us: average(stats.stream_open_us_total, stats.stream_requests),
            avg_seek_us: average(stats.stream_seek_us_total, stats.stream_requests),
            avg_setup_us: average(stats.stream_setup_us_total, stats.stream_requests),
            avg_read_us: average(stats.stream_read_us_total, stats.stream_chunks),
            avg_duration_us: average(stats.stream_duration_us_total, stats.stream_completed),
            max_first_chunk_us: stats.stream_first_chunk_us_max,
            max_open_us: stats.stream_open_us_max,
            max_seek_us: stats.stream_seek_us_max,
            max_setup_us: stats.stream_setup_us_max,
            max_read_us: stats.stream_read_us_max,
            max_duration_us: stats.stream_duration_us_max,
            slow_first_chunk: stats.stream_slow_first_chunk,
            slow_completed: stats.stream_slow_completed,
        },
        prefetch: PrefetchNumbers {
            scheduled: stats.prefetch_scheduled,
            active: stats.prefetch_active,
            completed: stats.prefetch_completed,
            errors: stats.prefetch_errors,
            bytes: stats.prefetch_bytes,
            skipped_disabled: stats.prefetch_skipped_disabled,
            skipped_eof: stats.prefetch_skipped_eof,
            skipped_duplicate: stats.prefetch_skipped_duplicate,
            skipped_busy: stats.prefetch_skipped_busy,
            avg_bytes: average(stats.prefetch_bytes, stats.prefetch_completed),
            avg_read_us: average(stats.prefetch_read_us_total, stats.prefetch_completed),
        },
    }
}

/// Reports the counters at a given time.
pub fn snapshot_at(stats: &Stats, config: StreamConfig, now: u64) -> (r: StatsSnapshot)
    ensures
        r == report(*stats, config, now),
{
    let firsts: u64 = if stats.stream_requests < stats.stream_chunks {
        stats.stream_requests
    } else {
        stats.stream_chunks
    };
    StatsSnapshot {
        started_at_unix: stats.started_at_unix,
        uptime_seconds: now.saturating_sub(stats.started_at_unix),
        config,
        requests: RequestNumbers {
            file_list: stats.file_list_requests,
            meta: stats.meta_requests,
            upload: stats.upload_requests,
            upload_bytes: stats.upload_bytes,
        },
        stream: StreamNumbers {
            requests: stats.stream_requests,
            active: stats.stream_active,
            active_max: stats.stream_active_max,
            head_requests: stats.stream_head_requests,
            range_requests: stats.stream_range_requests,
            full_requests: stats.stream_full_requests,
            status_200: stats.stream_status_200,
            status_206: stats.stream_status_206,
            status_4xx: stats.stream_status_4xx,
            status_5xx: stats.stream_status_5xx,
            errors: stats.stream_errors,
            canceled: stats.stream_canceled,
            completed: stats.stream_completed,
            requested_bytes: stats.stream_requested_bytes,
            bytes: stats.stream_bytes,
            chunks: stats.stream_chunks,
            avg_bytes_per_request: avg_u64(stats.stream_bytes, stats.stream_completed),
            avg_bytes_per_chunk: avg_u64(stats.stream_bytes, stats.stream_chunks),
            avg_throughput_bytes_per_second: throughput_bps(stats.stream_bytes, stats.stream_duration_us_total),
            avg_first_chunk_us: avg_u64(stats.stream_first_chunk_us_total, firsts),
            avg_open_us: avg_u64(stats.stream_open_us_total, stats.stream_requests),
            avg_seek_us: avg_u64(stats.stream_seek_us_total, stats.stream_requests),
            avg_setup_us: avg_u64(stats.stream_setup_us_total, stats.stream_requests),
            avg_read_us: avg_u64(stats.stream_read_us_total, stats.stream_chunks),
            avg_duration_us: avg_u64(stats.stream_duration_us_total, stats.stream_completed),
            max_first_chunk_us: stats.stream_first_chunk_us_max,
            max_open_us: stats.stream_open_us_max,
            max_seek_us: stats.stream_seek_us_max,
            max_setup_us: stats.stream_setup_us_max,
            max_read_us: stats.stream_read_us_max,
            max_duration_us: stats.stream_duration_us_max,
            slow_first_chunk: stats.stream_slow_first_chunk,
            slow_completed: stats.stream_slow_completed,
        },
        prefetch: PrefetchNumbers {
            scheduled: stats.prefetch_scheduled,
            active: stats.prefetch_active,
            completed: stats.prefetch_completed,
            errors: stats.prefetch_errors,
            bytes: stats.prefetch_bytes,
            skipped_disabled: stats.prefetch_skipped_disabled,
            skipped_eof: stats.prefetch_skipped_eof,
            skipped_duplicate: stats.prefetch_skipped_duplicate,
            skipped_busy: stats.prefetch_skipped_busy,
            avg_bytes: avg_u64(stats.prefetch_bytes, stats.prefetch_completed),
            avg_read_us: avg_u64(stats.prefetch_read_us_total, stats.prefetch_completed),
        },
    }
}

/// Reports the counters now, which is a reading of the system clock.
pub fn stats_snapshot(stats: &Stats, config: StreamConfig) -> (r: StatsSnapshot)
    ensures
        exists|now: u64| #[trigger] is_unix_time(now) && r == report(*stats, config, now),
{
    let now: u64 = now_unix();
    snapshot_at(stats, config, now)
}

/// An average times the count comes as near to the total as whole numbers can,
/// from below; of nothing it is zero. The throughput does the same for a
/// million times the bytes, or the largest number there is if that is more.
pub proof fn law_rates(total: u64, count: u64)
    ensures
        average(total, 0) == 0,
        throughput(total, 0) == 0,
        count > 0 ==> average(total, count) * count <= total < (average(total, count) + 1) * count,
        count > 0 ==> {
            let scaled = if total * 1_000_000 <= u64::MAX {
                total * 1_000_000
            } else {
                u64::MAX as int
            };
            throughput(total, count) * count <= scaled < (throughput(total, count) + 1) * count
        },
{
    if count > 0 {
        law_average(total, count);
        let scaled: u64 = if total * 1_000_000 <= u64::MAX {
            (total * 1_000_000) as u64
        } else {
            u64::MAX
        };
        law_average(scaled, count);
    }
}

/// The report gives each counter as it is, and averages over what each of them
/// is counted for.
pub proof fn law_report(stats: Stats, config: StreamConfig, now: u64)
    ensures
        ({
            let r = report(stats, config, now);
            &&& r.started_at_unix == stats.started_at_unix
            &&& now >= stats.started_at_unix ==> r.uptime_seconds == now - stats.started_at_unix
            &&& now < stats.started_at_unix ==> r.uptime_seconds == 0
            &&& r.config == config
            &&& r.requests.file_list == stats.file_list_requests
            &&& r.requests.meta == stats.meta_requests
            &&& r.requests.upload == stats.upload_requests
            &&& r.requests.upload_bytes == stats.upload_bytes
        }),
        ({
            let s = report(stats, config, now).stream;
            &&& s.requests == stats.stream_requests
            &&& s.active == stats.stream_active
            &&& s.active_max == stats.stream_active_max
            &&& s.head_requests == stats.stream_head_requests
            &&& s.range_requests == stats.stream_range_requests
            &&& s.full_requests == stats.stream_full_requests
            &&& s.status_200 == stats.stream_status_200
            &&& s.status_206 == stats.stream_status_206
            &&& s.status_4xx == stats.stream_status_4xx
            &&& s.status_5xx == stats.stream_status_5xx
            &&& s.errors == stats.stream_errors
            &&& s.canceled == stats.stream_canceled
            &&& s.completed == stats.stream_completed
            &&& s.requested_bytes == stats.stream_requested_bytes
            &&& s.bytes == stats.stream_bytes
            &&& s.chunks == stats.stream_chunks
            &&& s.max_first_chunk_us == stats.stream_first_chunk_us_max
            &&& s.max_open_us == stats.stream_open_us_max
            &&& s.max_seek_us == stats.stream_seek_us_max
            &&& s.max_setup_us == stats.stream_setup_us_max
            &&& s.max_read_us == stats.stream_read_us_max
            &&& s.max_duration_us == stats.stream_duration_us_max
            &&& s.slow_first_chunk == stats.stream_slow_first_chunk
            &&& s.slow_completed == stats.stream_slow_completed
            &&& s.avg_bytes_per_request == average(stats.stream_bytes, stats.stream_completed)
            &&& s.avg_bytes_per_chunk == average(stats.stream_bytes, stats.stream_chunks)
            &&& s.avg_throughput_bytes_per_second == throughput(
                stats.stream_bytes,
                stats.stream_duration_us_total,
            )
            &&& s.avg_first_chunk_us == average(
                stats.stream_first_chunk_us_total,
                if stats.stream_chunks <= stats.stream_requests {
                    stats.stream_chunks
                } else {
                    stats.stream_requests
                },
            )
            &&& s.avg_open_us == average(stats.stream_open_us_total, stats.stream_requests)
            &&& s.avg_seek_us == average(stats.stream_seek_us_total, stats.stream_requests)
            &&& s.avg_setup_us == average(stats.stream_setup_us_total, stats.stream_requests)
            &&& s.avg_read_us == average(stats.stream_read_us_total, stats.stream_chunks)
            &&& s.avg_duration_us == average(stats.stream_duration_us_total, stats.stream_completed)
        }),
        ({
            let p = report(stats, config, now).prefetch;
            &&& p.scheduled == stats.prefetch_scheduled
            &&& p.active == stats.prefetch_active
            &&& p.completed == stats.prefetch_completed
            &&& p.errors == stats.prefetch_errors
            &&& p.bytes == stats.prefetch_bytes
            &&& p.skipped_disabled == stats.prefetch_skipped_disabled
            &&& p.skipped_eof == stats.prefetch_skipped_eof
            &&& p.skipped_duplicate == stats.prefetch_skipped_duplicate
            &&& p.skipped_busy == stats.prefetch_skipped_busy
            &&& p.avg_bytes == average(stats.prefetch_bytes, stats.prefetch_completed)
            &&& p.avg_read_us == average(stats.prefetch_read_us_total, stats.prefetch_completed)
        }),
{
}

} // verus!
