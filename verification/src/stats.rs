//! Counters of what the service did.
//!
//! A counter that has reached its largest value starts over from zero.

use crate::clock::{elapsed_us, is_micros_since, is_unix_time, now_unix};
use std::time::Instant;
use vstd::prelude::*;

verus! {

/// A first piece that takes this many microseconds to send is slow.
pub const SLOW_FIRST_CHUNK_US: u64 = 500_000;

/// A stream that takes this many microseconds is slow.
pub const SLOW_STREAM_US: u64 = 5_000_000;

/// The counters. Times are in microseconds.
#[derive(Clone, Copy, Debug, PartialEq, Eq)]
pub struct Stats {
    pub started_at_unix: u64,
    pub stream_requests: u64,
    pub stream_active: u64,
    pub stream_active_max: u64,
    pub stream_head_requests: u64,
    pub stream_range_requests: u64,
    pub stream_full_requests: u64,
    pub stream_status_200: u64,
    pub stream_status_206: u64,
    pub stream_status_4xx: u64,
    pub stream_status_5xx: u64,
    pub stream_requested_bytes: u64,
    pub stream_errors: u64,
    pub stream_canceled: u64,
    pub stream_completed: u64,
    pub stream_bytes: u64,
    pub stream_chunks: u64,
    pub stream_read_us_total: u64,
    pub stream_duration_us_total: u64,
    pub stream_first_chunk_us_total: u64,
    pub stream_open_us_total: u64,
    pub stream_seek_us_total: u64,
    pub stream_setup_us_total: u64,
    pub stream_first_chunk_us_max: u64,
    pub stream_read_us_max: u64,
    pub stream_duration_us_max: u64,
    pub stream_open_us_max: u64,
    pub stream_seek_us_max: u64,
    pub stream_setup_us_max: u64,
    pub stream_slow_first_chunk: u64,
    pub stream_slow_completed: u64,
    pub upload_requests: u64,
    pub upload_bytes: u64,
    pub meta_requests: u64,
    pub file_list_requests: u64,
    pub prefetch_scheduled: u64,
    pub prefetch_skipped_disabled: u64,
    pub prefetch_skipped_eof: u64,
    pub prefetch_skipped_duplicate: u64,
    pub prefetch_skipped_busy: u64,
    pub prefetch_active: u64,
    pub prefetch_completed: u64,
    pub prefetch_errors: u64,
    pub prefetch_bytes: u64,
    pub prefetch_read_us_total: u64,
}

/// The larger of two numbers.
pub open spec fn larger(a: u64, b: u64) -> u64 {
    if b > a {
        b
    } else {
        a
    }
}

/// Raises a number to another one, if that is larger.
pub fn atomic_max(target: &mut u64, value: u64)
    ensures
        *final(target) == larger(*old(target), value),
{
    if value > *target {
        *target = value;
    }
}

impl Stats {
    /// Counters that have counted nothing since the given time.
    pub open spec fn started_at(now: u64) -> Stats {
        Stats {
            started_at_unix: now,
            stream_requests: 0,
            stream_active: 0,
            stream_active_max: 0,
            stream_head_requests: 0,
            stream_range_requests: 0,
            stream_full_requests: 0,
            stream_status_200: 0,
            stream_status_206: 0,
            stream_status_4xx: 0,
            stream_status_5xx: 0,
            stream_requested_bytes: 0,
            stream_errors: 0,
            stream_canceled: 0,
            stream_completed: 0,
            stream_bytes: 0,
            stream_chunks: 0,
            stream_read_us_total: 0,
            stream_duration_us_total: 0,
            stream_first_chunk_us_total: 0,
            stream_open_us_total: 0,
            stream_seek_us_total: 0,
            stream_setup_us_total: 0,
            stream_first_chunk_us_max: 0,
            stream_read_us_max: 0,
            stream_duration_us_max: 0,
            stream_open_us_max: 0,
            stream_seek_us_max: 0,
            stream_setup_us_max: 0,
            stream_slow_first_chunk: 0,
            stream_slow_completed: 0,
            upload_requests: 0,
            upload_bytes: 0,
            meta_requests: 0,
            file_list_requests: 0,
            prefetch_scheduled: 0,
            prefetch_skipped_disabled: 0,
            prefetch_skipped_eof: 0,
            prefetch_skipped_duplicate: 0,
            prefetch_skipped_busy: 0,
            prefetch_active: 0,
            prefetch_completed: 0,
            prefetch_errors: 0,
            prefetch_bytes: 0,
            prefetch_read_us_total: 0,
        }
    }

    /// Counters that have counted nothing since the given time.
    pub fn starting_at(now: u64) -> (r: Stats)
        ensures
            r == Stats::started_at(now),
    {
        Stats {
            started_at_unix: now,
            stream_requests: 0,
            stream_active: 0,
            stream_active_max: 0,
            stream_head_requests: 0,
            stream_range_requests: 0,
            stream_full_requests: 0,
            stream_status_200: 0,
            stream_status_206: 0,
            stream_status_4xx: 0,
            stream_status_5xx: 0,
            stream_requested_bytes: 0,
            stream_errors: 0,
            stream_canceled: 0,
            stream_completed: 0,
            stream_bytes: 0,
            stream_chunks: 0,
            stream_read_us_total: 0,
            stream_duration_us_total: 0,
            stream_first_chunk_us_total: 0,
            stream_open_us_total: 0,
            stream_seek_us_total: 0,
            stream_setup_us_total: 0,
            stream_first_chunk_us_max: 0,
            stream_read_us_max: 0,
            stream_duration_us_max: 0,
            stream_open_us_max: 0,
            stream_seek_us_max: 0,
            stream_setup_us_max: 0,
            stream_slow_first_chunk: 0,
            stream_slow_completed: 0,
            upload_requests: 0,
            upload_bytes: 0,
            meta_requests: 0,
            file_list_requests: 0,
            prefetch_scheduled: 0,
            prefetch_skipped_disabled: 0,
            prefetch_skipped_eof: 0,
            prefetch_skipped_duplicate: 0,
            prefetch_skipped_busy: 0,
            prefetch_active: 0,
            prefetch_completed: 0,
            prefetch_errors: 0,
            prefetch_bytes: 0,
            prefetch_read_us_total: 0,
        }
    }

    /// Counters that start to count now, which is a reading of the system clock.
    pub fn new() -> (r: Stats)
        ensures
            is_unix_time(r.started_at_unix),
            r == Stats::started_at(r.started_at_unix),
    {
        Stats::starting_at(now_unix())
    }

    /// Forgets what was counted and starts to count now, which is a reading of
    /// the system clock.
    pub fn reset(&mut self)
        ensures
            is_unix_time(final(self).started_at_unix),
            *final(self) == Stats::started_at(final(self).started_at_unix),
    {
        *self = Stats::starting_at(now_unix());
    }
}

/// How the counters change.
impl Stats {
    /// A stream was asked for, with or without its content.
    pub open spec fn begun(self, head: bool) -> Stats {
        let active = self.stream_active.wrapping_add(1);
        Stats {
            stream_requests: self.stream_requests.wrapping_add(1),
            stream_active: active,
            stream_active_max: larger(self.stream_active_max, active),
            stream_head_requests: if head {
                self.stream_head_requests.wrapping_add(1)
            } else {
                self.stream_head_requests
            },
            ..self
        }
    }

    /// A stream was asked for in part or whole.
    pub open spec fn ranged(self, in_part: bool) -> Stats {
        if in_part {
            Stats { stream_range_requests: self.stream_range_requests.wrapping_add(1), ..self }
        } else {
            Stats { stream_full_requests: self.stream_full_requests.wrapping_add(1), ..self }
        }
    }

    /// A number of bytes is going to be sent.
    pub open spec fn requested(self, length: u64) -> Stats {
        Stats { stream_requested_bytes: self.stream_requested_bytes.wrapping_add(length), ..self }
    }

    /// A stream was answered with a status.
    pub open spec fn answered(self, status: u16) -> Stats {
        if status == 200 {
            Stats { stream_status_200: self.stream_status_200.wrapping_add(1), ..self }
        } else if status == 206 {
            Stats { stream_status_206: self.stream_status_206.wrapping_add(1), ..self }
        } else if 400 <= status <= 499 {
            Stats { stream_status_4xx: self.stream_status_4xx.wrapping_add(1), ..self }
        } else if 500 <= status <= 599 {
            Stats { stream_status_5xx: self.stream_status_5xx.wrapping_add(1), ..self }
        } else {
            self
        }
    }

    /// A stream ended in an error.
    pub open spec fn broken(self) -> Stats {
        Stats {
            stream_errors: self.stream_errors.wrapping_add(1),
            stream_active: self.stream_active.wrapping_sub(1),
            ..self
        }
    }

    /// A stream was refused with a status.
    pub open spec fn refused(self, status: u16) -> Stats {
        self.answered(status).broken()
    }

    /// The file of a stream was opened in the given time.
    pub open spec fn opened(self, us: u64) -> Stats {
        Stats {
            stream_open_us_total: self.stream_open_us_total.wrapping_add(us),
            stream_open_us_max: larger(self.stream_open_us_max, us),
            ..self
        }
    }

    /// The first byte of a stream was found in the given time.
    pub open spec fn sought(self, us: u64) -> Stats {
        Stats {
            stream_seek_us_total: self.stream_seek_us_total.wrapping_add(us),
            stream_seek_us_max: larger(self.stream_seek_us_max, us),
            ..self
        }
    }

    /// A stream was ready to be answered after the given time.
    pub open spec fn set_up(self, us: u64) -> Stats {
        Stats {
            stream_setup_us_total: self.stream_setup_us_total.wrapping_add(us),
            stream_setup_us_max: larger(self.stream_setup_us_max, us),
            ..self
        }
    }

    /// A piece of a file was read in the given time.
    pub open spec fn read(self, us: u64) -> Stats {
        Stats {
            stream_read_us_total: self.stream_read_us_total.wrapping_add(us),
            stream_read_us_max: larger(self.stream_read_us_max, us),
            ..self
        }
    }

    /// The first piece of a stream was there after the given time.
    pub open spec fn first_chunk(self, us: u64) -> Stats {
        Stats {
            stream_first_chunk_us_total: self.stream_first_chunk_us_total.wrapping_add(us),
            stream_first_chunk_us_max: larger(self.stream_first_chunk_us_max, us),
            stream_slow_first_chunk: if us >= SLOW_FIRST_CHUNK_US {
                self.stream_slow_first_chunk.wrapping_add(1)
            } else {
                self.stream_slow_first_chunk
            },
            ..self
        }
    }

    /// A piece of the given size was sent.
    pub open spec fn sent(self, bytes: u64) -> Stats {
        Stats {
            stream_bytes: self.stream_bytes.wrapping_add(bytes),
            stream_chunks: self.stream_chunks.wrapping_add(1),
            ..self
        }
    }

    /// A stream was sent to its end in the given time.
    pub open spec fn completed(self, us: u64) -> Stats {
        Stats {
            stream_completed: self.stream_completed.wrapping_add(1),
            stream_duration_us_total: self.stream_duration_us_total.wrapping_add(us),
            stream_duration_us_max: larger(self.stream_duration_us_max, us),
            stream_slow_completed: if us >= SLOW_STREAM_US {
                self.stream_slow_completed.wrapping_add(1)
            } else {
                self.stream_slow_completed
            },
            stream_active: self.stream_active.wrapping_sub(1),
            ..self
        }
    }

    /// A stream was given up before its end.
    pub open spec fn canceled(self) -> Stats {
        Stats {
            stream_canceled: self.stream_canceled.wrapping_add(1),
            stream_active: self.stream_active.wrapping_sub(1),
            ..self
        }
    }

    /// The list of files was asked for.
    pub open spec fn listed(self) -> Stats {
        Stats { file_list_requests: self.file_list_requests.wrapping_add(1), ..self }
    }

    /// The description of a file was asked for.
    pub open spec fn described(self) -> Stats {
        Stats { meta_requests: self.meta_requests.wrapping_add(1), ..self }
    }

    /// An upload was asked for.
    pub open spec fn upload_begun(self) -> Stats {
        Stats { upload_requests: self.upload_requests.wrapping_add(1), ..self }
    }

    /// A piece of an upload came in.
    pub open spec fn uploaded(self, bytes: u64) -> Stats {
        Stats { upload_bytes: self.upload_bytes.wrapping_add(bytes), ..self }
    }

    /// Nothing was read ahead because that is switched off.
    pub open spec fn read_ahead_disabled(self) -> Stats {
        Stats { prefetch_skipped_disabled: self.prefetch_skipped_disabled.wrapping_add(1), ..self }
    }

    /// Nothing was read ahead because nothing is left of the file.
    pub open spec fn read_ahead_at_end(self) -> Stats {
        Stats { prefetch_skipped_eof: self.prefetch_skipped_eof.wrapping_add(1), ..self }
    }

    /// Nothing was read ahead because the file is being read ahead already.
    pub open spec fn read_ahead_duplicate(self) -> Stats {
        Stats {
            prefetch_skipped_duplicate: self.prefetch_skipped_duplicate.wrapping_add(1),
            ..self
        }
    }

    /// A file is going to be read ahead.
    pub open spec fn read_ahead_scheduled(self) -> Stats {
        Stats { prefetch_scheduled: self.prefetch_scheduled.wrapping_add(1), ..self }
    }

    /// A file is not read ahead after all because too many others are.
    pub open spec fn read_ahead_busy(self) -> Stats {
        Stats { prefetch_skipped_busy: self.prefetch_skipped_busy.wrapping_add(1), ..self }
    }

    /// A file is being read ahead.
    pub open spec fn read_ahead_started(self) -> Stats {
        Stats { prefetch_active: self.prefetch_active.wrapping_add(1), ..self }
    }

    /// So many bytes of a file were read ahead in the given time.
    pub open spec fn read_ahead_done(self, bytes: u64, us: u64) -> Stats {
        Stats {
            prefetch_completed: self.prefetch_completed.wrapping_add(1),
            prefetch_bytes: self.prefetch_bytes.wrapping_add(bytes),
            prefetch_read_us_total: self.prefetch_read_us_total.wrapping_add(us),
            prefetch_active: self.prefetch_active.wrapping_sub(1),
            ..self
        }
    }

    /// A file could not be read ahead.
    pub open spec fn read_ahead_failed(self) -> Stats {
        Stats {
            prefetch_errors: self.prefetch_errors.wrapping_add(1),
            prefetch_active: self.prefetch_active.wrapping_sub(1),
            ..self
        }
    }
}

impl Stats {
    /// Counts a stream that is asked for.
    pub fn begin_stream(&mut self, head: bool)
        ensures
            *final(self) == old(self).begun(head),
    {
        self.stream_requests = self.stream_requests.wrapping_add(1);
        let active: u64 = self.stream_active.wrapping_add(1);
        self.stream_active = active;
        atomic_max(&mut self.stream_active_max, active);
        if head {
            self.stream_head_requests = self.stream_head_requests.wrapping_add(1);
        }
    }

    /// Counts whether a stream is asked for in part.
    pub fn count_range(&mut self, in_part: bool)
        ensures
            *final(self) == old(self).ranged(in_part),
    {
        if in_part {
            self.stream_range_requests = self.stream_range_requests.wrapping_add(1);
        } else {
            self.stream_full_requests = self.stream_full_requests.wrapping_add(1);
        }
    }

    /// Counts the bytes that are going to be sent.
    pub fn count_requested(&mut self, length: u64)
        ensures
            *final(self) == old(self).requested(length),
    {
        self.stream_requested_bytes = self.stream_requested_bytes.wrapping_add(length);
    }

    /// Counts a stream that ends in an error.
    pub fn break_stream(&mut self)
        ensures
            *final(self) == old(self).broken(),
    {
        self.stream_errors = self.stream_errors.wrapping_add(1);
        self.stream_active = self.stream_active.wrapping_sub(1);
    }

    /// Counts a stream that is refused.
    pub fn refuse_stream(&mut self, status: u16)
        ensures
            *final(self) == old(self).refused(status),
    {
        record_stream_status(self, status);
        self.break_stream();
    }

    /// Counts the time that it took to open a file.
    pub fn count_open(&mut self, us: u64)
        ensures
            *final(self) == old(self).opened(us),
    {
        self.stream_open_us_total = self.stream_open_us_total.wrapping_add(us);
        atomic_max(&mut self.stream_open_us_max, us);
    }

    /// Counts the time that it took to find the first byte.
    pub fn count_seek(&mut self, us: u64)
        ensures
            *final(self) == old(self).sought(us),
    {
        self.stream_seek_us_total = self.stream_seek_us_total.wrapping_add(us);
        atomic_max(&mut self.stream_seek_us_max, us);
    }

    /// Counts the time until a stream is answered.
    pub fn count_setup(&mut self, us: u64)
        ensures
            *final(self) == old(self).set_up(us),
    {
        self.stream_setup_us_total = self.stream_setup_us_total.wrapping_add(us);
        atomic_max(&mut self.stream_setup_us_max, us);
    }

    /// Counts the time that it took to read a piece.
    pub fn count_read(&mut self, us: u64)
        ensures
            *final(self) == old(self).read(us),
    {
        self.stream_read_us_total = self.stream_read_us_total.wrapping_add(us);
        atomic_max(&mut self.stream_read_us_max, us);
    }

    /// Counts the time until the first piece is there.
    pub fn count_first_chunk(&mut self, us: u64)
        ensures
            *final(self) == old(self).first_chunk(us),
    {
        self.stream_first_chunk_us_total = self.stream_first_chunk_us_total.wrapping_add(us);
        atomic_max(&mut self.stream_first_chunk_us_max, us);
        if us >= SLOW_FIRST_CHUNK_US {
            self.stream_slow_first_chunk = self.stream_slow_first_chunk.wrapping_add(1);
        }
    }

    /// Counts a piece that is sent.
    pub fn count_sent(&mut self, bytes: u64)
        ensures
            *final(self) == old(self).sent(bytes),
    {
        self.stream_bytes = self.stream_bytes.wrapping_add(bytes);
        self.stream_chunks = self.stream_chunks.wrapping_add(1);
    }

    /// Counts a stream that is sent to its end in the given time.
    pub fn complete_after(&mut self, us: u64)
        ensures
            *final(self) == old(self).completed(us),
    {
        self.stream_completed = self.stream_completed.wrapping_add(1);
        self.stream_duration_us_total = self.stream_duration_us_total.wrapping_add(us);
        atomic_max(&mut self.stream_duration_us_max, us);
        if us >= SLOW_STREAM_US {
            self.stream_slow_completed = self.stream_slow_completed.wrapping_add(1);
        }
        self.stream_active = self.stream_active.wrapping_sub(1);
    }

    /// Counts a stream that is given up.
    pub fn cancel_stream(&mut self)
        ensures
            *final(self) == old(self).canceled(),
    {
        self.stream_canceled = self.stream_canceled.wrapping_add(1);
        self.stream_active = self.stream_active.wrapping_sub(1);
    }

    /// Counts a request for the list of files.
    pub fn count_file_list(&mut self)
        ensures
            *final(self) == old(self).listed(),
    {
        self.file_list_requests = self.file_list_requests.wrapping_add(1);
    }

    /// Counts a request for the description of a file.
    pub fn count_meta(&mut self)
        ensures
            *final(self) == old(self).described(),
    {
        self.meta_requests = self.meta_requests.wrapping_add(1);
    }

    /// Counts an upload.
    pub fn begin_upload(&mut self)
        ensures
            *final(self) == old(self).upload_begun(),
    {
        self.upload_requests = self.upload_requests.wrapping_add(1);
    }

    /// Counts a piece of an upload.
    pub fn count_upload(&mut self, bytes: u64)
        ensures
            *final(self) == old(self).uploaded(bytes),
    {
        self.upload_bytes = self.upload_bytes.wrapping_add(bytes);
    }
}

/// Counts a status that a stream is answered with.
pub fn record_stream_status(stats: &mut Stats, status: u16)
    ensures
        *final(stats) == old(stats).answered(status),
{
    if status == 200 {
        stats.stream_status_200 = stats.stream_status_200.wrapping_add(1);
    } else if status == 206 {
        stats.stream_status_206 = stats.stream_status_206.wrapping_add(1);
    } else if 400 <= status && status <= 499 {
        stats.stream_status_4xx = stats.stream_status_4xx.wrapping_add(1);
    } else if 500 <= status && status <= 599 {
        stats.stream_status_5xx = stats.stream_status_5xx.wrapping_add(1);
    }
}

/// Counts a stream that is sent to its end, in the time since the request that
/// the clock gives.
pub fn complete_stream(stats: &mut Stats, request_started: Instant)
    ensures
        exists|us: u64| #[trigger]
            is_micros_since(request_started, us) && *final(stats) == old(stats).completed(us),
{
    let us: u64 = elapsed_us(request_started);
    stats.complete_after(us);
}

/// Sees to it that a stream whose content is being sent is counted once when
/// it ends: as completed, as broken, or as canceled if neither comes first.
pub struct StreamGuard {
    pub request_started: Instant,
    pub done: bool,
}

impl StreamGuard {
    /// The guard of a stream that was asked for at the given time.
    pub fn new(request_started: Instant) -> (r: StreamGuard)
        ensures
            r.request_started == request_started,
            !r.done,
    {
        StreamGuard { request_started, done: false }
    }

    /// The counters once the stream has come to its end in the given time.
    pub open spec fn finished(self, stats: Stats, us: u64) -> Stats {
        if self.done {
            stats
        } else {
            stats.completed(us)
        }
    }

    /// The counters once the guard is dropped.
    pub open spec fn dropped(self, stats: Stats) -> Stats {
        if self.done {
            stats
        } else {
            stats.canceled()
        }
    }

    /// Counts the stream as completed in the given time, unless it has ended.
    pub fn finish_after(&mut self, stats: &mut Stats, us: u64)
        ensures
            *final(stats) == old(self).finished(*old(stats), us),
            *final(self) == (StreamGuard { done: true, ..*old(self) }),
    {
        if !self.done {
            self.done = true;
            stats.complete_after(us);
        }
    }

    /// Counts the stream as completed, unless it has ended, in the time since
    /// the request that the clock gives.
    pub fn finish(&mut self, stats: &mut Stats)
        ensures
            if old(self).done {
                *final(stats) == *old(stats)
            } else {
                exists|us: u64| #[trigger]
                    is_micros_since(old(self).request_started, us) && *final(stats) == old(
                        stats,
                    ).completed(us)
            },
            *final(self) == (StreamGuard { done: true, ..*old(self) }),
    {
        if !self.done {
            self.done = true;
            complete_stream(stats, self.request_started);
        }
    }

    /// Counts the stream as broken.
    pub fn fail(&mut self, stats: &mut Stats)
        ensures
            *final(stats) == old(stats).broken(),
            *final(self) == (StreamGuard { done: true, ..*old(self) }),
    {
        stats.break_stream();
        self.done = true;
    }

    /// Counts the stream as canceled, unless it has ended.
    pub fn drop(self, stats: &mut Stats)
        ensures
            *final(stats) == self.dropped(*old(stats)),
    {
        if !self.done {
            stats.cancel_stream();
        }
    }
}

/// Counters that are reset again differ in nothing but the time of the reset,
/// and are what new counters are.
pub proof fn law_reset_again(first: u64, second: u64)
    ensures
        (Stats { started_at_unix: second, ..Stats::started_at(first) }) == Stats::started_at(second),
{
}

/// A guard counts its stream once: as completed with the first of the times
/// that it is told, as broken, or else as canceled.
pub proof fn law_stream_ends_once(guard: StreamGuard, stats: Stats, us: u64, again: u64)
    requires
        !guard.done,
    ensures
        ({
            let ended = StreamGuard { done: true, ..guard };
            &&& ended.dropped(ended.finished(guard.finished(stats, us), again)) == stats.completed(us)
            &&& ended.dropped(ended.finished(stats.broken(), again)) == stats.broken()
            &&& guard.dropped(stats) == stats.canceled()
        }),
{
}

impl Stats {
    /// The streams that were asked for and are neither active nor ended, modulo
    /// the number of values of a counter.
    #[verifier::opaque]
    pub open spec fn unaccounted(self) -> int {
        (self.stream_requests - self.stream_active - self.stream_errors - self.stream_canceled
            - self.stream_completed) % 0x1_0000_0000_0000_0000
    }
}

/// The streams that are not accounted for stay the same where what was asked for
/// and what became of it change alike, as far as counters start over.
proof fn lemma_unaccounted(s: Stats, t: Stats)
    requires
        ({
            let x = s.stream_requests - s.stream_active - s.stream_errors - s.stream_canceled
                - s.stream_completed;
            let y = t.stream_requests - t.stream_active - t.stream_errors - t.stream_canceled
                - t.stream_completed;
            ||| y == x
            ||| y == x - 0x1_0000_0000_0000_0000
            ||| y == x + 0x1_0000_0000_0000_0000
        }),
    ensures
        t.unaccounted() == s.unaccounted(),
{
    reveal(Stats::unaccounted);
}

/// Every stream that is asked for is active until it is counted as completed,
/// canceled or in error, and is counted as only one of them: whatever is
/// counted, the numbers keep adding up, and they do after a reset.
pub proof fn law_streams_add_up(
    stats: Stats,
    head: bool,
    in_part: bool,
    status: u16,
    us: u64,
    bytes: u64,
)
    ensures
        Stats::started_at(us).unaccounted() == 0,
        stats.begun(head).unaccounted() == stats.unaccounted(),
        stats.ranged(in_part).unaccounted() == stats.unaccounted(),
        stats.requested(bytes).unaccounted() == stats.unaccounted(),
        stats.answered(status).unaccounted() == stats.unaccounted(),
        stats.broken().unaccounted() == stats.unaccounted(),
        stats.refused(status).unaccounted() == stats.unaccounted(),
        stats.opened(us).unaccounted() == stats.unaccounted(),
        stats.sought(us).unaccounted() == stats.unaccounted(),
        stats.set_up(us).unaccounted() == stats.unaccounted(),
        stats.read(us).unaccounted() == stats.unaccounted(),
        stats.first_chunk(us).unaccounted() == stats.unaccounted(),
        stats.sent(bytes).unaccounted() == stats.unaccounted(),
        stats.completed(us).unaccounted() == stats.unaccounted(),
        stats.canceled().unaccounted() == stats.unaccounted(),
        stats.listed().unaccounted() == stats.unaccounted(),
        stats.described().unaccounted() == stats.unaccounted(),
        stats.upload_begun().unaccounted() == stats.unaccounted(),
        stats.uploaded(bytes).unaccounted() == stats.unaccounted(),
        stats.read_ahead_disabled().unaccounted() == stats.unaccounted(),
        stats.read_ahead_at_end().unaccounted() == stats.unaccounted(),
        stats.read_ahead_duplicate().unaccounted() == stats.unaccounted(),
        stats.read_ahead_scheduled().unaccounted() == stats.unaccounted(),
        stats.read_ahead_busy().unaccounted() == stats.unaccounted(),
        stats.read_ahead_started().unaccounted() == stats.unaccounted(),
        stats.read_ahead_done(bytes, us).unaccounted() == stats.unaccounted(),
        stats.read_ahead_failed().unaccounted() == stats.unaccounted(),
{
    lemma_unaccounted(stats, stats.begun(head));
    lemma_unaccounted(stats, stats.ranged(in_part));
    lemma_unaccounted(stats, stats.requested(bytes));
    lemma_unaccounted(stats, stats.answered(status));
    lemma_unaccounted(stats, stats.broken());
    lemma_unaccounted(stats, stats.refused(status));
    lemma_unaccounted(stats, stats.opened(us));
    lemma_unaccounted(stats, stats.sought(us));
    lemma_unaccounted(stats, stats.set_up(us));
    lemma_unaccounted(stats, stats.read(us));
    lemma_unaccounted(stats, stats.first_chunk(us));
    lemma_unaccounted(stats, stats.sent(bytes));
    lemma_unaccounted(stats, stats.completed(us));
    lemma_unaccounted(stats, stats.canceled());
    lemma_unaccounted(stats, stats.listed());
    lemma_unaccounted(stats, stats.described());
    lemma_unaccounted(stats, stats.upload_begun());
    lemma_unaccounted(stats, stats.uploaded(bytes));
    lemma_unaccounted(stats, stats.read_ahead_disabled());
    lemma_unaccounted(stats, stats.read_ahead_at_end());
    lemma_unaccounted(stats, stats.read_ahead_duplicate());
    lemma_unaccounted(stats, stats.read_ahead_scheduled());
    lemma_unaccounted(stats, stats.read_ahead_busy());
    lemma_unaccounted(stats, stats.read_ahead_started());
    lemma_unaccounted(stats, stats.read_ahead_done(bytes, us));
    lemma_unaccounted(stats, stats.read_ahead_failed());
    assert(Stats::started_at(us).unaccounted() == 0) by {
        reveal(Stats::unaccounted);
    }
}

impl Stats {
    /// The files that were to be read ahead and are neither skipped, active nor
    /// ended, modulo the number of values of a counter.
    #[verifier::opaque]
    pub open spec fn waiting(self) -> int {
        (self.prefetch_scheduled - self.prefetch_skipped_busy - self.prefetch_active
            - self.prefetch_completed - self.prefetch_errors) % 0x1_0000_0000_0000_0000
    }
}

proof fn lemma_waiting(s: Stats, t: Stats, d: int)
    requires
        ({
            let x = s.prefetch_scheduled - s.prefetch_skipped_busy - s.prefetch_active
                - s.prefetch_completed - s.prefetch_errors + d;
            let y = t.prefetch_scheduled - t.prefetch_skipped_busy - t.prefetch_active
                - t.prefetch_completed - t.prefetch_errors;
            y == x || y == x - 0x1_0000_0000_0000_0000 || y == x + 0x1_0000_0000_0000_0000
        }),
        -1 <= d <= 1,
    ensures
        t.waiting() == (s.waiting() + d) % 0x1_0000_0000_0000_0000,
        d == 0 ==> t.waiting() == s.waiting(),
{
    reveal(Stats::waiting);
}

/// A file that is to be read ahead waits until it is skipped or started, and
/// is active from its start until it is counted as completed or in error.
pub proof fn law_read_ahead_adds_up(stats: Stats, bytes: u64, us: u64)
    ensures
        Stats::started_at(us).waiting() == 0,
        stats.read_ahead_scheduled().waiting() == (stats.waiting() + 1) % 0x1_0000_0000_0000_0000,
        stats.read_ahead_busy().waiting() == (stats.waiting() - 1) % 0x1_0000_0000_0000_0000,
        stats.read_ahead_started().waiting() == (stats.waiting() - 1) % 0x1_0000_0000_0000_0000,
        stats.read_ahead_done(bytes, us).waiting() == stats.waiting(),
        stats.read_ahead_failed().waiting() == stats.waiting(),
        stats.read_ahead_disabled().waiting() == stats.waiting(),
        stats.read_ahead_at_end().waiting() == stats.waiting(),
        stats.read_ahead_duplicate().waiting() == stats.waiting(),
{
    lemma_waiting(stats, stats.read_ahead_scheduled(), 1);
    lemma_waiting(stats, stats.read_ahead_busy(), -1);
    lemma_waiting(stats, stats.read_ahead_started(), -1);
    lemma_waiting(stats, stats.read_ahead_done(bytes, us), 0);
    lemma_waiting(stats, stats.read_ahead_failed(), 0);
    lemma_waiting(stats, stats.read_ahead_disabled(), 0);
    lemma_waiting(stats, stats.read_ahead_at_end(), 0);
    lemma_waiting(stats, stats.read_ahead_duplicate(), 0);
    assert(Stats::started_at(us).waiting() == 0) by {
        reveal(Stats::waiting);
    }
}

/// A stream that has ended is not active any more: however it ends, as many
/// streams are active as before it was asked for.
pub proof fn law_ended_stream_is_not_active(
    stats: Stats,
    head: bool,
    in_part: bool,
    length: u64,
    status: u16,
    us: u64,
)
    ensures
        ({
            let begun = stats.begun(head);
            let planned = begun.ranged(in_part).requested(length);
            let started = planned.opened(us).sought(us).set_up(us).answered(status);
            &&& begun.stream_active == stats.stream_active.wrapping_add(1)
            &&& started.stream_active == begun.stream_active
            &&& begun.refused(status).stream_active == stats.stream_active
            &&& begun.ranged(in_part).refused(status).stream_active == stats.stream_active
            &&& planned.refused(status).stream_active == stats.stream_active
            &&& planned.opened(us).refused(status).stream_active == stats.stream_active
            &&& planned.set_up(us).answered(status).completed(us).stream_active
                == stats.stream_active
            &&& started.completed(us).stream_active == stats.stream_active
            &&& started.canceled().stream_active == stats.stream_active
            &&& started.broken().stream_active == stats.stream_active
        }),
{
}

/// The counter of active streams at its highest is never below what it is
/// when a stream begins.
pub proof fn law_active_max(stats: Stats, head: bool)
    ensures
        stats.begun(head).stream_active <= stats.begun(head).stream_active_max,
        stats.stream_active_max <= stats.begun(head).stream_active_max,
{
}

/// A stream that is asked for is one request and one active stream more, and one
/// request for the head alone if it is that. Nothing else is counted.
pub proof fn law_begin_is_counted(stats: Stats, head: bool, in_part: bool, length: u64)
    ensures
        ({
            let t = stats.begun(head);
            &&& t.stream_requests == (stats.stream_requests + 1) % 0x1_0000_0000_0000_0000
            &&& t.stream_active == (stats.stream_active + 1) % 0x1_0000_0000_0000_0000
            &&& t.stream_active_max == (if t.stream_active > stats.stream_active_max {
                t.stream_active
            } else {
                stats.stream_active_max
            })
            &&& t.stream_head_requests == (stats.stream_head_requests + (if head {
                1int
            } else {
                0
            })) % 0x1_0000_0000_0000_0000
            &&& stats == (Stats {
                stream_requests: stats.stream_requests,
                stream_active: stats.stream_active,
                stream_active_max: stats.stream_active_max,
                stream_head_requests: stats.stream_head_requests,
                ..t
            })
        }),
        ({
            let t = stats.ranged(in_part);
            &&& t.stream_range_requests == (stats.stream_range_requests + (if in_part {
                1int
            } else {
                0
            })) % 0x1_0000_0000_0000_0000
            &&& t.stream_full_requests == (stats.stream_full_requests + (if !in_part {
                1int
            } else {
                0
            })) % 0x1_0000_0000_0000_0000
            &&& stats == (Stats {
                stream_range_requests: stats.stream_range_requests,
                stream_full_requests: stats.stream_full_requests,
                ..t
            })
        }),
        ({
            let t = stats.requested(length);
            &&& t.stream_requested_bytes == (stats.stream_requested_bytes + length) % 0x1_0000_0000_0000_0000
            &&& stats == (Stats {
                stream_requested_bytes: stats.stream_requested_bytes,
                ..t
            })
        }),
{
}

/// A status that a stream is answered with is counted under its kind, and nothing
/// else is. A refused stream is also one in error and one active stream less.
pub proof fn law_answer_is_counted(stats: Stats, status: u16)
    ensures
        ({
            let t = stats.answered(status);
            &&& t.stream_status_200 == (stats.stream_status_200 + (if status == 200 {
                1int
            } else {
                0
            })) % 0x1_0000_0000_0000_0000
            &&& t.stream_status_206 == (stats.stream_status_206 + (if status == 206 {
                1int
            } else {
                0
            })) % 0x1_0000_0000_0000_0000
            &&& t.stream_status_4xx == (stats.stream_status_4xx + (if 400 <= status < 500 {
                1int
            } else {
                0
            })) % 0x1_0000_0000_0000_0000
            &&& t.stream_status_5xx == (stats.stream_status_5xx + (if 500 <= status < 600 {
                1int
            } else {
                0
            })) % 0x1_0000_0000_0000_0000
            &&& stats == (Stats {
                stream_status_200: stats.stream_status_200,
                stream_status_206: stats.stream_status_206,
                stream_status_4xx: stats.stream_status_4xx,
                stream_status_5xx: stats.stream_status_5xx,
                ..t
            })
        }),
        ({
            let t = stats.refused(status);
            &&& t.stream_status_200 == (stats.stream_status_200 + (if status == 200 {
                1int
            } else {
                0
            })) % 0x1_0000_0000_0000_0000
            &&& t.stream_status_206 == (stats.stream_status_206 + (if status == 206 {
                1int
            } else {
                0
            })) % 0x1_0000_0000_0000_0000
            &&& t.stream_status_4xx == (stats.stream_status_4xx + (if 400 <= status < 500 {
                1int
            } else {
                0
            })) % 0x1_0000_0000_0000_0000
            &&& t.stream_status_5xx == (stats.stream_status_5xx + (if 500 <= status < 600 {
                1int
            } else {
                0
            })) % 0x1_0000_0000_0000_0000
            &&& t.stream_errors == (stats.stream_errors + 1) % 0x1_0000_0000_0000_0000
            &&& t.stream_active == (stats.stream_active - 1) % 0x1_0000_0000_0000_0000
            &&& stats == (Stats {
                stream_status_200: stats.stream_status_200,
                stream_status_206: stats.stream_status_206,
                stream_status_4xx: stats.stream_status_4xx,
                stream_status_5xx: stats.stream_status_5xx,
                stream_errors: stats.stream_errors,
                stream_active: stats.stream_active,
                ..t
            })
        }),
{
}

/// A time is added to its total and raises its maximum if it is larger, and
/// nothing else is counted.
pub proof fn law_times_are_counted(stats: Stats, us: u64)
    ensures
        ({
            let t = stats.opened(us);
            &&& t.stream_open_us_total == (stats.stream_open_us_total + us) % 0x1_0000_0000_0000_0000
            &&& t.stream_open_us_max == (if us > stats.stream_open_us_max {
                us
            } else {
                stats.stream_open_us_max
            })
            &&& stats == (Stats {
                stream_open_us_total: stats.stream_open_us_total,
                stream_open_us_max: stats.stream_open_us_max,
                ..t
            })
        }),
        ({
            let t = stats.sought(us);
            &&& t.stream_seek_us_total == (stats.stream_seek_us_total + us) % 0x1_0000_0000_0000_0000
            &&& t.stream_seek_us_max == (if us > stats.stream_seek_us_max {
                us
            } else {
                stats.stream_seek_us_max
            })
            &&& stats == (Stats {
                stream_seek_us_total: stats.stream_seek_us_total,
                stream_seek_us_max: stats.stream_seek_us_max,
                ..t
            })
        }),
        ({
            let t = stats.set_up(us);
            &&& t.stream_setup_us_total == (stats.stream_setup_us_total + us) % 0x1_0000_0000_0000_0000
            &&& t.stream_setup_us_max == (if us > stats.stream_setup_us_max {
                us
            } else {
                stats.stream_setup_us_max
            })
            &&& stats == (Stats {
                stream_setup_us_total: stats.stream_setup_us_total,
                stream_setup_us_max: stats.stream_setup_us_max,
                ..t
            })
        }),
        ({
            let t = stats.read(us);
            &&& t.stream_read_us_total == (stats.stream_read_us_total + us) % 0x1_0000_0000_0000_0000
            &&& t.stream_read_us_max == (if us > stats.stream_read_us_max {
                us
            } else {
                stats.stream_read_us_max
            })
            &&& stats == (Stats {
                stream_read_us_total: stats.stream_read_us_total,
                stream_read_us_max: stats.stream_read_us_max,
                ..t
            })
        }),
        ({
            let t = stats.first_chunk(us);
            &&& t.stream_first_chunk_us_total == (stats.stream_first_chunk_us_total + us) % 0x1_0000_0000_0000_0000
            &&& t.stream_first_chunk_us_max == (if us > stats.stream_first_chunk_us_max {
                us
            } else {
                stats.stream_first_chunk_us_max
            })
            &&& t.stream_slow_first_chunk == (stats.stream_slow_first_chunk + (if us >= 500_000 {
                1int
            } else {
                0
            })) % 0x1_0000_0000_0000_0000
            &&& stats == (Stats {
                stream_first_chunk_us_total: stats.stream_first_chunk_us_total,
                stream_first_chunk_us_max: stats.stream_first_chunk_us_max,
                stream_slow_first_chunk: stats.stream_slow_first_chunk,
                ..t
            })
        }),
{
}

/// However a stream ends, it is one active stream less and is counted under how it
/// ended; a completed one with its time as well. Nothing else is counted.
pub proof fn law_end_is_counted(stats: Stats, us: u64, bytes: u64)
    ensures
        ({
            let t = stats.completed(us);
            &&& t.stream_completed == (stats.stream_completed + 1) % 0x1_0000_0000_0000_0000
            &&& t.stream_duration_us_total == (stats.stream_duration_us_total + us) % 0x1_0000_0000_0000_0000
            &&& t.stream_duration_us_max == (if us > stats.stream_duration_us_max {
                us
            } else {
                stats.stream_duration_us_max
            })
            &&& t.stream_slow_completed == (stats.stream_slow_completed + (if us >= 5_000_000 {
                1int
            } else {
                0
            })) % 0x1_0000_0000_0000_0000
            &&& t.stream_active == (stats.stream_active - 1) % 0x1_0000_0000_0000_0000
            &&& stats == (Stats {
                stream_completed: stats.stream_completed,
                stream_duration_us_total: stats.stream_duration_us_total,
                stream_duration_us_max: stats.stream_duration_us_max,
                stream_slow_completed: stats.stream_slow_completed,
                stream_active: stats.stream_active,
                ..t
            })
        }),
        ({
            let t = stats.canceled();
            &&& t.stream_canceled == (stats.stream_canceled + 1) % 0x1_0000_0000_0000_0000
            &&& t.stream_active == (stats.stream_active - 1) % 0x1_0000_0000_0000_0000
            &&& stats == (Stats {
                stream_canceled: stats.stream_canceled,
                stream_active: stats.stream_active,
                ..t
            })
        }),
        ({
            let t = stats.broken();
            &&& t.stream_errors == (stats.stream_errors + 1) % 0x1_0000_0000_0000_0000
            &&& t.stream_active == (stats.stream_active - 1) % 0x1_0000_0000_0000_0000
            &&& stats == (Stats {
                stream_errors: stats.stream_errors,
                stream_active: stats.stream_active,
                ..t
            })
        }),
        ({
            let t = stats.sent(bytes);
            &&& t.stream_bytes == (stats.stream_bytes + bytes) % 0x1_0000_0000_0000_0000
            &&& t.stream_chunks == (stats.stream_chunks + 1) % 0x1_0000_0000_0000_0000
            &&& stats == (Stats {
                stream_bytes: stats.stream_bytes,
                stream_chunks: stats.stream_chunks,
                ..t
            })
        }),
{
}

/// Requests other than streams are counted under their kind, and uploads with
/// their bytes. Nothing else is counted.
pub proof fn law_other_requests_are_counted(stats: Stats, bytes: u64)
    ensures
        ({
            let t = stats.listed();
            &&& t.file_list_requests == (stats.file_list_requests + 1) % 0x1_0000_0000_0000_0000
            &&& stats == (Stats {
                file_list_requests: stats.file_list_requests,
                ..t
            })
        }),
        ({
            let t = stats.described();
            &&& t.meta_requests == (stats.meta_requests + 1) % 0x1_0000_0000_0000_0000
            &&& stats == (Stats {
                meta_requests: stats.meta_requests,
                ..t
            })
        }),
        ({
            let t = stats.upload_begun();
            &&& t.upload_requests == (stats.upload_requests + 1) % 0x1_0000_0000_0000_0000
            &&& stats == (Stats {
                upload_requests: stats.upload_requests,
                ..t
            })
        }),
        ({
            let t = stats.uploaded(bytes);
            &&& t.upload_bytes == (stats.upload_bytes + bytes) % 0x1_0000_0000_0000_0000
            &&& stats == (Stats {
                upload_bytes: stats.upload_bytes,
                ..t
            })
        }),
{
}

/// A file that is to be read ahead is counted under what becomes of it, and is
/// active from its start to its end. Nothing else is counted.
pub proof fn law_read_ahead_is_counted(stats: Stats, bytes: u64, us: u64)
    ensures
        ({
            let t = stats.read_ahead_disabled();
            &&& t.prefetch_skipped_disabled == (stats.prefetch_skipped_disabled + 1) % 0x1_0000_0000_0000_0000
            &&& stats == (Stats {
                prefetch_skipped_disabled: stats.prefetch_skipped_disabled,
                ..t
            })
        }),
        ({
            let t = stats.read_ahead_at_end();
            &&& t.prefetch_skipped_eof == (stats.prefetch_skipped_eof + 1) % 0x1_0000_0000_0000_0000
            &&& stats == (Stats {
                prefetch_skipped_eof: stats.prefetch_skipped_eof,
                ..t
            })
        }),
        ({
            let t = stats.read_ahead_duplicate();
            &&& t.prefetch_skipped_duplicate == (stats.prefetch_skipped_duplicate + 1) % 0x1_0000_0000_0000_0000
            &&& stats == (Stats {
                prefetch_skipped_duplicate: stats.prefetch_skipped_duplicate,
                ..t
            })
        }),
        ({
            let t = stats.read_ahead_scheduled();
            &&& t.prefetch_scheduled == (stats.prefetch_scheduled + 1) % 0x1_0000_0000_0000_0000
            &&& stats == (Stats {
                prefetch_scheduled: stats.prefetch_scheduled,
                ..t
            })
        }),
        ({
            let t = stats.read_ahead_busy();
            &&& t.prefetch_skipped_busy == (stats.prefetch_skipped_busy + 1) % 0x1_0000_0000_0000_0000
            &&& stats == (Stats {
                prefetch_skipped_busy: stats.prefetch_skipped_busy,
                ..t
            })
        }),
        ({
            let t = stats.read_ahead_started();
            &&& t.prefetch_active == (stats.prefetch_active + 1) % 0x1_0000_0000_0000_0000
            &&& stats == (Stats {
                prefetch_active: stats.prefetch_active,
                ..t
            })
        }),
        ({
            let t = stats.read_ahead_done(bytes, us);
            &&& t.prefetch_completed == (stats.prefetch_completed + 1) % 0x1_0000_0000_0000_0000
            &&& t.prefetch_bytes == (stats.prefetch_bytes + bytes) % 0x1_0000_0000_0000_0000
            &&& t.prefetch_read_us_total == (stats.prefetch_read_us_total + us) % 0x1_0000_0000_0000_0000
            &&& t.prefetch_active == (stats.prefetch_active - 1) % 0x1_0000_0000_0000_0000
            &&& stats == (Stats {
                prefetch_completed: stats.prefetch_completed,
                prefetch_bytes: stats.prefetch_bytes,
                prefetch_read_us_total: stats.prefetch_read_us_total,
                prefetch_active: stats.prefetch_active,
                ..t
            })
        }),
        ({
            let t = stats.read_ahead_failed();
            &&& t.prefetch_errors == (stats.prefetch_errors + 1) % 0x1_0000_0000_0000_0000
            &&& t.prefetch_active == (stats.prefetch_active - 1) % 0x1_0000_0000_0000_0000
            &&& stats == (Stats {
                prefetch_errors: stats.prefetch_errors,
                prefetch_active: stats.prefetch_active,
                ..t
            })
        }),
{
}

/// Counters that start to count have counted nothing.
pub proof fn law_fresh_counters(now: u64)
    ensures
        ({
            let t = Stats::started_at(now);
            &&& t.started_at_unix == now
            &&& t.stream_requests == 0
            &&& t.stream_active == 0
            &&& t.stream_active_max == 0
            &&& t.stream_head_requests == 0
            &&& t.stream_range_requests == 0
            &&& t.stream_full_requests == 0
            &&& t.stream_status_200 == 0
            &&& t.stream_status_206 == 0
            &&& t.stream_status_4xx == 0
            &&& t.stream_status_5xx == 0
            &&& t.stream_requested_bytes == 0
            &&& t.stream_errors == 0
            &&& t.stream_canceled == 0
            &&& t.stream_completed == 0
            &&& t.stream_bytes == 0
            &&& t.stream_chunks == 0
            &&& t.stream_read_us_total == 0
            &&& t.stream_duration_us_total == 0
            &&& t.stream_first_chunk_us_total == 0
            &&& t.stream_open_us_total == 0
            &&& t.stream_seek_us_total == 0
            &&& t.stream_setup_us_total == 0
            &&& t.stream_first_chunk_us_max == 0
            &&& t.stream_read_us_max == 0
            &&& t.stream_duration_us_max == 0
            &&& t.stream_open_us_max == 0
            &&& t.stream_seek_us_max == 0
            &&& t.stream_setup_us_max == 0
            &&& t.stream_slow_first_chunk == 0
            &&& t.stream_slow_completed == 0
            &&& t.upload_requests == 0
            &&& t.upload_bytes == 0
            &&& t.meta_requests == 0
            &&& t.file_list_requests == 0
            &&& t.prefetch_scheduled == 0
            &&& t.prefetch_skipped_disabled == 0
            &&& t.prefetch_skipped_eof == 0
            &&& t.prefetch_skipped_duplicate == 0
            &&& t.prefetch_skipped_busy == 0
            &&& t.prefetch_active == 0
            &&& t.prefetch_completed == 0
            &&& t.prefetch_errors == 0
            &&& t.prefetch_bytes == 0
            &&& t.prefetch_read_us_total == 0
        }),
{
}

/// A guard counts the end of its stream only if that was not counted.
pub proof fn law_guard(guard: StreamGuard, stats: Stats, us: u64, n: u64)
    ensures
        guard.finished(stats, us) == (if guard.done {
            stats
        } else {
            stats.completed(us)
        }),
        guard.dropped(stats) == (if guard.done {
            stats
        } else {
            stats.canceled()
        }),
        larger(us, n) >= us,
        larger(us, n) >= n,
        larger(us, n) == us || larger(us, n) == n,
{
}

} // verus!
