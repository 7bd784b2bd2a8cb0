//! Reading ahead: what is likely to be asked for next is read once, so that
//! the operating system has it at hand.

use crate::chunk::{positive, sum};
use crate::config::StreamConfig;
use crate::stats::Stats;
use vstd::hash_set::StringHashSet;
use vstd::prelude::*;

verus! {

/// What is to be read ahead of a file.
pub struct PrefetchJob {
    /// The file's path.
    pub key: String,
    /// The position of the first byte to read.
    pub start: u64,
    /// How many bytes to read.
    pub length: u64,
}

/// Whether a file is read ahead.
#[derive(Clone, Copy, Debug, PartialEq, Eq)]
pub enum Verdict {
    /// No: that is switched off.
    Disabled,
    /// No: nothing is left of the file.
    AtEnd,
    /// No: the file is being read ahead already.
    Duplicate,
    /// Yes.
    Scheduled,
}

/// Decides whether to read ahead from a position of a file, while the files at
/// the given paths are being read ahead.
pub open spec fn verdict(
    config: StreamConfig,
    paths: Set<Seq<char>>,
    path: Seq<char>,
    start: u64,
    total: u64,
) -> Verdict {
    if config.prefetch_bytes == 0 {
        Verdict::Disabled
    } else if start >= total {
        Verdict::AtEnd
    } else if paths.contains(path) {
        Verdict::Duplicate
    } else {
        Verdict::Scheduled
    }
}

/// How much is read ahead from a position of a file: what is left of it, up to
/// the limit that is set.
pub open spec fn prefetch_length(config: StreamConfig, start: u64, total: u64) -> u64 {
    let left = total.saturating_sub(start);
    if config.prefetch_bytes <= left {
        config.prefetch_bytes
    } else {
        left
    }
}

/// The files that are being read ahead.
pub struct PrefetchQueue {
    paths: StringHashSet,
}

impl View for PrefetchQueue {
    type V = Set<Seq<char>>;

    closed spec fn view(&self) -> Set<Seq<char>> {
        self.paths@
    }
}

impl PrefetchQueue {
    /// No file is being read ahead.
    pub fn new() -> (r: PrefetchQueue)
        ensures
            r@ == Set::<Seq<char>>::empty(),
    {
        PrefetchQueue { paths: StringHashSet::new() }
    }

    /// Takes a file to be read ahead, if it should be. `start` is the position
    /// after the last byte that was asked for.
    pub fn spawn_prefetch(
        &mut self,
        stats: &mut Stats,
        config: &StreamConfig,
        path: &str,
        start: u64,
        total: u64,
    ) -> (r: Option<PrefetchJob>)
        ensures
            match verdict(*config, old(self)@, path@, start, total) {
                Verdict::Disabled => {
                    &&& r is None
                    &&& final(self)@ == old(self)@
                    &&& *final(stats) == old(stats).read_ahead_disabled()
                },
                Verdict::AtEnd => {
                    &&& r is None
                    &&& final(self)@ == old(self)@
                    &&& *final(stats) == old(stats).read_ahead_at_end()
                },
                Verdict::Duplicate => {
                    &&& r is None
                    &&& final(self)@ == old(self)@
                    &&& *final(stats) == old(stats).read_ahead_duplicate()
                },
                Verdict::Scheduled => {
                    &&& r matches Some(job) && job.key@ == path@ && job.start == start && job.length
                        == prefetch_length(*config, start, total)
                    &&& final(self)@ == old(self)@.insert(path@)
                    &&& *final(stats) == old(stats).read_ahead_scheduled()
                },
            },
    {
        if config.prefetch_bytes == 0 {
            stats.prefetch_skipped_disabled = stats.prefetch_skipped_disabled.wrapping_add(1);
            return None;
        }
        if start >= total {
            stats.prefetch_skipped_eof = stats.prefetch_skipped_eof.wrapping_add(1);
            return None;
        }
        if !self.paths.insert(path.to_owned()) {
            stats.prefetch_skipped_duplicate = stats.prefetch_skipped_duplicate.wrapping_add(1);
            proof {
                assert(old(self)@.insert(path@) == old(self)@);
            }
            return None;
        }
        stats.prefetch_scheduled = stats.prefetch_scheduled.wrapping_add(1);
        let left: u64 = total.saturating_sub(start);
        let length: u64 = if config.prefetch_bytes <= left {
            config.prefetch_bytes
        } else {
            left
        };
        Some(PrefetchJob { key: path.to_owned(), start, length })
    }

    /// Starts to read ahead if that is permitted, and says whether it is. A file
    /// that is not read ahead after all may be taken again.
    pub fn begin(&mut self, stats: &mut Stats, job: &PrefetchJob, permitted: bool) -> (r: bool)
        ensures
            r == permitted,
            final(self)@ == (if permitted {
                old(self)@
            } else {
                old(self)@.remove(job.key@)
            }),
            *final(stats) == (if permitted {
                old(stats).read_ahead_started()
            } else {
                old(stats).read_ahead_busy()
            }),
    {
        if permitted {
            stats.prefetch_active = stats.prefetch_active.wrapping_add(1);
            true
        } else {
            stats.prefetch_skipped_busy = stats.prefetch_skipped_busy.wrapping_add(1);
            let _ = self.paths.remove(job.key.as_str());
            false
        }
    }

    /// Ends to read ahead after so many bytes and microseconds, or with an error
    /// if there are none. The file may be taken again.
    pub fn finish(&mut self, stats: &mut Stats, job: PrefetchJob, read: Option<(u64, u64)>)
        ensures
            final(self)@ == old(self)@.remove(job.key@),
            *final(stats) == (match read {
                Some((bytes, us)) => old(stats).read_ahead_done(bytes, us),
                None => old(stats).read_ahead_failed(),
            }),
    {
        match read {
            Some((bytes, us)) => {
                stats.prefetch_completed = stats.prefetch_completed.wrapping_add(1);
                stats.prefetch_bytes = stats.prefetch_bytes.wrapping_add(bytes);
                stats.prefetch_read_us_total = stats.prefetch_read_us_total.wrapping_add(us);
            },
            None => {
                stats.prefetch_errors = stats.prefetch_errors.wrapping_add(1);
            },
        }
        stats.prefetch_active = stats.prefetch_active.wrapping_sub(1);
        let _ = self.paths.remove(job.key.as_str());
    }
}

/// A file is not read ahead twice at a time: once it is taken, it is refused
/// until it is given up or done, and may then be taken again.
pub proof fn law_one_job_per_file(
    config: StreamConfig,
    paths: Set<Seq<char>>,
    path: Seq<char>,
    start: u64,
    total: u64,
)
    requires
        verdict(config, paths, path, start, total) == Verdict::Scheduled,
    ensures
        verdict(config, paths.insert(path), path, start, total) == Verdict::Duplicate,
        paths.insert(path).remove(path) == paths,
        verdict(config, paths.insert(path).remove(path), path, start, total) == Verdict::Scheduled,
{
    assert(paths.insert(path).remove(path) =~= paths);
}

/// What is read ahead is at least one byte, is all of the file, and no more
/// than the limit.
pub proof fn law_job_within_file(
    config: StreamConfig,
    paths: Set<Seq<char>>,
    path: Seq<char>,
    start: u64,
    total: u64,
)
    requires
        verdict(config, paths, path, start, total) == Verdict::Scheduled,
    ensures
        0 < prefetch_length(config, start, total) <= config.prefetch_bytes,
        start + prefetch_length(config, start, total) <= total,
{
}

/// How far a file was read ahead.
#[derive(Clone, Copy, Debug, PartialEq, Eq)]
pub struct PrefetchCursor {
    /// How many bytes are still to be read.
    pub remaining: u64,
    /// How many bytes were read.
    pub total_read: u64,
    /// How much to read at a time.
    pub chunk_size: usize,
}

impl PrefetchCursor {
    /// The numbers add up to a number of bytes.
    pub open spec fn well_formed(self) -> bool {
        self.chunk_size > 0 && self.total_read + self.remaining <= u64::MAX
    }

    /// Nothing was read of `length` bytes.
    pub fn new(length: u64, chunk_size: usize) -> (r: PrefetchCursor)
        ensures
            r.well_formed(),
            r.remaining == length,
            r.total_read == 0,
            r.chunk_size == positive(chunk_size),
    {
        let chunk_size: usize = if chunk_size == 0 {
            1
        } else {
            chunk_size
        };
        PrefetchCursor { remaining: length, total_read: 0, chunk_size }
    }

    /// How much to read next, if anything.
    pub open spec fn next(self) -> Option<usize> {
        if self.remaining == 0 {
            None
        } else if self.chunk_size <= self.remaining {
            Some(self.chunk_size)
        } else {
            Some(self.remaining as usize)
        }
    }

    /// Says how much to read next, if anything.
    pub fn next_len(&self) -> (r: Option<usize>)
        ensures
            r == self.next(),
            self.well_formed() ==> (r matches Some(n) ==> 0 < n <= self.chunk_size),
    {
        if self.remaining == 0 {
            None
        } else if self.chunk_size as u64 <= self.remaining {
            Some(self.chunk_size)
        } else {
            Some(self.remaining as usize)
        }
    }

    /// How far the file was read ahead after a further read. Nothing is left to
    /// read once a read gives nothing.
    pub open spec fn after(self, bytes_read: usize) -> PrefetchCursor {
        PrefetchCursor {
            remaining: if bytes_read == 0 {
                0
            } else {
                (self.remaining - bytes_read) as u64
            },
            total_read: (self.total_read + bytes_read) as u64,
            ..self
        }
    }

    /// Goes on after a read, of no more than was to be read.
    pub fn advance(&mut self, bytes_read: usize)
        requires
            old(self).well_formed(),
            old(self).next() matches Some(n) && bytes_read <= n,
        ensures
            final(self).well_formed(),
            *final(self) == old(self).after(bytes_read),
    {
        if bytes_read == 0 {
            self.remaining = 0;
        } else {
            self.total_read = self.total_read + bytes_read as u64;
            self.remaining = self.remaining.saturating_sub(bytes_read as u64);
        }
    }
}

/// Could reads of these sizes have been made, one after the other? Each is of at
/// most what was to be read.
pub open spec fn possible_steps(cursor: PrefetchCursor, sizes: Seq<usize>) -> bool
    decreases sizes.len(),
{
    sizes.len() == 0 || {
        &&& cursor.next() matches Some(n) && sizes[0] <= n
        &&& possible_steps(cursor.after(sizes[0]), sizes.drop_first())
    }
}

/// How far the file was read ahead after reads of these sizes.
pub open spec fn after_steps(cursor: PrefetchCursor, sizes: Seq<usize>) -> PrefetchCursor
    decreases sizes.len(),
{
    if sizes.len() == 0 {
        cursor
    } else {
        after_steps(cursor.after(sizes[0]), sizes.drop_first())
    }
}

/// However the bytes come in, the number that is reported at the end is that of
/// the bytes that were read, never more than there were to read, and all of
/// them unless the last read gave nothing.
pub proof fn law_read_ahead_total(cursor: PrefetchCursor, sizes: Seq<usize>)
    requires
        cursor.well_formed(),
        possible_steps(cursor, sizes),
    ensures
        after_steps(cursor, sizes).well_formed(),
        after_steps(cursor, sizes).total_read == cursor.total_read + sum(sizes),
        sum(sizes) <= cursor.remaining,
        after_steps(cursor, sizes).next() is None && (sizes.len() > 0 ==> sizes.last() > 0)
            ==> sum(sizes) == cursor.remaining,
    decreases sizes.len(),
{
    if sizes.len() > 0 {
        let next = cursor.after(sizes[0]);
        let rest = sizes.drop_first();
        reveal_with_fuel(possible_steps, 2);
        law_read_ahead_total(next, rest);
        if rest.len() > 0 {
            assert(rest.last() == sizes.last());
        } else {
            assert(sizes.last() == sizes[0]);
        }
    }
}

/// A file is read ahead exactly when that is switched on, something is left of
/// the file and it is not being read ahead; the first of these that fails is what
/// counts.
pub proof fn law_verdict(
    config: StreamConfig,
    paths: Set<Seq<char>>,
    path: Seq<char>,
    start: u64,
    total: u64,
)
    ensures
        ({
            let v = verdict(config, paths, path, start, total);
            let on = config.prefetch_bytes > 0;
            &&& v == Verdict::Scheduled <==> on && start < total && !paths.contains(path)
            &&& v == Verdict::Disabled <==> !on
            &&& v == Verdict::AtEnd <==> on && start >= total
            &&& v == Verdict::Duplicate <==> on && start < total && paths.contains(path)
        }),
{
}

/// What is read ahead is all that is left of the file, or as much as is set if
/// that is less.
pub proof fn law_prefetch_length(config: StreamConfig, start: u64, total: u64)
    requires
        start <= total,
    ensures
        ({
            let n = prefetch_length(config, start, total);
            &&& n <= config.prefetch_bytes
            &&& start + n <= total
            &&& n == config.prefetch_bytes || start + n == total
        }),
{
}

/// A read takes what was read off what is left, and one that gives nothing ends
/// the reading; each is as large as is set or as what is left, if that is less.
pub proof fn law_read_ahead_steps(cursor: PrefetchCursor, n: usize)
    requires
        cursor.well_formed(),
        n <= cursor.remaining,
    ensures
        cursor.next() is None <==> cursor.remaining == 0,
        cursor.next() matches Some(m) ==> {
            &&& m <= cursor.chunk_size
            &&& m <= cursor.remaining
            &&& m == cursor.chunk_size || m == cursor.remaining
        },
        cursor.after(n).chunk_size == cursor.chunk_size,
        cursor.after(n).total_read == cursor.total_read + n,
        n > 0 ==> cursor.after(n).remaining + n == cursor.remaining,
        n == 0 ==> cursor.after(n).remaining == 0,
{
}

} // verus!
