//! How the content of a stream is read and sent, piece by piece.

use crate::clock::{elapsed_us, is_micros_since};
use crate::stats::{Stats, StreamGuard};
use vstd::prelude::*;

verus! {

/// The reading of a file's content, piece by piece.
#[derive(Clone, Copy, Debug, PartialEq, Eq)]
pub struct ChunkReader {
    /// How many bytes are still to be sent.
    pub remaining: u64,
    /// How much to read for the first piece.
    pub initial_chunk_size: usize,
    /// How much to read for each further piece.
    pub chunk_size: usize,
    /// Is the next piece the first one?
    pub is_first: bool,
}

/// What came of a piece that was read.
#[derive(Clone, Copy, Debug, PartialEq, Eq)]
pub enum ChunkStep {
    /// The file has ended.
    End,
    /// The piece is to be sent, and it may be the last one.
    Send { last: bool },
}

/// What to do after a piece was read.
#[derive(Clone, Copy, Debug, PartialEq, Eq)]
pub enum ChunkAction {
    /// Break the stream off with the error.
    Fail,
    /// End the stream.
    End,
    /// Send the bytes that were read, so many of them.
    Send(usize),
}

/// A size that is at least one.
pub open spec fn positive(n: usize) -> usize {
    if n == 0 {
        1
    } else {
        n
    }
}

impl ChunkReader {
    /// The sizes of the pieces are not zero.
    pub open spec fn well_formed(self) -> bool {
        self.initial_chunk_size > 0 && self.chunk_size > 0
    }

    /// The reading of `length` bytes.
    pub fn new(length: u64, initial_chunk_size: usize, chunk_size: usize) -> (r: ChunkReader)
        ensures
            r.well_formed(),
            r.remaining == length,
            r.initial_chunk_size == positive(initial_chunk_size),
            r.chunk_size == positive(chunk_size),
            r.is_first,
    {
        let initial_chunk_size: usize = if initial_chunk_size == 0 {
            1
        } else {
            initial_chunk_size
        };
        let chunk_size: usize = if chunk_size == 0 {
            1
        } else {
            chunk_size
        };
        ChunkReader { remaining: length, initial_chunk_size, chunk_size, is_first: true }
    }

    /// How much to read next: nothing once all was sent, and otherwise a piece
    /// or what is left of one.
    pub open spec fn next(self) -> Option<usize> {
        let size = if self.is_first {
            self.initial_chunk_size
        } else {
            self.chunk_size
        };
        if self.remaining == 0 {
            None
        } else if size <= self.remaining {
            Some(size)
        } else {
            Some(self.remaining as usize)
        }
    }

    /// Says how much to read next.
    pub fn next_len(&self) -> (r: Option<usize>)
        ensures
            r == self.next(),
            self.well_formed() ==> (r matches Some(n) ==> 0 < n <= self.remaining),
    {
        let size: usize = if self.is_first {
            self.initial_chunk_size
        } else {
            self.chunk_size
        };
        if self.remaining == 0 {
            None
        } else if size as u64 <= self.remaining {
            Some(size)
        } else {
            Some(self.remaining as usize)
        }
    }

    /// The reading after a piece of the given size.
    pub open spec fn after(self, bytes_read: usize) -> ChunkReader {
        if bytes_read == 0 {
            self
        } else {
            ChunkReader {
                remaining: self.remaining.saturating_sub(bytes_read as u64),
                is_first: false,
                ..self
            }
        }
    }

    /// What comes of a piece of the given size.
    pub open spec fn step_of(self, bytes_read: usize) -> ChunkStep {
        if bytes_read == 0 {
            ChunkStep::End
        } else {
            ChunkStep::Send { last: self.after(bytes_read).remaining == 0 }
        }
    }

    /// The counters after a piece of the given size, that was read in one time
    /// and was there, counted from the request, after another.
    pub open spec fn counted(
        self,
        stats: Stats,
        bytes_read: usize,
        read_us: u64,
        first_us: u64,
    ) -> Stats {
        let read = stats.read(read_us);
        if bytes_read == 0 {
            read
        } else if self.is_first {
            read.first_chunk(first_us).sent(bytes_read as u64)
        } else {
            read.sent(bytes_read as u64)
        }
    }

    /// Goes on after a piece was read in the given time. `first_us` is the time
    /// since the request, which counts for the first piece.
    pub fn read_done(
        &mut self,
        stats: &mut Stats,
        bytes_read: usize,
        read_us: u64,
        first_us: u64,
    ) -> (r: ChunkStep)
        ensures
            r == old(self).step_of(bytes_read),
            *final(self) == old(self).after(bytes_read),
            *final(stats) == old(self).counted(*old(stats), bytes_read, read_us, first_us),
    {
        stats.count_read(read_us);
        if bytes_read == 0 {
            return ChunkStep::End;
        }
        if self.is_first {
            stats.count_first_chunk(first_us);
        }
        stats.count_sent(bytes_read as u64);
        self.remaining = self.remaining.saturating_sub(bytes_read as u64);
        self.is_first = false;
        ChunkStep::Send { last: self.remaining == 0 }
    }

    /// The counters after a piece was read and the stream was counted as
    /// completed, in the given time, if the piece was the last one or the file
    /// has ended.
    pub open spec fn settled(
        self,
        stats: Stats,
        guard: StreamGuard,
        bytes_read: usize,
        read_us: u64,
        first_us: u64,
        us: u64,
    ) -> Stats {
        let counted = self.counted(stats, bytes_read, read_us, first_us);
        if self.step_of(bytes_read) == (ChunkStep::Send { last: false }) {
            counted
        } else {
            guard.finished(counted, us)
        }
    }

    /// Goes on after a read, which is `None` if it failed, and sees to it that
    /// the end of the stream is counted. The times until the first piece and
    /// until the end are those since the request that the clock gives.
    pub fn step(
        &mut self,
        stats: &mut Stats,
        guard: &mut StreamGuard,
        bytes_read: Option<usize>,
        read_us: u64,
    ) -> (r: ChunkAction)
        ensures
            match bytes_read {
                None => {
                    &&& r == ChunkAction::Fail
                    &&& *final(self) == *old(self)
                    &&& *final(guard) == (StreamGuard { done: true, ..*old(guard) })
                    &&& *final(stats) == old(stats).broken()
                },
                Some(n) => {
                    &&& r == (if n == 0 {
                        ChunkAction::End
                    } else {
                        ChunkAction::Send(n)
                    })
                    &&& *final(self) == old(self).after(n)
                    &&& *final(guard) == (if old(self).step_of(n) == (ChunkStep::Send { last: false }) {
                        *old(guard)
                    } else {
                        StreamGuard { done: true, ..*old(guard) }
                    })
                    &&& exists|first_us: u64, us: u64|
                        {
                            &&& *final(stats) == #[trigger] old(self).settled(
                                *old(stats),
                                *old(guard),
                                n,
                                read_us,
                                first_us,
                                us,
                            )
                            &&& old(self).is_first && n > 0 ==> is_micros_since(
                                old(guard).request_started,
                                first_us,
                            )
                            &&& old(self).step_of(n) != (ChunkStep::Send { last: false }) && !old(
                                guard,
                            ).done ==> is_micros_since(old(guard).request_started, us)
                        }
                },
            },
    {
        let n: usize = match bytes_read {
            Some(n) => n,
            None => {
                guard.fail(stats);
                return ChunkAction::Fail;
            },
        };
        let first_us: u64 = if self.is_first && n > 0 {
            elapsed_us(guard.request_started)
        } else {
            0
        };
        let step = self.read_done(stats, n, read_us, first_us);
        let ghost counted = *stats;
        match step {
            ChunkStep::Send { last: false } => {
                proof {
                    assert(*stats == old(self).settled(
                        *old(stats),
                        *old(guard),
                        n,
                        read_us,
                        first_us,
                        0,
                    ));
                }
            },
            _ => {
                guard.finish(stats);
                proof {
                    let us = if old(guard).done {
                        0
                    } else {
                        choose|us: u64| #[trigger]
                            is_micros_since(old(guard).request_started, us) && *stats
                                == counted.completed(us)
                    };
                    assert(*stats == old(self).settled(
                        *old(stats),
                        *old(guard),
                        n,
                        read_us,
                        first_us,
                        us,
                    ));
                }
            },
        }
        match step {
            ChunkStep::End => ChunkAction::End,
            ChunkStep::Send { .. } => ChunkAction::Send(n),
        }
    }
}

/// The sum of some sizes.
pub open spec fn sum(sizes: Seq<usize>) -> nat
    decreases sizes.len(),
{
    if sizes.len() == 0 {
        0
    } else {
        sizes[0] as nat + sum(sizes.drop_first())
    }
}

/// Could pieces of these sizes have been read, one after the other? Each is at
/// least one byte and at most what was to be read for it.
pub open spec fn possible_reads(reader: ChunkReader, sizes: Seq<usize>) -> bool
    decreases sizes.len(),
{
    sizes.len() == 0 || {
        &&& reader.next() matches Some(n) && 0 < sizes[0] <= n
        &&& possible_reads(reader.after(sizes[0]), sizes.drop_first())
    }
}

/// The reading after pieces of these sizes.
pub open spec fn after_reads(reader: ChunkReader, sizes: Seq<usize>) -> ChunkReader
    decreases sizes.len(),
{
    if sizes.len() == 0 {
        reader
    } else {
        after_reads(reader.after(sizes[0]), sizes.drop_first())
    }
}

/// However the content comes in, what was sent and what is still to be sent add
/// up to what was promised: never more is sent, and all of it once nothing is
/// left to read.
pub proof fn law_content_is_sent(reader: ChunkReader, sizes: Seq<usize>)
    requires
        possible_reads(reader, sizes),
    ensures
        sum(sizes) + after_reads(reader, sizes).remaining == reader.remaining,
        after_reads(reader, sizes).next() is None ==> sum(sizes) == reader.remaining,
    decreases sizes.len(),
{
    if sizes.len() > 0 {
        law_content_is_sent(reader.after(sizes[0]), sizes.drop_first());
    }
}

/// The bytes in pieces of these sizes, read one after the other from a position
/// of a file.
pub open spec fn pieces(file: Seq<u8>, from: int, sizes: Seq<usize>) -> Seq<u8>
    decreases sizes.len(),
{
    if sizes.len() == 0 {
        Seq::empty()
    } else {
        file.subrange(from, from + sizes[0]) + pieces(file, from + sizes[0], sizes.drop_first())
    }
}

/// Pieces that are read one after the other leave nothing out and hold nothing
/// twice.
pub proof fn law_pieces_join(file: Seq<u8>, from: int, sizes: Seq<usize>)
    requires
        0 <= from,
        from + sum(sizes) <= file.len(),
    ensures
        pieces(file, from, sizes) == file.subrange(from, from + sum(sizes)),
    decreases sizes.len(),
{
    if sizes.len() > 0 {
        law_pieces_join(file, from + sizes[0], sizes.drop_first());
    }
    assert(pieces(file, from, sizes) =~= file.subrange(from, from + sum(sizes)));
}

/// While something is left to send, there is something to read; the reading of
/// a piece with at least one byte brings the end nearer.
pub proof fn law_reading_makes_progress(reader: ChunkReader, bytes_read: usize)
    requires
        reader.well_formed(),
        reader.remaining > 0,
    ensures
        reader.next() matches Some(n) && 0 < n <= reader.remaining,
        reader.after(bytes_read).well_formed(),
        bytes_read > 0 ==> reader.after(bytes_read).remaining < reader.remaining,
{
}

/// A size that is not zero is taken as it is, and one in place of zero.
pub proof fn law_positive(n: usize)
    ensures
        positive(n) > 0,
        n > 0 ==> positive(n) == n,
        positive(0) == 1,
{
}

/// The next piece is as large as was set for it, or all that is left if that is
/// less; there is none exactly when nothing is left.
pub proof fn law_next_piece(reader: ChunkReader)
    ensures
        reader.next() is None <==> reader.remaining == 0,
        reader.next() matches Some(n) ==> {
            let size = if reader.is_first {
                reader.initial_chunk_size
            } else {
                reader.chunk_size
            };
            &&& n <= size
            &&& n <= reader.remaining
            &&& n == size || n == reader.remaining
        },
{
}

/// What was read is not left to be sent any more. Only the end of the file ends a
/// stream before that, and the last piece is the one that leaves nothing.
pub proof fn law_piece_is_taken_off(reader: ChunkReader, n: usize)
    ensures
        n <= reader.remaining ==> reader.after(n).remaining == reader.remaining - n,
        n > reader.remaining ==> reader.after(n).remaining == 0,
        reader.after(n).is_first == (reader.is_first && n == 0),
        reader.after(n).initial_chunk_size == reader.initial_chunk_size,
        reader.after(n).chunk_size == reader.chunk_size,
        reader.step_of(n) == ChunkStep::End <==> n == 0,
        reader.step_of(n) == (ChunkStep::Send { last: true }) <==> n > 0 && n >= reader.remaining,
        reader.step_of(n) == (ChunkStep::Send { last: false }) <==> 0 < n < reader.remaining,
{
}

/// A piece is counted with its bytes and the time that its reading took, and the
/// first one with the time since the request. The stream is counted as completed
/// with the piece that ends it, unless it has ended.
pub proof fn law_piece_is_counted(
    reader: ChunkReader,
    stats: Stats,
    guard: StreamGuard,
    n: usize,
    read_us: u64,
    first_us: u64,
    us: u64,
)
    ensures
        ({
            let t = reader.counted(stats, n, read_us, first_us);
            let first = reader.is_first && n > 0;
            &&& t.stream_bytes == (stats.stream_bytes + n) % 0x1_0000_0000_0000_0000
            &&& t.stream_chunks == (stats.stream_chunks + (if n > 0 {
                1int
            } else {
                0
            })) % 0x1_0000_0000_0000_0000
            &&& t.stream_read_us_total == (stats.stream_read_us_total + read_us)
                % 0x1_0000_0000_0000_0000
            &&& t.stream_read_us_max == (if read_us > stats.stream_read_us_max {
                read_us
            } else {
                stats.stream_read_us_max
            })
            &&& first ==> {
                &&& t.stream_first_chunk_us_total == (stats.stream_first_chunk_us_total + first_us)
                    % 0x1_0000_0000_0000_0000
                &&& t.stream_first_chunk_us_max == (if first_us > stats.stream_first_chunk_us_max {
                    first_us
                } else {
                    stats.stream_first_chunk_us_max
                })
                &&& t.stream_slow_first_chunk == (stats.stream_slow_first_chunk + (if first_us
                    >= 500_000 {
                    1int
                } else {
                    0
                })) % 0x1_0000_0000_0000_0000
            }
            &&& !first ==> {
                &&& t.stream_first_chunk_us_total == stats.stream_first_chunk_us_total
                &&& t.stream_first_chunk_us_max == stats.stream_first_chunk_us_max
                &&& t.stream_slow_first_chunk == stats.stream_slow_first_chunk
            }
            &&& stats == (Stats {
                stream_bytes: stats.stream_bytes,
                stream_chunks: stats.stream_chunks,
                stream_read_us_total: stats.stream_read_us_total,
                stream_read_us_max: stats.stream_read_us_max,
                stream_first_chunk_us_total: stats.stream_first_chunk_us_total,
                stream_first_chunk_us_max: stats.stream_first_chunk_us_max,
                stream_slow_first_chunk: stats.stream_slow_first_chunk,
                ..t
            })
            &&& reader.settled(stats, guard, n, read_us, first_us, us) == (if guard.done || 0 < n
                < reader.remaining {
                t
            } else {
                t.completed(us)
            })
        }),
{
}

} // verus!
