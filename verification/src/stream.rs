//! How a request for a stream is answered.
//!
//! Each step takes what the step before it left and what came of the work in
//! between, and says how to go on: the path of the request is looked up, the
//! file is measured, opened and searched for the first byte, and is then sent.

use crate::chunk::{
    after_reads, law_content_is_sent, law_pieces_join, pieces, positive, possible_reads, sum,
    ChunkReader,
};
use crate::clock::is_micros_since;
use crate::config::StreamConfig;
use crate::http::{
    has_room, header_fields, header_value, insert_header, is_value_text, new_headers,
    no_fields, plain_error, range_header, range_text, AppError, ErrorView, Fields,
    HeaderField, INTERNAL_SERVER_ERROR, NOT_FOUND, PARTIAL_CONTENT,
};
use crate::media::{
    base64url_encoded, content_type, content_type_of, decode_media_path, encode_path, is_base64url_char,
    media_path_of_id, path_id, MediaPath,
};
use crate::range::{
    law_range_within_file, law_requested_positions, parse_range, range_outcome,
};
use crate::stats::{complete_stream, record_stream_status, Stats, StreamGuard};
use crate::text::{decimal, decimal_text, parsed_number};
use axum::http::{HeaderMap, HeaderValue};
use std::time::Instant;
use vstd::prelude::*;
use vstd::utf8::encode_utf8;

verus! {

/// How the service says which part of a file it sends.
pub open spec fn content_range(start: u64, end: u64, total: u64) -> Seq<char> {
    "bytes "@ + decimal(start as nat) + "-"@ + decimal(end as nat) + "/"@ + decimal(total as nat)
}

/// The header fields that every stream is answered with.
pub open spec fn common_fields(content_type: Seq<char>, length: u64, id: Seq<char>) -> Fields {
    no_fields().insert(HeaderField::AcceptRanges.name(), seq![encode_utf8("bytes"@)]).insert(
        HeaderField::CacheControl.name(),
        seq![encode_utf8("no-store"@)],
    ).insert(HeaderField::ContentType.name(), seq![encode_utf8(content_type)]).insert(
        HeaderField::ContentLength.name(),
        seq![encode_utf8(decimal(length as nat))],
    ).insert(HeaderField::MediaPathEncoded.name(), seq![encode_utf8(id)])
}

/// The header fields that a stream is answered with.
pub open spec fn stream_fields(
    content_type: Seq<char>,
    length: u64,
    id: Seq<char>,
    status: u16,
    start: u64,
    end: u64,
    total: u64,
) -> Fields {
    let common = common_fields(content_type, length, id);
    if status == PARTIAL_CONTENT {
        common.insert(
            HeaderField::ContentRange.name(),
            seq![encode_utf8(content_range(start, end, total))],
        )
    } else {
        common
    }
}

/// The value of each header field of a stream: the service takes ranges, asks
/// not to keep the answer, gives the content's type and size and the path's
/// name, and says which part it sends exactly when it does not send all.
pub proof fn law_stream_fields(
    content_type: Seq<char>,
    length: u64,
    id: Seq<char>,
    status: u16,
    start: u64,
    end: u64,
    total: u64,
)
    ensures
        ({
            let f = stream_fields(content_type, length, id, status, start, end, total);
            &&& f[HeaderField::AcceptRanges.name()] == seq![encode_utf8("bytes"@)]
            &&& f[HeaderField::CacheControl.name()] == seq![encode_utf8("no-store"@)]
            &&& f[HeaderField::ContentType.name()] == seq![encode_utf8(content_type)]
            &&& f[HeaderField::ContentLength.name()] == seq![encode_utf8(decimal(length as nat))]
            &&& f[HeaderField::MediaPathEncoded.name()] == seq![encode_utf8(id)]
            &&& f.contains_key(HeaderField::ContentRange.name()) <==> status == PARTIAL_CONTENT
            &&& status == PARTIAL_CONTENT ==> f[HeaderField::ContentRange.name()]
                == seq![encode_utf8(content_range(start, end, total))]
        }),
{
    reveal_strlit("accept-ranges");
    reveal_strlit("cache-control");
    reveal_strlit("content-type");
    reveal_strlit("content-length");
    reveal_strlit("content-range");
    reveal_strlit("x-media-path-encoded");
    let a = "accept-ranges"@;
    let c = "cache-control"@;
    let r = "content-range"@;
    assert(a[0] == 'a' && c[0] == 'c' && r[0] == 'c' && c[1] == 'a' && r[1] == 'o');
    assert(a != c && a != r && c != r);
    let t = "content-type"@;
    let l = "content-length"@;
    let x = "x-media-path-encoded"@;
    assert(a.len() == 13 && c.len() == 13 && r.len() == 13);
    assert(t.len() == 12 && l.len() == 14 && x.len() == 20);
    assert(a != t && a != l && a != x && c != t && c != l && c != x);
    assert(r != t && r != l && r != x && t != l && t != x && l != x);
}

fn put(map: &mut HeaderMap<HeaderValue>, field: HeaderField, value: &str) -> (r: Result<
    (),
    AppError,
>)
    requires
        has_room(header_fields(*old(map))),
    ensures
        match r {
            Ok(_) => {
                &&& is_value_text(value@)
                &&& header_fields(*final(map)) == header_fields(*old(map)).insert(
                    field.name(),
                    seq![encode_utf8(value@)],
                )
                &&& header_fields(*final(map)).dom().finite()
                &&& header_fields(*final(map)).dom().len() <= header_fields(*old(map)).dom().len()
                    + 1
            },
            Err(e) => !is_value_text(value@) && e@ == plain_error(
                INTERNAL_SERVER_ERROR,
                "invalid response header"@,
            ),
        },
{
    match header_value(value) {
        Ok(v) => {
            insert_header(map, field, v);
            Ok(())
        },
        Err(e) => Err(e),
    }
}

proof fn lemma_decimal_visible(n: nat)
    ensures
        forall|i: int| 0 <= i < decimal(n).len() ==> ' ' <= #[trigger] decimal(n)[i] <= '~',
        is_value_text(decimal(n)),
{
    crate::text::lemma_decimal_digits(n);
    assert forall|i: int| 0 <= i < decimal(n).len() implies ' ' <= #[trigger] decimal(n)[i]
        <= '~' by {
        assert(crate::text::is_digit(decimal(n)[i]));
    }
    crate::http::lemma_visible_value(decimal(n));
}

proof fn lemma_content_range_visible(start: u64, end: u64, total: u64)
    ensures
        is_value_text(content_range(start, end, total)),
{
    reveal_strlit("bytes ");
    reveal_strlit("-");
    reveal_strlit("/");
    let a = decimal(start as nat);
    let b = decimal(end as nat);
    let c = decimal(total as nat);
    lemma_decimal_visible(start as nat);
    lemma_decimal_visible(end as nat);
    lemma_decimal_visible(total as nat);
    let s = content_range(start, end, total);
    assert forall|i: int| 0 <= i < s.len() implies ' ' <= #[trigger] s[i] <= '~' by {
        let j = i - 6 - a.len();
        let k = j - 1 - b.len();
        if 6 <= i && j < 0 {
            assert(s[i] == a[i - 6]);
        } else if 1 <= j && k < 0 {
            assert(s[i] == b[j - 1]);
        } else if 1 <= k {
            assert(s[i] == c[k - 1]);
        }
    }
    crate::http::lemma_visible_value(s);
}

/// Makes the header fields that a stream is answered with. It fails exactly
/// when the content type or the path's name may not stand in a header.
pub fn stream_headers(
    content_type: &str,
    length: u64,
    id: &str,
    status: u16,
    start: u64,
    end: u64,
    total: u64,
) -> (r: Result<HeaderMap<HeaderValue>, AppError>)
    ensures
        match r {
            Ok(map) => {
                &&& is_value_text(content_type@) && is_value_text(id@)
                &&& header_fields(map) == stream_fields(
                    content_type@,
                    length,
                    id@,
                    status,
                    start,
                    end,
                    total,
                )
                &&& header_fields(map)["content-length"@] == seq![
                    encode_utf8(decimal(length as nat)),
                ]
                &&& header_fields(map)["content-type"@] == seq![encode_utf8(content_type@)]
                &&& status == 206 ==> header_fields(map)["content-range"@] == seq![
                    encode_utf8(
                        "bytes "@ + decimal(start as nat) + "-"@ + decimal(end as nat) + "/"@
                            + decimal(total as nat),
                    ),
                ]
            },
            Err(e) => {
                &&& !is_value_text(content_type@) || !is_value_text(id@)
                &&& e@ == plain_error(INTERNAL_SERVER_ERROR, "invalid response header"@)
            },
        },
{
    proof {
        reveal_strlit("bytes");
        reveal_strlit("no-store");
        crate::http::lemma_visible_value("bytes"@);
        crate::http::lemma_visible_value("no-store"@);
        lemma_decimal_visible(length as nat);
        lemma_content_range_visible(start, end, total);
        law_stream_headers(
            content_type@,
            length,
            id@,
            status,
            start,
            end,
            total,
            "content-range"@,
        );
    }
    let mut map = new_headers();
    put(&mut map, HeaderField::AcceptRanges, "bytes")?;
    put(&mut map, HeaderField::CacheControl, "no-store")?;
    put(&mut map, HeaderField::ContentType, content_type)?;
    put(&mut map, HeaderField::ContentLength, decimal_text(length).as_str())?;
    put(&mut map, HeaderField::MediaPathEncoded, id)?;
    if status == PARTIAL_CONTENT {
        let mut value = "bytes ".to_owned();
        value.append(decimal_text(start).as_str());
        value.append("-");
        value.append(decimal_text(end).as_str());
        value.append("/");
        value.append(decimal_text(total).as_str());
        put(&mut map, HeaderField::ContentRange, value.as_str())?;
    }
    Ok(map)
}

/// What was found at a path: its canonical form, and whether a regular file is
/// there.
pub struct Found {
    pub path: MediaPath,
    pub is_file: bool,
}

/// The answer when there is no media file at a path.
pub open spec fn not_found() -> ErrorView {
    plain_error(NOT_FOUND, "media file not found"@)
}

/// Decides whether what was found at a path can be streamed: a regular file
/// can. `None` is a path that leads nowhere.
pub fn check_found(found: Option<Found>) -> (r: Result<MediaPath, AppError>)
    ensures
        match r {
            Ok(path) => found matches Some(f) && f.is_file && path == f.path,
            Err(e) => (found matches Some(f) ==> !f.is_file) && e@ == not_found(),
        },
{
    match found {
        Some(f) => if f.is_file {
            Ok(f.path)
        } else {
            Err(AppError::new(NOT_FOUND, "media file not found"))
        },
        None => Err(AppError::new(NOT_FOUND, "media file not found")),
    }
}

/// A request for a stream whose path is to be looked up.
pub struct Admitted {
    /// Is only the head of the answer asked for?
    pub head: bool,
    /// The path as the client gave it.
    pub path: String,
}

/// Takes a request for a stream and reads the path in it.
pub fn admit_stream(stats: &mut Stats, head: bool, encoded_path: &str) -> (r: Result<
    Admitted,
    AppError,
>)
    ensures
        match media_path_of_id(encoded_path@) {
            Ok(path) => {
                &&& r matches Ok(a) && a.head == head && a.path@ == path
                &&& *final(stats) == old(stats).begun(head)
            },
            Err(error) => {
                &&& r matches Err(e) && e@ == error
                &&& *final(stats) == old(stats).begun(head).refused(error.status)
            },
        },
{
    stats.begin_stream(head);
    match decode_media_path(encoded_path) {
        Ok(path) => Ok(Admitted { head, path }),
        Err(e) => {
            stats.refuse_stream(e.status);
            Err(e)
        },
    }
}

impl Admitted {
    /// Goes on when the path was looked up.
    pub fn resolved(self, stats: &mut Stats, found: Option<Found>) -> (r: Result<
        Resolved,
        AppError,
    >)
        ensures
            match r {
                Ok(next) => {
                    &&& found matches Some(f) && f.is_file && next.path == f.path
                    &&& next.head == self.head
                    &&& *final(stats) == *old(stats)
                },
                Err(e) => {
                    &&& found matches Some(f) ==> !f.is_file
                    &&& e@ == not_found()
                    &&& *final(stats) == old(stats).refused(NOT_FOUND)
                },
            },
    {
        match check_found(found) {
            Ok(path) => Ok(Resolved { head: self.head, path }),
            Err(e) => {
                stats.refuse_stream(e.status);
                Err(e)
            },
        }
    }
}

/// A request for a stream of a file whose size is to be found out.
pub struct Resolved {
    /// Is only the head of the answer asked for?
    pub head: bool,
    /// The file's canonical path.
    pub path: MediaPath,
}

/// The status and the header fields of an answer.
pub struct Reply {
    pub status: u16,
    pub headers: HeaderMap<HeaderValue>,
}

/// What a stream is answered with.
pub enum StreamPlan {
    /// No content: only the head was asked for, or there is nothing to send.
    Empty(EmptyPlan),
    /// Part of a file or all of it.
    Content(ContentPlan),
}

/// An answer without content.
pub struct EmptyPlan {
    pub reply: Reply,
}

/// An answer with part of a file or all of it as its content.
pub struct ContentPlan {
    pub reply: Reply,
    /// The file's canonical path.
    pub path: MediaPath,
    /// The position of the first byte to send.
    pub start: u64,
    /// The position of the last byte to send.
    pub end: u64,
    /// The size of the file.
    pub total: u64,
    /// How many bytes to send.
    pub length: u64,
}

impl ContentPlan {
    /// There are bytes to send, and the file has them.
    pub open spec fn well_formed(&self) -> bool {
        &&& self.start <= self.end < self.total
        &&& self.length == self.end - self.start + 1
    }
}

/// How many bytes there are from one position to another; none of an empty
/// file.
pub open spec fn range_length(start: u64, end: u64, total: u64) -> u64 {
    if total == 0 {
        0
    } else {
        (end - start + 1) as u64
    }
}

impl StreamPlan {
    /// The status and the header fields of the answer.
    pub open spec fn reply(&self) -> Reply {
        match self {
            StreamPlan::Empty(plan) => plan.reply,
            StreamPlan::Content(plan) => plan.reply,
        }
    }

    /// Is this the plan to send, or to describe if only the head was asked for,
    /// the given bytes of a file?
    pub open spec fn sends(
        &self,
        head: bool,
        path: MediaPath,
        status: u16,
        start: u64,
        end: u64,
        total: u64,
    ) -> bool {
        let length = range_length(start, end, total);
        let fields = stream_fields(
            content_type_of(path.bytes()),
            length,
            path_id(path.text()),
            status,
            start,
            end,
            total,
        );
        match self {
            StreamPlan::Empty(plan) => {
                &&& head || length == 0
                &&& plan.reply.status == status
                &&& header_fields(plan.reply.headers) == fields
            },
            StreamPlan::Content(plan) => {
                &&& !head && length > 0
                &&& plan.well_formed()
                &&& plan.reply.status == status
                &&& header_fields(plan.reply.headers) == fields
                &&& plan.path == path
                &&& plan.start == start
                &&& plan.end == end
                &&& plan.total == total
                &&& plan.length == length
            },
        }
    }
}

impl Resolved {
    /// Goes on when the size of the file is known, which is `None` if it could
    /// not be found out. The request's header fields say which range is asked
    /// for.
    pub fn measured(
        self,
        stats: &mut Stats,
        headers: &HeaderMap<HeaderValue>,
        total: Option<u64>,
    ) -> (r: Result<StreamPlan, AppError>)
        ensures
            ({
                let range = range_text(header_fields(*headers));
                let ranged = old(stats).ranged(range is Some);
                match total {
                    None => {
                        &&& r matches Err(e) && e@ == not_found()
                        &&& *final(stats) == old(stats).refused(NOT_FOUND)
                    },
                    Some(total) => match range_outcome(range, total) {
                        Err(error) => {
                            &&& r matches Err(e) && e@ == error
                            &&& *final(stats) == ranged.refused(error.status)
                        },
                        Ok((status, start, end)) => {
                            &&& r matches Ok(plan) && plan.sends(
                                self.head,
                                self.path,
                                status,
                                start,
                                end,
                                total,
                            )
                            &&& *final(stats) == ranged.requested(range_length(start, end, total))
                        },
                    },
                }
            }),
            forall|first: u64, last: u64|
                {
                    &&& total matches Some(total) && first <= last < total
                    &&& header_fields(*headers).contains_key("range"@)
                    &&& header_fields(*headers)["range"@][0] == encode_utf8(
                        "bytes="@ + #[trigger] decimal(first as nat) + "-"@ + #[trigger] decimal(
                            last as nat,
                        ),
                    )
                } ==> (r matches Ok(plan) && {
                    &&& plan.reply().status == 206
                    &&& header_fields(plan.reply().headers)["content-range"@] == seq![
                        encode_utf8(
                            "bytes "@ + decimal(first as nat) + "-"@ + decimal(last as nat) + "/"@
                                + decimal(total->0 as nat),
                        ),
                    ]
                    &&& header_fields(plan.reply().headers)["content-length"@] == seq![
                        encode_utf8(decimal((last - first + 1) as nat)),
                    ]
                    &&& self.head ==> plan is Empty
                    &&& !self.head ==> (plan matches StreamPlan::Content(p) && p.start == first
                        && p.end == last && p.length == last - first + 1)
                }),
    {
        let total: u64 = match total {
            Some(total) => total,
            None => {
                stats.refuse_stream(NOT_FOUND);
                return Err(AppError::new(NOT_FOUND, "media file not found"));
            },
        };
        let range = range_header(headers);
        stats.count_range(range.is_some());
        let wanted = match &range {
            Some(s) => Some(s.as_str()),
            None => None,
        };
        proof {
            assert forall|first: u64, last: u64|
                {
                    &&& first <= last < total
                    &&& header_fields(*headers).contains_key("range"@)
                    &&& header_fields(*headers)["range"@][0] == encode_utf8(
                        "bytes="@ + #[trigger] decimal(first as nat) + "-"@ + #[trigger] decimal(
                            last as nat,
                        ),
                    )
                } implies range_outcome(range_text(header_fields(*headers)), total) == Ok::<
                (u16, u64, u64),
                ErrorView,
            >((206, first, last)) by {
                law_requested_positions(
                    header_fields(*headers),
                    first,
                    last,
                    total,
                    Seq::empty(),
                );
            }
        }
        let (status, start, end): (u16, u64, u64) = match parse_range(wanted, total) {
            Ok(range) => range,
            Err(e) => {
                stats.refuse_stream(e.status);
                return Err(e);
            },
        };
        proof {
            if total > 0 {
                law_range_within_file(range_text(header_fields(*headers)), total);
            }
        }
        let length: u64 = end.saturating_sub(start).saturating_add(
            if total == 0 {
                0
            } else {
                1
            },
        );
        stats.count_requested(length);
        let media_type = content_type(self.path.as_bytes());
        let id = encode_path(self.path.as_text());
        proof {
            assert forall|i: int| 0 <= i < id@.len() implies ' ' <= #[trigger] id@[i] <= '~' by {
                assert(is_base64url_char(id@[i]));
            }
            crate::http::lemma_visible_value(id@);
        }
        let headers = stream_headers(
            media_type.as_str(),
            length,
            id.as_str(),
            status,
            start,
            end,
            total,
        )?;
        proof {
            law_stream_headers(
                media_type@,
                length,
                id@,
                status,
                start,
                end,
                total,
                "content-range"@,
            );
        }
        let reply = Reply { status, headers };
        if self.head || length == 0 {
            Ok(StreamPlan::Empty(EmptyPlan { reply }))
        } else {
            Ok(
                StreamPlan::Content(
                    ContentPlan { reply, path: self.path, start, end, total, length },
                ),
            )
        }
    }
}

impl EmptyPlan {
    /// Answers, after the given times until the answer was ready and in all.
    pub fn conclude_after(self, stats: &mut Stats, setup_us: u64, us: u64) -> (r: Reply)
        ensures
            r == self.reply,
            *final(stats) == old(stats).set_up(setup_us).answered(self.reply.status).completed(us),
    {
        stats.count_setup(setup_us);
        record_stream_status(stats, self.reply.status);
        stats.complete_after(us);
        self.reply
    }

    /// Answers, after the given time until the answer was ready and the time
    /// since the request that the clock gives in all.
    pub fn conclude(self, stats: &mut Stats, setup_us: u64, request_started: Instant) -> (r: Reply)
        ensures
            r == self.reply,
            exists|us: u64| #[trigger]
                is_micros_since(request_started, us) && *final(stats) == old(stats).set_up(
                    setup_us,
                ).answered(self.reply.status).completed(us),
    {
        stats.count_setup(setup_us);
        record_stream_status(stats, self.reply.status);
        complete_stream(stats, request_started);
        self.reply
    }
}

impl ContentPlan {
    /// Goes on when the file was opened, in the given time. `None` is a file
    /// that could not be.
    pub fn opened(self, stats: &mut Stats, open_us: Option<u64>) -> (r: Result<
        OpenedStream,
        AppError,
    >)
        ensures
            match open_us {
                Some(us) => {
                    &&& r matches Ok(next) && next.plan == self
                    &&& *final(stats) == old(stats).opened(us)
                },
                None => {
                    &&& r matches Err(e) && e@ == not_found()
                    &&& *final(stats) == old(stats).refused(NOT_FOUND)
                },
            },
    {
        match open_us {
            Some(us) => {
                stats.count_open(us);
                Ok(OpenedStream { plan: self })
            },
            None => {
                stats.refuse_stream(NOT_FOUND);
                Err(AppError::new(NOT_FOUND, "media file not found"))
            },
        }
    }
}

/// A stream whose file is open.
pub struct OpenedStream {
    pub plan: ContentPlan,
}

impl OpenedStream {
    /// Goes on when the first byte to send was found, in the given time. `None`
    /// is a file in which it could not be.
    pub fn sought(self, stats: &mut Stats, seek_us: Option<u64>) -> (r: Result<
        ReadyStream,
        AppError,
    >)
        ensures
            match seek_us {
                Some(us) => {
                    &&& r matches Ok(next) && next.plan == self.plan
                    &&& *final(stats) == old(stats).sought(us)
                },
                None => {
                    &&& r matches Err(e) && e@ == plain_error(
                        INTERNAL_SERVER_ERROR,
                        "failed to seek media file"@,
                    )
                    &&& *final(stats) == old(stats).refused(INTERNAL_SERVER_ERROR)
                },
            },
    {
        match seek_us {
            Some(us) => {
                stats.count_seek(us);
                Ok(ReadyStream { plan: self.plan })
            },
            None => {
                stats.refuse_stream(INTERNAL_SERVER_ERROR);
                Err(AppError::new(INTERNAL_SERVER_ERROR, "failed to seek media file"))
            },
        }
    }
}

/// A stream whose file is at the first byte to send.
pub struct ReadyStream {
    pub plan: ContentPlan,
}

/// A stream that is answered and whose content is to be sent.
pub struct StartedStream {
    pub reply: Reply,
    pub guard: StreamGuard,
    pub reader: ChunkReader,
}

impl ReadyStream {
    /// The position from which to read ahead: the one after the last byte to
    /// send.
    pub fn read_ahead_from(&self) -> (r: u64)
        ensures
            r == self.plan.end.saturating_add(1),
            self.plan.well_formed() ==> r == self.plan.end + 1 <= self.plan.total,
    {
        self.plan.end.saturating_add(1)
    }

    /// Answers, after the given time since the request.
    pub fn start(
        self,
        stats: &mut Stats,
        config: &StreamConfig,
        setup_us: u64,
        request_started: Instant,
    ) -> (r: StartedStream)
        ensures
            r.reply == self.plan.reply,
            r.guard == (StreamGuard { request_started, done: false }),
            r.reader == (ChunkReader {
                remaining: self.plan.length,
                initial_chunk_size: positive(config.initial_chunk_bytes),
                chunk_size: positive(config.read_chunk_bytes),
                is_first: true,
            }),
            *final(stats) == old(stats).set_up(setup_us).answered(self.plan.reply.status),
    {
        stats.count_setup(setup_us);
        record_stream_status(stats, self.plan.reply.status);
        let reader = ChunkReader::new(
            self.plan.length,
            config.initial_chunk_bytes,
            config.read_chunk_bytes,
        );
        StartedStream {
            reply: self.plan.reply,
            guard: StreamGuard::new(request_started),
            reader,
        }
    }
}

/// When only the head of an answer is asked for, its status and its header
/// fields are those of the whole answer.
pub proof fn law_head_is_like_the_whole(
    head: StreamPlan,
    whole: StreamPlan,
    path: MediaPath,
    status: u16,
    start: u64,
    end: u64,
    total: u64,
)
    requires
        head.sends(true, path, status, start, end, total),
        whole.sends(false, path, status, start, end, total),
    ensures
        head is Empty,
        head.reply().status == whole.reply().status,
        header_fields(head.reply().headers) == header_fields(whole.reply().headers),
{
}

/// A file with content is sent from the first to the last position that the
/// request's range comes to: whatever pieces the file is read in, once nothing
/// is left to read, what was sent are exactly these bytes, and as many as the
/// answer's header fields say.
pub proof fn law_range_is_delivered(
    file: Seq<u8>,
    range: Option<Seq<char>>,
    path: MediaPath,
    plan: StreamPlan,
    reader: ChunkReader,
    sizes: Seq<usize>,
)
    requires
        0 < file.len() <= u64::MAX,
        range_outcome(range, file.len() as u64) matches Ok((status, start, end)) && plan.sends(
            false,
            path,
            status,
            start,
            end,
            file.len() as u64,
        ),
        plan matches StreamPlan::Content(p) ==> reader.remaining == p.length,
        possible_reads(reader, sizes),
        after_reads(reader, sizes).next() is None,
    ensures
        range_outcome(range, file.len() as u64) matches Ok((status, start, end)) && {
            &&& pieces(file, start as int, sizes) == file.subrange(start as int, end + 1)
            &&& header_fields(plan.reply().headers)[HeaderField::ContentLength.name()]
                == seq![encode_utf8(decimal((end - start + 1) as nat))]
        },
{
    let total = file.len() as u64;
    law_range_within_file(range, total);
    law_content_is_sent(reader, sizes);
    if let Ok((status, start, end)) = range_outcome(range, total) {
        assert(sum(sizes) == end - start + 1);
        law_pieces_join(file, start as int, sizes);
        law_stream_fields(
            content_type_of(path.bytes()),
            range_length(start, end, total),
            path_id(path.text()),
            status,
            start,
            end,
            total,
        );
    }
}

/// The part of a file that an answer says it sends is written as `bytes`, the
/// first position, a hyphen, the last position, a slash and the size of the
/// file; each of the three numbers reads back as it is.
pub proof fn law_content_range(start: u64, end: u64, total: u64)
    ensures
        content_range(start, end, total) == "bytes "@ + decimal(start as nat) + "-"@ + decimal(
            end as nat,
        ) + "/"@ + decimal(total as nat),
        exists|a: Seq<char>, b: Seq<char>, c: Seq<char>|
            {
                &&& content_range(start, end, total) == #[trigger] ("bytes "@ + a + "-"@ + b + "/"@
                    + c)
                &&& parsed_number(a, u64::MAX as nat) == Some(start as nat)
                &&& parsed_number(b, u64::MAX as nat) == Some(end as nat)
                &&& parsed_number(c, u64::MAX as nat) == Some(total as nat)
            },
{
    crate::text::law_number_round_trip(start as nat, u64::MAX as nat);
    crate::text::law_number_round_trip(end as nat, u64::MAX as nat);
    crate::text::law_number_round_trip(total as nat, u64::MAX as nat);
    let a = decimal(start as nat);
    let b = decimal(end as nat);
    let c = decimal(total as nat);
    assert(content_range(start, end, total) == "bytes "@ + a + "-"@ + b + "/"@ + c);
}

/// The header fields of a stream, by their names on the wire: there are these
/// and no others, each with one value.
pub proof fn law_stream_headers(
    content_type: Seq<char>,
    length: u64,
    id: Seq<char>,
    status: u16,
    start: u64,
    end: u64,
    total: u64,
    name: Seq<char>,
)
    ensures
        ({
            let f = stream_fields(content_type, length, id, status, start, end, total);
            &&& f["accept-ranges"@] == seq![encode_utf8("bytes"@)]
            &&& f["cache-control"@] == seq![encode_utf8("no-store"@)]
            &&& f["content-type"@] == seq![encode_utf8(content_type)]
            &&& f["content-length"@] == seq![encode_utf8(decimal(length as nat))]
            &&& f["x-media-path-encoded"@] == seq![encode_utf8(id)]
            &&& status == 206 ==> f["content-range"@] == seq![
                encode_utf8(
                    "bytes "@ + decimal(start as nat) + "-"@ + decimal(end as nat) + "/"@ + decimal(
                        total as nat,
                    ),
                ),
            ]
            &&& f.contains_key(name) <==> {
                ||| name == "accept-ranges"@
                ||| name == "cache-control"@
                ||| name == "content-type"@
                ||| name == "content-length"@
                ||| name == "x-media-path-encoded"@
                ||| (name == "content-range"@ && status == 206)
            }
        }),
{
    law_stream_fields(content_type, length, id, status, start, end, total);
}

/// A stream is answered with the status and for exactly the bytes that were
/// decided on: the size and the part that its header fields give are those of
/// what is sent, and the type and the name are those of the file. Only the head
/// of an answer and the answer for an empty file have no content.
pub proof fn law_answer_fits_content(
    plan: StreamPlan,
    head: bool,
    path: MediaPath,
    status: u16,
    start: u64,
    end: u64,
    total: u64,
)
    requires
        plan.sends(head, path, status, start, end, total),
        total > 0 ==> start <= end < total,
    ensures
        plan.reply().status == status,
        ({
            let f = header_fields(plan.reply().headers);
            let length = if total == 0 {
                0int
            } else {
                end - start + 1
            };
            &&& f["content-length"@] == seq![encode_utf8(decimal(length as nat))]
            &&& f["content-type"@] == seq![encode_utf8(content_type_of(path.bytes()))]
            &&& f["x-media-path-encoded"@] == seq![
                encode_utf8(base64url_encoded(encode_utf8(path.text()))),
            ]
            &&& f["accept-ranges"@] == seq![encode_utf8("bytes"@)]
            &&& f["cache-control"@] == seq![encode_utf8("no-store"@)]
            &&& f.contains_key("content-range"@) <==> status == 206
            &&& status == 206 ==> f["content-range"@] == seq![
                encode_utf8(
                    "bytes "@ + decimal(start as nat) + "-"@ + decimal(end as nat) + "/"@ + decimal(
                        total as nat,
                    ),
                ),
            ]
            &&& plan is Empty <==> head || total == 0
            &&& plan matches StreamPlan::Content(p) ==> {
                &&& p.start == start
                &&& p.end == end
                &&& p.total == total
                &&& p.length == length
                &&& p.path == path
                &&& p.reply == plan.reply()
            }
            &&& plan matches StreamPlan::Empty(p) ==> p.reply == plan.reply()
        }),
{
    law_stream_headers(
        content_type_of(path.bytes()),
        range_length(start, end, total),
        path_id(path.text()),
        status,
        start,
        end,
        total,
        "content-range"@,
    );
    law_stream_fields(
        content_type_of(path.bytes()),
        range_length(start, end, total),
        path_id(path.text()),
        status,
        start,
        end,
        total,
    );
}

/// A file that is not there is answered so, without further header fields.
pub proof fn law_not_found(name: Seq<char>)
    ensures
        not_found().status == 404,
        not_found().detail == "media file not found"@,
        !not_found().headers.contains_key(name),
{
}

} // verus!
