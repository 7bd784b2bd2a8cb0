//! What can be relied on of a request, step by step, whatever comes of the work in
//! between.
//!
//! Each law takes the arguments and the result of a call that was made; counters
//! are compared modulo the number of their values.

use crate::chunk::{ChunkAction, ChunkReader};
use crate::clock::{is_micros_since, is_unix_time};
use crate::config::StreamConfig;
use crate::files::{
    admit_list, admit_meta, FileStat, ListRequest, Listing, MediaMeta, MetaRequest,
};
use crate::http::{header_fields, AppError};
use crate::media::{base64url_encoded, content_type_of, MediaPath};
use crate::names::{NameAction, UploadNames};
use crate::path::is_media;
use crate::prefetch::{PrefetchCursor, PrefetchJob, PrefetchQueue};
use crate::snapshot::{stats_snapshot, StatsSnapshot};
use crate::stats::{complete_stream, record_stream_status, Stats, StreamGuard};
use crate::stream::{
    admit_stream, Admitted, ContentPlan, EmptyPlan, Found, OpenedStream, ReadyStream, Reply, Resolved,
    StartedStream, StreamPlan,
};
use crate::text::{decimal, is_white_space};
use crate::upload::{
    store_step, upload_file, FormAction, FormEvent, StoreAction, StoreEvent,
};
use axum::http::{HeaderMap, HeaderValue};
use std::time::Instant;
use vstd::prelude::*;
use vstd::utf8::encode_utf8;

verus! {

/// A number that is one larger than another, as a counter has it.
pub open spec fn one_more(new: u64, old: u64) -> bool {
    new == (old + 1) % 0x1_0000_0000_0000_0000
}

/// A stream of a media file is admitted by the base64url text of its path, and is
/// counted as asked for and active. Another path is refused.
pub proof fn law_admit_stream(
    stats: &mut Stats,
    head: bool,
    id: &str,
    path: Seq<char>,
    r: Result<Admitted, AppError>,
)
    requires
        call_ensures(admit_stream, (stats, head, id), r),
        id@ == base64url_encoded(encode_utf8(path)),
        path.len() > 0,
    ensures
        is_media(encode_utf8(path)) ==> {
            &&& r matches Ok(a) && a.path@ == path && a.head == head
            &&& one_more(final(stats).stream_active, old(stats).stream_active)
            &&& final(stats).stream_errors == old(stats).stream_errors
        },
        !is_media(encode_utf8(path)) ==> {
            &&& r matches Err(e) && e.status == 400 && e.detail@ == "unsupported media extension"@
            &&& final(stats).stream_active == old(stats).stream_active
            &&& one_more(final(stats).stream_errors, old(stats).stream_errors)
            &&& one_more(final(stats).stream_status_4xx, old(stats).stream_status_4xx)
        },
        one_more(final(stats).stream_requests, old(stats).stream_requests),
        head ==> one_more(final(stats).stream_head_requests, old(stats).stream_head_requests),
        !head ==> final(stats).stream_head_requests == old(stats).stream_head_requests,
{
    crate::media::law_path_of_id(id@, path);
    crate::media::law_media_path_of_id(id@);
}

/// A stream goes on with the file that was found, and nothing but a regular file
/// is streamed.
pub proof fn law_resolved(
    request: Admitted,
    stats: &mut Stats,
    found: Option<Found>,
    r: Result<Resolved, AppError>,
)
    requires
        call_ensures(Admitted::resolved, (request, stats, found), r),
    ensures
        match found {
            Some(f) if f.is_file => {
                &&& r matches Ok(next) && next.path == f.path && next.head == request.head
                &&& *final(stats) == *old(stats)
            },
            _ => {
                &&& r matches Err(e) && e.status == 404 && e.detail@ == "media file not found"@
                &&& one_more(final(stats).stream_errors, old(stats).stream_errors)
                &&& one_more(final(stats).stream_status_4xx, old(stats).stream_status_4xx)
                &&& one_more(old(stats).stream_active, final(stats).stream_active)
            },
        },
{
}

/// A request for the positions from a first to a last one that the file has is
/// answered with exactly these bytes, and says so.
pub proof fn law_part_is_planned(
    request: Resolved,
    stats: &mut Stats,
    headers: &HeaderMap<HeaderValue>,
    total: u64,
    first: u64,
    last: u64,
    r: Result<StreamPlan, AppError>,
)
    requires
        call_ensures(Resolved::measured, (request, stats, headers, Some(total)), r),
        first <= last < total,
        header_fields(*headers).contains_key("range"@),
        header_fields(*headers)["range"@][0] == encode_utf8(
            "bytes="@ + decimal(first as nat) + "-"@ + decimal(last as nat),
        ),
    ensures
        r matches Ok(plan) && {
            let f = header_fields(plan.reply().headers);
            &&& plan.reply().status == 206
            &&& f["content-range"@] == seq![
                encode_utf8(
                    "bytes "@ + decimal(first as nat) + "-"@ + decimal(last as nat) + "/"@ + decimal(
                        total as nat,
                    ),
                ),
            ]
            &&& f["content-length"@] == seq![encode_utf8(decimal((last - first + 1) as nat))]
            &&& f["content-type"@] == seq![encode_utf8(content_type_of(request.path.bytes()))]
            &&& f["x-media-path-encoded"@] == seq![
                encode_utf8(base64url_encoded(encode_utf8(request.path.text()))),
            ]
            &&& plan is Empty <==> request.head
            &&& plan matches StreamPlan::Content(p) ==> {
                &&& p.path == request.path
                &&& p.start == first
                &&& p.end == last
                &&& p.total == total
                &&& p.length == last - first + 1
                &&& p.reply == plan.reply()
            }
        },
        one_more(final(stats).stream_range_requests, old(stats).stream_range_requests),
        final(stats).stream_full_requests == old(stats).stream_full_requests,
        final(stats).stream_requested_bytes == (old(stats).stream_requested_bytes + (last - first
            + 1)) % 0x1_0000_0000_0000_0000,
        final(stats).stream_active == old(stats).stream_active,
{
    crate::range::law_requested_positions(
        header_fields(*headers),
        first,
        last,
        total,
        Seq::empty(),
    );
    if let Ok(plan) = r {
        crate::stream::law_answer_fits_content(
            plan,
            request.head,
            request.path,
            206,
            first,
            last,
            total,
        );
    }
}

/// A request without a range is answered with the whole file.
pub proof fn law_whole_file_is_planned(
    request: Resolved,
    stats: &mut Stats,
    headers: &HeaderMap<HeaderValue>,
    total: u64,
    r: Result<StreamPlan, AppError>,
)
    requires
        call_ensures(Resolved::measured, (request, stats, headers, Some(total)), r),
        !header_fields(*headers).contains_key("range"@),
    ensures
        r matches Ok(plan) && {
            let f = header_fields(plan.reply().headers);
            &&& plan.reply().status == 200
            &&& !f.contains_key("content-range"@)
            &&& f["content-length"@] == seq![encode_utf8(decimal(total as nat))]
            &&& f["content-type"@] == seq![encode_utf8(content_type_of(request.path.bytes()))]
            &&& plan is Empty <==> request.head || total == 0
            &&& plan matches StreamPlan::Content(p) ==> {
                &&& p.path == request.path
                &&& p.start == 0
                &&& p.end == total - 1
                &&& p.total == total
                &&& p.length == total
            }
        },
        one_more(final(stats).stream_full_requests, old(stats).stream_full_requests),
        final(stats).stream_range_requests == old(stats).stream_range_requests,
        final(stats).stream_requested_bytes == (old(stats).stream_requested_bytes + total)
            % 0x1_0000_0000_0000_0000,
{
    crate::range::law_whole_file(None, total);
    crate::http::law_range_text(header_fields(*headers), Seq::empty(), 0);
    let end = if total == 0 {
        0
    } else {
        (total - 1) as u64
    };
    if let Ok(plan) = r {
        crate::stream::law_answer_fits_content(plan, request.head, request.path, 200, 0, end, total);
    }
}

/// Whatever range is asked for, an answer is for bytes that the file has, and a
/// refusal says that there are none and how large the file is. A file that cannot
/// be measured is not found. A refused stream is in error and not active.
pub proof fn law_measured(
    request: Resolved,
    stats: &mut Stats,
    headers: &HeaderMap<HeaderValue>,
    total: Option<u64>,
    r: Result<StreamPlan, AppError>,
)
    requires
        call_ensures(Resolved::measured, (request, stats, headers, total), r),
    ensures
        total is None ==> (r matches Err(e) && e.status == 404 && e.detail@
            == "media file not found"@),
        total is Some ==> (r matches Err(e) ==> e.status == 416),
        r is Err ==> {
            &&& one_more(final(stats).stream_errors, old(stats).stream_errors)
            &&& one_more(final(stats).stream_status_4xx, old(stats).stream_status_4xx)
            &&& one_more(old(stats).stream_active, final(stats).stream_active)
        },
        r matches Ok(plan) ==> (plan matches StreamPlan::Content(p) ==> {
            &&& Some(p.total) == total
            &&& p.start <= p.end < p.total
            &&& p.length == p.end - p.start + 1
        }),
{
    if total is Some && total->0 > 0 {
        crate::range::law_range_within_file(
            crate::http::range_text(header_fields(*headers)),
            total->0,
        );
    }
}

/// An opened file is sent with what was planned; one that does not open is not
/// found.
pub proof fn law_opened(
    plan: ContentPlan,
    stats: &mut Stats,
    us: Option<u64>,
    r: Result<OpenedStream, AppError>,
)
    requires
        call_ensures(ContentPlan::opened, (plan, stats, us), r),
    ensures
        match us {
            Some(us) => {
                &&& r matches Ok(next) && next.plan == plan
                &&& final(stats).stream_open_us_total == (old(stats).stream_open_us_total + us)
                    % 0x1_0000_0000_0000_0000
                &&& final(stats).stream_active == old(stats).stream_active
            },
            None => {
                &&& r matches Err(e) && e.status == 404 && e.detail@ == "media file not found"@
                &&& one_more(final(stats).stream_errors, old(stats).stream_errors)
                &&& one_more(final(stats).stream_status_4xx, old(stats).stream_status_4xx)
                &&& one_more(old(stats).stream_active, final(stats).stream_active)
            },
        },
{
}

/// A file that is at the first byte is sent with what was planned; one that does
/// not get there is an error of the service.
pub proof fn law_sought(
    opened: OpenedStream,
    stats: &mut Stats,
    us: Option<u64>,
    r: Result<ReadyStream, AppError>,
)
    requires
        call_ensures(OpenedStream::sought, (opened, stats, us), r),
    ensures
        match us {
            Some(us) => {
                &&& r matches Ok(next) && next.plan == opened.plan
                &&& final(stats).stream_seek_us_total == (old(stats).stream_seek_us_total + us)
                    % 0x1_0000_0000_0000_0000
                &&& final(stats).stream_active == old(stats).stream_active
            },
            None => {
                &&& r matches Err(e) && e.status == 500 && e.detail@
                    == "failed to seek media file"@
                &&& one_more(final(stats).stream_errors, old(stats).stream_errors)
                &&& one_more(final(stats).stream_status_5xx, old(stats).stream_status_5xx)
                &&& one_more(old(stats).stream_active, final(stats).stream_active)
            },
        },
{
}

/// A stream starts with the answer that was planned and all of its bytes to send,
/// in pieces as they are set; what follows the last byte is what to read ahead.
pub proof fn law_started(
    ready: ReadyStream,
    stats: &mut Stats,
    config: &StreamConfig,
    us: u64,
    request_started: Instant,
    r: StartedStream,
    next: u64,
)
    requires
        call_ensures(ReadyStream::start, (ready, stats, config, us, request_started), r),
        call_ensures(ReadyStream::read_ahead_from, (&ready,), next),
    ensures
        r.reply == ready.plan.reply,
        r.reader.remaining == ready.plan.length,
        r.reader.is_first,
        config.initial_chunk_bytes > 0 ==> r.reader.initial_chunk_size
            == config.initial_chunk_bytes,
        config.read_chunk_bytes > 0 ==> r.reader.chunk_size == config.read_chunk_bytes,
        !r.guard.done,
        r.guard.request_started == request_started,
        ready.plan.end < u64::MAX ==> next == ready.plan.end + 1,
        final(stats).stream_setup_us_total == (old(stats).stream_setup_us_total + us)
            % 0x1_0000_0000_0000_0000,
        ready.plan.reply.status == 206 ==> one_more(
            final(stats).stream_status_206,
            old(stats).stream_status_206,
        ),
        ready.plan.reply.status == 200 ==> one_more(
            final(stats).stream_status_200,
            old(stats).stream_status_200,
        ),
        final(stats).stream_active == old(stats).stream_active,
{
}

/// An answer without content is the one that was planned, and ends its stream.
pub proof fn law_concluded(
    plan: EmptyPlan,
    stats: &mut Stats,
    setup_us: u64,
    request_started: Instant,
    r: Reply,
)
    requires
        call_ensures(EmptyPlan::conclude, (plan, stats, setup_us, request_started), r),
    ensures
        r == plan.reply,
        one_more(final(stats).stream_completed, old(stats).stream_completed),
        one_more(old(stats).stream_active, final(stats).stream_active),
        exists|us: u64| #[trigger]
            is_micros_since(request_started, us) && final(stats).stream_duration_us_total == (old(
                stats,
            ).stream_duration_us_total + us) % 0x1_0000_0000_0000_0000,
{
    let us = choose|us: u64| #[trigger]
        is_micros_since(request_started, us) && *final(stats) == old(stats).set_up(
            setup_us,
        ).answered(plan.reply.status).completed(us);
    assert(is_micros_since(request_started, us));
}

/// A piece that was read is sent whole and taken off what is left; a read that
/// fails ends the stream in error, and one that gives nothing ends it.
pub proof fn law_piece_is_sent(
    reader: &mut ChunkReader,
    stats: &mut Stats,
    guard: &mut StreamGuard,
    read: Option<usize>,
    us: u64,
    r: ChunkAction,
)
    requires
        call_ensures(ChunkReader::step, (reader, stats, guard, read, us), r),
    ensures
        match read {
            None => {
                &&& r == ChunkAction::Fail
                &&& final(guard).done
                &&& one_more(final(stats).stream_errors, old(stats).stream_errors)
                &&& one_more(old(stats).stream_active, final(stats).stream_active)
            },
            Some(n) => {
                &&& n == 0 ==> r == ChunkAction::End && final(guard).done
                &&& n > 0 ==> r == ChunkAction::Send(n)
                &&& n <= old(reader).remaining ==> final(reader).remaining == old(reader).remaining
                    - n
                &&& final(stats).stream_bytes == (old(stats).stream_bytes + n)
                    % 0x1_0000_0000_0000_0000
                &&& n > 0 ==> one_more(final(stats).stream_chunks, old(stats).stream_chunks)
                &&& final(stats).stream_read_us_total == (old(stats).stream_read_us_total + us)
                    % 0x1_0000_0000_0000_0000
                &&& 0 < n < old(reader).remaining ==> *final(guard) == *old(guard)
                    && final(stats).stream_active == old(stats).stream_active
                &&& n >= old(reader).remaining ==> final(guard).done
                &&& n >= old(reader).remaining && !old(guard).done ==> one_more(
                    final(stats).stream_completed,
                    old(stats).stream_completed,
                ) && one_more(old(stats).stream_active, final(stats).stream_active)
            },
        },
        final(reader).chunk_size == old(reader).chunk_size,
        final(reader).initial_chunk_size == old(reader).initial_chunk_size,
{
    if let Some(n) = read {
        crate::chunk::law_piece_is_taken_off(*old(reader), n);
        let (first_us, last_us) = choose|first_us: u64, last_us: u64|
            *final(stats) == #[trigger] old(reader).settled(
                *old(stats),
                *old(guard),
                n,
                us,
                first_us,
                last_us,
            );
        crate::chunk::law_piece_is_counted(
            *old(reader),
            *old(stats),
            *old(guard),
            n,
            us,
            first_us,
            last_us,
        );
    }
}

/// The next read is for a piece of the size that is set, or for what is left.
pub proof fn law_next_read(reader: &ChunkReader, r: Option<usize>)
    requires
        call_ensures(ChunkReader::next_len, (reader,), r),
    ensures
        r is None <==> reader.remaining == 0,
        r matches Some(n) ==> {
            let size = if reader.is_first {
                reader.initial_chunk_size
            } else {
                reader.chunk_size
            };
            n <= size && n <= reader.remaining && (n == size || n == reader.remaining)
        },
{
    crate::chunk::law_next_piece(*reader);
}

/// A completed stream is counted with the time since its request.
pub proof fn law_completed(stats: &mut Stats, request_started: Instant)
    requires
        call_ensures(complete_stream, (stats, request_started), ()),
    ensures
        one_more(final(stats).stream_completed, old(stats).stream_completed),
        one_more(old(stats).stream_active, final(stats).stream_active),
        exists|us: u64| #[trigger]
            is_micros_since(request_started, us) && final(stats).stream_duration_us_total == (old(
                stats,
            ).stream_duration_us_total + us) % 0x1_0000_0000_0000_0000,
{
    let us = choose|us: u64| #[trigger]
        is_micros_since(request_started, us) && *final(stats) == old(stats).completed(us);
    assert(is_micros_since(request_started, us));
}

/// A status is counted under its kind.
pub proof fn law_status(stats: &mut Stats, status: u16)
    requires
        call_ensures(record_stream_status, (stats, status), ()),
    ensures
        status == 200 ==> one_more(final(stats).stream_status_200, old(stats).stream_status_200),
        status == 206 ==> one_more(final(stats).stream_status_206, old(stats).stream_status_206),
        400 <= status < 500 ==> one_more(
            final(stats).stream_status_4xx,
            old(stats).stream_status_4xx,
        ),
        500 <= status < 600 ==> one_more(
            final(stats).stream_status_5xx,
            old(stats).stream_status_5xx,
        ),
        final(stats).stream_active == old(stats).stream_active,
{
    crate::stats::law_answer_is_counted(*old(stats), status);
}

/// A reset forgets every count and starts now.
pub proof fn law_reset(stats: &mut Stats)
    requires
        call_ensures(Stats::reset, (stats,), ()),
    ensures
        is_unix_time(final(stats).started_at_unix),
        final(stats).stream_requests == 0,
        final(stats).stream_active == 0,
        final(stats).stream_bytes == 0,
        final(stats).stream_completed == 0,
        final(stats).upload_bytes == 0,
        final(stats).prefetch_active == 0,
        *final(stats) == Stats::started_at(final(stats).started_at_unix),
{
    crate::stats::law_fresh_counters(final(stats).started_at_unix);
}

/// The report is of the counters as they are, now.
pub proof fn law_snapshot(stats: &Stats, config: StreamConfig, r: StatsSnapshot)
    requires
        call_ensures(stats_snapshot, (stats, config), r),
    ensures
        r.started_at_unix == stats.started_at_unix,
        r.config == config,
        exists|now: u64| #[trigger]
            is_unix_time(now) && (now >= stats.started_at_unix ==> r.uptime_seconds == now
                - stats.started_at_unix) && (now < stats.started_at_unix ==> r.uptime_seconds == 0),
        r.stream.requests == stats.stream_requests,
        r.stream.active == stats.stream_active,
        r.stream.bytes == stats.stream_bytes,
        r.stream.completed == stats.stream_completed,
        r.stream.errors == stats.stream_errors,
        r.stream.canceled == stats.stream_canceled,
        r.requests.upload_bytes == stats.upload_bytes,
        r.prefetch.completed == stats.prefetch_completed,
{
    let now = choose|now: u64| #[trigger]
        is_unix_time(now) && r == crate::snapshot::report(*stats, config, now);
    crate::snapshot::law_report(*stats, config, now);
    assert(is_unix_time(now));
}

/// The field named `file` is stored under its own file name, however long, if that
/// is the name of a media file and needs no change.
pub proof fn law_upload_is_taken(
    stats: &mut Stats,
    name: &str,
    file_name: &str,
    r: FormAction,
)
    requires
        call_ensures(
            upload_file,
            (stats, FormEvent::Field { name: Some(name), file_name: Some(file_name) }),
            r,
        ),
        name@ == "file"@,
        file_name@.len() > 0,
        forall|i: int|
            0 <= i < file_name@.len() ==> {
                let c = #[trigger] file_name@[i];
                c != '\\' && c != '/' && c != ':' && c != '*' && c != '?' && c != '"' && c != '<' && c
                    != '>' && c != '|'
            },
        file_name@[0] != '.' && !is_white_space(file_name@[0]),
        file_name@.last() != '.' && !is_white_space(file_name@.last()),
    ensures
        is_media(encode_utf8(file_name@)) ==> (r matches FormAction::Store(s) && s@ == file_name@),
        !is_media(encode_utf8(file_name@)) ==> (r matches FormAction::Fail(e) && e.status == 400
            && e.detail@ == "unsupported media extension"@),
        *final(stats) == *old(stats),
{
    crate::names::law_name_is_kept(file_name@);
    crate::upload::law_field_file_name(file_name@);
    crate::text::law_opt_text(name);
    crate::text::law_opt_text(file_name);
}

/// Other fields are passed over, and a form that ends without the field or breaks
/// is refused. An upload is counted once, when it begins.
pub proof fn law_form(stats: &mut Stats, event: FormEvent<'_>, r: FormAction)
    requires
        call_ensures(upload_file, (stats, event), r),
    ensures
        match event {
            FormEvent::Begin => {
                &&& r is NextField
                &&& one_more(final(stats).upload_requests, old(stats).upload_requests)
            },
            FormEvent::Field { name: Some(name), .. } => name@ != "file"@ <==> r is NextField,
            FormEvent::Field { name: None, .. } => r is NextField,
            FormEvent::Invalid => r matches FormAction::Fail(e) && e.status == 400 && e.detail@
                == "invalid multipart body"@,
            FormEvent::End => r matches FormAction::Fail(e) && e.status == 400 && e.detail@
                == "file field is required"@,
        },
        !(event is Begin) ==> *final(stats) == *old(stats),
{
}

/// Each piece of an upload is counted with its bytes and is written.
pub proof fn law_piece_is_stored(stats: &mut Stats, bytes: u64, r: StoreAction)
    requires
        call_ensures(store_step, (stats, StoreEvent::Received(bytes)), r),
    ensures
        r is Write,
        final(stats).upload_bytes == (old(stats).upload_bytes + bytes) % 0x1_0000_0000_0000_0000,
        *old(stats) == (Stats { upload_bytes: old(stats).upload_bytes, ..*final(stats) }),
{
}

/// A stored upload is answered with the description of its file.
pub proof fn law_upload_is_described(
    stats: &mut Stats,
    path: MediaPath,
    stat: FileStat,
    r: StoreAction,
)
    requires
        call_ensures(
            store_step,
            (stats, StoreEvent::Resolved { path: Some(path), stat: Some(stat) }),
            r,
        ),
    ensures
        r matches StoreAction::Done(m) && m.size == stat.size && m.path@ == path.text() && m.id@
            == base64url_encoded(encode_utf8(path.text())),
        *final(stats) == *old(stats),
{
    if let StoreAction::Done(m) = r {
        crate::files::law_description(m, path, stat, Seq::empty());
    }
}

/// The names that are given for an upload go on one by one: its own name first,
/// and then with the numbers from two on before the extension.
pub proof fn law_next_name(names: &mut UploadNames, stem: Seq<char>, ext: Seq<char>, r: String)
    requires
        call_ensures(UploadNames::next_name, (names,), r),
        old(names).tried() < u64::MAX,
        old(names).filename() == stem + seq!['.'] + ext,
        stem.len() > 0,
        !stem.contains('/'),
        !ext.contains('/'),
        !ext.contains('.'),
        ext.len() > 0,
    ensures
        old(names).tried() == 0 ==> r@ == stem + seq!['.'] + ext,
        old(names).tried() > 0 ==> r@ == stem + seq!['-'] + decimal(
            (old(names).tried() + 1) as nat,
        ) + seq!['.'] + ext,
        final(names).tried() == old(names).tried() + 1,
        final(names).filename() == old(names).filename(),
{
    crate::names::law_candidate_with_extension(stem, ext, (old(names).tried() + 1) as nat);
}

/// A name that is free is used, and one that is taken is not.
pub proof fn law_checked_name(
    names: &mut UploadNames,
    taken: Option<bool>,
    stem: Seq<char>,
    ext: Seq<char>,
    r: NameAction,
)
    requires
        call_ensures(UploadNames::checked, (names, taken), r),
        1 <= old(names).tried() < u64::MAX,
        old(names).filename() == stem + seq!['.'] + ext,
        stem.len() > 0,
        !stem.contains('/'),
        !ext.contains('/'),
        !ext.contains('.'),
        ext.len() > 0,
    ensures
        match taken {
            Some(false) => r matches NameAction::Use(name) && name@ == (if old(names).tried() == 1 {
                stem + seq!['.'] + ext
            } else {
                stem + seq!['-'] + decimal(old(names).tried() as nat) + seq!['.'] + ext
            }),
            Some(true) => r matches NameAction::Try(name) && name@ == stem + seq!['-'] + decimal(
                (old(names).tried() + 1) as nat,
            ) + seq!['.'] + ext,
            None => r matches NameAction::Fail(e) && e.status == 500 && e.detail@
                == "failed to check upload path"@,
        },
{
    crate::names::law_candidate_with_extension(stem, ext, old(names).tried() as nat);
    crate::names::law_candidate_with_extension(stem, ext, (old(names).tried() + 1) as nat);
    crate::names::law_name_search(old(names).filename(), old(names).tried() as nat, r);
}

/// The list of files is counted, and answered with what was read.
pub proof fn law_list_request(stats: &mut Stats, q: ListRequest, request: ListRequest, r: Result<
    Vec<MediaMeta>,
    AppError,
>, listing: Listing)
    requires
        call_ensures(admit_list, (stats,), q),
        call_ensures(ListRequest::answered, (request, listing), r),
    ensures
        one_more(final(stats).file_list_requests, old(stats).file_list_requests),
        match listing {
            Listing::Missing => r matches Err(e) && e.status == 404 && e.detail@
                == "upload dir not found"@,
            Listing::Unreadable => r matches Err(e) && e.status == 500 && e.detail@
                == "failed to read upload dir"@,
            Listing::Entries(entries) => r matches Ok(files) && crate::files::is_file_list(
                entries@,
                files@,
            ),
        },
{
}

/// A media file is described by the base64url text of its path, and each request
/// for that is counted.
pub proof fn law_meta_request(
    stats: &mut Stats,
    id: &str,
    path: Seq<char>,
    r: Result<MetaRequest, AppError>,
)
    requires
        call_ensures(admit_meta, (stats, id), r),
        id@ == base64url_encoded(encode_utf8(path)),
        path.len() > 0,
    ensures
        is_media(encode_utf8(path)) ==> (r matches Ok(q) && q.path@ == path),
        !is_media(encode_utf8(path)) ==> (r matches Err(e) && e.status == 400 && e.detail@
            == "unsupported media extension"@),
        one_more(final(stats).meta_requests, old(stats).meta_requests),
{
    crate::media::law_path_of_id(id@, path);
    crate::media::law_media_path_of_id(id@);
}

/// A regular file is described with what the file system says of it, and nothing
/// else is described.
pub proof fn law_meta_answer(
    request: MetaRequest,
    found: Option<Found>,
    stat: Option<FileStat>,
    r: Result<MediaMeta, AppError>,
)
    requires
        call_ensures(MetaRequest::answered, (request, found, stat), r),
    ensures
        match (found, stat) {
            (Some(f), Some(stat)) if f.is_file => r matches Ok(m) && m.size == stat.size && m.path@
                == f.path.text() && m.id@ == base64url_encoded(encode_utf8(f.path.text())),
            _ => r matches Err(e) && e.status == 404 && e.detail@ == "media file not found"@,
        },
{
    if r is Ok {
        crate::files::law_description(r->Ok_0, found->0.path, stat->0, Seq::empty());
    }
}

/// A file is read ahead from the position that is given, as far as is set and as
/// the file goes, unless that is off, nothing is left or it is being read ahead.
pub proof fn law_spawn_prefetch(
    queue: &mut PrefetchQueue,
    stats: &mut Stats,
    config: &StreamConfig,
    path: &str,
    start: u64,
    total: u64,
    r: Option<PrefetchJob>,
)
    requires
        call_ensures(PrefetchQueue::spawn_prefetch, (queue, stats, config, path, start, total), r),
    ensures
        r is Some <==> config.prefetch_bytes > 0 && start < total && !old(queue)@.contains(path@),
        r matches Some(job) ==> {
            &&& job.key@ == path@
            &&& job.start == start
            &&& 0 < job.length <= config.prefetch_bytes
            &&& start + job.length <= total
            &&& job.length == config.prefetch_bytes || start + job.length == total
            &&& final(queue)@ == old(queue)@.insert(path@)
            &&& one_more(final(stats).prefetch_scheduled, old(stats).prefetch_scheduled)
        },
        r is None ==> final(queue)@ == old(queue)@,
        config.prefetch_bytes == 0 ==> one_more(
            final(stats).prefetch_skipped_disabled,
            old(stats).prefetch_skipped_disabled,
        ),
        config.prefetch_bytes > 0 && start >= total ==> one_more(
            final(stats).prefetch_skipped_eof,
            old(stats).prefetch_skipped_eof,
        ),
        config.prefetch_bytes > 0 && start < total && old(queue)@.contains(path@) ==> one_more(
            final(stats).prefetch_skipped_duplicate,
            old(stats).prefetch_skipped_duplicate,
        ),
{
    crate::prefetch::law_verdict(*config, old(queue)@, path@, start, total);
    if start <= total {
        crate::prefetch::law_prefetch_length(*config, start, total);
    }
}

/// A file that is not read ahead after all, or that was, may be taken again, and
/// is counted under what became of it.
pub proof fn law_prefetch_ends(
    queue: &mut PrefetchQueue,
    stats: &mut Stats,
    job: PrefetchJob,
    read: Option<(u64, u64)>,
)
    requires
        call_ensures(PrefetchQueue::finish, (queue, stats, job, read), ()),
    ensures
        final(queue)@ == old(queue)@.remove(job.key@),
        one_more(old(stats).prefetch_active, final(stats).prefetch_active),
        match read {
            Some((bytes, us)) => {
                &&& one_more(final(stats).prefetch_completed, old(stats).prefetch_completed)
                &&& final(stats).prefetch_bytes == (old(stats).prefetch_bytes + bytes)
                    % 0x1_0000_0000_0000_0000
                &&& final(stats).prefetch_read_us_total == (old(stats).prefetch_read_us_total + us)
                    % 0x1_0000_0000_0000_0000
            },
            None => one_more(final(stats).prefetch_errors, old(stats).prefetch_errors),
        },
{
}

/// What was read ahead is taken off what is left, byte for byte.
pub proof fn law_advance(cursor: &mut PrefetchCursor, n: usize)
    requires
        call_ensures(PrefetchCursor::advance, (cursor, n), ()),
        old(cursor).well_formed(),
        n <= old(cursor).remaining,
    ensures
        final(cursor).total_read == old(cursor).total_read + n,
        n > 0 ==> final(cursor).remaining + n == old(cursor).remaining,
        n == 0 ==> final(cursor).remaining == 0,
        final(cursor).chunk_size == old(cursor).chunk_size,
{
    crate::prefetch::law_read_ahead_steps(*old(cursor), n);
}

/// A guard counts its stream as completed only if it has not ended, and as
/// canceled when it is dropped before that.
pub proof fn law_guard_calls(
    guard: &mut StreamGuard,
    stats: &mut Stats,
    dropped: StreamGuard,
    left: &mut Stats,
)
    requires
        call_ensures(StreamGuard::finish, (guard, stats), ()),
        call_ensures(StreamGuard::drop, (dropped, left), ()),
    ensures
        final(guard).done,
        old(guard).done ==> *final(stats) == *old(stats),
        !old(guard).done ==> one_more(final(stats).stream_completed, old(stats).stream_completed)
            && one_more(old(stats).stream_active, final(stats).stream_active),
        dropped.done ==> *final(left) == *old(left),
        !dropped.done ==> one_more(final(left).stream_canceled, old(left).stream_canceled)
            && one_more(old(left).stream_active, final(left).stream_active),
{
}

} // verus!
