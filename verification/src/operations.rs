//! What can be relied on of a call, whatever it is called with.
//!
//! Each law takes the arguments and the result of a call that was made.

use crate::config::{env_port, env_u64, load_config, StreamConfig};
use crate::files::{
    bytes_before, file_meta, law_keys, law_list_length, law_list_order, law_listed_is_media_file,
    law_media_file_is_listed, law_sorted_by_keys, list_files, lowercase, sort_by_keys, sort_files,
    DirEntry, FileStat, MediaMeta,
};
use crate::http::{header_bytes, header_fields, header_value, range_header, AppError};
use crate::media::{
    base64url_encoded, content_type, decode_media_path, decode_path, encode_path, guessed_type,
    MediaPath,
};
use crate::names::safe_name;
use crate::path::{
    extension, file_name, is_media, is_media_name, path_extension, path_file_name,
    path_file_stem,
};
use crate::range::parse_range;
use crate::snapshot::{avg_u64, snapshot_at, throughput_bps, StatsSnapshot};
use crate::stats::Stats;
use crate::stream::{check_found, stream_headers, Found};
use crate::text::{
    decimal, decimal_text, is_white_space, law_number_round_trip, parse_u64, parsed_number,
};
use axum::http::{HeaderMap, HeaderValue};
use vstd::prelude::*;
use vstd::utf8::encode_utf8;

verus! {

/// A number's text is its decimal digits, and reads back as the number.
pub proof fn law_decimal_text(n: u64, r: String)
    requires
        call_ensures(decimal_text, (n,), r),
    ensures
        r@ == decimal(n as nat),
        parsed_number(r@, u64::MAX as nat) == Some(n as nat),
{
    law_number_round_trip(n as nat, u64::MAX as nat);
}

/// What is read of a number's text is the number.
pub proof fn law_parse_number(s: &[char], n: u64, r: Option<u64>)
    requires
        call_ensures(parse_u64, (s,), r),
    ensures
        s@ == decimal(n as nat) ==> r == Some(n),
        r matches Some(v) ==> parsed_number(s@, u64::MAX as nat) == Some(v as nat),
        r is None ==> parsed_number(s@, u64::MAX as nat) is None,
{
    law_number_round_trip(n as nat, u64::MAX as nat);
}

/// The `range` field of a request is read as it stands, if it is visible.
pub proof fn law_range_header(map: &HeaderMap<HeaderValue>, text: Seq<char>, r: Option<String>)
    requires
        call_ensures(range_header, (map,), r),
    ensures
        header_fields(*map).contains_key("range"@) && header_fields(*map)["range"@][0]
            == encode_utf8(text) && (forall|i: int|
            0 <= i < text.len() ==> ' ' <= #[trigger] text[i] <= '~' || text[i] == '\t') ==> (
        r matches Some(s) && s@ == text),
        !header_fields(*map).contains_key("range"@) ==> r is None,
{
    crate::http::law_range_text(header_fields(*map), text, 0);
}

/// A range of positions that the file has is answered with these in part status,
/// a file without a range whole, and every refusal says that the file has no byte
/// in the range.
pub proof fn law_parse_range(
    header: Option<&str>,
    total: u64,
    first: u64,
    last: u64,
    r: Result<(u16, u64, u64), AppError>,
)
    requires
        call_ensures(parse_range, (header, total), r),
    ensures
        total == 0 ==> r == Ok::<(u16, u64, u64), AppError>((200, 0, 0)),
        header is None && total > 0 ==> r == Ok::<(u16, u64, u64), AppError>(
            (200, 0, (total - 1) as u64),
        ),
        header matches Some(h) && first <= last < total && h@ == "bytes="@ + decimal(first as nat)
            + "-"@ + decimal(last as nat) ==> r == Ok::<(u16, u64, u64), AppError>(
            (206, first, last),
        ),
        header matches Some(h) && first < total && h@ == "bytes="@ + decimal(first as nat) + "-"@
            ==> r == Ok::<(u16, u64, u64), AppError>((206, first, (total - 1) as u64)),
        header matches Some(h) && 0 < first <= total && h@ == "bytes=-"@ + decimal(first as nat)
            ==> r == Ok::<(u16, u64, u64), AppError>(
            (206, (total - first) as u64, (total - 1) as u64),
        ),
        total > 0 ==> (r matches Ok((_, start, end)) ==> start <= end < total),
        r matches Err(e) ==> {
            &&& e.status == 416
            &&& header_fields(e.headers)["content-range"@] == seq![
                encode_utf8("bytes */"@ + decimal(total as nat)),
            ]
        },
{
    crate::range::law_whole_file(crate::text::opt_text(header), total);
    if total > 0 {
        crate::range::law_range_within_file(crate::text::opt_text(header), total);
        crate::range::law_first_to_last(first, last, total);
        crate::range::law_first_to_end(first, total);
        crate::range::law_last_bytes(first, total);
        reveal_strlit("bytes=");
        reveal_strlit("bytes=-");
        reveal_strlit("-");
        let a = decimal(first as nat);
        let b = decimal(last as nat);
        assert("bytes="@ + a + "-"@ + b =~= "bytes="@ + (a + seq!['-'] + b));
        assert("bytes="@ + a + "-"@ =~= "bytes="@ + (a + seq!['-'] + Seq::<char>::empty()));
        assert("bytes=-"@ + a =~= "bytes="@ + (Seq::<char>::empty() + seq!['-'] + a));
    }
}

/// A text that may stand in a header is kept byte for byte; others are an error of
/// the service.
pub proof fn law_header_value(value: &str, r: Result<HeaderValue, AppError>)
    requires
        call_ensures(header_value, (value,), r),
    ensures
        ({
            let fits = forall|i: int|
                0 <= i < value@.len() ==> (#[trigger] value@[i] >= ' ' && value@[i] != '\u{7f}')
                    || value@[i] == '\t';
            match r {
                Ok(v) => fits && header_bytes(v) == encode_utf8(value@),
                Err(e) => !fits && e.status == 500 && e.detail@ == "invalid response header"@,
            }
        }),
{
    crate::http::law_value_text(value@);
}

/// A stream's header fields give its type, its length and the path's name as they
/// are, and the part that is sent exactly in part status.
pub proof fn law_stream_headers_of(
    media_type: &str,
    length: u64,
    id: &str,
    status: u16,
    start: u64,
    end: u64,
    total: u64,
    r: Result<HeaderMap<HeaderValue>, AppError>,
)
    requires
        call_ensures(stream_headers, (media_type, length, id, status, start, end, total), r),
    ensures
        r matches Ok(map) ==> {
            let f = header_fields(map);
            &&& f["content-type"@] == seq![encode_utf8(media_type@)]
            &&& f["content-length"@] == seq![encode_utf8(decimal(length as nat))]
            &&& f["x-media-path-encoded"@] == seq![encode_utf8(id@)]
            &&& f["accept-ranges"@] == seq![encode_utf8("bytes"@)]
            &&& f["cache-control"@] == seq![encode_utf8("no-store"@)]
            &&& f.contains_key("content-range"@) <==> status == 206
            &&& status == 206 ==> f["content-range"@] == seq![
                encode_utf8(
                    "bytes "@ + decimal(start as nat) + "-"@ + decimal(end as nat) + "/"@ + decimal(
                        total as nat,
                    ),
                ),
            ]
        },
        (forall|i: int|
            0 <= i < media_type@.len() ==> ' ' <= #[trigger] media_type@[i] <= '~') && (forall|
            i: int,
        |
            0 <= i < id@.len() ==> ' ' <= #[trigger] id@[i] <= '~') ==> r is Ok,
{
    crate::stream::law_stream_headers(
        media_type@,
        length,
        id@,
        status,
        start,
        end,
        total,
        "content-range"@,
    );
    crate::stream::law_stream_fields(media_type@, length, id@, status, start, end, total);
    if forall|i: int| 0 <= i < media_type@.len() ==> ' ' <= #[trigger] media_type@[i] <= '~' {
        crate::http::lemma_visible_value(media_type@);
    }
    if forall|i: int| 0 <= i < id@.len() ==> ' ' <= #[trigger] id@[i] <= '~' {
        crate::http::lemma_visible_value(id@);
    }
}

/// A path is read back from the name that it is given, whatever it is.
pub proof fn law_path_is_read_back(
    path: &str,
    id: String,
    value: &str,
    r: Result<String, AppError>,
    m: Result<String, AppError>,
)
    requires
        call_ensures(encode_path, (path,), id),
        value@ == id@,
        call_ensures(decode_path, (value,), r),
        call_ensures(decode_media_path, (value,), m),
    ensures
        id@ == base64url_encoded(encode_utf8(path@)),
        path@.len() > 0 ==> (r matches Ok(p) && p@ == path@),
        path@.len() == 0 ==> (r matches Err(e) && e.status == 400 && e.detail@ == "empty path"@),
        path@.len() > 0 && is_media(encode_utf8(path@)) ==> (m matches Ok(p) && p@ == path@),
        path@.len() > 0 && !is_media(encode_utf8(path@)) ==> (m matches Err(e) && e.status == 400
            && e.detail@ == "unsupported media extension"@),
{
    crate::media::law_path_of_id(value@, path@);
    crate::media::law_path_has_one_name(path@, value@);
    crate::media::law_media_path_of_id(value@);
}

/// What is read of a name is the path that has it, and nothing else is read.
pub proof fn law_decode_path(value: &str, r: Result<String, AppError>)
    requires
        call_ensures(decode_path, (value,), r),
    ensures
        match r {
            Ok(p) => p@.len() > 0 && value@ == base64url_encoded(encode_utf8(p@)),
            Err(e) => {
                &&& e.status == 400
                &&& forall|p: Seq<char>|
                    p.len() > 0 ==> value@ != base64url_encoded(#[trigger] encode_utf8(p))
            },
        },
{
    crate::media::law_path_of_id(value@, value@);
    if r is Err {
        assert forall|p: Seq<char>| p.len() > 0 implies value@ != base64url_encoded(
            #[trigger] encode_utf8(p),
        ) by {
            crate::media::law_path_of_id(value@, p);
        }
    }
}

/// The parts of a path are found where it has them.
pub proof fn law_path_parts(
    p: &[u8],
    dir: Seq<u8>,
    stem: Seq<u8>,
    ext: Seq<u8>,
    name: Option<&[u8]>,
    s: Option<&[u8]>,
    e: Option<&[u8]>,
)
    requires
        call_ensures(path_file_name, (p,), name),
        call_ensures(path_file_stem, (p,), s),
        call_ensures(path_extension, (p,), e),
        p@ == dir + seq![47u8] + (stem + seq![46u8] + ext),
        stem.len() > 0,
        !stem.contains(47),
        !ext.contains(47),
        !ext.contains(46),
        ext.len() > 0,
    ensures
        name matches Some(n) && n@ == stem + seq![46u8] + ext,
        s matches Some(x) && x@ == stem,
        e matches Some(x) && x@ == ext,
{
    let n = stem + seq![46u8] + ext;
    assert forall|i: int| 0 <= i < n.len() implies n[i] != 47 by {
        if i < stem.len() {
            assert(stem.contains(stem[i]));
        } else if i > stem.len() {
            assert(ext.contains(ext[i - stem.len() - 1]));
        }
    }
    if n == seq![46u8, 46u8] {
        assert(ext.contains(n[1]));
    }
    crate::path::law_file_name(p@, dir, n);
    crate::path::law_extension(p@, stem, ext);
}

/// A path is that of a media file by its extension alone, in whichever case.
pub proof fn law_is_media_name(p: &[u8], e: Seq<u8>, r: bool)
    requires
        call_ensures(is_media_name, (p,), r),
        extension(p@) == Some(e),
    ensures
        r <==> exists|x: Seq<char>|
            {
                &&& {
                    ||| x == "aac"@
                    ||| x == "flac"@
                    ||| x == "m4a"@
                    ||| x == "mp3"@
                    ||| x == "ogg"@
                    ||| x == "opus"@
                    ||| x == "wav"@
                    ||| x == "webm"@
                    ||| x == "m4v"@
                    ||| x == "mkv"@
                    ||| x == "mov"@
                    ||| x == "mp4"@
                }
                &&& e.len() == x.len()
                &&& forall|i: int|
                    0 <= i < x.len() ==> crate::path::is_same_letter(e[i], #[trigger] x[i])
            },
{
    crate::path::law_media_file(p@, e);
}

/// The content type goes by the extension.
pub proof fn law_content_type_of(p: &[u8], ext: Seq<char>, r: String)
    requires
        call_ensures(content_type, (p,), r),
    ensures
        extension(p@) == Some(encode_utf8(ext)) ==> r@ == guessed_type(ext),
        extension(p@) is None ==> r@ == "application/octet-stream"@,
{
    crate::media::law_content_type(p@, ext);
}

/// A file name that needs no change is kept as it is, however long it is.
pub proof fn law_safe_name_is_kept(value: &str, r: String)
    requires
        call_ensures(safe_name, (value,), r),
        value@.len() > 0,
        forall|i: int|
            0 <= i < value@.len() ==> {
                let c = #[trigger] value@[i];
                c != '\\' && c != '/' && c != ':' && c != '*' && c != '?' && c != '"' && c != '<' && c
                    != '>' && c != '|'
            },
        value@[0] != '.' && !is_white_space(value@[0]),
        value@.last() != '.' && !is_white_space(value@.last()),
    ensures
        r@ == value@,
{
    crate::names::law_name_is_kept(value@);
}

/// What was found at a path is streamed exactly if it is a regular file.
pub proof fn law_check_found(found: Option<Found>, r: Result<MediaPath, AppError>)
    requires
        call_ensures(check_found, (found,), r),
    ensures
        found matches Some(f) && f.is_file ==> r == Ok::<MediaPath, AppError>(found->0.path),
        !(found matches Some(f) && f.is_file) ==> (r matches Err(e) && e.status == 404 && e.detail@
            == "media file not found"@),
{
}

/// A file is described with what the file system says of it, whatever that is.
pub proof fn law_file_meta(
    path: &MediaPath,
    stat: Option<FileStat>,
    name: Seq<char>,
    r: Result<MediaMeta, AppError>,
)
    requires
        call_ensures(file_meta, (path, stat), r),
    ensures
        match stat {
            Some(stat) => r matches Ok(m) && {
                &&& m.size == stat.size
                &&& stat.modified matches Some(span) ==> m.mtime == span.secs
                &&& stat.modified is None ==> m.mtime == 0
                &&& m.path@ == path.text()
                &&& m.id@ == base64url_encoded(encode_utf8(path.text()))
                &&& m.stream_url@ == "/api/stream/"@ + m.id@
                &&& m.content_type@ == crate::media::content_type_of(path.bytes())
                &&& file_name(path.bytes()) == Some(encode_utf8(name)) ==> m.name@ == name
            },
            None => r matches Err(e) && e.status == 404 && e.detail@ == "media file not found"@,
        },
{
    if stat is Some {
        crate::files::law_description(r->Ok_0, *path, stat->0, name);
    }
}

/// Every media file in a directory is listed, whatever its size, name and place,
/// nothing else is, and the list is in the order of the names in lower case.
pub proof fn law_list_files(entries: &Vec<DirEntry>, r: Vec<MediaMeta>, i: int, j: int)
    requires
        call_ensures(list_files, (entries,), r),
    ensures
        r@.len() == entries@.filter(
            |e: DirEntry| e.is_file && is_media(e.path.bytes()) && e.stat is Some,
        ).len(),
        0 <= i < entries@.len() && entries@[i].is_file && is_media(entries@[i].path.bytes())
            && entries@[i].stat is Some ==> exists|k: int|
            0 <= k < r@.len() && (#[trigger] r@[k]).path@ == entries@[i].path.text() && r@[k].size
                == entries@[i].stat->0.size,
        0 <= j < r@.len() ==> exists|k: int|
            {
                &&& 0 <= k < entries@.len()
                &&& (#[trigger] entries@[k]).is_file && is_media(entries@[k].path.bytes())
                    && entries@[k].stat is Some
                &&& r@[j].path@ == entries@[k].path.text()
                &&& r@[j].size == entries@[k].stat->0.size
            },
        0 <= i < j < r@.len() ==> !bytes_before(
            encode_utf8(lowercase(r@[j].name@)),
            encode_utf8(lowercase(r@[i].name@)),
        ),
{
    law_list_length(entries@, r@);
    if 0 <= i < entries@.len() && entries@[i].is_file && is_media(entries@[i].path.bytes())
        && entries@[i].stat is Some {
        law_media_file_is_listed(entries@, r@, i);
    }
    if 0 <= j < r@.len() {
        law_listed_is_media_file(entries@, r@, j);
    }
    let files = choose|files: Seq<MediaMeta>| #[trigger]
        crate::files::describe_all(files, crate::files::listed_entries(entries@))
            && crate::files::is_sorted_list(files, crate::files::name_keys(files), r@);
    law_list_order(files, r@);
}

/// Sorting files loses none, doubles none, and puts them in the order of their
/// names in lower case.
pub proof fn law_sort_files(files: Vec<MediaMeta>, r: Vec<MediaMeta>, n: int, i: int, j: int)
    requires
        call_ensures(sort_files, (files,), r),
        0 <= n < files@.len(),
    ensures
        r@.len() == files@.len(),
        r@.contains(files@[n]),
        files@.contains(r@[n]),
        0 <= i < j < r@.len() ==> !bytes_before(
            encode_utf8(lowercase(r@[j].name@)),
            encode_utf8(lowercase(r@[i].name@)),
        ),
{
    law_list_order(files@, r@);
    crate::files::law_list_keeps_files(files@, crate::files::name_keys(files@), r@, n);
}

/// Sorting by keys puts the files in the order of these, and those with the same
/// key in the order in which they came.
pub proof fn law_sort_by_keys(files: &Vec<MediaMeta>, keys: &Vec<String>, r: Vec<MediaMeta>)
    requires
        call_ensures(sort_by_keys, (files, keys), r),
        files@.len() == keys@.len(),
    ensures
        r@.len() == files@.len(),
        exists|order: Seq<usize>|
            {
                &&& #[trigger] order.len() == files@.len()
                &&& forall|i: int|
                    0 <= i < order.len() ==> 0 <= #[trigger] order[i] < files@.len() && r@[i]
                        == files@[order[i] as int]
                &&& forall|i: int, j: int|
                    0 <= i < j < order.len() ==> {
                        let a = encode_utf8(keys@[#[trigger] order[i] as int]@);
                        let b = encode_utf8(keys@[#[trigger] order[j] as int]@);
                        bytes_before(a, b) || (a == b && order[i] < order[j])
                    }
            },
{
    let texts = crate::files::texts(keys@);
    law_keys(keys@, files@, 0);
    law_sorted_by_keys(files@, texts, r@);
    assert forall|i: int| 0 <= i < keys@.len() implies #[trigger] texts[i] == keys@[i]@ by {
        law_keys(keys@, files@, i);
    }
    let order = choose|order: Seq<usize>|
        {
            &&& #[trigger] order.len() == files@.len()
            &&& forall|i: int|
                0 <= i < order.len() ==> 0 <= #[trigger] order[i] < files@.len() && r@[i]
                    == files@[order[i] as int]
            &&& forall|i: int, j: int|
                0 <= i < j < order.len() ==> {
                    let a = encode_utf8(texts[#[trigger] order[i] as int]);
                    let b = encode_utf8(texts[#[trigger] order[j] as int]);
                    bytes_before(a, b) || (a == b && order[i] < order[j])
                }
        };
    assert(order.len() == files@.len());
}

/// An average and a throughput are the whole number nearest from below.
pub proof fn law_rates_of(total: u64, count: u64, a: u64, t: u64)
    requires
        call_ensures(avg_u64, (total, count), a),
        call_ensures(throughput_bps, (total, count), t),
    ensures
        count == 0 ==> a == 0 && t == 0,
        count > 0 ==> a * count <= total < (a + 1) * count,
        count > 0 && total * 1_000_000 <= u64::MAX ==> t * count <= total * 1_000_000 < (t + 1)
            * count,
        count > 0 && total * 1_000_000 > u64::MAX ==> t * count <= u64::MAX < (t + 1) * count,
{
    crate::snapshot::law_rates(total, count);
}

/// A setting is its number within the limits, and the default without one.
pub proof fn law_settings(
    value: Option<&str>,
    n: u64,
    default: u64,
    min: u64,
    max: u64,
    r: u64,
    port: u16,
)
    requires
        min <= max,
        call_ensures(env_u64, (value, default, min, max), r),
        call_ensures(env_port, (value,), port),
    ensures
        value is None ==> r == default && port == 8080,
        value matches Some(s) && s@ == decimal(n as nat) ==> {
            &&& min <= n <= max ==> r == n
            &&& n < min ==> r == min
            &&& n > max ==> r == max
            &&& n <= 65_535 ==> port == n
            &&& n > 65_535 ==> port == 8080
        },
        value matches Some(s) && parsed_number(s@, u64::MAX as nat) is None ==> r == default,
{
    law_number_round_trip(n as nat, u64::MAX as nat);
    crate::text::lemma_decimal_digits(n as nat);
    if n <= 65_535 {
        law_number_round_trip(n as nat, 65_535);
    }
    if value is Some {
        crate::config::law_setting(value->0@, u64::MAX as nat, default as nat, min as nat, max as nat);
        assert(crate::text::is_digit(decimal(n as nat)[0]));
    }
}

/// The settings are the numbers that are given for them, if these are within the
/// limits, and their defaults without any.
pub proof fn law_load_config(
    initial: Option<&str>,
    read: Option<&str>,
    ahead: Option<&str>,
    tasks: Option<&str>,
    n: usize,
    r: StreamConfig,
)
    requires
        call_ensures(load_config, (initial, read, ahead, tasks), r),
    ensures
        read is None ==> r.read_chunk_bytes == 1_048_576,
        initial is None ==> r.initial_chunk_bytes == 262_144,
        ahead is None ==> r.prefetch_bytes == 0,
        tasks is None ==> r.prefetch_max_tasks == 2,
        read matches Some(s) && s@ == decimal(n as nat) && 65_536 <= n <= 16_777_216
            ==> r.read_chunk_bytes == n,
        initial matches Some(s) && s@ == decimal(n as nat) && 16_384 <= n <= r.read_chunk_bytes
            ==> r.initial_chunk_bytes == n,
        ahead matches Some(s) && s@ == decimal(n as nat) && n <= 536_870_912 ==> r.prefetch_bytes
            == n,
        tasks matches Some(s) && s@ == decimal(n as nat) && 1 <= n <= 64 ==> r.prefetch_max_tasks
            == n,
        65_536 <= r.read_chunk_bytes <= 16_777_216,
        r.prefetch_bytes <= 536_870_912,
        1 <= r.prefetch_max_tasks <= 64,
{
    law_number_round_trip(n as nat, usize::MAX as nat);
    law_number_round_trip(n as nat, u64::MAX as nat);
}

/// The report at a time gives the counters as they are, with the time since they
/// started.
pub proof fn law_snapshot_at(stats: &Stats, config: StreamConfig, now: u64, r: StatsSnapshot)
    requires
        call_ensures(snapshot_at, (stats, config, now), r),
    ensures
        r.config == config,
        now >= stats.started_at_unix ==> r.uptime_seconds == now - stats.started_at_unix,
        r.stream.requests == stats.stream_requests,
        r.stream.bytes == stats.stream_bytes,
        r.stream.chunks == stats.stream_chunks,
        stats.stream_completed > 0 ==> r.stream.avg_bytes_per_request * stats.stream_completed
            <= stats.stream_bytes < (r.stream.avg_bytes_per_request + 1) * stats.stream_completed,
        stats.stream_chunks > 0 ==> r.stream.avg_bytes_per_chunk * stats.stream_chunks
            <= stats.stream_bytes < (r.stream.avg_bytes_per_chunk + 1) * stats.stream_chunks,
        r == crate::snapshot::report(*stats, config, now),
{
    crate::snapshot::law_report(*stats, config, now);
    crate::snapshot::law_rates(stats.stream_bytes, stats.stream_completed);
    crate::snapshot::law_rates(stats.stream_bytes, stats.stream_chunks);
}

/// A path that is text is taken with its bytes and its text as they are.
pub proof fn law_media_path(bytes: Vec<u8>, text: Seq<char>, r: Option<MediaPath>)
    requires
        call_ensures(MediaPath::new, (bytes,), r),
        bytes@ == encode_utf8(text),
        4 * bytes@.len() <= usize::MAX,
    ensures
        r matches Some(path) && path.bytes() == bytes@ && path.text() == text,
{
    crate::path::law_text_of_bytes(bytes@, text);
    crate::media::law_encodable(bytes@);
}

} // verus!
