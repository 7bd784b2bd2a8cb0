use audio_widget::chunk::{ChunkAction, ChunkReader, ChunkStep};
use audio_widget::config::{env_u64, env_usize, load_config};
use audio_widget::files::{file_meta, FileStat};
use audio_widget::http::{header_value, range_header, AppError, HeaderField};
use audio_widget::media::{encode_path, MediaPath};
use audio_widget::stats::{Stats, StreamGuard};
use audio_widget::stream::{
    admit_stream, check_found, stream_headers, ContentPlan, Found, Resolved, StreamPlan,
};
use axum::http::HeaderMap;
use std::time::{Duration, Instant};

fn zero() -> Stats {
    Stats::starting_at(0)
}

fn media(bytes: &[u8]) -> MediaPath {
    MediaPath::new(bytes.to_vec()).unwrap()
}

fn range_of(value: &str) -> HeaderMap {
    let mut headers = HeaderMap::new();
    headers.insert("range", value.parse().unwrap());
    headers
}

fn resolved(stats: &mut Stats, head: bool) -> Resolved {
    let admitted = match admit_stream(stats, head, &encode_path("/link/a.mp3")) {
        Ok(admitted) => admitted,
        Err(error) => panic!("{error:?}"),
    };
    assert_eq!(admitted.path, "/link/a.mp3");
    let found = Found { path: media(b"/music/a.mp3"), is_file: true };
    match admitted.resolved(stats, Some(found)) {
        Ok(resolved) => resolved,
        Err(error) => panic!("{error:?}"),
    }
}

fn content(stats: &mut Stats, headers: &HeaderMap, total: u64) -> ContentPlan {
    match resolved(stats, false).measured(stats, headers, Some(total)) {
        Ok(StreamPlan::Content(plan)) => plan,
        Ok(StreamPlan::Empty(_)) => panic!("no content"),
        Err(error) => panic!("{error:?}"),
    }
}

fn error_of<T>(r: Result<T, AppError>) -> AppError {
    match r {
        Ok(_) => panic!("no error"),
        Err(error) => error,
    }
}

#[test]
fn header_texts() {
    assert_eq!(header_value("audio/mpeg").unwrap(), "audio/mpeg");
    assert_eq!(header_value("a\tb").unwrap(), "a\tb");
    assert_eq!(header_value("\u{e9}").unwrap().as_bytes(), "\u{e9}".as_bytes());
    for bad in ["\n", "a\r", "\u{7f}", "\0", "\u{1f}"] {
        let error = header_value(bad).unwrap_err();
        assert_eq!((error.status, error.detail.as_str()), (500, "invalid response header"));
    }
}

#[test]
fn errors_with_headers() {
    let error = AppError::new(416, "no").with_header(HeaderField::ContentRange, "bytes */5");
    assert_eq!((error.status, error.detail.as_str()), (416, "no"));
    assert_eq!(error.headers.get("content-range").unwrap(), "bytes */5");
    let error = error.with_header(HeaderField::ContentRange, "bytes */6");
    assert_eq!(error.headers.len(), 1);
    assert_eq!(error.headers.get("content-range").unwrap(), "bytes */6");
    let error = error.with_header(HeaderField::ContentType, "bad\n");
    assert_eq!(error.headers.len(), 1);
}

#[test]
fn range_fields() {
    assert_eq!(range_header(&HeaderMap::new()), None);
    assert_eq!(range_header(&range_of("bytes=0-1")), Some("bytes=0-1".to_string()));
    let mut headers = range_of("bytes=0-1");
    headers.append("range", "bytes=2-3".parse().unwrap());
    headers.insert("accept", "x".parse().unwrap());
    assert_eq!(range_header(&headers), Some("bytes=0-1".to_string()));
    let mut odd = HeaderMap::new();
    odd.insert("range", header_value("bytes=0-1\u{e9}").unwrap());
    assert_eq!(range_header(&odd), None);
}

#[test]
fn header_fields_of_a_stream() {
    let map = stream_headers("audio/mpeg", 10, "YQ", 206, 5, 14, 100).unwrap();
    assert_eq!(map.len(), 6);
    assert_eq!(map.get("accept-ranges").unwrap(), "bytes");
    assert_eq!(map.get("cache-control").unwrap(), "no-store");
    assert_eq!(map.get("content-type").unwrap(), "audio/mpeg");
    assert_eq!(map.get("content-length").unwrap(), "10");
    assert_eq!(map.get("x-media-path-encoded").unwrap(), "YQ");
    assert_eq!(map.get("content-range").unwrap(), "bytes 5-14/100");
    let whole = stream_headers("audio/mpeg", 100, "YQ", 200, 0, 99, 100).unwrap();
    assert_eq!(whole.len(), 5);
    assert!(whole.get("content-range").is_none());
}

#[test]
fn bad_header_fields_of_a_stream() {
    let error = stream_headers("a\nb", 10, "YQ", 206, 5, 14, 100).unwrap_err();
    assert_eq!((error.status, error.detail.as_str()), (500, "invalid response header"));
    let error = stream_headers("audio/mpeg", 10, "\r", 200, 5, 14, 100).unwrap_err();
    assert_eq!((error.status, error.detail.as_str()), (500, "invalid response header"));
}

#[test]
fn stream_of_a_bad_path() {
    let mut stats = zero();
    let error = error_of(admit_stream(&mut stats, false, "%%"));
    assert_eq!((error.status, error.detail.as_str()), (400, "invalid encoded path"));
    let error = error_of(admit_stream(&mut stats, true, &encode_path("/a.txt")));
    assert_eq!((error.status, error.detail.as_str()), (400, "unsupported media extension"));
    assert_eq!(stats.stream_requests, 2);
    assert_eq!(stats.stream_head_requests, 1);
    assert_eq!(stats.stream_errors, 2);
    assert_eq!(stats.stream_status_4xx, 2);
    assert_eq!(stats.stream_active, 0);
    assert_eq!(stats.stream_active_max, 1);
}

#[test]
fn stream_of_a_missing_file() {
    for found in [None, Some(Found { path: media(b"/music/a.mp3"), is_file: false })] {
        let mut stats = zero();
        let admitted = match admit_stream(&mut stats, false, &encode_path("/music/a.mp3")) {
            Ok(admitted) => admitted,
            Err(error) => panic!("{error:?}"),
        };
        let error = error_of(admitted.resolved(&mut stats, found));
        assert_eq!((error.status, error.detail.as_str()), (404, "media file not found"));
        assert_eq!(stats.stream_errors, 1);
        assert_eq!(stats.stream_status_4xx, 1);
        assert_eq!(stats.stream_active, 0);
    }
}

#[test]
fn found_files() {
    let path = match check_found(Some(Found { path: media(b"/a.mp3"), is_file: true })) {
        Ok(path) => path,
        Err(error) => panic!("{error:?}"),
    };
    assert_eq!(path.as_text(), "/a.mp3");
    assert_eq!(error_of(check_found(None)).status, 404);
}

#[test]
fn stream_of_a_file_that_vanished() {
    let mut stats = zero();
    let request = resolved(&mut stats, false);
    let error = error_of(request.measured(&mut stats, &HeaderMap::new(), None));
    assert_eq!((error.status, error.detail.as_str()), (404, "media file not found"));
    assert_eq!(stats.stream_full_requests, 0);
    assert_eq!(stats.stream_errors, 1);
}

#[test]
fn stream_of_a_bad_range() {
    let mut stats = zero();
    let request = resolved(&mut stats, false);
    let error = error_of(request.measured(&mut stats, &range_of("bytes=50-"), Some(50)));
    assert_eq!((error.status, error.detail.as_str()), (416, "range not satisfiable"));
    assert_eq!(error.headers.get("content-range").unwrap(), "bytes */50");
    assert_eq!(stats.stream_range_requests, 1);
    assert_eq!(stats.stream_requested_bytes, 0);
    assert_eq!(stats.stream_errors, 1);
    assert_eq!(stats.stream_active, 0);
}

#[test]
fn stream_of_part_of_a_file() {
    let mut stats = zero();
    let plan = content(&mut stats, &range_of("bytes=10-19"), 50);
    assert_eq!((plan.start, plan.end, plan.total, plan.length), (10, 19, 50, 10));
    assert_eq!(plan.path.as_text(), "/music/a.mp3");
    assert_eq!(plan.reply.status, 206);
    let headers = &plan.reply.headers;
    assert_eq!(headers.len(), 6);
    assert_eq!(headers.get("content-type").unwrap(), "audio/mpeg");
    assert_eq!(headers.get("content-length").unwrap(), "10");
    assert_eq!(headers.get("content-range").unwrap(), "bytes 10-19/50");
    assert_eq!(headers.get("x-media-path-encoded").unwrap(), "L211c2ljL2EubXAz");
    assert_eq!(stats.stream_range_requests, 1);
    assert_eq!(stats.stream_requested_bytes, 10);

    let opened = match plan.opened(&mut stats, Some(7)) {
        Ok(opened) => opened,
        Err(error) => panic!("{error:?}"),
    };
    let ready = match opened.sought(&mut stats, Some(8)) {
        Ok(ready) => ready,
        Err(error) => panic!("{error:?}"),
    };
    assert_eq!(ready.read_ahead_from(), 20);
    let config = load_config(None, None, None, None);
    let started = ready.start(&mut stats, &config, 9, Instant::now());
    assert_eq!(started.reply.status, 206);
    assert!(!started.guard.done);
    assert_eq!(started.reader, ChunkReader::new(10, 256 * 1024, 1024 * 1024));
    assert_eq!(stats.stream_open_us_total, 7);
    assert_eq!(stats.stream_seek_us_total, 8);
    assert_eq!(stats.stream_setup_us_total, 9);
    assert_eq!(stats.stream_status_206, 1);
    assert_eq!(stats.stream_active, 1);
    started.guard.drop(&mut stats);
    assert_eq!(stats.stream_active, 0);
}

#[test]
fn stream_of_a_whole_file() {
    let mut stats = zero();
    let plan = content(&mut stats, &HeaderMap::new(), 50);
    assert_eq!((plan.start, plan.end, plan.total, plan.length), (0, 49, 50, 50));
    assert_eq!(plan.reply.status, 200);
    assert_eq!(plan.reply.headers.len(), 5);
    assert_eq!(stats.stream_full_requests, 1);
}

#[test]
fn stream_of_a_file_that_does_not_open() {
    let mut stats = zero();
    let plan = content(&mut stats, &HeaderMap::new(), 50);
    let error = error_of(plan.opened(&mut stats, None));
    assert_eq!((error.status, error.detail.as_str()), (404, "media file not found"));
    assert_eq!(stats.stream_status_4xx, 1);
    assert_eq!(stats.stream_active, 0);
}

#[test]
fn stream_of_a_file_that_does_not_seek() {
    let mut stats = zero();
    let plan = content(&mut stats, &HeaderMap::new(), 50);
    let opened = match plan.opened(&mut stats, Some(1)) {
        Ok(opened) => opened,
        Err(error) => panic!("{error:?}"),
    };
    let error = error_of(opened.sought(&mut stats, None));
    assert_eq!((error.status, error.detail.as_str()), (500, "failed to seek media file"));
    assert_eq!(stats.stream_status_5xx, 1);
    assert_eq!(stats.stream_active, 0);
}

#[test]
fn head_of_a_stream() {
    let mut stats = zero();
    let request = resolved(&mut stats, true);
    let plan = match request.measured(&mut stats, &range_of("bytes=0-4"), Some(50)) {
        Ok(StreamPlan::Empty(plan)) => plan,
        _ => panic!("content"),
    };
    let reply = plan.conclude(&mut stats, 3, Instant::now());
    assert_eq!(reply.status, 206);
    assert_eq!(reply.headers.get("content-length").unwrap(), "5");
    assert_eq!(stats.stream_requested_bytes, 5);
    assert_eq!(stats.stream_setup_us_total, 3);
    assert_eq!(stats.stream_status_206, 1);
    assert_eq!(stats.stream_completed, 1);
    assert_eq!(stats.stream_active, 0);
}

#[test]
fn stream_of_an_empty_file() {
    let mut stats = zero();
    let request = resolved(&mut stats, false);
    let plan = match request.measured(&mut stats, &range_of("bytes=0-4"), Some(0)) {
        Ok(StreamPlan::Empty(plan)) => plan,
        _ => panic!("content"),
    };
    let reply = plan.conclude_after(&mut stats, 3, 5);
    assert_eq!(reply.status, 200);
    assert_eq!(reply.headers.get("content-length").unwrap(), "0");
    assert!(reply.headers.get("content-range").is_none());
    assert_eq!(stats.stream_requested_bytes, 0);
    assert_eq!(stats.stream_duration_us_total, 5);
}

#[test]
fn path_that_is_no_text() {
    let mut stats = zero();
    stats.begin_stream(false);
    let request = Resolved { head: false, path: media(b"/\xff.wav") };
    let plan = match request.measured(&mut stats, &HeaderMap::new(), Some(9)) {
        Ok(StreamPlan::Content(plan)) => plan,
        _ => panic!("no content"),
    };
    assert_eq!(
        plan.reply.headers.get("x-media-path-encoded").unwrap(),
        encode_path("/\u{fffd}.wav").as_str()
    );
}

#[test]
fn sizes_of_pieces() {
    let mut stats = zero();
    let mut reader = ChunkReader::new(25, 4, 10);
    assert_eq!(reader.next_len(), Some(4));
    assert_eq!(reader.read_done(&mut stats, 3, 1, 50), ChunkStep::Send { last: false });
    assert_eq!(reader.next_len(), Some(10));
    assert_eq!(reader.read_done(&mut stats, 10, 2, 60), ChunkStep::Send { last: false });
    assert_eq!(reader.read_done(&mut stats, 10, 3, 70), ChunkStep::Send { last: false });
    assert_eq!(reader.next_len(), Some(2));
    assert_eq!(reader.read_done(&mut stats, 2, 4, 80), ChunkStep::Send { last: true });
    assert_eq!(reader.next_len(), None);
    assert_eq!(stats.stream_bytes, 25);
    assert_eq!(stats.stream_chunks, 4);
    assert_eq!(stats.stream_read_us_total, 10);
    assert_eq!(stats.stream_read_us_max, 4);
    assert_eq!(stats.stream_first_chunk_us_total, 50);
}

#[test]
fn pieces_are_never_empty() {
    let reader = ChunkReader::new(2, 0, 0);
    assert_eq!(reader.next_len(), Some(1));
    assert_eq!(ChunkReader::new(0, 5, 5).next_len(), None);
}

#[test]
fn content_is_sent_to_its_end() {
    let mut stats = zero();
    stats.begin_stream(false);
    let mut guard = StreamGuard::new(Instant::now());
    let mut reader = ChunkReader::new(7, 4, 10);
    assert_eq!(reader.step(&mut stats, &mut guard, Some(4), 1), ChunkAction::Send(4));
    assert!(!guard.done);
    assert_eq!(reader.step(&mut stats, &mut guard, Some(3), 1), ChunkAction::Send(3));
    assert!(guard.done);
    guard.drop(&mut stats);
    assert_eq!(stats.stream_completed, 1);
    assert_eq!(stats.stream_bytes, 7);
    assert_eq!(stats.stream_active, 0);
}

#[test]
fn file_ends_early() {
    let mut stats = zero();
    stats.begin_stream(false);
    let mut guard = StreamGuard::new(Instant::now());
    let mut reader = ChunkReader::new(7, 4, 10);
    assert_eq!(reader.step(&mut stats, &mut guard, Some(0), 1), ChunkAction::End);
    assert!(guard.done);
    assert_eq!(reader.remaining, 7);
    assert_eq!(stats.stream_completed, 1);
    assert_eq!(stats.stream_chunks, 0);
    assert_eq!(stats.stream_first_chunk_us_total, 0);
}

#[test]
fn content_cannot_be_read() {
    let mut stats = zero();
    stats.begin_stream(false);
    let mut guard = StreamGuard::new(Instant::now());
    let mut reader = ChunkReader::new(7, 4, 10);
    assert_eq!(reader.step(&mut stats, &mut guard, None, 1), ChunkAction::Fail);
    assert!(guard.done);
    assert_eq!(stats.stream_errors, 1);
    assert_eq!(stats.stream_read_us_total, 0);
    assert_eq!(stats.stream_active, 0);
}

#[test]
fn head_is_like_the_whole() {
    let mut stats = zero();
    let head = match resolved(&mut stats, true).measured(
        &mut stats,
        &range_of("bytes=3-"),
        Some(50),
    ) {
        Ok(StreamPlan::Empty(plan)) => plan,
        _ => panic!("content"),
    };
    let whole = content(&mut stats, &range_of("bytes=3-"), 50);
    assert_eq!(head.reply.status, whole.reply.status);
    assert_eq!(head.reply.headers, whole.reply.headers);
}

#[test]
fn bytes_of_a_range_are_sent() {
    let file: Vec<u8> = (0..200).collect();
    let mut stats = zero();
    let plan = content(&mut stats, &range_of("bytes=-150"), 200);
    let mut guard = StreamGuard::new(Instant::now());
    let mut reader = ChunkReader::new(plan.length, 7, 40);
    let mut position = plan.start as usize;
    let mut sent: Vec<u8> = Vec::new();
    let mut reads = [7, 13, 40, 1, 40].into_iter().cycle();
    while let Some(len) = reader.next_len() {
        let n = len.min(reads.next().unwrap());
        match reader.step(&mut stats, &mut guard, Some(n), 0) {
            ChunkAction::Send(n) => {
                sent.extend_from_slice(&file[position..position + n]);
                position += n;
            }
            _ => panic!("not sent"),
        }
    }
    assert_eq!(sent, file[50..200]);
    assert_eq!(plan.reply.headers.get("content-length").unwrap(), "150");
    assert!(guard.done);
    assert_eq!(stats.stream_bytes, 150);
    assert_eq!(stats.stream_completed, 1);
}

#[test]
fn described_file_is_streamed() {
    let path = media("/music/\u{e9}.mp3".as_bytes());
    let stat = FileStat { size: 1, modified: None };
    let meta = file_meta(&path, Some(stat)).unwrap();
    let id = meta.stream_url.strip_prefix("/api/stream/").unwrap();
    let admitted = match admit_stream(&mut zero(), false, id) {
        Ok(admitted) => admitted,
        Err(error) => panic!("{error:?}"),
    };
    assert_eq!(admitted.path.as_bytes(), path.as_bytes());
}

#[test]
fn limits_matter_only_for_numbers() {
    assert_eq!(env_usize(None, 5, 9, 1), 5);
    assert_eq!(env_usize(Some("x"), 5, 9, 1), 5);
    assert_eq!(env_u64(Some("-3"), 7, 9, 1), 7);
}

#[test]
fn times_are_those_since_the_request() {
    let request_started = Instant::now();
    while request_started.elapsed() < Duration::from_millis(2) {}
    let mut stats = zero();
    let mut guard = StreamGuard::new(request_started);
    let mut reader = ChunkReader::new(7, 4, 10);
    reader.step(&mut stats, &mut guard, Some(4), 1);
    assert!(stats.stream_first_chunk_us_total >= 2_000);
    let first = stats.stream_first_chunk_us_total;
    reader.step(&mut stats, &mut guard, Some(3), 1);
    assert_eq!(stats.stream_first_chunk_us_total, first);
    assert!(stats.stream_duration_us_total >= first);
    let upper = request_started.elapsed().as_micros();
    assert!(u128::from(stats.stream_duration_us_total) <= upper);

    let plan = match resolved(&mut stats, true).measured(&mut stats, &HeaderMap::new(), Some(9)) {
        Ok(StreamPlan::Empty(plan)) => plan,
        _ => panic!("content"),
    };
    let before = stats.stream_duration_us_total;
    plan.conclude(&mut stats, 1, request_started);
    assert!(stats.stream_duration_us_total - before >= 2_000);
}
