use audio_widget::about::{config, health};
use audio_widget::clock::Span;
use audio_widget::config::StreamConfig;
use audio_widget::files::{
    admit_list, admit_meta, file_meta, list_files, sort_by_keys, sort_files, DirEntry, FileStat,
    Listing, MediaMeta,
};
use audio_widget::media::{decode_path, encode_path, MediaPath};
use audio_widget::names::{safe_name, NameAction, UploadNames};
use audio_widget::path::is_media_name;
use audio_widget::prefetch::{PrefetchCursor, PrefetchQueue};
use audio_widget::stats::Stats;
use audio_widget::stream::Found;
use audio_widget::upload::{
    store_step, upload_file, Fault, FormAction, FormEvent, StoreAction, StoreEvent,
};

fn media(bytes: &[u8]) -> MediaPath {
    MediaPath::new(bytes.to_vec()).unwrap()
}

fn meta(path: &str) -> MediaMeta {
    let stat = FileStat { size: 5, modified: None };
    file_meta(&media(path.as_bytes()), Some(stat)).unwrap()
}

fn names_of(files: &[MediaMeta]) -> Vec<String> {
    files.iter().map(|file| file.name.clone()).collect()
}

fn reading_ahead(bytes: u64) -> StreamConfig {
    StreamConfig {
        initial_chunk_bytes: 16_384,
        read_chunk_bytes: 65_536,
        prefetch_bytes: bytes,
        prefetch_max_tasks: 2,
    }
}

#[test]
fn safe_names() {
    for (value, name) in [
        ("song.mp3", "song.mp3"),
        ("/etc/song.mp3", "song.mp3"),
        ("../../song.mp3", "song.mp3"),
        ("a/b/", "b"),
        ("", "upload"),
        ("..", "upload"),
        ("/", "upload"),
        ("...", "upload"),
        (" . ", "."),
        ("  song.mp3  ", "song.mp3"),
        ("..song.mp3..", "song.mp3"),
        (".. song.mp3", "song.mp3"),
        (" ..song.mp3", "..song.mp3"),
        ("C:\\music\\a*b?.mp3", "C--music-a-b-.mp3"),
        ("\"a\"<b>|c:.wav", "-a--b--c-.wav"),
        ("\u{e9}\u{1f600}.ogg", "\u{e9}\u{1f600}.ogg"),
        ("\u{3000}x.ogg\u{2003}", "x.ogg"),
        (" .. ", ".."),
    ] {
        assert_eq!(safe_name(value), name, "{value}");
    }
}

#[test]
fn names_that_are_tried_for_an_upload() {
    for (filename, tried) in [
        ("song.mp3", ["song.mp3", "song-2.mp3", "song-3.mp3"]),
        ("a.b.mp3", ["a.b.mp3", "a.b-2.mp3", "a.b-3.mp3"]),
        ("song", ["song", "song-2", "song-3"]),
        (".mp3", [".mp3", ".mp3-2", ".mp3-3"]),
        ("song.", ["song.", "song-2.", "song-3."]),
        ("", ["media", "media-2", "media-3"]),
        ("..", ["media", "media-2", "media-3"]),
        ("\u{e9}.mp3", ["\u{e9}.mp3", "\u{e9}-2.mp3", "\u{e9}-3.mp3"]),
    ] {
        let mut names = UploadNames::new(filename);
        for name in tried {
            assert_eq!(names.next_name(), name);
        }
    }
}

#[test]
fn names_that_are_tried_keep_the_extension() {
    let mut names = UploadNames::new("my song.MP3");
    let mut seen = Vec::new();
    for _ in 0..12 {
        let name = names.next_name();
        assert!(is_media_name(name.as_bytes()));
        assert!(is_media_name(format!("/data/uploads/{name}").as_bytes()));
        assert!(!seen.contains(&name));
        seen.push(name);
    }
    assert_eq!(seen[0], "my song.MP3");
    assert_eq!(seen[11], "my song-12.MP3");
}

#[test]
fn form_of_an_upload() {
    let field = |name, file_name| {
        let mut stats = Stats::starting_at(0);
        let action = upload_file(&mut stats, FormEvent::Field { name, file_name });
        assert_eq!(stats, Stats::starting_at(0));
        action
    };
    assert!(matches!(field(None, None), FormAction::NextField));
    assert!(matches!(field(Some("title"), Some("a.mp3")), FormAction::NextField));
    match field(Some("file"), Some("dir/a:b.mp3")) {
        FormAction::Store(name) => assert_eq!(name, "a-b.mp3"),
        _ => panic!("not stored"),
    }
    for file_name in [None, Some("a.txt"), Some(" .. "), Some("")] {
        match field(Some("file"), file_name) {
            FormAction::Fail(error) => {
                assert_eq!(error.status, 400);
                assert_eq!(error.detail, "unsupported media extension");
            }
            _ => panic!("not refused"),
        }
    }
}

#[test]
fn form_that_cannot_be_used() {
    let mut stats = Stats::starting_at(0);
    match upload_file(&mut stats, FormEvent::Invalid) {
        FormAction::Fail(error) => {
            assert_eq!((error.status, error.detail.as_str()), (400, "invalid multipart body"))
        }
        _ => panic!("not refused"),
    }
    match upload_file(&mut stats, FormEvent::End) {
        FormAction::Fail(error) => {
            assert_eq!((error.status, error.detail.as_str()), (400, "file field is required"))
        }
        _ => panic!("not refused"),
    }
}

#[test]
fn answers_to_faults() {
    for (fault, status, detail) in [
        (Fault::IndexMissing, 404, "index not found"),
        (Fault::UploadDirMissing, 404, "upload dir not found"),
        (Fault::UploadDirUnreadable, 500, "failed to read upload dir"),
        (Fault::BodyInvalid, 400, "invalid multipart body"),
        (Fault::FileFieldMissing, 400, "file field is required"),
        (Fault::NameUnchecked, 500, "failed to check upload path"),
        (Fault::NotCreated, 500, "failed to create upload"),
        (Fault::NotReceived, 400, "failed to read upload"),
        (Fault::NotWritten, 500, "failed to write upload"),
        (Fault::NotResolved, 500, "failed to resolve upload"),
    ] {
        let error = fault.error();
        assert_eq!(error.status, status);
        assert_eq!(error.detail, detail);
        assert!(error.headers.is_empty());
    }
}

#[test]
fn description_of_a_file() {
    let path = media(b"/music/a.mp3");
    let modified = Some(Span { secs: 99, nanos: 5 });
    let meta = file_meta(&path, Some(FileStat { size: 1234, modified })).unwrap();
    assert_eq!(meta.id, "L211c2ljL2EubXAz");
    assert_eq!(meta.path, "/music/a.mp3");
    assert_eq!(meta.name, "a.mp3");
    assert_eq!(meta.content_type, "audio/mpeg");
    assert_eq!(meta.size, 1234);
    assert_eq!(meta.mtime, 99);
    assert_eq!(meta.stream_url, "/api/stream/L211c2ljL2EubXAz");
    assert_eq!(decode_path(&meta.id).unwrap(), meta.path);
}

#[test]
fn description_of_an_odd_file() {
    let stat = FileStat { size: 0, modified: None };
    let odd = file_meta(&media(b"/m/\xff.mp3"), Some(stat)).unwrap();
    assert_eq!(odd.name, "media");
    assert_eq!(odd.path, "/m/\u{fffd}.mp3");
    assert_eq!(odd.content_type, "audio/mpeg");
    assert_eq!(odd.mtime, 0);
    let dir = file_meta(&media(b"/m\xff/a.mp3"), Some(stat)).unwrap();
    assert_eq!(dir.name, "a.mp3");
    let described = MediaMeta::describe(
        &media(b"/"),
        "id".to_string(),
        "type".to_string(),
        stat,
    );
    assert_eq!(described.name, "media");
    assert_eq!(described.stream_url, "/api/stream/id");
    assert_eq!(described.content_type, "type");
}

#[test]
fn description_of_a_missing_file() {
    let error = file_meta(&media(b"/a.mp3"), None).unwrap_err();
    assert_eq!((error.status, error.detail.as_str()), (404, "media file not found"));
}

#[test]
fn files_are_listed_by_name() {
    let files = vec![
        meta("/u/b.mp3"),
        meta("/u/A.mp3"),
        meta("/u/\u{c9}.mp3"),
        meta("/u/a.mp3"),
        meta("/u/C.mp3"),
        meta("/u/z.mp3"),
        meta("/u/a-2.mp3"),
        meta("/u/\u{e8}.mp3"),
        meta("/v/B.mp3"),
    ];
    let mut expected = names_of(&files);
    expected.sort_by(|a, b| a.to_lowercase().cmp(&b.to_lowercase()));
    let sorted = sort_files(files);
    assert_eq!(names_of(&sorted), expected);
    assert_eq!(sorted[1].name, "A.mp3");
    assert_eq!(sorted[3].path, "/u/b.mp3");
    assert_eq!(sorted[4].path, "/v/B.mp3");
    assert!(sort_files(Vec::new()).is_empty());
}

#[test]
fn files_with_the_same_key_keep_their_order() {
    let files = vec![meta("/1.mp3"), meta("/2.mp3"), meta("/3.mp3"), meta("/4.mp3")];
    let keys = ["b", "a", "b", "a"].map(|key| key.to_string()).to_vec();
    assert_eq!(names_of(&sort_by_keys(&files, &keys)), ["2.mp3", "4.mp3", "1.mp3", "3.mp3"]);
    let keys = ["", "ab", "a", "\u{10000}"].map(|key| key.to_string()).to_vec();
    assert_eq!(names_of(&sort_by_keys(&files, &keys)), ["1.mp3", "3.mp3", "2.mp3", "4.mp3"]);
}

#[test]
fn reading_ahead_is_off() {
    let mut stats = Stats::starting_at(0);
    let mut queue = PrefetchQueue::new();
    assert!(queue.spawn_prefetch(&mut stats, &reading_ahead(0), "/a", 5, 10).is_none());
    assert_eq!(stats.prefetch_skipped_disabled, 1);
    assert_eq!(stats.prefetch_scheduled, 0);
}

#[test]
fn nothing_to_read_ahead() {
    let mut stats = Stats::starting_at(0);
    let mut queue = PrefetchQueue::new();
    assert!(queue.spawn_prefetch(&mut stats, &reading_ahead(8), "/a", 10, 10).is_none());
    assert_eq!(stats.prefetch_skipped_eof, 1);
}

#[test]
fn file_is_read_ahead_once_at_a_time() {
    let mut stats = Stats::starting_at(0);
    let config = reading_ahead(8);
    let mut queue = PrefetchQueue::new();
    let job = queue.spawn_prefetch(&mut stats, &config, "/a", 5, 10).unwrap();
    assert_eq!((job.key.as_str(), job.start, job.length), ("/a", 5, 5));
    assert!(queue.spawn_prefetch(&mut stats, &config, "/a", 5, 10).is_none());
    assert_eq!(stats.prefetch_skipped_duplicate, 1);
    let other = queue.spawn_prefetch(&mut stats, &config, "/b", 5, 100).unwrap();
    assert_eq!(other.length, 8);
    assert!(queue.begin(&mut stats, &job, true));
    assert_eq!(stats.prefetch_active, 1);
    queue.finish(&mut stats, job, Some((5, 77)));
    assert_eq!(stats.prefetch_active, 0);
    assert_eq!(stats.prefetch_completed, 1);
    assert_eq!(stats.prefetch_bytes, 5);
    assert_eq!(stats.prefetch_read_us_total, 77);
    assert!(queue.spawn_prefetch(&mut stats, &config, "/a", 5, 10).is_some());
    assert!(!queue.begin(&mut stats, &other, false));
    assert_eq!(stats.prefetch_skipped_busy, 1);
    let again = queue.spawn_prefetch(&mut stats, &config, "/b", 5, 100).unwrap();
    assert!(queue.begin(&mut stats, &again, true));
    queue.finish(&mut stats, again, None);
    assert_eq!(stats.prefetch_errors, 1);
    assert_eq!(stats.prefetch_active, 0);
    assert_eq!(stats.prefetch_scheduled, 4);
}

#[test]
fn bytes_that_are_read_ahead() {
    let mut cursor = PrefetchCursor::new(25, 10);
    assert_eq!(cursor.next_len(), Some(10));
    cursor.advance(10);
    cursor.advance(9);
    assert_eq!(cursor.next_len(), Some(6));
    cursor.advance(6);
    assert_eq!(cursor.next_len(), None);
    assert_eq!(cursor.total_read, 25);
    let mut short = PrefetchCursor::new(25, 0);
    assert_eq!(short.next_len(), Some(1));
    short.advance(1);
    short.advance(0);
    assert_eq!(short.next_len(), None);
    assert_eq!(short.total_read, 1);
    assert_eq!(PrefetchCursor::new(0, 10).next_len(), None);
}

#[test]
fn files_of_a_directory() {
    let entry = |path: &str, is_file, stat| DirEntry {
        path: media(path.as_bytes()),
        is_file,
        stat,
    };
    let stat = Some(FileStat { size: 3, modified: Some(Span { secs: 7, nanos: 0 }) });
    let entries = vec![
        entry("/u/b.mp3", true, stat),
        entry("/u/notes.txt", true, stat),
        entry("/u/dir.mp3", false, stat),
        entry("/u/A.WAV", true, stat),
        entry("/u/gone.ogg", true, None),
        entry("/u/.mp3", true, stat),
        entry("/u/c", true, stat),
    ];
    let files = list_files(&entries);
    assert_eq!(names_of(&files), ["A.WAV", "b.mp3"]);
    assert_eq!(files[0].path, "/u/A.WAV");
    assert_eq!(files[0].size, 3);
    assert_eq!(files[0].mtime, 7);
    assert_eq!(decode_path(&files[1].id).unwrap(), "/u/b.mp3");
    assert!(list_files(&Vec::new()).is_empty());
}

#[test]
fn service_is_there() {
    let settings = reading_ahead(5);
    let r = health(b"/data\xff", settings);
    assert!(r.ok);
    assert_eq!((r.mode, r.runtime), ("path-stream", "rust"));
    assert_eq!(r.data_dir, "/data\u{fffd}");
    assert_eq!(r.config, settings);
}

#[test]
fn use_of_the_service() {
    let settings = reading_ahead(5);
    let r = config(settings);
    assert_eq!((r.api_version, r.mode, r.runtime), ("0.3.0", "path-stream", "rust"));
    assert_eq!(r.config, settings);
    assert_eq!(r.media_extensions.len(), 12);
    assert_eq!(
        r.audio_extensions,
        ["aac", "flac", "m4a", "mp3", "ogg", "opus", "wav", "webm"]
    );
    assert_eq!(r.video_extensions, ["m4v", "mkv", "mov", "mp4", "webm"]);
    for ext in r.audio_extensions.iter().chain(r.video_extensions.iter()) {
        assert!(r.media_extensions.contains(ext));
    }
    for ext in &r.media_extensions {
        assert!(r.audio_extensions.contains(ext) || r.video_extensions.contains(ext));
        assert!(is_media_name(format!("a.{ext}").as_bytes()));
    }
    assert_eq!(r.endpoints.stream, "/api/stream/{base64urlPath}");
    assert_eq!(r.endpoints.meta, "/api/meta/{base64urlPath}");
    assert_eq!(r.endpoints.stats, "/api/stats");
    assert_eq!(r.endpoints.reset_stats, "/api/stats/reset");
    assert_eq!(r.endpoints.upload, "/api/upload");
    assert_eq!(r.endpoints.demo_files, "/api/files");
}

fn name_found(filename: &str, taken: &[&str]) -> String {
    let mut names = UploadNames::new(filename);
    let mut name = names.next_name();
    loop {
        match names.checked(Some(taken.contains(&name.as_str()))) {
            NameAction::Use(used) => {
                assert_eq!(used, name);
                return used;
            }
            NameAction::Try(next) => name = next,
            NameAction::Fail(error) => panic!("{error:?}"),
        }
    }
}

#[test]
fn first_free_name_is_used() {
    assert_eq!(name_found("a.mp3", &[]), "a.mp3");
    assert_eq!(name_found("a.mp3", &["a-2.mp3"]), "a.mp3");
    assert_eq!(name_found("a.mp3", &["a.mp3"]), "a-2.mp3");
    assert_eq!(name_found("a.mp3", &["a.mp3", "a-2.mp3", "a-4.mp3"]), "a-3.mp3");
    assert_eq!(name_found("a-2.mp3", &["a-2.mp3"]), "a-2-2.mp3");
}

#[test]
fn name_that_cannot_be_checked() {
    let mut names = UploadNames::new("a.mp3");
    names.next_name();
    match names.checked(None) {
        NameAction::Fail(error) => {
            assert_eq!(error.status, 500);
            assert_eq!(error.detail, "failed to check upload path");
        }
        _ => panic!("no error"),
    }
}

#[test]
fn upload_is_counted_when_it_begins() {
    let mut stats = Stats::starting_at(0);
    assert!(matches!(upload_file(&mut stats, FormEvent::Begin), FormAction::NextField));
    assert!(matches!(upload_file(&mut stats, FormEvent::End), FormAction::Fail(_)));
    assert_eq!(stats, Stats { upload_requests: 1, ..Stats::starting_at(0) });
}

#[test]
fn upload_is_stored() {
    let mut stats = Stats::starting_at(0);
    let mut step = |event| store_step(&mut stats, event);
    assert!(matches!(step(StoreEvent::Created(true)), StoreAction::Receive));
    assert!(matches!(step(StoreEvent::Received(7)), StoreAction::Write));
    assert!(matches!(step(StoreEvent::Written(true)), StoreAction::Receive));
    assert!(matches!(step(StoreEvent::Received(5)), StoreAction::Write));
    assert!(matches!(step(StoreEvent::Written(true)), StoreAction::Receive));
    assert!(matches!(step(StoreEvent::Complete), StoreAction::Resolve));
    let path = Some(media(b"/u/a.mp3"));
    let stat = Some(FileStat { size: 12, modified: None });
    match step(StoreEvent::Resolved { path, stat }) {
        StoreAction::Done(meta) => {
            assert_eq!(meta.path, "/u/a.mp3");
            assert_eq!(meta.size, 12);
            assert_eq!(decode_path(&meta.id).unwrap(), "/u/a.mp3");
        }
        _ => panic!("not described"),
    }
    assert_eq!(stats, Stats { upload_bytes: 12, ..Stats::starting_at(0) });
}

#[test]
fn upload_cannot_be_stored() {
    for (event, status, detail) in [
        (StoreEvent::Created(false), 500, "failed to create upload"),
        (StoreEvent::Broken, 400, "failed to read upload"),
        (StoreEvent::Written(false), 500, "failed to write upload"),
        (StoreEvent::Resolved { path: None, stat: None }, 500, "failed to resolve upload"),
        (
            StoreEvent::Resolved { path: Some(media(b"/u/a.mp3")), stat: None },
            404,
            "media file not found",
        ),
    ] {
        let mut stats = Stats::starting_at(0);
        match store_step(&mut stats, event) {
            StoreAction::Fail(error) => {
                assert_eq!((error.status, error.detail.as_str()), (status, detail));
            }
            _ => panic!("no error"),
        }
        assert_eq!(stats, Stats::starting_at(0));
    }
}

#[test]
fn list_is_counted_and_answered() {
    let mut stats = Stats::starting_at(0);
    let error = admit_list(&mut stats).answered(Listing::Missing).unwrap_err();
    assert_eq!((error.status, error.detail.as_str()), (404, "upload dir not found"));
    let error = admit_list(&mut stats).answered(Listing::Unreadable).unwrap_err();
    assert_eq!((error.status, error.detail.as_str()), (500, "failed to read upload dir"));
    let entry = |path: &[u8]| DirEntry {
        path: media(path),
        is_file: true,
        stat: Some(FileStat { size: 1, modified: None }),
    };
    let entries = vec![entry(b"/u/b.mp3"), entry(b"/u/x"), entry(b"/u/A.mp3")];
    let files = admit_list(&mut stats).answered(Listing::Entries(entries)).unwrap();
    assert_eq!(names_of(&files), ["A.mp3", "b.mp3"]);
    assert_eq!(stats, Stats { file_list_requests: 3, ..Stats::starting_at(0) });
}

#[test]
fn description_is_counted_and_answered() {
    let mut stats = Stats::starting_at(0);
    let refusal = |r: Result<MediaMeta, audio_widget::http::AppError>| {
        let error = r.unwrap_err();
        (error.status, error.detail)
    };
    for (id, detail) in [
        ("%".to_string(), "invalid encoded path"),
        ("".to_string(), "empty path"),
        (encode_path("/a.txt"), "unsupported media extension"),
    ] {
        match admit_meta(&mut stats, &id) {
            Ok(_) => panic!("no error"),
            Err(error) => assert_eq!((error.status, error.detail.as_str()), (400, detail)),
        }
    }
    let mut request = || match admit_meta(&mut stats, &encode_path("/l/a.mp3")) {
        Ok(request) => request,
        Err(error) => panic!("{error:?}"),
    };
    let found = |is_file| Some(Found { path: media(b"/u/a.mp3"), is_file });
    let stat = Some(FileStat { size: 3, modified: None });
    let gone = (404, "media file not found".to_string());
    assert_eq!(request().path, "/l/a.mp3");
    assert_eq!(refusal(request().answered(None, None)), gone);
    assert_eq!(refusal(request().answered(found(false), stat)), gone);
    assert_eq!(refusal(request().answered(found(true), None)), gone);
    let meta = request().answered(found(true), stat).unwrap();
    assert_eq!((meta.path.as_str(), meta.size), ("/u/a.mp3", 3));
    assert_eq!(stats, Stats { meta_requests: 8, ..Stats::starting_at(0) });
}
