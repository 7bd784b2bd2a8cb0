use audio_widget::http::BAD_REQUEST;
use audio_widget::media::{
    content_type, decode_media_path, decode_path, encode_path, path_from_bytes, MediaPath,
};
use audio_widget::path::{
    is_media_name, media_extensions, path_extension, path_file_name, path_file_stem,
};
use std::path::Path;

const PATHS: [&str; 44] = [
    "", ".", "..", "...", "/", "//", "/.", "/..", "./", "../", "./.", "a", "a/", "a//", "a/.",
    "a/./", "a/..", "a/../", "/a", "/a/b.c", "a/b.c/", "a/b.c/.//", "a.b", "a.b.c", ".a", ".a.b",
    "..a", "..a.b", "a.", "a..", "a..b", ".a.", "x/.y", "x/.y/", "x/...", "x/. ", "x/ .", "x/.. ",
    "\u{e9}.mp3", "d/\u{1f600}.\u{e9}", "a\\b.mp3", "./a.mp3", "/a/./b/../c.mp3", "a/.b/",
];

#[test]
fn components_are_found_as_the_standard_library_does() {
    for p in PATHS {
        let path = Path::new(p);
        let text = |part: Option<&[u8]>| {
            part.map(|bytes| String::from_utf8(bytes.to_vec()).unwrap())
        };
        let name = path.file_name().map(|part| part.to_str().unwrap().to_string());
        let extension = path.extension().map(|part| part.to_str().unwrap().to_string());
        let stem = path.file_stem().map(|part| part.to_str().unwrap().to_string());
        assert_eq!(text(path_file_name(p.as_bytes())), name, "{p}");
        assert_eq!(text(path_extension(p.as_bytes())), extension, "{p}");
        assert_eq!(text(path_file_stem(p.as_bytes())), stem, "{p}");
    }
}

#[test]
fn media_names() {
    for name in [
        "a.aac", "a.flac", "a.m4a", "a.mp3", "a.ogg", "a.opus", "a.wav", "a.webm", "a.m4v", "a.mkv",
        "a.mov", "a.mp4", "a.MP3", "a.Mp3", "/x/y/a.b.wAv", "a.mp3/", "a.mp3/.",
    ] {
        assert!(is_media_name(name.as_bytes()), "{name}");
    }
    for name in [
        "", "a", "mp3", ".mp3", "a.mp", "a.mp33", "a.mp3 ", "a.txt", "a.mp3.txt", "a.", "a.mp3/..",
        "a.mp3/b", "a.\u{ff2d}p3",
    ] {
        assert!(!is_media_name(name.as_bytes()), "{name}");
    }
    assert!(is_media_name(b"\xff\xfe.mp3"));
    assert!(!is_media_name(b"a.mp3\xff"));
}

#[test]
fn media_extensions_in_order() {
    assert_eq!(
        media_extensions(),
        vec![
            "aac", "flac", "m4a", "mp3", "ogg", "opus", "wav", "webm", "m4v", "mkv", "mov", "mp4"
        ]
    );
}

#[test]
fn encoded_paths() {
    assert_eq!(encode_path("/music/a.mp3"), "L211c2ljL2EubXAz");
    assert_eq!(encode_path("a"), "YQ");
    assert_eq!(encode_path(""), "");
    assert_eq!(encode_path("\u{3ff}\u{3fe}>?"), "z7_Pvj4_");
}

#[test]
fn paths_come_back_from_their_names() {
    for path in ["a", "/music/a.mp3", "/m/\u{e9}\u{1f600} b.flac", "\n", "x/../y"] {
        assert_eq!(decode_path(&encode_path(path)).unwrap(), path);
    }
}

#[test]
fn names_come_back_from_their_paths() {
    for id in ["YQ", "L211c2ljL2EubXAz", "z7_Pvj4_"] {
        assert_eq!(encode_path(&decode_path(id).unwrap()), id);
    }
}

#[test]
fn bad_names_are_refused() {
    for id in ["Y", "YQ==", "YQ=", "YR", "Y Q", "z7+P", "z7/P", "\u{e9}", "_w", "YQ\n"] {
        let error = decode_path(id).unwrap_err();
        assert_eq!(error.status, BAD_REQUEST, "{id}");
        assert_eq!(error.detail, "invalid encoded path", "{id}");
        assert!(error.headers.is_empty());
    }
    let error = decode_path("").unwrap_err();
    assert_eq!((error.status, error.detail.as_str()), (BAD_REQUEST, "empty path"));
}

#[test]
fn decoded_bytes_are_checked() {
    assert_eq!(path_from_bytes(Some(b"/a.mp3".to_vec())).unwrap(), "/a.mp3");
    assert_eq!(path_from_bytes(Some(vec![0xff])).unwrap_err().detail, "invalid encoded path");
    assert_eq!(path_from_bytes(None).unwrap_err().detail, "invalid encoded path");
    assert_eq!(path_from_bytes(Some(vec![])).unwrap_err().detail, "empty path");
}

#[test]
fn only_media_paths_are_taken() {
    assert_eq!(decode_media_path(&encode_path("/a/b.OGG")).unwrap(), "/a/b.OGG");
    let error = decode_media_path(&encode_path("/etc/passwd")).unwrap_err();
    assert_eq!(
        (error.status, error.detail.as_str()),
        (BAD_REQUEST, "unsupported media extension")
    );
    assert_eq!(decode_media_path("%").unwrap_err().detail, "invalid encoded path");
}

#[test]
fn content_types() {
    assert_eq!(content_type(b"/a/b.mp3"), "audio/mpeg");
    assert_eq!(content_type(b"/a/b.MP4"), "video/mp4");
    assert_eq!(content_type(b"b.flac"), "audio/flac");
    assert_eq!(content_type(b"b"), "application/octet-stream");
    assert_eq!(content_type(b"b."), "application/octet-stream");
    assert_eq!(content_type(b"b.nosuchextension"), "application/octet-stream");
    assert_eq!(content_type(b"b.mp\xff"), "application/octet-stream");
    for p in PATHS {
        let expected = mime_guess::from_path(p).first_or_octet_stream().to_string();
        assert_eq!(content_type(p.as_bytes()), expected, "{p}");
    }
}

#[test]
fn media_types_are_header_text() {
    for extension in media_extensions() {
        let value = content_type(format!("a.{extension}").as_bytes());
        assert!(audio_widget::http::header_value(&value).is_ok());
    }
}

#[test]
fn path_text_replaces_what_is_no_text() {
    let plain = MediaPath::new("/a/\u{e9}.mp3".as_bytes().to_vec()).unwrap();
    assert_eq!(plain.as_text(), "/a/\u{e9}.mp3");
    assert_eq!(plain.as_bytes(), "/a/\u{e9}.mp3".as_bytes());
    let odd = MediaPath::new(b"/a/\xff.mp3".to_vec()).unwrap();
    assert_eq!(odd.as_text(), "/a/\u{fffd}.mp3");
    assert_eq!(odd.as_bytes(), b"/a/\xff.mp3");
}

#[test]
fn names_of_paths_have_a_known_length() {
    for (path, id) in [
        ("", ""),
        ("a", "YQ"),
        ("ab", "YWI"),
        ("abc", "YWJj"),
        ("a/\u{e9}", "YS_DqQ"),
        ("\u{fffd}>", "77-9Pg"),
    ] {
        assert_eq!(encode_path(path), id);
        assert_eq!(id.len(), (4 * path.len() + 2) / 3);
    }
}

#[test]
fn name_of_the_empty_path_is_refused() {
    let error = decode_path(&encode_path("")).unwrap_err();
    assert_eq!((error.status, error.detail.as_str()), (400, "empty path"));
}
