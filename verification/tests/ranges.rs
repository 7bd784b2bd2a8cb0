use audio_widget::http::{AppError, OK, PARTIAL_CONTENT, RANGE_NOT_SATISFIABLE};
use audio_widget::range::parse_range;

fn refused(header: &str, total: u64) -> AppError {
    match parse_range(Some(header), total) {
        Ok(range) => panic!("{header} gave {range:?}"),
        Err(error) => error,
    }
}

fn assert_refused(header: &str, total: u64, detail: &str, content_range: &str) {
    let error = refused(header, total);
    assert_eq!(error.status, RANGE_NOT_SATISFIABLE);
    assert_eq!(error.detail, detail);
    assert_eq!(error.headers.len(), 1);
    assert_eq!(error.headers.get("content-range").unwrap(), content_range);
}

fn served(header: Option<&str>, total: u64) -> (u16, u64, u64) {
    parse_range(header, total).unwrap()
}

#[test]
fn whole_file_without_a_range() {
    assert_eq!(served(None, 100), (OK, 0, 99));
    assert_eq!(served(None, 1), (OK, 0, 0));
    assert_eq!(served(None, u64::MAX), (OK, 0, u64::MAX - 1));
}

#[test]
fn empty_file_is_sent_whole() {
    assert_eq!(served(None, 0), (OK, 0, 0));
    assert_eq!(served(Some("bytes=0-5"), 0), (OK, 0, 0));
    assert_eq!(served(Some("nonsense"), 0), (OK, 0, 0));
}

#[test]
fn first_and_last_position() {
    assert_eq!(served(Some("bytes=0-9"), 100), (PARTIAL_CONTENT, 0, 9));
    assert_eq!(served(Some("bytes=10-10"), 100), (PARTIAL_CONTENT, 10, 10));
    assert_eq!(served(Some("bytes=90-1000"), 100), (PARTIAL_CONTENT, 90, 99));
    assert_eq!(served(Some("bytes=007-+9"), 100), (PARTIAL_CONTENT, 7, 9));
    assert_eq!(
        served(Some("bytes=0-18446744073709551615"), 100),
        (PARTIAL_CONTENT, 0, 99)
    );
}

#[test]
fn first_position_to_the_end() {
    assert_eq!(served(Some("bytes=0-"), 100), (PARTIAL_CONTENT, 0, 99));
    assert_eq!(served(Some("bytes=99-"), 100), (PARTIAL_CONTENT, 99, 99));
}

#[test]
fn last_bytes() {
    assert_eq!(served(Some("bytes=-1"), 100), (PARTIAL_CONTENT, 99, 99));
    assert_eq!(served(Some("bytes=-100"), 100), (PARTIAL_CONTENT, 0, 99));
    assert_eq!(served(Some("bytes=-500"), 100), (PARTIAL_CONTENT, 0, 99));
}

#[test]
fn space_around_a_range() {
    assert_eq!(served(Some("  bytes=3-4\t"), 100), (PARTIAL_CONTENT, 3, 4));
    assert_eq!(served(Some("\u{3000}bytes=3-4\u{a0}"), 100), (PARTIAL_CONTENT, 3, 4));
}

#[test]
fn invalid_ranges() {
    for header in [
        "", "bytes", "bytes=", "bytes=5", "Bytes=0-1", "items=0-1", "bytes =0-1", "bytes=a-5",
        "bytes=0-b", "bytes=0-5,10-20", "bytes= 0-5", "bytes=0 -5", "bytes=+-5",
        "bytes=18446744073709551616-", "bytes=0-18446744073709551616", "bytes=1--2",
    ] {
        assert_refused(header, 100, "invalid range", "bytes */100");
    }
}

#[test]
fn unsatisfiable_ranges() {
    for header in ["bytes=100-", "bytes=100-200", "bytes=9-8", "bytes=-0", "bytes=-", "bytes=-x"] {
        assert_refused(header, 100, "range not satisfiable", "bytes */100");
    }
    assert_refused(
        "bytes=18446744073709551615-",
        18446744073709551615,
        "range not satisfiable",
        "bytes */18446744073709551615",
    );
}
