use audio_widget::config::{env_port, env_u64, env_usize, load_config, StreamConfig};
use audio_widget::text::{
    chars_of, decimal_text, parse_u64, parse_usize, same_text, string_of, strip, Strip,
};

#[test]
fn decimal_text_of_numbers() {
    for n in [0, 1, 9, 10, 99, 100, 1234567890, u64::MAX] {
        assert_eq!(decimal_text(n), n.to_string());
    }
}

#[test]
fn numbers_are_read_back() {
    for n in [0, 7, 10, 206, 65536, u64::MAX - 1, u64::MAX] {
        assert_eq!(parse_u64(&chars_of(&decimal_text(n))), Some(n));
    }
}

#[test]
fn numbers_are_read_as_the_standard_library_does() {
    for s in [
        "", "+", "-", "-1", "+1", "++1", "0", "00", "0000000000000000000000000000000012", " 1", "1 ",
        "1_0", "18446744073709551615", "18446744073709551616", "99999999999999999999", "1a", "a1",
        "\u{661}", "4294967296", "4294967295", "0x10", "1e3", "+18446744073709551615",
    ] {
        assert_eq!(parse_u64(&chars_of(s)), s.parse::<u64>().ok(), "{s}");
        assert_eq!(parse_usize(&chars_of(s)), s.parse::<usize>().ok(), "{s}");
    }
}

#[test]
fn white_space_is_stripped_as_the_standard_library_does() {
    for c in (0..=0x10ffff_u32).filter_map(char::from_u32) {
        let around = [c, 'x', c];
        let expected = if c.is_whitespace() { 1 } else { 3 };
        assert_eq!(strip(&around, Strip::WhiteSpace).len(), expected, "{c:?}");
    }
    assert_eq!(string_of(&strip(&chars_of(" \t a b\n "), Strip::WhiteSpace)), "a b");
    assert_eq!(string_of(&strip(&chars_of("  "), Strip::WhiteSpace)), "");
    assert_eq!(string_of(&strip(&chars_of("x"), Strip::WhiteSpace)), "x");
}

#[test]
fn dots_are_stripped() {
    assert_eq!(string_of(&strip(&chars_of("..a.b..."), Strip::Dots)), "a.b");
    assert_eq!(string_of(&strip(&chars_of("..."), Strip::Dots)), "");
    assert_eq!(string_of(&strip(&chars_of(" .a. "), Strip::Dots)), " .a. ");
}

#[test]
fn texts_are_compared() {
    assert!(same_text("file", "file"));
    assert!(!same_text("file", "File"));
    assert!(!same_text("file", "files"));
    assert!(same_text("", ""));
    assert!(same_text("\u{e9}", "\u{e9}"));
}

#[test]
fn settings_are_clamped() {
    assert_eq!(env_usize(None, 5, 1, 64), 5);
    assert_eq!(env_usize(Some("x"), 5, 1, 64), 5);
    assert_eq!(env_usize(Some(""), 5, 1, 64), 5);
    assert_eq!(env_usize(Some("0"), 5, 1, 64), 1);
    assert_eq!(env_usize(Some("65"), 5, 1, 64), 64);
    assert_eq!(env_usize(Some("33"), 5, 1, 64), 33);
    assert_eq!(env_usize(Some("33"), 500, 1, 64), 33);
    assert_eq!(env_usize(None, 500, 1, 64), 500);
    assert_eq!(env_u64(Some("18446744073709551615"), 0, 0, 512), 512);
    assert_eq!(env_u64(Some("18446744073709551616"), 7, 0, 512), 7);
    assert_eq!(env_u64(Some("100"), 7, 0, 512), 100);
    assert_eq!(env_u64(Some("1"), 7, 3, 512), 3);
}

#[test]
fn ports_are_read() {
    assert_eq!(env_port(None), 8080);
    assert_eq!(env_port(Some("80")), 80);
    assert_eq!(env_port(Some("0")), 0);
    assert_eq!(env_port(Some("65535")), 65535);
    assert_eq!(env_port(Some("65536")), 8080);
    assert_eq!(env_port(Some("http")), 8080);
}

#[test]
fn default_settings() {
    assert_eq!(
        load_config(None, None, None, None),
        StreamConfig {
            initial_chunk_bytes: 256 * 1024,
            read_chunk_bytes: 1024 * 1024,
            prefetch_bytes: 0,
            prefetch_max_tasks: 2,
        }
    );
}

#[test]
fn settings_keep_their_limits() {
    let low = load_config(Some("1"), Some("1"), Some("0"), Some("0"));
    assert_eq!(
        low,
        StreamConfig {
            initial_chunk_bytes: 16 * 1024,
            read_chunk_bytes: 64 * 1024,
            prefetch_bytes: 0,
            prefetch_max_tasks: 1,
        }
    );
    let high = load_config(
        Some("999999999999"),
        Some("999999999999"),
        Some("999999999999"),
        Some("999999999999"),
    );
    assert_eq!(
        high,
        StreamConfig {
            initial_chunk_bytes: 16 * 1024 * 1024,
            read_chunk_bytes: 16 * 1024 * 1024,
            prefetch_bytes: 512 * 1024 * 1024,
            prefetch_max_tasks: 64,
        }
    );
    let first = load_config(Some("999999"), Some("100000"), None, None);
    assert_eq!(first.initial_chunk_bytes, 100_000);
    let unset = load_config(None, Some("100000"), None, None);
    assert_eq!(unset.initial_chunk_bytes, 256 * 1024);
}
