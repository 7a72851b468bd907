use realtime_dsp::errors::{AudioError, CmdError, HardwareError, HttpError, RunningError};
use realtime_dsp::text::{
    append_decimal,     is_whitespace, parse_bool, parse_i32, parse_usize, split, split_whitespace, starts_with, str_eq,
    trim, trim_end_matches_char, trim_start_matches_char, trim_start_matches_str,
};

#[test]
fn trim_matches_std() {
    for s in ["", "  ", " a b ", "\t\nx\r\n", "\u{3000}y\u{a0}", "z", " \u{200b} "] {
        assert_eq!(trim(s), s.trim());
    }
}

#[test]
fn whitespace_matches_std() {
    for c in ['\t', '\n', ' ', '\u{85}', '\u{a0}', '\u{1680}', '\u{2000}', '\u{200a}', '\u{2028}', '\u{3000}', 'a', '\u{200b}', '\u{180e}', '0'] {
        assert_eq!(is_whitespace(c), c.is_whitespace(), "{:?}", c);
    }
}

#[test]
fn split_matches_std() {
    for s in ["", ",", "a,b", ",a,,b,", "abc", "é,ü"] {
        let mine = split(s, ',');
        let theirs: Vec<&str> = s.split(',').collect();
        assert_eq!(mine, theirs);
    }
}

#[test]
fn split_whitespace_matches_std() {
    for s in ["", "   ", "GET / HTTP/1.1", "  a\tb  c ", "x"] {
        let mine = split_whitespace(s);
        let theirs: Vec<&str> = s.split_whitespace().collect();
        assert_eq!(mine, theirs);
    }
}

#[test]
fn trim_matches_char_and_str_patterns() {
    assert_eq!(trim_start_matches_char("//a/b//", '/'), "a/b//");
    assert_eq!(trim_end_matches_char("//a/b//", '/'), "//a/b");
    assert_eq!(trim_start_matches_str("/api/api/x", "/api"), "/x");
    assert_eq!(trim_start_matches_str("/apix", "/api"), "x");
    assert_eq!(trim_start_matches_str("/ap", "/api"), "/ap");
    assert_eq!(trim_start_matches_str("abc", ""), "abc");
}

#[test]
fn equality_and_prefix() {
    assert!(str_eq("lpf", "lpf"));
    assert!(!str_eq("lpf", "lpf "));
    assert!(starts_with("Content-Length: 3", "Content-Length:"));
    assert!(!starts_with("Content-Len", "Content-Length:"));
    assert!(starts_with("x", ""));
}

#[test]
fn parse_bool_matches_std() {
    for s in ["true", "false", "True", "1", "", " true"] {
        assert_eq!(parse_bool(s), s.parse::<bool>().ok(), "{:?}", s);
    }
}

#[test]
fn parse_i32_matches_std() {
    for s in ["0", "-0", "+7", "-2147483648", "2147483647", "2147483648", "-2147483649", "", "+", "-", "12a", " 1", "007", "99999999999999999999"] {
        assert_eq!(parse_i32(s), s.parse::<i32>().ok(), "{:?}", s);
    }
}

#[test]
fn parse_usize_matches_std() {
    for s in ["0", "+3", "-0", "-1", "", "+", "18446744073709551615", "18446744073709551616", "4x"] {
        assert_eq!(parse_usize(s), s.parse::<usize>().ok(), "{:?}", s);
    }
}

#[test]
fn error_messages() {
    assert_eq!(AudioError::new("boom").message, "boom");
    assert_eq!(AudioError::new_msg("m").to_text(), "m");
    assert_eq!(AudioError::from_io_detail("disk").message, "An audio engine error occurred: disk");
    assert_eq!(HardwareError::new("No PCM !!").to_text(), "No PCM !!");
    assert_eq!(HardwareError::from_io_detail("gone").message, "An hardware error occurred: gone");
    assert_eq!(RunningError::new().to_text(), "Running Error !");
    assert_eq!(RunningError::new_msg().to_text(), "Running Error !");
    assert_eq!(HttpError::InvalidMethod.to_text(), "Invalid HTTP Request Method");
    assert_eq!(HttpError::UnsupportedReq.to_text(), "Unsupported HTTP Request");
    assert_eq!(CmdError {}.to_text(), "Unknown Command");
}

#[test]
fn decimal_notation_matches_std() {
    for n in [0usize, 7, 10, 99, 100, 4096, 1234567, usize::MAX] {
        let mut s = String::from("n=");
        append_decimal(&mut s, n);
        assert_eq!(s, format!("n={}", n));
    }
}
