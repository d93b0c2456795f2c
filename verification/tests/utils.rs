use fim::editor::key::{ControlKey, Key};
use fim::error::{EditorError, ErrorSeverity};
use fim::text::{push_chars, push_decimal, push_hex};
use fim::utils::color;
use fim::utils::color::{rgb_bg, rgb_fg, BG_BLUE, BG_RED, RESET};
use fim::utils::{find_all_subsequences, find_subsequence};

#[test]
fn find_subsequence_gives_the_first_place() {
    assert_eq!(find_subsequence(&[1, 2, 3, 2, 3], &[2, 3]), Some(1));
    assert_eq!(find_subsequence(&[1, 2, 3], &[1, 2, 3]), Some(0));
    assert_eq!(find_subsequence(&[1, 2, 3], &[3]), Some(2));
    assert_eq!(find_subsequence(&[1, 2, 3], &[3, 4]), None);
    assert_eq!(find_subsequence(&[1, 2], &[1, 2, 3]), None);
    assert_eq!(find_subsequence(&[1, 1, 1, 2], &[1, 1, 2]), Some(1));
}

#[test]
fn find_subsequence_of_nothing_is_at_the_start() {
    assert_eq!(find_subsequence(&[1, 2, 3], &[]), Some(0));
    let empty: [u8; 0] = [];
    assert_eq!(find_subsequence(&empty, &[]), Some(0));
    assert_eq!(find_subsequence(&empty, &[1]), None);
}

#[test]
fn find_subsequence_of_keys() {
    let hay = [Key::Char('a'), Key::ControlKey(ControlKey::Tab), Key::Char('b')];
    assert_eq!(find_subsequence(&hay, &[Key::ControlKey(ControlKey::Tab), Key::Char('b')]), Some(1));
    assert_eq!(find_subsequence(&hay, &[Key::Char('b'), Key::Char('a')]), None);
}

#[test]
fn find_all_subsequences_gives_every_place() {
    assert_eq!(find_all_subsequences(&[1, 2, 1, 2, 1], &[1, 2]), vec![0, 2]);
    assert_eq!(find_all_subsequences(&[1, 1, 1], &[1, 1]), vec![0, 1]);
    assert_eq!(find_all_subsequences(&[1, 2, 3], &[4]), Vec::<usize>::new());
    assert_eq!(find_all_subsequences(&[1], &[1, 2]), Vec::<usize>::new());
    assert_eq!(find_all_subsequences(&[1, 2, 3], &[]), vec![0]);
    assert_eq!(find_all_subsequences(&[7, 7, 7], &[7]), vec![0, 1, 2]);
}

#[test]
fn rgb_codes() {
    assert_eq!(rgb_fg(0, 0, 0), "\x1b[38;2;0;0;0m");
    assert_eq!(rgb_fg(255, 128, 7), "\x1b[38;2;255;128;7m");
    assert_eq!(rgb_bg(1, 20, 100), "\x1b[48;2;1;20;100m");
    assert_eq!(BG_RED, "\x1b[41m");
    assert_eq!(BG_BLUE, "\x1b[44m");
    assert_eq!(RESET, "\x1b[0m");
}

#[test]
fn color_and_style_codes() {
    let codes = [
        (color::BLACK, "30"),
        (color::RED, "31"),
        (color::GREEN, "32"),
        (color::YELLOW, "33"),
        (color::BLUE, "34"),
        (color::MAGENTA, "35"),
        (color::CYAN, "36"),
        (color::WHITE, "37"),
        (color::ORANGE, "38;5;208"),
        (color::PINK, "38;5;205"),
        (color::PURPLE, "38;5;141"),
        (color::GRAY, "38;5;245"),
        (color::DARK_GREEN, "38;5;22"),
        (color::BRIGHT_BLACK, "90"),
        (color::BRIGHT_RED, "91"),
        (color::BRIGHT_GREEN, "92"),
        (color::BRIGHT_YELLOW, "93"),
        (color::BRIGHT_BLUE, "94"),
        (color::BRIGHT_MAGENTA, "95"),
        (color::BRIGHT_CYAN, "96"),
        (color::BRIGHT_WHITE, "97"),
        (color::BG_BLACK, "40"),
        (color::BG_RED, "41"),
        (color::BG_GREEN, "42"),
        (color::BG_YELLOW, "43"),
        (color::BG_BLUE, "44"),
        (color::BG_MAGENTA, "45"),
        (color::BG_CYAN, "46"),
        (color::BG_WHITE, "47"),
        (color::RESET, "0"),
        (color::BOLD, "1"),
        (color::DIM, "2"),
        (color::ITALIC, "3"),
        (color::UNDERLINE, "4"),
        (color::BLINK, "5"),
        (color::REVERSE, "7"),
        (color::HIDDEN, "8"),
    ];
    assert_eq!(codes.len(), 37);
    for (code, number) in codes {
        assert_eq!(code, format!("\x1b[{}m", number));
    }
}

#[test]
fn io_errors_become_editor_errors() {
    let source = std::io::Error::new(std::io::ErrorKind::NotFound, "gone");
    let error = EditorError::from(source);
    match &error {
        EditorError::Io { source } => assert_eq!(source.kind(), std::io::ErrorKind::NotFound),
        other => panic!("{:?}", other),
    }
    assert!(!error.is_recoverable());
    assert_eq!(error.severity(), ErrorSeverity::Critical);
    assert_eq!(error.message(), "I/O operation failed: gone");
    let through_question_mark = || -> fim::error::Result<u8> {
        Err(std::io::Error::new(std::io::ErrorKind::Other, "disk"))?;
        Ok(0)
    };
    assert!(matches!(through_question_mark(), Err(EditorError::Io { .. })));
}

#[test]
fn numbers_in_text() {
    let mut s = String::from("n=");
    push_decimal(&mut s, 0);
    push_decimal(&mut s, 9);
    push_decimal(&mut s, 10);
    push_decimal(&mut s, 18446744073709551615);
    assert_eq!(s, "n=091018446744073709551615");
    let mut s = String::new();
    push_hex(&mut s, 0xAB, 2);
    push_hex(&mut s, 0x5, 2);
    push_hex(&mut s, 0x1F600, 8);
    push_hex(&mut s, 0x1234, 2);
    push_hex(&mut s, 7, 0);
    assert_eq!(s, "AB050001F60034");
    let mut s = String::from("x");
    push_chars(&mut s, &['y', 'z']);
    assert_eq!(s, "xyz");
}

#[test]
fn error_constructors_fill_their_fields() {
    match EditorError::invalid_encoding(3, "bad".to_string(), vec![1, 2]) {
        EditorError::InvalidEncoding { position, details, invalid_bytes } => {
            assert_eq!(position, 3);
            assert_eq!(details, "bad");
            assert_eq!(invalid_bytes, vec![1, 2]);
        }
        other => panic!("{:?}", other),
    }
    match EditorError::invalid_sequence("\u{1B}[x".to_string(), 3) {
        EditorError::InvalidSequence { sequence, length } => {
            assert_eq!(sequence, "\u{1B}[x");
            assert_eq!(length, 3);
        }
        other => panic!("{:?}", other),
    }
    match EditorError::unexpected_eof("more".to_string(), 2) {
        EditorError::UnexpectedEof { expected, actual } => {
            assert_eq!(expected, "more");
            assert_eq!(actual, 2);
        }
        other => panic!("{:?}", other),
    }
    match EditorError::unsupported_encoding("latin-1".to_string(), vec!["UTF-8"]) {
        EditorError::UnsupportedEncoding { encoding, available } => {
            assert_eq!(encoding, "latin-1");
            assert_eq!(available, vec!["UTF-8"]);
        }
        other => panic!("{:?}", other),
    }
    match EditorError::parse_timeout("\u{1B}[".to_string(), 10) {
        EditorError::ParseTimeout { sequence, duration_ms } => {
            assert_eq!(sequence, "\u{1B}[");
            assert_eq!(duration_ms, 10);
        }
        other => panic!("{:?}", other),
    }
    match EditorError::resource_exhausted("buffer".to_string(), 16) {
        EditorError::ResourceExhausted { resource, limit } => {
            assert_eq!(resource, "buffer");
            assert_eq!(limit, 16);
        }
        other => panic!("{:?}", other),
    }
}

fn all_errors() -> Vec<EditorError> {
    vec![
        EditorError::Io { source: std::io::Error::new(std::io::ErrorKind::Other, "disk") },
        EditorError::invalid_encoding(3, "bad byte".to_string(), vec![0xFF]),
        EditorError::invalid_sequence("[x".to_string(), 2),
        EditorError::unexpected_eof("a byte".to_string(), 1),
        EditorError::unsupported_encoding("latin-1".to_string(), vec!["UTF-8", "ASCII"]),
        EditorError::parse_timeout("[1".to_string(), 10),
        EditorError::resource_exhausted("buffer".to_string(), 16),
    ]
}

#[test]
fn recoverable_errors() {
    let recoverable: Vec<bool> = all_errors().iter().map(|e| e.is_recoverable()).collect();
    assert_eq!(recoverable, vec![false, true, true, false, false, true, true]);
}

#[test]
fn error_severities() {
    let severities: Vec<ErrorSeverity> = all_errors().iter().map(|e| e.severity()).collect();
    assert_eq!(
        severities,
        vec![
            ErrorSeverity::Critical,
            ErrorSeverity::Warning,
            ErrorSeverity::Warning,
            ErrorSeverity::Error,
            ErrorSeverity::Error,
            ErrorSeverity::Warning,
            ErrorSeverity::Critical,
        ]
    );
    assert_eq!(ErrorSeverity::Warning.as_str(), "WARNING");
    assert_eq!(ErrorSeverity::Error.as_str(), "ERROR");
    assert_eq!(ErrorSeverity::Critical.as_str(), "CRITICAL");
}

#[test]
fn error_messages() {
    let messages: Vec<String> = all_errors().iter().map(|e| e.message()).collect();
    assert_eq!(
        messages,
        vec![
            "I/O operation failed: disk",
            "Invalid encoding detected at position 3: bad byte",
            "Invalid escape sequence: [x",
            "Unexpected end of input while expecting a byte (got 1 bytes)",
            "Encoding 'latin-1' is not supported. Available encodings: UTF-8, ASCII",
            "Parsing timeout: sequence '[1' incomplete after 10ms",
            "Resource exhausted: buffer limit of 16 exceeded",
        ]
    );
    assert_eq!(
        EditorError::unsupported_encoding("x".to_string(), vec![]).message(),
        "Encoding 'x' is not supported. Available encodings: "
    );
    assert_eq!(
        EditorError::unsupported_encoding("x".to_string(), vec!["A"]).message(),
        "Encoding 'x' is not supported. Available encodings: A"
    );
}
