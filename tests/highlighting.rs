use highlight::colour::{
    named_colour, reset_sequence, resolve_lowered, str_eq, true_colour,
};
use highlight::error::available_colours;
use highlight::{get_format_code, hex_to_rgb, highlight, highlight_spans, HighlightError, Pattern};

const RED: &[u8] = b"\x1b[31m";
const RESET: &[u8] = b"\x1b[0m";
const NAMES: [&str; 7] = ["red", "green", "blue", "yellow", "cyan", "magenta", "white"];

fn wrap(parts: &[(&[u8], bool)], code: &[u8]) -> Vec<u8> {
    let mut out = Vec::new();
    for (bytes, is_match) in parts {
        if *is_match {
            out.extend_from_slice(code);
            out.extend_from_slice(bytes);
            out.extend_from_slice(RESET);
        } else {
            out.extend_from_slice(bytes);
        }
    }
    out
}

fn strip(mut out: &[u8], code: &[u8]) -> Vec<u8> {
    let mut plain = Vec::new();
    while !out.is_empty() {
        if out.starts_with(code) {
            out = &out[code.len()..];
        } else if out.starts_with(RESET) {
            out = &out[RESET.len()..];
        } else {
            plain.push(out[0]);
            out = &out[1..];
        }
    }
    plain
}

fn run(pattern: &str, text: &str, colour: &str, bold: bool) -> Vec<u8> {
    let p = Pattern::new(pattern).unwrap();
    let code = get_format_code(colour, bold).unwrap();
    highlight(&p, text, &code)
}

#[test]
fn no_match_leaves_text_unchanged() {
    assert_eq!(run("xyz", "hello world", "red", false), b"hello world".to_vec());
    assert_eq!(run("q+", "", "0x123456", true), Vec::<u8>::new());
}

#[test]
fn single_match_is_wrapped_in_place() {
    let out = run("l+", "hello", "green", false);
    assert_eq!(out, b"he\x1b[32mll\x1b[0mo".to_vec());
}

#[test]
fn stripping_inserted_sequences_restores_text() {
    let text = "the cat sat on the mat, then the cat left";
    let code = get_format_code("cyan", true).unwrap();
    let p = Pattern::new("[cm]at|the").unwrap();
    let out = highlight(&p, text, &code);
    assert_ne!(out, text.as_bytes().to_vec());
    assert_eq!(strip(&out, &code), text.as_bytes().to_vec());
}

#[test]
fn hex_channels_are_split() {
    assert_eq!(hex_to_rgb("0xFF0000").unwrap(), (255, 0, 0));
    assert_eq!(hex_to_rgb("0x00FF00").unwrap(), (0, 255, 0));
    assert_eq!(hex_to_rgb("0x0000FF").unwrap(), (0, 0, 255));
    assert_eq!(hex_to_rgb("0xff8020").unwrap(), (255, 128, 32));
    assert_eq!(hex_to_rgb("0xabc").unwrap(), (0, 10, 188));
}

#[test]
fn unknown_colour_lists_every_name() {
    match get_format_code("purple", false) {
        Err(e @ HighlightError::UnknownColour { .. }) => {
            if let HighlightError::UnknownColour { colour } = &e {
                assert_eq!(colour, "purple");
            }
            let message = e.message();
            assert!(message.contains("purple"));
            for name in NAMES {
                assert!(message.contains(name), "{} missing from {}", name, message);
            }
        }
        other => panic!("expected UnknownColour, got {:?}", other),
    }
}

#[test]
fn malformed_hex_is_rejected() {
    for bad in ["0xZZZZZZ", "0x", "0x1234567", "0x12g4", "0x+ff"] {
        match get_format_code(bad, false) {
            Err(HighlightError::InvalidHexLiteral { literal }) => assert_eq!(literal, bad.to_lowercase()),
            other => panic!("expected InvalidHexLiteral for {}, got {:?}", bad, other),
        }
    }
    assert!(matches!(hex_to_rgb("ff0000"), Err(HighlightError::InvalidHexLiteral { .. })));
}

#[test]
fn end_to_end_single_word() {
    assert_eq!(
        run("wor", "hello world", "red", false),
        b"hello \x1b[31mwor\x1b[0mld".to_vec()
    );
}

#[test]
fn end_to_end_two_matches_each_wrapped() {
    let out = run("o", "foo boo", "red", false);
    let expected = wrap(
        &[(b"f", false), (b"o", true), (b"o", true), (b" b", false), (b"o", true), (b"o", true)],
        RED,
    );
    assert_eq!(out, expected);
    assert_eq!(out.windows(RED.len()).filter(|w| *w == RED).count(), 4);
}

#[test]
fn zero_length_matches_terminate() {
    let out = run("a*", "bbb", "red", false);
    let expected = wrap(
        &[(b"", true), (b"b", false), (b"", true), (b"b", false), (b"", true), (b"b", false), (b"", true)],
        RED,
    );
    assert_eq!(out, expected);
}

#[test]
fn colour_names_ignore_case() {
    assert_eq!(get_format_code("RED", false).unwrap(), RED.to_vec());
    assert_eq!(get_format_code("Magenta", false).unwrap(), b"\x1b[35m".to_vec());
    assert_eq!(get_format_code("0XFF0000", false).unwrap(), b"\x1b[38;2;255;0;0m".to_vec());
}

#[test]
fn named_codes() {
    let expected: [&[u8]; 7] =
        [b"\x1b[31m", b"\x1b[32m", b"\x1b[34m", b"\x1b[33m", b"\x1b[36m", b"\x1b[35m", b"\x1b[37m"];
    for (name, code) in NAMES.iter().zip(expected.iter()) {
        assert_eq!(named_colour(name).unwrap(), code.to_vec());
        assert_eq!(get_format_code(name, false).unwrap(), code.to_vec());
    }
    assert_eq!(named_colour("Red"), None);
    assert_eq!(named_colour("purple"), None);
}

#[test]
fn bold_is_prepended() {
    assert_eq!(get_format_code("blue", true).unwrap(), b"\x1b[1m\x1b[34m".to_vec());
    assert_eq!(
        get_format_code("0xff8020", true).unwrap(),
        b"\x1b[1m\x1b[38;2;255;128;32m".to_vec()
    );
    assert_eq!(get_format_code("0xff8020", false).unwrap(), b"\x1b[38;2;255;128;32m".to_vec());
}

#[test]
fn true_colour_sequences() {
    assert_eq!(true_colour(0, 9, 10), b"\x1b[38;2;0;9;10m".to_vec());
    assert_eq!(true_colour(99, 100, 255), b"\x1b[38;2;99;100;255m".to_vec());
    assert_eq!(reset_sequence(), RESET.to_vec());
}

#[test]
fn resolve_expects_lower_case() {
    assert_eq!(resolve_lowered("white", false).unwrap(), b"\x1b[37m".to_vec());
    assert!(matches!(resolve_lowered("WHITE", false), Err(HighlightError::UnknownColour { .. })));
    assert!(matches!(resolve_lowered("0xFF", false), Ok(_)));
}

#[test]
fn invalid_pattern_is_reported() {
    match Pattern::new("foo(bar") {
        Err(HighlightError::InvalidPattern { pattern, reason }) => {
            assert_eq!(pattern, "foo(bar");
            assert!(!reason.is_empty());
        }
        Err(other) => panic!("unexpected error {:?}", other),
        Ok(_) => panic!("pattern should not compile"),
    }
    assert_eq!(Pattern::new("a|b").unwrap().as_str(), "a|b");
}

#[test]
fn spans_are_wrapped_directly() {
    let out = highlight_spans(b"abcdef", &vec![(1, 2), (2, 2), (4, 6)], b"<");
    assert_eq!(out, b"a<b\x1b[0m<\x1b[0mcd<ef\x1b[0m".to_vec());
    assert_eq!(highlight_spans(b"abc", &vec![], b"<"), b"abc".to_vec());
}

#[test]
fn multibyte_text_keeps_its_bytes() {
    let out = run("é+", "caféé!", "red", false);
    let mut expected = b"caf".to_vec();
    expected.extend_from_slice(RED);
    expected.extend_from_slice("éé".as_bytes());
    expected.extend_from_slice(RESET);
    expected.push(b'!');
    assert_eq!(out, expected);
}

#[test]
fn error_messages() {
    let e = HighlightError::InvalidHexLiteral { literal: "0xzz".to_string() };
    assert!(e.message().contains("0xzz"));
    assert_eq!(available_colours(), NAMES.join(", "));
    assert!(str_eq("abc", "abc"));
    assert!(!str_eq("abc", "abd"));
    assert!(!str_eq("abc", "ab"));
}
