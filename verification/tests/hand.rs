use jslex::lex::hand::{
    block_comment, digit_hex, ident, line_comment, number, number_hex, quoted, regex, regex_body,
    template, whitespace, NumberLit,
};
use jslex::lex::scanner::{LexError, LexErrorKind, Scanner};

fn number_value(lit: NumberLit) -> f64 {
    match lit {
        NumberLit::Hex(v) => v as f64,
        NumberLit::Decimal(text) => std::str::from_utf8(&text).unwrap().parse().unwrap(),
    }
}

fn parse_number(s: &str) -> f64 {
    let mut scan = Scanner::new(s.as_bytes());
    let n = number(&mut scan);
    if scan.read() != 0 {
        panic!("leftover text after parse");
    }
    number_value(n)
}

fn parse_regex_body(input: &str) {
    let mut s = Scanner::new(input.as_bytes());
    regex_body(&mut s);
    assert_eq!(s.read(), 0);
}

#[test]
fn body() {
    parse_regex_body("a[b/]/");
}

#[test]
fn block_comment_stars() {
    let mut s = Scanner::new("/*//***/".as_bytes());
    block_comment(&mut s).unwrap();
    block_comment(&mut s).unwrap();
    assert_eq!(s.read(), 0);
}

#[test]
fn number_variants() {
    assert_eq!(parse_number("1"), 1.0);
    assert_eq!(parse_number("1.1"), 1.1);
    assert_eq!(parse_number("0xb"), 11.0);
    assert_eq!(parse_number("1e3"), 1000.0);
    assert_eq!(parse_number("1e-3"), 0.001);
}

#[test]
fn whitespace_reports_line_breaks() {
    let mut s = Scanner::new(" \t\r\nx".as_bytes());
    assert!(whitespace(&mut s));
    assert_eq!(s.pos, 4);
    let mut s = Scanner::new("  \tx".as_bytes());
    assert!(!whitespace(&mut s));
    assert_eq!(s.pos, 3);
    // a second call right after the first moves nowhere
    assert!(!whitespace(&mut s));
    assert_eq!(s.pos, 3);
}

#[test]
fn whitespace_at_end_of_input() {
    let mut s = Scanner::new("".as_bytes());
    assert!(!whitespace(&mut s));
    assert_eq!(s.pos, 0);
}

#[test]
fn line_comment_leaves_the_line_feed() {
    let mut s = Scanner::new("abc\nd".as_bytes());
    line_comment(&mut s);
    assert_eq!(s.pos, 3);
    assert!(whitespace(&mut s));
    assert_eq!(s.read(), b'd');
}

#[test]
fn line_comment_at_end_of_input() {
    let mut s = Scanner::new("abc".as_bytes());
    line_comment(&mut s);
    assert_eq!(s.pos, 4);
    assert_eq!(s.read(), 0);
}

#[test]
fn block_comment_unterminated() {
    let mut s = Scanner::new("abc".as_bytes());
    assert_eq!(
        block_comment(&mut s),
        Err(LexError { kind: LexErrorKind::UnexpectedEof, at: 4 })
    );
    let mut s = Scanner::new("ab*".as_bytes());
    assert_eq!(
        block_comment(&mut s),
        Err(LexError { kind: LexErrorKind::UnexpectedEof, at: 3 })
    );
}

#[test]
fn block_comment_stops_at_first_close() {
    let mut s = Scanner::new(" x */ y */".as_bytes());
    assert_eq!(block_comment(&mut s), Ok(()));
    assert_eq!(s.pos, 5);
}

#[test]
fn hex_digits() {
    assert_eq!(digit_hex(b'0'), Some(0));
    assert_eq!(digit_hex(b'7'), Some(7));
    assert_eq!(digit_hex(b'a'), Some(10));
    assert_eq!(digit_hex(b'F'), Some(15));
    assert_eq!(digit_hex(b'g'), None);
    assert_eq!(digit_hex(b'/'), None);
}

#[test]
fn hex_number_value() {
    let mut s = Scanner::new("ff;".as_bytes());
    assert_eq!(number_hex(&mut s), 255);
    assert_eq!(s.pos, 2);
    let mut s = Scanner::new("ffffffffffffffff".as_bytes());
    assert_eq!(number_hex(&mut s), u64::MAX);
    assert_eq!(s.pos, 16);
    let mut s = Scanner::new("x".as_bytes());
    assert_eq!(number_hex(&mut s), 0);
    assert_eq!(s.pos, 0);
}

#[test]
fn number_literals() {
    let mut s = Scanner::new("0x1F;".as_bytes());
    assert!(matches!(number(&mut s), NumberLit::Hex(31)));
    assert_eq!(s.pos, 4);
    let mut s = Scanner::new("12.5e+3;".as_bytes());
    match number(&mut s) {
        NumberLit::Decimal(text) => assert_eq!(text, b"12.5e+3".to_vec()),
        other => panic!("unexpected {:?}", other),
    }
    assert_eq!(s.pos, 7);
    let mut s = Scanner::new("0;".as_bytes());
    match number(&mut s) {
        NumberLit::Decimal(text) => assert_eq!(text, b"0".to_vec()),
        other => panic!("unexpected {:?}", other),
    }
    assert_eq!(s.pos, 1);
    let mut s = Scanner::new("1E5x".as_bytes());
    match number(&mut s) {
        NumberLit::Decimal(text) => assert_eq!(text, b"1E5".to_vec()),
        other => panic!("unexpected {:?}", other),
    }
    assert_eq!(s.pos, 3);
}

#[test]
fn identifiers() {
    let mut s = Scanner::new("bc_1$ x".as_bytes());
    ident(&mut s);
    assert_eq!(s.pos, 5);
    let mut s = Scanner::new("\u{e9}t\u{e9}=".as_bytes());
    ident(&mut s);
    assert_eq!(s.pos, 5);
}

fn quoted_str(input: &[u8], quote: char) -> (Result<String, LexError>, usize) {
    let mut s = Scanner::new(input);
    let r = quoted(&mut s, quote);
    (r, s.pos)
}

#[test]
fn quoted_plain() {
    assert_eq!(quoted_str(b"abc\"x", '"'), (Ok("abc".to_string()), 4));
    assert_eq!(quoted_str(b"it's'", '\''), (Ok("it".to_string()), 3));
    assert_eq!(quoted_str(b"a\"b'", '\''), (Ok("a\"b".to_string()), 4));
    assert_eq!(quoted_str("\u{e9}\"".as_bytes(), '"'), (Ok("\u{e9}".to_string()), 3));
}

#[test]
fn quoted_escapes() {
    assert_eq!(
        quoted_str(b"a\\nb\\t\\\\\\'\\/\\0\"", '"'),
        (Ok("a\nb\t\\'/\0".to_string()), 15)
    );
    assert_eq!(quoted_str(b"\\b\\f\\v\\r\"", '"'), (Ok("\u{8}\u{c}\u{b}\r".to_string()), 9));
    assert_eq!(quoted_str(b"\\u0041\"", '"'), (Ok("A".to_string()), 7));
    assert_eq!(quoted_str(b"\\u{41}\"", '"'), (Ok("A".to_string()), 7));
    assert_eq!(quoted_str(b"\\u{1F600}\"", '"'), (Ok("?".to_string()), 10));
    assert_eq!(quoted_str(b"\\u00e9\"", '"'), (Ok("?".to_string()), 7));
    assert_eq!(quoted_str(b"\\x41\\xff\"", '"'), (Ok("A?".to_string()), 9));
}

#[test]
fn quoted_errors() {
    assert_eq!(
        quoted_str(b"\\q\"", '"').0,
        Err(LexError { kind: LexErrorKind::UnknownEscape(b'q'), at: 2 })
    );
    assert_eq!(
        quoted_str(b"\\uZZZZ\"", '"').0,
        Err(LexError { kind: LexErrorKind::BadHexEscape, at: 3 })
    );
    assert_eq!(
        quoted_str(b"\\u{12x}\"", '"').0,
        Err(LexError { kind: LexErrorKind::BadHexEscape, at: 6 })
    );
    assert_eq!(
        quoted_str(b"\\xg1\"", '"').0,
        Err(LexError { kind: LexErrorKind::BadHexEscape, at: 3 })
    );
    assert_eq!(
        quoted_str(b"\\u{D800}\"", '"').0,
        Err(LexError { kind: LexErrorKind::BadCodepoint(0xD800), at: 8 })
    );
    assert_eq!(
        quoted_str(&[0xff, b'"'], '"').0,
        Err(LexError { kind: LexErrorKind::BadUtf8, at: 2 })
    );
}

#[test]
fn template_text() {
    let mut s = Scanner::new("a${b}\n`;".as_bytes());
    assert_eq!(template(&mut s), Ok("a${b}\n".to_string()));
    assert_eq!(s.pos, 7);
    let mut s = Scanner::new(&[0xc3, b'`']);
    assert_eq!(template(&mut s), Err(LexError { kind: LexErrorKind::BadUtf8, at: 2 }));
}

#[test]
fn regex_with_flags() {
    let mut s = Scanner::new("ab\\/c/gim;".as_bytes());
    regex(&mut s);
    assert_eq!(s.pos, 9);
    let mut s = Scanner::new("[/\\]]x/y".as_bytes());
    regex(&mut s);
    assert_eq!(s.pos, 7);
}
