//! What the lexer's tables and byte classes are, stated over the bytes' numeric values
//! (ASCII), independently of the named constants and helper specs that the code uses.

use vstd::prelude::*;
use crate::lex::scanner::byte_at;
use crate::lex::hand::{
    is_ws, is_newline, comment_stop, line_stop, hex_digit, is_decimal_part, is_exponent_mark,
    is_sign, starts_hex, is_ident_part, simple_escape, escaped_byte, is_regex_flag, QuotedScan,
    quoted_scan, hex_value, span, decimal_end, block_comment_end, block_comment_scanned, regex_body_end, template_end, unicode_escape_scan, EscapeScan,
};
use vstd::utf8::is_scalar;
use crate::lex::scanner::{
    LexError, LexErrorKind, lemma_first_from_covers, lemma_first_from, lemma_first_from_before,
};
use crate::lex::scan::{
    is_digit, is_ident_start, is_punct_start, Tok, TokData, punct_spelling, spelled_at, sc_accepts,
    sc_scanned, kw_found, keyword_spelling, string_token, law_keyword_spelling_injective,
};

verus! {

/// Byte classes. Whitespace is tab (9), line feed (10), carriage return (13) and space
/// (32); line breaks are 10 and 13. Identifiers continue with ASCII letters (65..=90,
/// 97..=122), digits (48..=57), `_` (95), `$` (36) and any non-ASCII byte, and start with
/// the same except digits. Decimal literal text is made of digits and `.` (46), with `e`
/// (101) or `E` (69) for the exponent, which a `+` (43) or `-` (45) may follow. The regex
/// flags are `g` (103), `i` (105) and `m` (109).
pub proof fn law_byte_classes(b: u8)
    ensures
        is_ws(b) <==> (b == 9 || b == 10 || b == 13 || b == 32),
        is_newline(b) <==> (b == 10 || b == 13),
        is_ident_part(b) <==> (65 <= b <= 90 || 97 <= b <= 122 || 48 <= b <= 57 || b == 95
            || b == 36 || b >= 128),
        is_ident_start(b) <==> (65 <= b <= 90 || 97 <= b <= 122 || b == 95 || b == 36 || b
            >= 128),
        is_digit(b) <==> 48 <= b <= 57,
        is_decimal_part(b) <==> (48 <= b <= 57 || b == 46),
        is_exponent_mark(b) <==> (b == 101 || b == 69),
        is_sign(b) <==> (b == 43 || b == 45),
        is_regex_flag(b) <==> (b == 103 || b == 105 || b == 109),
        is_punct_start(b) <==> (b == 33 || b == 37 || b == 38 || b == 40 || b == 41 || b == 42
            || b == 43 || b == 44 || b == 45 || b == 46 || b == 47 || b == 58 || b == 59 || b
            == 60 || b == 61 || b == 62 || b == 63 || b == 91 || b == 93 || b == 94 || b == 123
            || b == 124 || b == 125 || b == 126),
{
}

/// Hexadecimal digits: `0`..=`9` (48..=57) are worth their offset from `0`, `A`..=`F`
/// (65..=70) and `a`..=`f` (97..=102) are worth 10 plus their offset from `A` or `a`; no
/// other byte is a hex digit.
pub proof fn law_hex_digits(b: u8)
    ensures
        48 <= b <= 57 ==> hex_digit(b) == Some((b - 48) as u8),
        65 <= b <= 70 ==> hex_digit(b) == Some((b - 55) as u8),
        97 <= b <= 102 ==> hex_digit(b) == Some((b - 87) as u8),
        !(48 <= b <= 57 || 65 <= b <= 70 || 97 <= b <= 102) ==> hex_digit(b) is None,
{
}

/// A hexadecimal literal starts with `0x` (48, 120); a block comment stops at the end of
/// input (0) or at a `*` (42) followed by `/` (47) or the end; a line comment stops at the
/// end of input or a line feed (10).
pub proof fn law_stops(input: Seq<u8>, i: int)
    ensures
        starts_hex(input, i) <==> (byte_at(input, i) == 48 && byte_at(input, i + 1) == 120),
        comment_stop(input, i) <==> (byte_at(input, i) == 0 || (byte_at(input, i) == 42 && (
        byte_at(input, i + 1) == 47 || byte_at(input, i + 1) == 0))),
        line_stop(input, i) <==> (byte_at(input, i) == 0 || byte_at(input, i) == 10),
{
}

/// The one-character escapes: `\b` (98) is 8, `\f` (102) is 12, `\n` (110) is 10, `\r`
/// (114) is 13, `\t` (116) is 9, `\v` (118) is 11, `\0` (48) is 0, and `\"` (34), `\'`
/// (39), `\\` (92) and `\/` (47) stand for themselves; no other byte makes one. A `\u`
/// or `\x` escape stores its code point when it is ASCII and `?` (63) otherwise.
pub proof fn law_escape_table(d: u8, v: nat)
    ensures
        d == 98 ==> simple_escape(d) == Some(8u8),
        d == 102 ==> simple_escape(d) == Some(12u8),
        d == 110 ==> simple_escape(d) == Some(10u8),
        d == 114 ==> simple_escape(d) == Some(13u8),
        d == 116 ==> simple_escape(d) == Some(9u8),
        d == 118 ==> simple_escape(d) == Some(11u8),
        d == 48 ==> simple_escape(d) == Some(0u8),
        d == 34 || d == 39 || d == 92 || d == 47 ==> simple_escape(d) == Some(d),
        !(d == 98 || d == 102 || d == 110 || d == 114 || d == 116 || d == 118 || d == 48 || d
            == 34 || d == 39 || d == 92 || d == 47) ==> simple_escape(d) is None,
        v < 128 ==> escaped_byte(v) == v,
        v >= 128 ==> escaped_byte(v) == 63,
{
}

/// The dispatcher's result is `Ok(t)` with `t` at `end`: a shorthand for the laws below.
pub open spec fn scans_as(r: Result<Tok, LexError>, end: int, t: Tok, at: int) -> bool {
    r == Ok::<Tok, LexError>(t) && end == at
}

/// The punctuators that start with byte 33, each taken whole when the byte after it
/// does not continue a longer one: `!` (33), `!=` (33, 61), `!==` (33, 61, 61).
pub proof fn law_sc_punct_bang(
    input: Seq<u8>,
    pos: int,
    r: Result<Tok, LexError>,
    end: int,
    old_data: TokData,
    new_data: TokData,
)
    requires
        0 <= pos,
        sc_accepts(input, pos),
        sc_scanned(input, pos, r, end, old_data, new_data),
    ensures
        (byte_at(input, pos) == 33 && byte_at(input, pos + 1) != 61) ==> scans_as(r, end, Tok::Not, pos + 1),
        (byte_at(input, pos) == 33 && byte_at(input, pos + 1) == 61 && byte_at(input, pos + 2) != 61) ==> scans_as(r, end, Tok::NEq, pos + 2),
        (byte_at(input, pos) == 33 && byte_at(input, pos + 1) == 61 && byte_at(input, pos + 2) == 61) ==> scans_as(r, end, Tok::NEqEq, pos + 3),
{
    if byte_at(input, pos) == 33 && byte_at(input, pos + 1) != 61 {
        assert(punct_spelling(Tok::Not) is Some && spelled_at(input, pos, punct_spelling(Tok::Not)->0));
    }
    if byte_at(input, pos) == 33 && byte_at(input, pos + 1) == 61 && byte_at(input, pos + 2) != 61 {
        assert(punct_spelling(Tok::NEq) is Some && spelled_at(input, pos, punct_spelling(Tok::NEq)->0));
    }
    if byte_at(input, pos) == 33 && byte_at(input, pos + 1) == 61 && byte_at(input, pos + 2) == 61 {
        assert(punct_spelling(Tok::NEqEq) is Some && spelled_at(input, pos, punct_spelling(Tok::NEqEq)->0));
    }
}

/// The punctuators that start with byte 37, each taken whole when the byte after it
/// does not continue a longer one: `%` (37), `%=` (37, 61).
pub proof fn law_sc_punct_percent(
    input: Seq<u8>,
    pos: int,
    r: Result<Tok, LexError>,
    end: int,
    old_data: TokData,
    new_data: TokData,
)
    requires
        0 <= pos,
        sc_accepts(input, pos),
        sc_scanned(input, pos, r, end, old_data, new_data),
    ensures
        (byte_at(input, pos) == 37 && byte_at(input, pos + 1) != 61) ==> scans_as(r, end, Tok::Percent, pos + 1),
        (byte_at(input, pos) == 37 && byte_at(input, pos + 1) == 61) ==> scans_as(r, end, Tok::PercentEq, pos + 2),
{
    if byte_at(input, pos) == 37 && byte_at(input, pos + 1) != 61 {
        assert(punct_spelling(Tok::Percent) is Some && spelled_at(input, pos, punct_spelling(Tok::Percent)->0));
    }
    if byte_at(input, pos) == 37 && byte_at(input, pos + 1) == 61 {
        assert(punct_spelling(Tok::PercentEq) is Some && spelled_at(input, pos, punct_spelling(Tok::PercentEq)->0));
    }
}

/// The punctuators that start with byte 38, each taken whole when the byte after it
/// does not continue a longer one: `&` (38), `&&` (38, 38), `&=` (38, 61).
pub proof fn law_sc_punct_amp(
    input: Seq<u8>,
    pos: int,
    r: Result<Tok, LexError>,
    end: int,
    old_data: TokData,
    new_data: TokData,
)
    requires
        0 <= pos,
        sc_accepts(input, pos),
        sc_scanned(input, pos, r, end, old_data, new_data),
    ensures
        (byte_at(input, pos) == 38 && byte_at(input, pos + 1) != 38 && byte_at(input, pos + 1) != 61) ==> scans_as(r, end, Tok::BAnd, pos + 1),
        (byte_at(input, pos) == 38 && byte_at(input, pos + 1) == 38) ==> scans_as(r, end, Tok::AndAnd, pos + 2),
        (byte_at(input, pos) == 38 && byte_at(input, pos + 1) == 61) ==> scans_as(r, end, Tok::AndEq, pos + 2),
{
    if byte_at(input, pos) == 38 && byte_at(input, pos + 1) != 38 && byte_at(input, pos + 1) != 61 {
        assert(punct_spelling(Tok::BAnd) is Some && spelled_at(input, pos, punct_spelling(Tok::BAnd)->0));
    }
    if byte_at(input, pos) == 38 && byte_at(input, pos + 1) == 38 {
        assert(punct_spelling(Tok::AndAnd) is Some && spelled_at(input, pos, punct_spelling(Tok::AndAnd)->0));
    }
    if byte_at(input, pos) == 38 && byte_at(input, pos + 1) == 61 {
        assert(punct_spelling(Tok::AndEq) is Some && spelled_at(input, pos, punct_spelling(Tok::AndEq)->0));
    }
}

/// The punctuators that start with byte 40, each taken whole when the byte after it
/// does not continue a longer one: `(` (40).
pub proof fn law_sc_punct_lparen(
    input: Seq<u8>,
    pos: int,
    r: Result<Tok, LexError>,
    end: int,
    old_data: TokData,
    new_data: TokData,
)
    requires
        0 <= pos,
        sc_accepts(input, pos),
        sc_scanned(input, pos, r, end, old_data, new_data),
    ensures
        (byte_at(input, pos) == 40) ==> scans_as(r, end, Tok::LParen, pos + 1),
{
    if byte_at(input, pos) == 40 {
        assert(punct_spelling(Tok::LParen) is Some && spelled_at(input, pos, punct_spelling(Tok::LParen)->0));
    }
}

/// The punctuators that start with byte 41, each taken whole when the byte after it
/// does not continue a longer one: `)` (41).
pub proof fn law_sc_punct_rparen(
    input: Seq<u8>,
    pos: int,
    r: Result<Tok, LexError>,
    end: int,
    old_data: TokData,
    new_data: TokData,
)
    requires
        0 <= pos,
        sc_accepts(input, pos),
        sc_scanned(input, pos, r, end, old_data, new_data),
    ensures
        (byte_at(input, pos) == 41) ==> scans_as(r, end, Tok::RParen, pos + 1),
{
    if byte_at(input, pos) == 41 {
        assert(punct_spelling(Tok::RParen) is Some && spelled_at(input, pos, punct_spelling(Tok::RParen)->0));
    }
}

/// The punctuators that start with byte 42, each taken whole when the byte after it
/// does not continue a longer one: `*` (42), `**` (42, 42), `*=` (42, 61), `**=` (42, 42, 61).
pub proof fn law_sc_punct_star(
    input: Seq<u8>,
    pos: int,
    r: Result<Tok, LexError>,
    end: int,
    old_data: TokData,
    new_data: TokData,
)
    requires
        0 <= pos,
        sc_accepts(input, pos),
        sc_scanned(input, pos, r, end, old_data, new_data),
    ensures
        (byte_at(input, pos) == 42 && byte_at(input, pos + 1) != 42 && byte_at(input, pos + 1) != 61) ==> scans_as(r, end, Tok::Star, pos + 1),
        (byte_at(input, pos) == 42 && byte_at(input, pos + 1) == 42 && byte_at(input, pos + 2) != 61) ==> scans_as(r, end, Tok::StarStar, pos + 2),
        (byte_at(input, pos) == 42 && byte_at(input, pos + 1) == 61) ==> scans_as(r, end, Tok::StarEq, pos + 2),
        (byte_at(input, pos) == 42 && byte_at(input, pos + 1) == 42 && byte_at(input, pos + 2) == 61) ==> scans_as(r, end, Tok::StarStarEq, pos + 3),
{
    if byte_at(input, pos) == 42 && byte_at(input, pos + 1) != 42 && byte_at(input, pos + 1) != 61 {
        assert(punct_spelling(Tok::Star) is Some && spelled_at(input, pos, punct_spelling(Tok::Star)->0));
    }
    if byte_at(input, pos) == 42 && byte_at(input, pos + 1) == 42 && byte_at(input, pos + 2) != 61 {
        assert(punct_spelling(Tok::StarStar) is Some && spelled_at(input, pos, punct_spelling(Tok::StarStar)->0));
    }
    if byte_at(input, pos) == 42 && byte_at(input, pos + 1) == 61 {
        assert(punct_spelling(Tok::StarEq) is Some && spelled_at(input, pos, punct_spelling(Tok::StarEq)->0));
    }
    if byte_at(input, pos) == 42 && byte_at(input, pos + 1) == 42 && byte_at(input, pos + 2) == 61 {
        assert(punct_spelling(Tok::StarStarEq) is Some && spelled_at(input, pos, punct_spelling(Tok::StarStarEq)->0));
    }
}

/// The punctuators that start with byte 43, each taken whole when the byte after it
/// does not continue a longer one: `+` (43), `++` (43, 43), `+=` (43, 61).
pub proof fn law_sc_punct_plus(
    input: Seq<u8>,
    pos: int,
    r: Result<Tok, LexError>,
    end: int,
    old_data: TokData,
    new_data: TokData,
)
    requires
        0 <= pos,
        sc_accepts(input, pos),
        sc_scanned(input, pos, r, end, old_data, new_data),
    ensures
        (byte_at(input, pos) == 43 && byte_at(input, pos + 1) != 43 && byte_at(input, pos + 1) != 61) ==> scans_as(r, end, Tok::Plus, pos + 1),
        (byte_at(input, pos) == 43 && byte_at(input, pos + 1) == 43) ==> scans_as(r, end, Tok::PlusPlus, pos + 2),
        (byte_at(input, pos) == 43 && byte_at(input, pos + 1) == 61) ==> scans_as(r, end, Tok::PlusEq, pos + 2),
{
    if byte_at(input, pos) == 43 && byte_at(input, pos + 1) != 43 && byte_at(input, pos + 1) != 61 {
        assert(punct_spelling(Tok::Plus) is Some && spelled_at(input, pos, punct_spelling(Tok::Plus)->0));
    }
    if byte_at(input, pos) == 43 && byte_at(input, pos + 1) == 43 {
        assert(punct_spelling(Tok::PlusPlus) is Some && spelled_at(input, pos, punct_spelling(Tok::PlusPlus)->0));
    }
    if byte_at(input, pos) == 43 && byte_at(input, pos + 1) == 61 {
        assert(punct_spelling(Tok::PlusEq) is Some && spelled_at(input, pos, punct_spelling(Tok::PlusEq)->0));
    }
}

/// The punctuators that start with byte 44, each taken whole when the byte after it
/// does not continue a longer one: `,` (44).
pub proof fn law_sc_punct_comma(
    input: Seq<u8>,
    pos: int,
    r: Result<Tok, LexError>,
    end: int,
    old_data: TokData,
    new_data: TokData,
)
    requires
        0 <= pos,
        sc_accepts(input, pos),
        sc_scanned(input, pos, r, end, old_data, new_data),
    ensures
        (byte_at(input, pos) == 44) ==> scans_as(r, end, Tok::Comma, pos + 1),
{
    if byte_at(input, pos) == 44 {
        assert(punct_spelling(Tok::Comma) is Some && spelled_at(input, pos, punct_spelling(Tok::Comma)->0));
    }
}

/// The punctuators that start with byte 45, each taken whole when the byte after it
/// does not continue a longer one: `-` (45), `--` (45, 45), `-=` (45, 61).
pub proof fn law_sc_punct_minus(
    input: Seq<u8>,
    pos: int,
    r: Result<Tok, LexError>,
    end: int,
    old_data: TokData,
    new_data: TokData,
)
    requires
        0 <= pos,
        sc_accepts(input, pos),
        sc_scanned(input, pos, r, end, old_data, new_data),
    ensures
        (byte_at(input, pos) == 45 && byte_at(input, pos + 1) != 45 && byte_at(input, pos + 1) != 61) ==> scans_as(r, end, Tok::Minus, pos + 1),
        (byte_at(input, pos) == 45 && byte_at(input, pos + 1) == 45) ==> scans_as(r, end, Tok::MinusMinus, pos + 2),
        (byte_at(input, pos) == 45 && byte_at(input, pos + 1) == 61) ==> scans_as(r, end, Tok::MinusEq, pos + 2),
{
    if byte_at(input, pos) == 45 && byte_at(input, pos + 1) != 45 && byte_at(input, pos + 1) != 61 {
        assert(punct_spelling(Tok::Minus) is Some && spelled_at(input, pos, punct_spelling(Tok::Minus)->0));
    }
    if byte_at(input, pos) == 45 && byte_at(input, pos + 1) == 45 {
        assert(punct_spelling(Tok::MinusMinus) is Some && spelled_at(input, pos, punct_spelling(Tok::MinusMinus)->0));
    }
    if byte_at(input, pos) == 45 && byte_at(input, pos + 1) == 61 {
        assert(punct_spelling(Tok::MinusEq) is Some && spelled_at(input, pos, punct_spelling(Tok::MinusEq)->0));
    }
}

/// The punctuators that start with byte 46, each taken whole when the byte after it
/// does not continue a longer one: `.` (46), `...` (46, 46, 46).
pub proof fn law_sc_punct_dot(
    input: Seq<u8>,
    pos: int,
    r: Result<Tok, LexError>,
    end: int,
    old_data: TokData,
    new_data: TokData,
)
    requires
        0 <= pos,
        sc_accepts(input, pos),
        sc_scanned(input, pos, r, end, old_data, new_data),
    ensures
        (byte_at(input, pos) == 46 && byte_at(input, pos + 1) != 46) ==> scans_as(r, end, Tok::Dot, pos + 1),
        (byte_at(input, pos) == 46 && byte_at(input, pos + 1) == 46 && byte_at(input, pos + 2) == 46) ==> scans_as(r, end, Tok::Ellipsis, pos + 3),
{
    if byte_at(input, pos) == 46 && byte_at(input, pos + 1) != 46 {
        assert(punct_spelling(Tok::Dot) is Some && spelled_at(input, pos, punct_spelling(Tok::Dot)->0));
    }
    if byte_at(input, pos) == 46 && byte_at(input, pos + 1) == 46 && byte_at(input, pos + 2) == 46 {
        assert(punct_spelling(Tok::Ellipsis) is Some && spelled_at(input, pos, punct_spelling(Tok::Ellipsis)->0));
    }
}

/// The punctuators that start with byte 47, each taken whole when the byte after it
/// does not continue a longer one: `/` (47), `/=` (47, 61). `//` and `/*` open comments instead.
pub proof fn law_sc_punct_slash(
    input: Seq<u8>,
    pos: int,
    r: Result<Tok, LexError>,
    end: int,
    old_data: TokData,
    new_data: TokData,
)
    requires
        0 <= pos,
        sc_accepts(input, pos),
        sc_scanned(input, pos, r, end, old_data, new_data),
    ensures
        (byte_at(input, pos) == 47 && byte_at(input, pos + 1) != 42 && byte_at(input, pos + 1) != 47 && byte_at(input, pos + 1) != 61) ==> scans_as(r, end, Tok::Div, pos + 1),
        (byte_at(input, pos) == 47 && byte_at(input, pos + 1) == 61) ==> scans_as(r, end, Tok::DivEq, pos + 2),
        byte_at(input, pos) == 47 && byte_at(input, pos + 1) == 47 ==> r == Ok::<Tok, LexError>(Tok::Comment),
        byte_at(input, pos) == 47 && byte_at(input, pos + 1) == 42 && r is Ok ==> r == Ok::<Tok, LexError>(Tok::Comment),
{
    if byte_at(input, pos) == 47 && byte_at(input, pos + 1) != 42 && byte_at(input, pos + 1) != 47 && byte_at(input, pos + 1) != 61 {
        assert(punct_spelling(Tok::Div) is Some && spelled_at(input, pos, punct_spelling(Tok::Div)->0));
    }
    if byte_at(input, pos) == 47 && byte_at(input, pos + 1) == 61 {
        assert(punct_spelling(Tok::DivEq) is Some && spelled_at(input, pos, punct_spelling(Tok::DivEq)->0));
    }
}

/// The punctuators that start with byte 58, each taken whole when the byte after it
/// does not continue a longer one: `:` (58).
pub proof fn law_sc_punct_colon(
    input: Seq<u8>,
    pos: int,
    r: Result<Tok, LexError>,
    end: int,
    old_data: TokData,
    new_data: TokData,
)
    requires
        0 <= pos,
        sc_accepts(input, pos),
        sc_scanned(input, pos, r, end, old_data, new_data),
    ensures
        (byte_at(input, pos) == 58) ==> scans_as(r, end, Tok::Colon, pos + 1),
{
    if byte_at(input, pos) == 58 {
        assert(punct_spelling(Tok::Colon) is Some && spelled_at(input, pos, punct_spelling(Tok::Colon)->0));
    }
}

/// The punctuators that start with byte 59, each taken whole when the byte after it
/// does not continue a longer one: `;` (59).
pub proof fn law_sc_punct_semi(
    input: Seq<u8>,
    pos: int,
    r: Result<Tok, LexError>,
    end: int,
    old_data: TokData,
    new_data: TokData,
)
    requires
        0 <= pos,
        sc_accepts(input, pos),
        sc_scanned(input, pos, r, end, old_data, new_data),
    ensures
        (byte_at(input, pos) == 59) ==> scans_as(r, end, Tok::Semi, pos + 1),
{
    if byte_at(input, pos) == 59 {
        assert(punct_spelling(Tok::Semi) is Some && spelled_at(input, pos, punct_spelling(Tok::Semi)->0));
    }
}

/// The punctuators that start with byte 60, each taken whole when the byte after it
/// does not continue a longer one: `<` (60), `<=` (60, 61), `<<` (60, 60), `<<=` (60, 60, 61).
pub proof fn law_sc_punct_less(
    input: Seq<u8>,
    pos: int,
    r: Result<Tok, LexError>,
    end: int,
    old_data: TokData,
    new_data: TokData,
)
    requires
        0 <= pos,
        sc_accepts(input, pos),
        sc_scanned(input, pos, r, end, old_data, new_data),
    ensures
        (byte_at(input, pos) == 60 && byte_at(input, pos + 1) != 60 && byte_at(input, pos + 1) != 61) ==> scans_as(r, end, Tok::LT, pos + 1),
        (byte_at(input, pos) == 60 && byte_at(input, pos + 1) == 61) ==> scans_as(r, end, Tok::LTE, pos + 2),
        (byte_at(input, pos) == 60 && byte_at(input, pos + 1) == 60 && byte_at(input, pos + 2) != 61) ==> scans_as(r, end, Tok::LTLT, pos + 2),
        (byte_at(input, pos) == 60 && byte_at(input, pos + 1) == 60 && byte_at(input, pos + 2) == 61) ==> scans_as(r, end, Tok::LTLTEq, pos + 3),
{
    if byte_at(input, pos) == 60 && byte_at(input, pos + 1) != 60 && byte_at(input, pos + 1) != 61 {
        assert(punct_spelling(Tok::LT) is Some && spelled_at(input, pos, punct_spelling(Tok::LT)->0));
    }
    if byte_at(input, pos) == 60 && byte_at(input, pos + 1) == 61 {
        assert(punct_spelling(Tok::LTE) is Some && spelled_at(input, pos, punct_spelling(Tok::LTE)->0));
    }
    if byte_at(input, pos) == 60 && byte_at(input, pos + 1) == 60 && byte_at(input, pos + 2) != 61 {
        assert(punct_spelling(Tok::LTLT) is Some && spelled_at(input, pos, punct_spelling(Tok::LTLT)->0));
    }
    if byte_at(input, pos) == 60 && byte_at(input, pos + 1) == 60 && byte_at(input, pos + 2) == 61 {
        assert(punct_spelling(Tok::LTLTEq) is Some && spelled_at(input, pos, punct_spelling(Tok::LTLTEq)->0));
    }
}

/// The punctuators that start with byte 61, each taken whole when the byte after it
/// does not continue a longer one: `=` (61), `==` (61, 61), `===` (61, 61, 61).
pub proof fn law_sc_punct_equals(
    input: Seq<u8>,
    pos: int,
    r: Result<Tok, LexError>,
    end: int,
    old_data: TokData,
    new_data: TokData,
)
    requires
        0 <= pos,
        sc_accepts(input, pos),
        sc_scanned(input, pos, r, end, old_data, new_data),
    ensures
        (byte_at(input, pos) == 61 && byte_at(input, pos + 1) != 61) ==> scans_as(r, end, Tok::Eq, pos + 1),
        (byte_at(input, pos) == 61 && byte_at(input, pos + 1) == 61 && byte_at(input, pos + 2) != 61) ==> scans_as(r, end, Tok::EqEq, pos + 2),
        (byte_at(input, pos) == 61 && byte_at(input, pos + 1) == 61 && byte_at(input, pos + 2) == 61) ==> scans_as(r, end, Tok::EqEqEq, pos + 3),
{
    if byte_at(input, pos) == 61 && byte_at(input, pos + 1) != 61 {
        assert(punct_spelling(Tok::Eq) is Some && spelled_at(input, pos, punct_spelling(Tok::Eq)->0));
    }
    if byte_at(input, pos) == 61 && byte_at(input, pos + 1) == 61 && byte_at(input, pos + 2) != 61 {
        assert(punct_spelling(Tok::EqEq) is Some && spelled_at(input, pos, punct_spelling(Tok::EqEq)->0));
    }
    if byte_at(input, pos) == 61 && byte_at(input, pos + 1) == 61 && byte_at(input, pos + 2) == 61 {
        assert(punct_spelling(Tok::EqEqEq) is Some && spelled_at(input, pos, punct_spelling(Tok::EqEqEq)->0));
    }
}

/// The punctuators that start with byte 62, each taken whole when the byte after it
/// does not continue a longer one: `>` (62), `>=` (62, 61), `>>` (62, 62), `>>>` (62, 62, 62), `>>=` (62, 62, 61), `>>>=` (62, 62, 62, 61).
pub proof fn law_sc_punct_greater(
    input: Seq<u8>,
    pos: int,
    r: Result<Tok, LexError>,
    end: int,
    old_data: TokData,
    new_data: TokData,
)
    requires
        0 <= pos,
        sc_accepts(input, pos),
        sc_scanned(input, pos, r, end, old_data, new_data),
    ensures
        (byte_at(input, pos) == 62 && byte_at(input, pos + 1) != 61 && byte_at(input, pos + 1) != 62) ==> scans_as(r, end, Tok::GT, pos + 1),
        (byte_at(input, pos) == 62 && byte_at(input, pos + 1) == 61) ==> scans_as(r, end, Tok::GTE, pos + 2),
        (byte_at(input, pos) == 62 && byte_at(input, pos + 1) == 62 && byte_at(input, pos + 2) != 61 && byte_at(input, pos + 2) != 62) ==> scans_as(r, end, Tok::GTGT, pos + 2),
        (byte_at(input, pos) == 62 && byte_at(input, pos + 1) == 62 && byte_at(input, pos + 2) == 62 && byte_at(input, pos + 3) != 61) ==> scans_as(r, end, Tok::GTGTGT, pos + 3),
        (byte_at(input, pos) == 62 && byte_at(input, pos + 1) == 62 && byte_at(input, pos + 2) == 61) ==> scans_as(r, end, Tok::GTGTEq, pos + 3),
        (byte_at(input, pos) == 62 && byte_at(input, pos + 1) == 62 && byte_at(input, pos + 2) == 62 && byte_at(input, pos + 3) == 61) ==> scans_as(r, end, Tok::GTGTGTEq, pos + 4),
{
    if byte_at(input, pos) == 62 && byte_at(input, pos + 1) != 61 && byte_at(input, pos + 1) != 62 {
        assert(punct_spelling(Tok::GT) is Some && spelled_at(input, pos, punct_spelling(Tok::GT)->0));
    }
    if byte_at(input, pos) == 62 && byte_at(input, pos + 1) == 61 {
        assert(punct_spelling(Tok::GTE) is Some && spelled_at(input, pos, punct_spelling(Tok::GTE)->0));
    }
    if byte_at(input, pos) == 62 && byte_at(input, pos + 1) == 62 && byte_at(input, pos + 2) != 61 && byte_at(input, pos + 2) != 62 {
        assert(punct_spelling(Tok::GTGT) is Some && spelled_at(input, pos, punct_spelling(Tok::GTGT)->0));
    }
    if byte_at(input, pos) == 62 && byte_at(input, pos + 1) == 62 && byte_at(input, pos + 2) == 62 && byte_at(input, pos + 3) != 61 {
        assert(punct_spelling(Tok::GTGTGT) is Some && spelled_at(input, pos, punct_spelling(Tok::GTGTGT)->0));
    }
    if byte_at(input, pos) == 62 && byte_at(input, pos + 1) == 62 && byte_at(input, pos + 2) == 61 {
        assert(punct_spelling(Tok::GTGTEq) is Some && spelled_at(input, pos, punct_spelling(Tok::GTGTEq)->0));
    }
    if byte_at(input, pos) == 62 && byte_at(input, pos + 1) == 62 && byte_at(input, pos + 2) == 62 && byte_at(input, pos + 3) == 61 {
        assert(punct_spelling(Tok::GTGTGTEq) is Some && spelled_at(input, pos, punct_spelling(Tok::GTGTGTEq)->0));
    }
}

/// The punctuators that start with byte 63, each taken whole when the byte after it
/// does not continue a longer one: `?` (63).
pub proof fn law_sc_punct_question(
    input: Seq<u8>,
    pos: int,
    r: Result<Tok, LexError>,
    end: int,
    old_data: TokData,
    new_data: TokData,
)
    requires
        0 <= pos,
        sc_accepts(input, pos),
        sc_scanned(input, pos, r, end, old_data, new_data),
    ensures
        (byte_at(input, pos) == 63) ==> scans_as(r, end, Tok::Question, pos + 1),
{
    if byte_at(input, pos) == 63 {
        assert(punct_spelling(Tok::Question) is Some && spelled_at(input, pos, punct_spelling(Tok::Question)->0));
    }
}

/// The punctuators that start with byte 91, each taken whole when the byte after it
/// does not continue a longer one: `[` (91).
pub proof fn law_sc_punct_lsquare(
    input: Seq<u8>,
    pos: int,
    r: Result<Tok, LexError>,
    end: int,
    old_data: TokData,
    new_data: TokData,
)
    requires
        0 <= pos,
        sc_accepts(input, pos),
        sc_scanned(input, pos, r, end, old_data, new_data),
    ensures
        (byte_at(input, pos) == 91) ==> scans_as(r, end, Tok::LSquare, pos + 1),
{
    if byte_at(input, pos) == 91 {
        assert(punct_spelling(Tok::LSquare) is Some && spelled_at(input, pos, punct_spelling(Tok::LSquare)->0));
    }
}

/// The punctuators that start with byte 93, each taken whole when the byte after it
/// does not continue a longer one: `]` (93).
pub proof fn law_sc_punct_rsquare(
    input: Seq<u8>,
    pos: int,
    r: Result<Tok, LexError>,
    end: int,
    old_data: TokData,
    new_data: TokData,
)
    requires
        0 <= pos,
        sc_accepts(input, pos),
        sc_scanned(input, pos, r, end, old_data, new_data),
    ensures
        (byte_at(input, pos) == 93) ==> scans_as(r, end, Tok::RSquare, pos + 1),
{
    if byte_at(input, pos) == 93 {
        assert(punct_spelling(Tok::RSquare) is Some && spelled_at(input, pos, punct_spelling(Tok::RSquare)->0));
    }
}

/// The punctuators that start with byte 94, each taken whole when the byte after it
/// does not continue a longer one: `^` (94), `^=` (94, 61).
pub proof fn law_sc_punct_caret(
    input: Seq<u8>,
    pos: int,
    r: Result<Tok, LexError>,
    end: int,
    old_data: TokData,
    new_data: TokData,
)
    requires
        0 <= pos,
        sc_accepts(input, pos),
        sc_scanned(input, pos, r, end, old_data, new_data),
    ensures
        (byte_at(input, pos) == 94 && byte_at(input, pos + 1) != 61) ==> scans_as(r, end, Tok::Xor, pos + 1),
        (byte_at(input, pos) == 94 && byte_at(input, pos + 1) == 61) ==> scans_as(r, end, Tok::CaratEq, pos + 2),
{
    if byte_at(input, pos) == 94 && byte_at(input, pos + 1) != 61 {
        assert(punct_spelling(Tok::Xor) is Some && spelled_at(input, pos, punct_spelling(Tok::Xor)->0));
    }
    if byte_at(input, pos) == 94 && byte_at(input, pos + 1) == 61 {
        assert(punct_spelling(Tok::CaratEq) is Some && spelled_at(input, pos, punct_spelling(Tok::CaratEq)->0));
    }
}

/// The punctuators that start with byte 123, each taken whole when the byte after it
/// does not continue a longer one: `{` (123).
pub proof fn law_sc_punct_lbrace(
    input: Seq<u8>,
    pos: int,
    r: Result<Tok, LexError>,
    end: int,
    old_data: TokData,
    new_data: TokData,
)
    requires
        0 <= pos,
        sc_accepts(input, pos),
        sc_scanned(input, pos, r, end, old_data, new_data),
    ensures
        (byte_at(input, pos) == 123) ==> scans_as(r, end, Tok::LBrace, pos + 1),
{
    if byte_at(input, pos) == 123 {
        assert(punct_spelling(Tok::LBrace) is Some && spelled_at(input, pos, punct_spelling(Tok::LBrace)->0));
    }
}

/// The punctuators that start with byte 124, each taken whole when the byte after it
/// does not continue a longer one: `|` (124), `||` (124, 124), `|=` (124, 61).
pub proof fn law_sc_punct_pipe(
    input: Seq<u8>,
    pos: int,
    r: Result<Tok, LexError>,
    end: int,
    old_data: TokData,
    new_data: TokData,
)
    requires
        0 <= pos,
        sc_accepts(input, pos),
        sc_scanned(input, pos, r, end, old_data, new_data),
    ensures
        (byte_at(input, pos) == 124 && byte_at(input, pos + 1) != 61 && byte_at(input, pos + 1) != 124) ==> scans_as(r, end, Tok::BOr, pos + 1),
        (byte_at(input, pos) == 124 && byte_at(input, pos + 1) == 124) ==> scans_as(r, end, Tok::OrOr, pos + 2),
        (byte_at(input, pos) == 124 && byte_at(input, pos + 1) == 61) ==> scans_as(r, end, Tok::OrEq, pos + 2),
{
    if byte_at(input, pos) == 124 && byte_at(input, pos + 1) != 61 && byte_at(input, pos + 1) != 124 {
        assert(punct_spelling(Tok::BOr) is Some && spelled_at(input, pos, punct_spelling(Tok::BOr)->0));
    }
    if byte_at(input, pos) == 124 && byte_at(input, pos + 1) == 124 {
        assert(punct_spelling(Tok::OrOr) is Some && spelled_at(input, pos, punct_spelling(Tok::OrOr)->0));
    }
    if byte_at(input, pos) == 124 && byte_at(input, pos + 1) == 61 {
        assert(punct_spelling(Tok::OrEq) is Some && spelled_at(input, pos, punct_spelling(Tok::OrEq)->0));
    }
}

/// The punctuators that start with byte 125, each taken whole when the byte after it
/// does not continue a longer one: `}` (125).
pub proof fn law_sc_punct_rbrace(
    input: Seq<u8>,
    pos: int,
    r: Result<Tok, LexError>,
    end: int,
    old_data: TokData,
    new_data: TokData,
)
    requires
        0 <= pos,
        sc_accepts(input, pos),
        sc_scanned(input, pos, r, end, old_data, new_data),
    ensures
        (byte_at(input, pos) == 125) ==> scans_as(r, end, Tok::RBrace, pos + 1),
{
    if byte_at(input, pos) == 125 {
        assert(punct_spelling(Tok::RBrace) is Some && spelled_at(input, pos, punct_spelling(Tok::RBrace)->0));
    }
}

/// The punctuators that start with byte 126, each taken whole when the byte after it
/// does not continue a longer one: `~` (126).
pub proof fn law_sc_punct_tilde(
    input: Seq<u8>,
    pos: int,
    r: Result<Tok, LexError>,
    end: int,
    old_data: TokData,
    new_data: TokData,
)
    requires
        0 <= pos,
        sc_accepts(input, pos),
        sc_scanned(input, pos, r, end, old_data, new_data),
    ensures
        (byte_at(input, pos) == 126) ==> scans_as(r, end, Tok::BNot, pos + 1),
{
    if byte_at(input, pos) == 126 {
        assert(punct_spelling(Tok::BNot) is Some && spelled_at(input, pos, punct_spelling(Tok::BNot)->0));
    }
}


/// `r` with byte `b` put in front of the string it closes with.
pub open spec fn prefixed(b: u8, r: QuotedScan) -> QuotedScan {
    match r {
        QuotedScan::Closed(bytes, end) => QuotedScan::Closed(seq![b] + bytes, end),
        other => other,
    }
}

/// One step of reading a string body at index `i`, where the quote is not a backslash:
/// the quote closes the string just past it; a 0 byte (the end of input) inside it
/// panics; any other byte but a backslash is taken as it is; a backslash and the next
/// byte form an escape, which contributes the byte of the one-character escape table
/// (`\"` a `"`, `\n` a line feed, ...) and scanning goes on after it, and an unknown
/// escape is an error just past it.
pub proof fn law_quoted_steps(input: Seq<u8>, i: int, quote: char)
    requires
        0 <= i < input.len(),
        quote as u32 != 92,
    ensures
        byte_at(input, i) as u32 == quote as u32 ==> quoted_scan(input, i, quote)
            == QuotedScan::Closed(Seq::<u8>::empty(), i + 1),
        byte_at(input, i) == 0 && quote as u32 != 0 ==> quoted_scan(input, i, quote) is Panics,
        byte_at(input, i) != 0 && byte_at(input, i) != 92 && byte_at(input, i) as u32 != quote
            as u32 ==> quoted_scan(input, i, quote) == prefixed(
            byte_at(input, i),
            quoted_scan(input, i + 1, quote),
        ),
        byte_at(input, i) == 92 && byte_at(input, i + 1) == 98 ==> quoted_scan(input, i, quote)
            == prefixed(8u8, quoted_scan(input, i + 2, quote)),
        byte_at(input, i) == 92 && byte_at(input, i + 1) == 102 ==> quoted_scan(input, i, quote)
            == prefixed(12u8, quoted_scan(input, i + 2, quote)),
        byte_at(input, i) == 92 && byte_at(input, i + 1) == 110 ==> quoted_scan(input, i, quote)
            == prefixed(10u8, quoted_scan(input, i + 2, quote)),
        byte_at(input, i) == 92 && byte_at(input, i + 1) == 114 ==> quoted_scan(input, i, quote)
            == prefixed(13u8, quoted_scan(input, i + 2, quote)),
        byte_at(input, i) == 92 && byte_at(input, i + 1) == 116 ==> quoted_scan(input, i, quote)
            == prefixed(9u8, quoted_scan(input, i + 2, quote)),
        byte_at(input, i) == 92 && byte_at(input, i + 1) == 118 ==> quoted_scan(input, i, quote)
            == prefixed(11u8, quoted_scan(input, i + 2, quote)),
        byte_at(input, i) == 92 && byte_at(input, i + 1) == 48 ==> quoted_scan(input, i, quote)
            == prefixed(0u8, quoted_scan(input, i + 2, quote)),
        byte_at(input, i) == 92 && byte_at(input, i + 1) == 34 ==> quoted_scan(input, i, quote)
            == prefixed(34u8, quoted_scan(input, i + 2, quote)),
        byte_at(input, i) == 92 && byte_at(input, i + 1) == 39 ==> quoted_scan(input, i, quote)
            == prefixed(39u8, quoted_scan(input, i + 2, quote)),
        byte_at(input, i) == 92 && byte_at(input, i + 1) == 92 ==> quoted_scan(input, i, quote)
            == prefixed(92u8, quoted_scan(input, i + 2, quote)),
        byte_at(input, i) == 92 && byte_at(input, i + 1) == 47 ==> quoted_scan(input, i, quote)
            == prefixed(47u8, quoted_scan(input, i + 2, quote)),
        ({
            let d = byte_at(input, i + 1);
            byte_at(input, i) == 92 && !(d == 98 || d == 102 || d == 110 || d == 114 || d == 116 || d == 118 || d == 48 || d == 34 || d == 39 || d == 92 || d == 47 || d == 117 || d == 120) ==> quoted_scan(input, i, quote)
                == QuotedScan::Failed(LexErrorKind::UnknownEscape(d), i + 2)
        }),
{
    if byte_at(input, i) == 92 && i + 1 < input.len() {
        law_escape_table(byte_at(input, i + 1), 0);
    }
}

/// A `\x` escape at `i` with two hex digits contributes the code point they spell,
/// `16 * first + second`, stored as itself when ASCII and as `?` otherwise; scanning goes
/// on after the escape.
pub proof fn law_quoted_hex_escape(input: Seq<u8>, i: int, quote: char)
    requires
        0 <= i,
        i + 3 < input.len(),
        quote as u32 != 92,
        byte_at(input, i) == 92,
        byte_at(input, i + 1) == 120,
        hex_digit(byte_at(input, i + 2)) is Some,
        hex_digit(byte_at(input, i + 3)) is Some,
    ensures
        ({
            let v = 16 * hex_digit(byte_at(input, i + 2))->0 + hex_digit(byte_at(input, i + 3))->0;
            quoted_scan(input, i, quote) == prefixed(
                if v < 128 {
                    v as u8
                } else {
                    63u8
                },
                quoted_scan(input, i + 4, quote),
            )
        }),
{
    let v = 16 * hex_digit(byte_at(input, i + 2))->0 + hex_digit(byte_at(input, i + 3))->0;
    law_escape_table(120, v as nat);
    assert(v < 256);
    assert(is_scalar(v as u32));
}

/// A `\u` escape at `i` with four hex digits (not a `{`) contributes the code point they
/// spell, most significant first, stored as itself when ASCII and as `?` otherwise, and
/// scanning goes on after the escape; a code point that is no Unicode scalar value is an
/// error just past the escape.
pub proof fn law_quoted_unicode_escape(input: Seq<u8>, i: int, quote: char)
    requires
        0 <= i,
        i + 5 < input.len(),
        quote as u32 != 92,
        byte_at(input, i) == 92,
        byte_at(input, i + 1) == 117,
        byte_at(input, i + 2) != 123,
        forall|j: int| i + 2 <= j < i + 6 ==> #[trigger] hex_digit(byte_at(input, j)) is Some,
    ensures
        ({
            let v = 4096 * hex_digit(byte_at(input, i + 2))->0 + 256 * hex_digit(byte_at(input, i + 3))->0
                + 16 * hex_digit(byte_at(input, i + 4))->0 + hex_digit(byte_at(input, i + 5))->0;
            &&& is_scalar(v as u32) ==> quoted_scan(input, i, quote) == prefixed(
                if v < 128 {
                    v as u8
                } else {
                    63u8
                },
                quoted_scan(input, i + 6, quote),
            )
            &&& !is_scalar(v as u32) ==> quoted_scan(input, i, quote) == QuotedScan::Failed(
                LexErrorKind::BadCodepoint(v as u32),
                i + 6,
            )
        }),
{
    let d0 = hex_digit(byte_at(input, i + 2))->0;
    let d1 = hex_digit(byte_at(input, i + 3))->0;
    let d2 = hex_digit(byte_at(input, i + 4))->0;
    let d3 = hex_digit(byte_at(input, i + 5))->0;
    assert(hex_digit(byte_at(input, i + 2)) is Some);
    assert(hex_digit(byte_at(input, i + 3)) is Some);
    assert(hex_digit(byte_at(input, i + 4)) is Some);
    assert(hex_digit(byte_at(input, i + 5)) is Some);
    let p = |k: int| hex_digit(byte_at(input, k)) is None;
    lemma_first_from_covers(p, i + 2, input.len() as int, i + 6);
    let digits = span(input, i + 2, i + 6);
    law_hex_value_step(digits.take(0), byte_at(input, i + 2));
    law_hex_value_step(digits.take(1), byte_at(input, i + 3));
    law_hex_value_step(digits.take(2), byte_at(input, i + 4));
    law_hex_value_step(digits.take(3), byte_at(input, i + 5));
    assert(digits.take(0) =~= Seq::<u8>::empty());
    assert(digits.take(0).push(byte_at(input, i + 2)) =~= digits.take(1));
    assert(digits.take(1).push(byte_at(input, i + 3)) =~= digits.take(2));
    assert(digits.take(2).push(byte_at(input, i + 4)) =~= digits.take(3));
    assert(digits.take(3).push(byte_at(input, i + 5)) =~= digits);
    law_escape_table(117, (4096 * d0 + 256 * d1 + 16 * d2 + d3) as nat);
}

/// The value of hex digits, most significant first: none are worth 0, and one more digit
/// multiplies the value by 16 and adds the digit's value.
pub proof fn law_hex_value_step(digits: Seq<u8>, c: u8)
    requires
        hex_digit(c) is Some,
    ensures
        hex_value(Seq::<u8>::empty()) == 0,
        hex_value(digits.push(c)) == 16 * hex_value(digits) + hex_digit(c)->0,
{
    assert(digits.push(c).drop_last() =~= digits);
}


/// The reserved words, byte for byte: await, break, case, catch, class, const, continue, debugger, default, delete, do, else, export, extends, finally, for, function, if, import, in, instanceof, new, return, super, switch, this, throw, try, typeof, var, void, while, with, yield. Looking up the spelling of one finds its token.
pub proof fn law_kw_table(text: Seq<u8>, found: Tok)
    requires
        kw_found(text, found),
    ensures
        text == seq![97u8, 119u8, 97u8, 105u8, 116u8] ==> found == Tok::Await,
        text == seq![98u8, 114u8, 101u8, 97u8, 107u8] ==> found == Tok::Break,
        text == seq![99u8, 97u8, 115u8, 101u8] ==> found == Tok::Case,
        text == seq![99u8, 97u8, 116u8, 99u8, 104u8] ==> found == Tok::Catch,
        text == seq![99u8, 108u8, 97u8, 115u8, 115u8] ==> found == Tok::Class,
        text == seq![99u8, 111u8, 110u8, 115u8, 116u8] ==> found == Tok::Const,
        text == seq![99u8, 111u8, 110u8, 116u8, 105u8, 110u8, 117u8, 101u8] ==> found == Tok::Continue,
        text == seq![100u8, 101u8, 98u8, 117u8, 103u8, 103u8, 101u8, 114u8] ==> found == Tok::Debugger,
        text == seq![100u8, 101u8, 102u8, 97u8, 117u8, 108u8, 116u8] ==> found == Tok::Default,
        text == seq![100u8, 101u8, 108u8, 101u8, 116u8, 101u8] ==> found == Tok::Delete,
        text == seq![100u8, 111u8] ==> found == Tok::Do,
        text == seq![101u8, 108u8, 115u8, 101u8] ==> found == Tok::Else,
        text == seq![101u8, 120u8, 112u8, 111u8, 114u8, 116u8] ==> found == Tok::Export,
        text == seq![101u8, 120u8, 116u8, 101u8, 110u8, 100u8, 115u8] ==> found == Tok::Extends,
        text == seq![102u8, 105u8, 110u8, 97u8, 108u8, 108u8, 121u8] ==> found == Tok::Finally,
        text == seq![102u8, 111u8, 114u8] ==> found == Tok::For,
        text == seq![102u8, 117u8, 110u8, 99u8, 116u8, 105u8, 111u8, 110u8] ==> found == Tok::Function,
        text == seq![105u8, 102u8] ==> found == Tok::If,
        text == seq![105u8, 109u8, 112u8, 111u8, 114u8, 116u8] ==> found == Tok::Import,
        text == seq![105u8, 110u8] ==> found == Tok::In,
        text == seq![105u8, 110u8, 115u8, 116u8, 97u8, 110u8, 99u8, 101u8, 111u8, 102u8] ==> found == Tok::InstanceOf,
        text == seq![110u8, 101u8, 119u8] ==> found == Tok::New,
        text == seq![114u8, 101u8, 116u8, 117u8, 114u8, 110u8] ==> found == Tok::Return,
        text == seq![115u8, 117u8, 112u8, 101u8, 114u8] ==> found == Tok::Super,
        text == seq![115u8, 119u8, 105u8, 116u8, 99u8, 104u8] ==> found == Tok::Switch,
        text == seq![116u8, 104u8, 105u8, 115u8] ==> found == Tok::This,
        text == seq![116u8, 104u8, 114u8, 111u8, 119u8] ==> found == Tok::Throw,
        text == seq![116u8, 114u8, 121u8] ==> found == Tok::Try,
        text == seq![116u8, 121u8, 112u8, 101u8, 111u8, 102u8] ==> found == Tok::TypeOf,
        text == seq![118u8, 97u8, 114u8] ==> found == Tok::Var,
        text == seq![118u8, 111u8, 105u8, 100u8] ==> found == Tok::Void,
        text == seq![119u8, 104u8, 105u8, 108u8, 101u8] ==> found == Tok::While,
        text == seq![119u8, 105u8, 116u8, 104u8] ==> found == Tok::With,
        text == seq![121u8, 105u8, 101u8, 108u8, 100u8] ==> found == Tok::Yield,
{
    if text == seq![97u8, 119u8, 97u8, 105u8, 116u8] {
        if found != Tok::Ident {
            law_keyword_spelling_injective(Tok::Await, found);
        } else {
            assert(keyword_spelling(Tok::Await) == Some(text));
        }
    }
    if text == seq![98u8, 114u8, 101u8, 97u8, 107u8] {
        if found != Tok::Ident {
            law_keyword_spelling_injective(Tok::Break, found);
        } else {
            assert(keyword_spelling(Tok::Break) == Some(text));
        }
    }
    if text == seq![99u8, 97u8, 115u8, 101u8] {
        if found != Tok::Ident {
            law_keyword_spelling_injective(Tok::Case, found);
        } else {
            assert(keyword_spelling(Tok::Case) == Some(text));
        }
    }
    if text == seq![99u8, 97u8, 116u8, 99u8, 104u8] {
        if found != Tok::Ident {
            law_keyword_spelling_injective(Tok::Catch, found);
        } else {
            assert(keyword_spelling(Tok::Catch) == Some(text));
        }
    }
    if text == seq![99u8, 108u8, 97u8, 115u8, 115u8] {
        if found != Tok::Ident {
            law_keyword_spelling_injective(Tok::Class, found);
        } else {
            assert(keyword_spelling(Tok::Class) == Some(text));
        }
    }
    if text == seq![99u8, 111u8, 110u8, 115u8, 116u8] {
        if found != Tok::Ident {
            law_keyword_spelling_injective(Tok::Const, found);
        } else {
            assert(keyword_spelling(Tok::Const) == Some(text));
        }
    }
    if text == seq![99u8, 111u8, 110u8, 116u8, 105u8, 110u8, 117u8, 101u8] {
        if found != Tok::Ident {
            law_keyword_spelling_injective(Tok::Continue, found);
        } else {
            assert(keyword_spelling(Tok::Continue) == Some(text));
        }
    }
    if text == seq![100u8, 101u8, 98u8, 117u8, 103u8, 103u8, 101u8, 114u8] {
        if found != Tok::Ident {
            law_keyword_spelling_injective(Tok::Debugger, found);
        } else {
            assert(keyword_spelling(Tok::Debugger) == Some(text));
        }
    }
    if text == seq![100u8, 101u8, 102u8, 97u8, 117u8, 108u8, 116u8] {
        if found != Tok::Ident {
            law_keyword_spelling_injective(Tok::Default, found);
        } else {
            assert(keyword_spelling(Tok::Default) == Some(text));
        }
    }
    if text == seq![100u8, 101u8, 108u8, 101u8, 116u8, 101u8] {
        if found != Tok::Ident {
            law_keyword_spelling_injective(Tok::Delete, found);
        } else {
            assert(keyword_spelling(Tok::Delete) == Some(text));
        }
    }
    if text == seq![100u8, 111u8] {
        if found != Tok::Ident {
            law_keyword_spelling_injective(Tok::Do, found);
        } else {
            assert(keyword_spelling(Tok::Do) == Some(text));
        }
    }
    if text == seq![101u8, 108u8, 115u8, 101u8] {
        if found != Tok::Ident {
            law_keyword_spelling_injective(Tok::Else, found);
        } else {
            assert(keyword_spelling(Tok::Else) == Some(text));
        }
    }
    if text == seq![101u8, 120u8, 112u8, 111u8, 114u8, 116u8] {
        if found != Tok::Ident {
            law_keyword_spelling_injective(Tok::Export, found);
        } else {
            assert(keyword_spelling(Tok::Export) == Some(text));
        }
    }
    if text == seq![101u8, 120u8, 116u8, 101u8, 110u8, 100u8, 115u8] {
        if found != Tok::Ident {
            law_keyword_spelling_injective(Tok::Extends, found);
        } else {
            assert(keyword_spelling(Tok::Extends) == Some(text));
        }
    }
    if text == seq![102u8, 105u8, 110u8, 97u8, 108u8, 108u8, 121u8] {
        if found != Tok::Ident {
            law_keyword_spelling_injective(Tok::Finally, found);
        } else {
            assert(keyword_spelling(Tok::Finally) == Some(text));
        }
    }
    if text == seq![102u8, 111u8, 114u8] {
        if found != Tok::Ident {
            law_keyword_spelling_injective(Tok::For, found);
        } else {
            assert(keyword_spelling(Tok::For) == Some(text));
        }
    }
    if text == seq![102u8, 117u8, 110u8, 99u8, 116u8, 105u8, 111u8, 110u8] {
        if found != Tok::Ident {
            law_keyword_spelling_injective(Tok::Function, found);
        } else {
            assert(keyword_spelling(Tok::Function) == Some(text));
        }
    }
    if text == seq![105u8, 102u8] {
        if found != Tok::Ident {
            law_keyword_spelling_injective(Tok::If, found);
        } else {
            assert(keyword_spelling(Tok::If) == Some(text));
        }
    }
    if text == seq![105u8, 109u8, 112u8, 111u8, 114u8, 116u8] {
        if found != Tok::Ident {
            law_keyword_spelling_injective(Tok::Import, found);
        } else {
            assert(keyword_spelling(Tok::Import) == Some(text));
        }
    }
    if text == seq![105u8, 110u8] {
        if found != Tok::Ident {
            law_keyword_spelling_injective(Tok::In, found);
        } else {
            assert(keyword_spelling(Tok::In) == Some(text));
        }
    }
    if text == seq![105u8, 110u8, 115u8, 116u8, 97u8, 110u8, 99u8, 101u8, 111u8, 102u8] {
        if found != Tok::Ident {
            law_keyword_spelling_injective(Tok::InstanceOf, found);
        } else {
            assert(keyword_spelling(Tok::InstanceOf) == Some(text));
        }
    }
    if text == seq![110u8, 101u8, 119u8] {
        if found != Tok::Ident {
            law_keyword_spelling_injective(Tok::New, found);
        } else {
            assert(keyword_spelling(Tok::New) == Some(text));
        }
    }
    if text == seq![114u8, 101u8, 116u8, 117u8, 114u8, 110u8] {
        if found != Tok::Ident {
            law_keyword_spelling_injective(Tok::Return, found);
        } else {
            assert(keyword_spelling(Tok::Return) == Some(text));
        }
    }
    if text == seq![115u8, 117u8, 112u8, 101u8, 114u8] {
        if found != Tok::Ident {
            law_keyword_spelling_injective(Tok::Super, found);
        } else {
            assert(keyword_spelling(Tok::Super) == Some(text));
        }
    }
    if text == seq![115u8, 119u8, 105u8, 116u8, 99u8, 104u8] {
        if found != Tok::Ident {
            law_keyword_spelling_injective(Tok::Switch, found);
        } else {
            assert(keyword_spelling(Tok::Switch) == Some(text));
        }
    }
    if text == seq![116u8, 104u8, 105u8, 115u8] {
        if found != Tok::Ident {
            law_keyword_spelling_injective(Tok::This, found);
        } else {
            assert(keyword_spelling(Tok::This) == Some(text));
        }
    }
    if text == seq![116u8, 104u8, 114u8, 111u8, 119u8] {
        if found != Tok::Ident {
            law_keyword_spelling_injective(Tok::Throw, found);
        } else {
            assert(keyword_spelling(Tok::Throw) == Some(text));
        }
    }
    if text == seq![116u8, 114u8, 121u8] {
        if found != Tok::Ident {
            law_keyword_spelling_injective(Tok::Try, found);
        } else {
            assert(keyword_spelling(Tok::Try) == Some(text));
        }
    }
    if text == seq![116u8, 121u8, 112u8, 101u8, 111u8, 102u8] {
        if found != Tok::Ident {
            law_keyword_spelling_injective(Tok::TypeOf, found);
        } else {
            assert(keyword_spelling(Tok::TypeOf) == Some(text));
        }
    }
    if text == seq![118u8, 97u8, 114u8] {
        if found != Tok::Ident {
            law_keyword_spelling_injective(Tok::Var, found);
        } else {
            assert(keyword_spelling(Tok::Var) == Some(text));
        }
    }
    if text == seq![118u8, 111u8, 105u8, 100u8] {
        if found != Tok::Ident {
            law_keyword_spelling_injective(Tok::Void, found);
        } else {
            assert(keyword_spelling(Tok::Void) == Some(text));
        }
    }
    if text == seq![119u8, 104u8, 105u8, 108u8, 101u8] {
        if found != Tok::Ident {
            law_keyword_spelling_injective(Tok::While, found);
        } else {
            assert(keyword_spelling(Tok::While) == Some(text));
        }
    }
    if text == seq![119u8, 105u8, 116u8, 104u8] {
        if found != Tok::Ident {
            law_keyword_spelling_injective(Tok::With, found);
        } else {
            assert(keyword_spelling(Tok::With) == Some(text));
        }
    }
    if text == seq![121u8, 105u8, 101u8, 108u8, 100u8] {
        if found != Tok::Ident {
            law_keyword_spelling_injective(Tok::Yield, found);
        } else {
            assert(keyword_spelling(Tok::Yield) == Some(text));
        }
    }
}

/// The lookup finds a reserved word only for one of the spellings listed in
/// `law_kw_table`.
pub proof fn law_kw_only_keywords(text: Seq<u8>, found: Tok)
    requires
        kw_found(text, found),
    ensures
        found != Tok::Ident ==> (text == seq![97u8, 119u8, 97u8, 105u8, 116u8] || text == seq![98u8, 114u8, 101u8, 97u8, 107u8] || text == seq![99u8, 97u8, 115u8, 101u8] || text == seq![99u8, 97u8, 116u8, 99u8, 104u8] || text == seq![99u8, 108u8, 97u8, 115u8, 115u8] || text == seq![99u8, 111u8, 110u8, 115u8, 116u8] || text == seq![99u8, 111u8, 110u8, 116u8, 105u8, 110u8, 117u8, 101u8] || text == seq![100u8, 101u8, 98u8, 117u8, 103u8, 103u8, 101u8, 114u8] || text == seq![100u8, 101u8, 102u8, 97u8, 117u8, 108u8, 116u8] || text == seq![100u8, 101u8, 108u8, 101u8, 116u8, 101u8] || text == seq![100u8, 111u8] || text == seq![101u8, 108u8, 115u8, 101u8] || text == seq![101u8, 120u8, 112u8, 111u8, 114u8, 116u8] || text == seq![101u8, 120u8, 116u8, 101u8, 110u8, 100u8, 115u8] || text == seq![102u8, 105u8, 110u8, 97u8, 108u8, 108u8, 121u8] || text == seq![102u8, 111u8, 114u8] || text == seq![102u8, 117u8, 110u8, 99u8, 116u8, 105u8, 111u8, 110u8] || text == seq![105u8, 102u8] || text == seq![105u8, 109u8, 112u8, 111u8, 114u8, 116u8] || text == seq![105u8, 110u8] || text == seq![105u8, 110u8, 115u8, 116u8, 97u8, 110u8, 99u8, 101u8, 111u8, 102u8] || text == seq![110u8, 101u8, 119u8] || text == seq![114u8, 101u8, 116u8, 117u8, 114u8, 110u8] || text == seq![115u8, 117u8, 112u8, 101u8, 114u8] || text == seq![115u8, 119u8, 105u8, 116u8, 99u8, 104u8] || text == seq![116u8, 104u8, 105u8, 115u8] || text == seq![116u8, 104u8, 114u8, 111u8, 119u8] || text == seq![116u8, 114u8, 121u8] || text == seq![116u8, 121u8, 112u8, 101u8, 111u8, 102u8] || text == seq![118u8, 97u8, 114u8] || text == seq![118u8, 111u8, 105u8, 100u8] || text == seq![119u8, 104u8, 105u8, 108u8, 101u8] || text == seq![119u8, 105u8, 116u8, 104u8] || text == seq![121u8, 105u8, 101u8, 108u8, 100u8]),
{
    if found != Tok::Ident {
        assert(keyword_spelling(found) == Some(text));
    }
}

/// Tokens other than punctuators, by their first byte: 0 (the end of input) is the end
/// token, one past it; `"` (34) and `'` (39) open a string closed by the same quote;
/// an ASCII digit starts a number; a letter, `_`, `$` or a non-ASCII byte starts an
/// identifier that runs up to the first byte that cannot continue one.
pub proof fn law_sc_other_tokens(
    input: Seq<u8>,
    pos: int,
    r: Result<Tok, LexError>,
    end: int,
    old_data: TokData,
    new_data: TokData,
)
    requires
        0 <= pos <= input.len(),
        sc_accepts(input, pos),
        sc_scanned(input, pos, r, end, old_data, new_data),
    ensures
        byte_at(input, pos) == 0 ==> scans_as(r, end, Tok::EOF, pos + 1) && new_data == old_data,
        byte_at(input, pos) == 34 ==> string_token(quoted_scan(input, pos + 1, '"'), r, end, old_data, new_data),
        byte_at(input, pos) == 39 ==> string_token(quoted_scan(input, pos + 1, '\''), r, end, old_data, new_data),
        48 <= byte_at(input, pos) <= 57 ==> r == Ok::<Tok, LexError>(Tok::Number) && new_data is Number,
        (65 <= byte_at(input, pos) <= 90 || 97 <= byte_at(input, pos) <= 122 || byte_at(input, pos) == 95
            || byte_at(input, pos) == 36 || byte_at(input, pos) >= 128) ==> {
            &&& r == Ok::<Tok, LexError>(Tok::Ident)
            &&& pos + 1 <= end
            &&& forall|j: int| pos + 1 <= j < end ==> {
                let c = #[trigger] byte_at(input, j);
                65 <= c <= 90 || 97 <= c <= 122 || 48 <= c <= 57 || c == 95 || c == 36 || c >= 128
            }
            &&& {
                let c = byte_at(input, end);
                !(65 <= c <= 90 || 97 <= c <= 122 || 48 <= c <= 57 || c == 95 || c == 36 || c >= 128)
            }
        },
{
    law_byte_classes(byte_at(input, pos));
    law_byte_classes(byte_at(input, end));
    if is_ident_start(byte_at(input, pos)) {
        assert forall|j: int| pos + 1 <= j < end implies {
            let c = #[trigger] byte_at(input, j);
            65 <= c <= 90 || 97 <= c <= 122 || 48 <= c <= 57 || c == 95 || c == 36 || c >= 128
        } by {
            law_byte_classes(byte_at(input, j));
            assert(is_ident_part(byte_at(input, j)));
        }
    }
}

/// The body of a regular expression literal, one step at a time: outside a class a `/`
/// (47) ends it just past; the end of input (0) or a line feed (10) panics; a backslash
/// (92) takes the next byte along; `[` (91) opens a class, and inside one `]` (93) closes
/// it and `/` is an ordinary byte.
pub proof fn law_regex_steps(input: Seq<u8>, i: int, in_class: bool)
    requires
        0 <= i < input.len(),
    ensures
        !in_class && byte_at(input, i) == 47 ==> regex_body_end(input, i, in_class) == Some(i + 1),
        byte_at(input, i) == 0 || byte_at(input, i) == 10 ==> regex_body_end(input, i, in_class) is None,
        byte_at(input, i) == 92 ==> regex_body_end(input, i, in_class) == regex_body_end(input, i + 2, in_class),
        !in_class && byte_at(input, i) == 91 ==> regex_body_end(input, i, in_class) == regex_body_end(input, i + 1, true),
        in_class && byte_at(input, i) == 93 ==> regex_body_end(input, i, in_class) == regex_body_end(input, i + 1, false),
        in_class && byte_at(input, i) == 47 ==> regex_body_end(input, i, in_class) == regex_body_end(input, i + 1, true),
        !(byte_at(input, i) == 47 || byte_at(input, i) == 0 || byte_at(input, i) == 10 || byte_at(input, i) == 92
            || byte_at(input, i) == 91 || byte_at(input, i) == 93) ==> regex_body_end(input, i, in_class)
            == regex_body_end(input, i + 1, in_class),
{
}

/// A template literal's body runs up to the first backtick (96).
pub proof fn law_template_end(input: Seq<u8>, pos: int)
    requires
        0 <= pos <= input.len(),
    ensures
        forall|j: int| pos <= j < template_end(input, pos) ==> #[trigger] byte_at(input, j) != 96,
        template_end(input, pos) < input.len() ==> byte_at(input, template_end(input, pos)) == 96,
        pos <= template_end(input, pos) <= input.len(),
{
    let p = |k: int| byte_at(input, k) == 96;
    lemma_first_from_covers(p, pos, input.len() as int, pos);
    assert forall|j: int| pos <= j < template_end(input, pos) implies #[trigger] byte_at(input, j) != 96 by {
        lemma_first_from_before(p, pos, input.len() as int, j);
    }
}

/// A `\u{...}` escape whose digits (after the `{`, 123) run up to a `}` (125) has their
/// value, most significant first, and ends just past the `}`.
pub proof fn law_unicode_brace_escape(input: Seq<u8>, pos: int, k: int)
    requires
        0 <= pos,
        pos + 1 <= k < input.len(),
        byte_at(input, pos) == 123,
        byte_at(input, k) == 125,
        forall|j: int| pos + 1 <= j < k ==> #[trigger] hex_digit(byte_at(input, j)) is Some,
        hex_value(input.subrange(pos + 1, k)) <= u32::MAX,
    ensures
        unicode_escape_scan(input, pos) == EscapeScan::Value(hex_value(input.subrange(pos + 1, k)), k + 1),
{
    let p = |j: int| hex_digit(byte_at(input, j)) is None;
    assert forall|j: int| pos + 1 <= j < k implies !#[trigger] p(j) by {
        assert(hex_digit(byte_at(input, j)) is Some);
    }
    law_hex_digits(125);
    lemma_first_from(p, pos + 1, input.len() as int, k);
    assert(span(input, pos + 1, k) =~= input.subrange(pos + 1, k));
}


/// The text of a decimal literal, one byte at a time: digits and `.` (46) go on; `e`
/// (101) or `E` (69) goes on, taking a directly following `+` (43) or `-` (45) along;
/// any other byte ends it.
pub proof fn law_decimal_steps(input: Seq<u8>, i: int)
    requires
        0 <= i < input.len(),
    ensures
        (48 <= input[i] <= 57 || input[i] == 46) ==> decimal_end(input, i) == decimal_end(input, i + 1),
        (input[i] == 101 || input[i] == 69) && (byte_at(input, i + 1) == 43 || byte_at(input, i + 1) == 45)
            ==> decimal_end(input, i) == decimal_end(input, i + 2),
        (input[i] == 101 || input[i] == 69) && !(byte_at(input, i + 1) == 43 || byte_at(input, i + 1) == 45)
            ==> decimal_end(input, i) == decimal_end(input, i + 1),
        !(48 <= input[i] <= 57 || input[i] == 46 || input[i] == 101 || input[i] == 69) ==> decimal_end(input, i) == i,
        decimal_end(input, input.len() as int) == input.len(),
{
}

/// A block comment that closes ends just past the first `*/` (42, 47) at or after its
/// start; one that does not close stops, with no `*/` before, on the end of input (a 0
/// byte), or just past a `*` that the end of input follows.
pub proof fn law_block_comment_closes(input: Seq<u8>, pos: int, r: Result<(), LexError>, end: int)
    requires
        0 <= pos <= input.len(),
        block_comment_scanned(input, pos, r, end),
    ensures
        r is Ok ==> pos + 2 <= end && byte_at(input, end - 2) == 42 && byte_at(input, end - 1) == 47,
        r is Ok ==> forall|j: int| pos <= j < end - 2 ==> !(#[trigger] byte_at(input, j) == 42 && byte_at(input, j + 1) == 47),
        r is Err ==> forall|j: int| pos <= j < end - 1 ==> !(#[trigger] byte_at(input, j) == 42 && byte_at(input, j + 1) == 47),
        r is Err ==> pos + 1 <= end && (byte_at(input, end - 1) == 0 || (byte_at(input, end - 1) == 42 && byte_at(input, end) == 0)),
{
    let p = |k: int| comment_stop(input, k);
    let k = block_comment_end(input, pos);
    lemma_first_from_covers(p, pos, input.len() as int, pos);
    assert forall|j: int| pos <= j < k implies !(#[trigger] byte_at(input, j) == 42 && byte_at(input, j + 1) == 47) by {
        lemma_first_from_before(p, pos, input.len() as int, j);
    }
    if k < input.len() {
        assert(p(k));
    }
}

} // verus!
