//! Hand-written sub-lexers, called by the token dispatcher.

use vstd::prelude::*;
use crate::lex::ascii::{
    CR, LF, SPACE, TAB, STAR, SLASH, DIGIT_0, DIGIT_9, UPPER_A, UPPER_E, UPPER_F, UPPER_Z, LOWER_A,
    LOWER_E, LOWER_F, LOWER_X, LOWER_Z, DOT, PLUS, MINUS, UNDERSCORE, DOLLAR, LBRACE, RBRACE,
    LOWER_B, LOWER_N, LOWER_R, LOWER_T, LOWER_U, LOWER_V, DQUOTE, SQUOTE, BACKSLASH, NUL, QUESTION,
    BACKTICK, LSQUARE, RSQUARE, LOWER_G, LOWER_I, LOWER_M,
};
use vstd::utf8::{is_scalar, valid_utf8, decode_utf8};
use vstd::pervasive::unreached;
use crate::lex::text::{char_from_u32, string_from_utf8};
use crate::lex::scanner::{Scanner, LexError, LexErrorKind, byte_at, adv, first_from, lemma_first_from,
    lemma_first_from_covers,
};

verus! {

/// Whitespace that the lexer skips between tokens.
pub open spec fn is_ws(b: u8) -> bool {
    b == 13 || b == 10 || b == 32 || b == 9
}

/// Line terminators, whose presence can trigger automatic semicolon insertion.
pub open spec fn is_newline(b: u8) -> bool {
    b == 13 || b == 10
}

/// Skipping whitespace from `from` stops at `end`, the first byte that is not whitespace,
/// and `saw_newline` says whether a line terminator was skipped.
pub open spec fn whitespace_scanned(input: Seq<u8>, from: int, end: int, saw_newline: bool) -> bool {
    &&& from <= end
    &&& forall|i: int| from <= i < end ==> is_ws(#[trigger] byte_at(input, i))
    &&& !is_ws(byte_at(input, end))
    &&& saw_newline == exists|i: int| from <= i < end && is_newline(#[trigger] byte_at(input, i))
}

/// Skips spaces, tabs and line breaks; says whether a line break was among them.
pub fn whitespace(it: &mut Scanner) -> (saw_newline: bool)
    requires
        old(it).wf(),
    ensures
        final(it).wf(),
        final(it).input == old(it).input,
        whitespace_scanned(old(it).input@, old(it).pos as int, final(it).pos as int, saw_newline),
{
    let mut saw_newline = false;
    loop
        invariant
            it.wf(),
            it.input == old(it).input,
            old(it).pos <= it.pos,
            forall|i: int| old(it).pos <= i < it.pos ==> is_ws(#[trigger] byte_at(old(it).input@, i)),
            saw_newline == exists|i: int|
                old(it).pos <= i < it.pos && is_newline(#[trigger] byte_at(old(it).input@, i)),
        decreases it.input@.len() + 1 - it.pos,
    {
        let c = it.peek();
        match c {
            CR => saw_newline = true,
            LF => saw_newline = true,
            SPACE => {},
            TAB => {},
            _ => return saw_newline,
        }
        it.next();
    }
}

/// Where a block comment's scan stops: at the end of input (a 0 byte), or at a `*` that is
/// followed by `/` or by the end of input.
pub open spec fn comment_stop(input: Seq<u8>, i: int) -> bool {
    ||| byte_at(input, i) == 0
    ||| byte_at(input, i) == STAR && (byte_at(input, i + 1) == SLASH || byte_at(input, i + 1) == 0)
}

/// The index at which a block comment whose body starts at `pos` stops.
pub open spec fn block_comment_end(input: Seq<u8>, pos: int) -> int {
    first_from(|i: int| comment_stop(input, i), pos, input.len() as int)
}

/// The result and final position of scanning a block comment body from `pos`: it closes
/// at the first `*/`, and the end of input before that is an error.
pub open spec fn block_comment_scanned(input: Seq<u8>, pos: int, r: Result<(), LexError>, end: int) -> bool {
    let k = block_comment_end(input, pos);
    &&& r is Ok <==> byte_at(input, k) == STAR && byte_at(input, k + 1) == SLASH
    &&& r is Ok ==> end == k + 2
    &&& r is Err ==> end == adv(input, k) && r == Err::<(), LexError>(
        LexError { kind: LexErrorKind::UnexpectedEof, at: end as usize },
    )
}

/// Skips the rest of a block comment whose opening `/*` has been read, up to and
/// including the closing `*/`.
pub fn block_comment(s: &mut Scanner) -> (r: Result<(), LexError>)
    requires
        old(s).wf(),
    ensures
        final(s).wf(),
        final(s).input == old(s).input,
        block_comment_scanned(old(s).input@, old(s).pos as int, r, final(s).pos as int),
{
    let ghost input = old(s).input@;
    let ghost p = |i: int| comment_stop(input, i);
    loop
        invariant
            s.wf(),
            s.input == old(s).input,
            input == s.input@,
            p == (|i: int| comment_stop(input, i)),
            old(s).pos <= s.pos,
            s.pos <= input.len() || s.pos == old(s).pos,
            forall|j: int| old(s).pos <= j < s.pos ==> !#[trigger] p(j),
        decreases s.input@.len() + 1 - s.pos,
    {
        let ghost k = s.pos as int;
        match s.read() {
            STAR => match s.peek() {
                SLASH => {
                    s.read();
                    proof {
                        lemma_first_from(p, old(s).pos as int, input.len() as int, k);
                    }
                    return Ok(());
                },
                0 => {
                    proof {
                        lemma_first_from(p, old(s).pos as int, input.len() as int, k);
                    }
                    return Err(s.err(LexErrorKind::UnexpectedEof));
                },
                _ => {},
            },
            0 => {
                proof {
                    lemma_first_from(p, old(s).pos as int, input.len() as int, k);
                }
                return Err(s.err(LexErrorKind::UnexpectedEof));
            },
            _ => {},
        }
        assert(!p(k));
    }
}

/// Where a line comment's scan stops: at a line feed or the end of input.
pub open spec fn line_stop(input: Seq<u8>, i: int) -> bool {
    byte_at(input, i) == 0 || byte_at(input, i) == LF
}

/// The index at which a line comment whose body starts at `pos` stops.
pub open spec fn line_comment_end(input: Seq<u8>, pos: int) -> int {
    first_from(|i: int| line_stop(input, i), pos, input.len() as int)
}

/// Where the scanner stands after a line comment whose body starts at `pos`: on the line
/// feed that ends it, or past the end of input.
pub open spec fn line_comment_stop(input: Seq<u8>, pos: int) -> int {
    let k = line_comment_end(input, pos);
    if byte_at(input, k) == LF {
        k
    } else {
        adv(input, k)
    }
}

/// Skips the rest of a line comment, leaving a terminating line feed unread so that
/// the whitespace scanner sees it.
pub fn line_comment(s: &mut Scanner)
    requires
        old(s).wf(),
    ensures
        final(s).wf(),
        final(s).input == old(s).input,
        final(s).pos == line_comment_stop(old(s).input@, old(s).pos as int),
{
    let ghost input = old(s).input@;
    let ghost p = |i: int| line_stop(input, i);
    loop
        invariant
            s.wf(),
            s.input == old(s).input,
            input == s.input@,
            p == (|i: int| line_stop(input, i)),
            old(s).pos <= s.pos,
            s.pos <= input.len() || s.pos == old(s).pos,
            forall|j: int| old(s).pos <= j < s.pos ==> !#[trigger] p(j),
        decreases s.input@.len() + 1 - s.pos,
    {
        let ghost k = s.pos as int;
        match s.read() {
            0 => {
                proof {
                    lemma_first_from(p, old(s).pos as int, input.len() as int, k);
                }
                return ;
            },
            LF => {
                s.back();
                proof {
                    lemma_first_from(p, old(s).pos as int, input.len() as int, k);
                }
                return ;
            },
            _ => {},
        }
        assert(!p(k));
    }
}

/// The value of a hexadecimal digit.
pub open spec fn hex_digit(c: u8) -> Option<u8> {
    if DIGIT_0 <= c <= DIGIT_9 {
        Some((c - DIGIT_0) as u8)
    } else if UPPER_A <= c <= UPPER_F {
        Some((10 + c - UPPER_A) as u8)
    } else if LOWER_A <= c <= LOWER_F {
        Some((10 + c - LOWER_A) as u8)
    } else {
        None
    }
}

/// The value of a hexadecimal digit, or `None` for any other byte.
pub fn digit_hex(c: u8) -> (r: Option<u8>)
    ensures
        r == hex_digit(c),
{
    if DIGIT_0 <= c && c <= DIGIT_9 {
        Some(c - DIGIT_0)
    } else if UPPER_A <= c && c <= UPPER_F {
        Some(10 + c - UPPER_A)
    } else if LOWER_A <= c && c <= LOWER_F {
        Some(10 + c - LOWER_A)
    } else {
        None
    }
}

/// The bytes from index `from` up to (not including) `to`, as a scanner reads them.
pub open spec fn span(input: Seq<u8>, from: int, to: int) -> Seq<u8> {
    Seq::new((to - from) as nat, |j: int| byte_at(input, from + j))
}

/// The value of a sequence of hexadecimal digits, most significant first.
pub open spec fn hex_value(digits: Seq<u8>) -> nat
    decreases digits.len(),
{
    if digits.len() == 0 {
        0
    } else {
        hex_value(digits.drop_last()) * 16 + match hex_digit(digits.last()) {
            Some(d) => d as nat,
            None => 0,
        }
    }
}

/// The index just past the run of hexadecimal digits that starts at `pos`.
pub open spec fn hex_run_end(input: Seq<u8>, pos: int) -> int {
    first_from(|i: int| hex_digit(byte_at(input, i)) is None, pos, input.len() as int)
}

/// A prefix of a digit sequence is worth no more than the whole sequence.
proof fn lemma_hex_value_prefix(digits: Seq<u8>, n: int)
    requires
        0 <= n <= digits.len(),
    ensures
        hex_value(digits.take(n)) <= hex_value(digits),
    decreases digits.len(),
{
    if n < digits.len() {
        lemma_hex_value_prefix(digits.drop_last(), n);
        assert(digits.drop_last().take(n) =~= digits.take(n));
    } else {
        assert(digits.take(n) =~= digits);
    }
}

/// Reads a run of hexadecimal digits and returns its value; the scanner stops just
/// past the run.
pub fn number_hex(scanner: &mut Scanner) -> (val: u64)
    requires
        old(scanner).wf(),
        hex_value(
            span(
                old(scanner).input@,
                old(scanner).pos as int,
                hex_run_end(old(scanner).input@, old(scanner).pos as int),
            ),
        ) <= u64::MAX,
    ensures
        final(scanner).wf(),
        final(scanner).input == old(scanner).input,
        ({
            let input = old(scanner).input@;
            let k = hex_run_end(input, old(scanner).pos as int);
            &&& final(scanner).pos == adv(input, k) - 1
            &&& val == hex_value(span(input, old(scanner).pos as int, k))
        }),
{
    let ghost input = old(scanner).input@;
    let ghost start = old(scanner).pos as int;
    let ghost p = |i: int| hex_digit(byte_at(input, i)) is None;
    let ghost k = hex_run_end(input, start);
    let ghost total = hex_value(span(input, start, k));
    let mut val: u64 = 0;
    loop
        invariant
            scanner.wf(),
            scanner.input == old(scanner).input,
            input == scanner.input@,
            p == (|i: int| hex_digit(byte_at(input, i)) is None),
            k == hex_run_end(input, start),
            total == hex_value(span(input, start, k)),
            total <= u64::MAX,
            start == old(scanner).pos,
            start <= scanner.pos,
            scanner.pos <= input.len() || scanner.pos == start,
            forall|j: int| start <= j < scanner.pos ==> !#[trigger] p(j),
            val == hex_value(span(input, start, scanner.pos as int)),
        decreases scanner.input@.len() + 1 - scanner.pos,
    {
        let ghost i = scanner.pos as int;
        let c = scanner.read();
        let digit = match digit_hex(c) {
            Some(d) => d as u64,
            None => {
                scanner.back();
                proof {
                    lemma_first_from(p, start, input.len() as int, i);
                }
                return val;
            },
        };
        proof {
            assert(!p(i));
            let s1 = span(input, start, i + 1);
            assert(s1.drop_last() =~= span(input, start, i));
            assert(hex_value(s1) == val * 16 + digit);
            assert forall|j: int| start <= j < i + 1 implies !#[trigger] p(j) by {
                if j < i {
                }
            }
            // the scan goes on past i, so the run ends at or after i + 1
            lemma_first_from_covers(p, start, input.len() as int, i + 1);
            lemma_hex_value_prefix(span(input, start, k), i + 1 - start);
            assert(span(input, start, k).take(i + 1 - start) =~= s1);
        }
        val = val * 16 + digit;
    }
}

/// Bytes that a decimal literal is made of, apart from its exponent part.
pub open spec fn is_decimal_part(b: u8) -> bool {
    DIGIT_0 <= b <= DIGIT_9 || b == DOT
}

/// The letters that start an exponent part.
pub open spec fn is_exponent_mark(b: u8) -> bool {
    b == LOWER_E || b == UPPER_E
}

/// The signs allowed right after an exponent mark.
pub open spec fn is_sign(b: u8) -> bool {
    b == PLUS || b == MINUS
}

/// The index just past the decimal literal text that starts at `i`: digits and dots,
/// and exponent marks, each optionally followed by a sign.
pub open spec fn decimal_end(input: Seq<u8>, i: int) -> int
    decreases input.len() - i,
{
    if i < 0 || i >= input.len() {
        i
    } else if is_decimal_part(input[i]) {
        decimal_end(input, i + 1)
    } else if is_exponent_mark(input[i]) {
        if is_sign(byte_at(input, i + 1)) {
            decimal_end(input, i + 2)
        } else {
            decimal_end(input, i + 1)
        }
    } else {
        i
    }
}

pub proof fn lemma_decimal_end_bounds(input: Seq<u8>, i: int)
    requires
        0 <= i <= input.len(),
    ensures
        i <= decimal_end(input, i) <= input.len(),
    decreases input.len() - i,
{
    if i < input.len() {
        if is_decimal_part(input[i]) {
            lemma_decimal_end_bounds(input, i + 1);
        } else if is_exponent_mark(input[i]) {
            if is_sign(byte_at(input, i + 1)) {
                lemma_decimal_end_bounds(input, i + 2);
            } else {
                lemma_decimal_end_bounds(input, i + 1);
            }
        }
    }
}

/// A numeric literal as the lexer finds it: a hexadecimal literal's value, or the text
/// of a decimal literal, whose value a float parser gives.
#[derive(Debug)]
pub enum NumberLit {
    Hex(u64),
    Decimal(Vec<u8>),
}

/// Whether the text at `pos` starts a hexadecimal literal (`0x`).
pub open spec fn starts_hex(input: Seq<u8>, pos: int) -> bool {
    byte_at(input, pos) == DIGIT_0 && byte_at(input, pos + 1) == LOWER_X
}

/// The literal and final position of scanning a number from `pos`: `0x` and hex digits,
/// or the text of a decimal literal.
pub open spec fn number_scanned(input: Seq<u8>, pos: int, lit: NumberLit, end: int) -> bool {
    if starts_hex(input, pos) {
        let k = hex_run_end(input, pos + 2);
        &&& lit == NumberLit::Hex(hex_value(span(input, pos + 2, k)) as u64)
        &&& end == adv(input, k) - 1
    } else {
        let e = decimal_end(input, pos);
        &&& lit matches NumberLit::Decimal(text) && text@ == input.subrange(pos, e)
        &&& end == e
    }
}

/// Whether a hexadecimal literal at `pos` has a value that fits in a `u64`
/// (as it must, or the digit loop overflows).
pub open spec fn hex_literal_fits(input: Seq<u8>, pos: int) -> bool {
    starts_hex(input, pos) ==> hex_value(span(input, pos + 2, hex_run_end(input, pos + 2))) <= u64::MAX
}

/// Reads a numeric literal that starts at the scanner's position.
pub fn number(scanner: &mut Scanner) -> (lit: NumberLit)
    requires
        old(scanner).wf(),
        old(scanner).pos <= old(scanner).input@.len(),
        hex_literal_fits(old(scanner).input@, old(scanner).pos as int),
    ensures
        final(scanner).wf(),
        final(scanner).input == old(scanner).input,
        number_scanned(old(scanner).input@, old(scanner).pos as int, lit, final(scanner).pos as int),
{
    let ghost input = old(scanner).input@;
    let start = scanner.pos;
    match scanner.read() {
        DIGIT_0 => match scanner.read() {
            LOWER_X => {
                let v = number_hex(scanner);
                return NumberLit::Hex(v);
            },
            _ => scanner.back(),
        },
        _ => scanner.back(),
    }
    loop
        invariant
            scanner.wf(),
            scanner.input == old(scanner).input,
            input == scanner.input@,
            start == old(scanner).pos,
            start <= scanner.pos <= input.len(),
            !starts_hex(input, start as int),
            decimal_end(input, scanner.pos as int) == decimal_end(input, start as int),
        ensures
            scanner.wf(),
            scanner.input == old(scanner).input,
            start <= scanner.pos <= input.len(),
            scanner.pos == decimal_end(input, start as int),
        decreases input.len() - scanner.pos,
    {
        let c = scanner.read();
        if (DIGIT_0 <= c && c <= DIGIT_9) || c == DOT {
        } else if c == LOWER_E || c == UPPER_E {
            let d = scanner.read();
            if d == PLUS || d == MINUS {
            } else {
                scanner.back();
            }
        } else {
            scanner.back();
            break ;
        }
    }
    let end = scanner.pos;
    proof {
        lemma_decimal_end_bounds(input, start as int);
    }
    let mut text: Vec<u8> = Vec::new();
    let mut i = start;
    while i < end
        invariant
            start <= i <= end <= input.len(),
            input == scanner.input@,
            text@ == input.subrange(start as int, i as int),
        decreases end - i,
    {
        text.push(scanner.input[i]);
        i = i + 1;
    }
    NumberLit::Decimal(text)
}

/// Bytes that continue an identifier: ASCII letters and digits, `_`, `$`, and any
/// non-ASCII byte.
pub open spec fn is_ident_part(b: u8) -> bool {
    ||| LOWER_A <= b <= LOWER_Z
    ||| UPPER_A <= b <= UPPER_Z
    ||| b == UNDERSCORE
    ||| b == DOLLAR
    ||| DIGIT_0 <= b <= DIGIT_9
    ||| b > 0x7f
}

/// Scanning identifier bytes from `from` stops at `end`: every byte in between continues an
/// identifier and the byte at `end` does not.
pub open spec fn ident_scanned(input: Seq<u8>, from: int, end: int) -> bool {
    &&& from <= end
    &&& forall|i: int| from <= i < end ==> is_ident_part(#[trigger] byte_at(input, i))
    &&& !is_ident_part(byte_at(input, end))
}

/// Skips the rest of an identifier.
pub fn ident(s: &mut Scanner)
    requires
        old(s).wf(),
    ensures
        final(s).wf(),
        final(s).input == old(s).input,
        ident_scanned(old(s).input@, old(s).pos as int, final(s).pos as int),
{
    loop
        invariant
            s.wf(),
            s.input == old(s).input,
            old(s).pos <= s.pos,
            forall|i: int| old(s).pos <= i < s.pos ==> is_ident_part(#[trigger] byte_at(old(s).input@, i)),
        decreases s.input@.len() + 1 - s.pos,
    {
        let c = s.peek();
        if (LOWER_A <= c && c <= LOWER_Z) || (UPPER_A <= c && c <= UPPER_Z) || c == UNDERSCORE
            || c == DOLLAR || (DIGIT_0 <= c && c <= DIGIT_9) || c > 0x7f {
        } else {
            return ;
        }
        s.next();
    }
}

/// What reading the digits of an escape gives: the code point and the position just past
/// the escape, the position at which a bad digit was read, or a value too large for
/// a `u32` (on which the digit loop would overflow).
pub enum EscapeScan {
    Value(nat, int),
    BadDigit(int),
    Overflow,
}

/// The digits of a `\u` escape that starts at `pos` (just after the `u`): either
/// `{` hex digits `}`, or exactly four hex digits.
pub open spec fn unicode_escape_scan(input: Seq<u8>, pos: int) -> EscapeScan {
    if byte_at(input, pos) == LBRACE {
        let k = hex_run_end(input, pos + 1);
        if hex_value(span(input, pos + 1, k)) > u32::MAX {
            EscapeScan::Overflow
        } else if byte_at(input, k) == RBRACE {
            EscapeScan::Value(hex_value(span(input, pos + 1, k)), k + 1)
        } else {
            EscapeScan::BadDigit(adv(input, k))
        }
    } else {
        let k = hex_run_end(input, pos);
        if k >= pos + 4 {
            EscapeScan::Value(hex_value(span(input, pos, pos + 4)), pos + 4)
        } else {
            EscapeScan::BadDigit(adv(input, k))
        }
    }
}

/// A bound on the value of `n` hex digits, for `n` up to four.
spec fn four_digit_bound(n: int) -> int {
    if n == 0 {
        1
    } else if n == 1 {
        16
    } else if n == 2 {
        256
    } else if n == 3 {
        4096
    } else {
        65536
    }
}

/// How an escape reader's result and final position follow from the scan of its digits.
pub open spec fn escape_outcome(scan: EscapeScan, r: Result<char, LexError>, end_pos: int) -> bool {
    match scan {
        EscapeScan::Value(v, end) => {
            &&& end_pos == end
            &&& is_scalar(v as u32) ==> (r matches Ok(c) && c as u32 == v)
            &&& !is_scalar(v as u32) ==> r == Err::<char, LexError>(
                LexError { kind: LexErrorKind::BadCodepoint(v as u32), at: end_pos as usize },
            )
        },
        EscapeScan::BadDigit(at) => {
            &&& end_pos == at
            &&& r == Err::<char, LexError>(
                LexError { kind: LexErrorKind::BadHexEscape, at: end_pos as usize },
            )
        },
        EscapeScan::Overflow => false,
    }
}

/// Reads the digits of a `\u` escape and returns the character they name.
fn unicode_escape(s: &mut Scanner) -> (r: Result<char, LexError>)
    requires
        old(s).wf(),
        old(s).pos <= old(s).input@.len(),
        !(unicode_escape_scan(old(s).input@, old(s).pos as int) is Overflow),
    ensures
        final(s).wf(),
        final(s).input == old(s).input,
        escape_outcome(unicode_escape_scan(old(s).input@, old(s).pos as int), r, final(s).pos as int),
{
    let ghost input = old(s).input@;
    let ghost start = old(s).pos as int;
    let mut codepoint: u32 = 0;
    match s.read() {
        LBRACE => {
            let ghost from = start + 1;
            let ghost p = |i: int| hex_digit(byte_at(input, i)) is None;
            let ghost k = hex_run_end(input, from);
            loop
                invariant_except_break
                    forall|j: int| from <= j < s.pos ==> !#[trigger] p(j),
                    codepoint == hex_value(span(input, from, s.pos as int)),
                invariant
                    s.wf(),
                    s.input == old(s).input,
                    input == s.input@,
                    p == (|i: int| hex_digit(byte_at(input, i)) is None),
                    k == hex_run_end(input, from),
                    hex_value(span(input, from, k)) <= u32::MAX,
                    from == start + 1,
                    start == old(s).pos,
                    byte_at(input, start) == LBRACE,
                    from <= s.pos <= input.len(),
                ensures
                    s.wf(),
                    s.input == old(s).input,
                    from <= s.pos,
                    s.pos == k + 1,
                    byte_at(input, k) == RBRACE,
                    codepoint == hex_value(span(input, from, k)),
                decreases input.len() - s.pos,
            {
                let ghost i = s.pos as int;
                let c = s.read();
                if c == RBRACE {
                    proof {
                        lemma_first_from(p, from, input.len() as int, i);
                    }
                    break ;
                }
                let digit = match digit_hex(c) {
                    Some(d) => d as u32,
                    None => {
                        proof {
                            lemma_first_from(p, from, input.len() as int, i);
                        }
                        return Err(s.err(LexErrorKind::BadHexEscape));
                    },
                };
                proof {
                    assert(!p(i));
                    let s1 = span(input, from, i + 1);
                    assert(s1.drop_last() =~= span(input, from, i));
                    assert(hex_value(s1) == codepoint * 16 + digit);
                    assert forall|j: int| from <= j < i + 1 implies !#[trigger] p(j) by {
                        if j < i {
                        }
                    }
                    lemma_first_from_covers(p, from, input.len() as int, i + 1);
                    lemma_hex_value_prefix(span(input, from, k), i + 1 - from);
                    assert(span(input, from, k).take(i + 1 - from) =~= s1);
                }
                codepoint = codepoint * 16 + digit;
            }
        },
        _ => {
            s.back();
            let ghost p = |i: int| hex_digit(byte_at(input, i)) is None;
            let mut n: usize = 0;
            while n < 4
                invariant
                    s.wf(),
                    s.input == old(s).input,
                    input == s.input@,
                    byte_at(input, start) != LBRACE,
                    start == old(s).pos,
                    p == (|i: int| hex_digit(byte_at(input, i)) is None),
                    n <= 4,
                    s.pos == start + n,
                    start + n <= input.len(),
                    forall|j: int| start <= j < s.pos ==> !#[trigger] p(j),
                    codepoint == hex_value(span(input, start, s.pos as int)),
                    codepoint < four_digit_bound(n as int),
                decreases 4 - n,
            {
                let ghost i = s.pos as int;
                let c = s.read();
                let digit = match digit_hex(c) {
                    Some(d) => d as u32,
                    None => {
                        proof {
                            lemma_first_from(p, start, input.len() as int, i);
                        }
                        return Err(s.err(LexErrorKind::BadHexEscape));
                    },
                };
                proof {
                    assert(!p(i));
                    let s1 = span(input, start, i + 1);
                    assert(s1.drop_last() =~= span(input, start, i));
                    assert(hex_value(s1) == codepoint * 16 + digit);
                    assert forall|j: int| start <= j < i + 1 implies !#[trigger] p(j) by {
                        if j < i {
                        }
                    }
                }
                codepoint = codepoint * 16 + digit;
                n = n + 1;
            }
            proof {
                lemma_first_from_covers(p, start, input.len() as int, start + 4);
            }
        },
    };
    match char_from_u32(codepoint) {
        Some(c) => Ok(c),
        None => Err(s.err(LexErrorKind::BadCodepoint(codepoint))),
    }
}

/// The two digits of a `\x` escape that starts at `pos` (just after the `x`).
pub open spec fn hex_escape_scan(input: Seq<u8>, pos: int) -> EscapeScan {
    match hex_digit(byte_at(input, pos)) {
        None => EscapeScan::BadDigit(adv(input, pos)),
        Some(d1) => match hex_digit(byte_at(input, pos + 1)) {
            None => EscapeScan::BadDigit(adv(input, pos + 1)),
            Some(d2) => EscapeScan::Value((d1 * 16 + d2) as nat, pos + 2),
        },
    }
}

/// Reads the two digits of a `\x` escape and returns the character they name.
fn hex_escape(s: &mut Scanner) -> (r: Result<char, LexError>)
    requires
        old(s).wf(),
        old(s).pos <= old(s).input@.len(),
    ensures
        final(s).wf(),
        final(s).input == old(s).input,
        escape_outcome(hex_escape_scan(old(s).input@, old(s).pos as int), r, final(s).pos as int),
{
    let c1 = match digit_hex(s.read()) {
        Some(d) => d as u32,
        None => return Err(s.err(LexErrorKind::BadHexEscape)),
    };
    let c2 = match digit_hex(s.read()) {
        Some(d) => d as u32,
        None => return Err(s.err(LexErrorKind::BadHexEscape)),
    };
    assert((c1 << 4u32) | c2 == c1 * 16 + c2) by (bit_vector)
        requires
            c1 < 16,
            c2 < 16,
    ;
    let codepoint = (c1 << 4u32) | c2;
    match char_from_u32(codepoint) {
        Some(c) => Ok(c),
        None => Err(s.err(LexErrorKind::BadCodepoint(codepoint))),
    }
}

/// The byte that a one-character escape (the byte after a backslash) stands for.
pub open spec fn simple_escape(d: u8) -> Option<u8> {
    if d == LOWER_B {
        Some(8u8)
    } else if d == LOWER_F {
        Some(12u8)
    } else if d == LOWER_N {
        Some(LF)
    } else if d == LOWER_R {
        Some(CR)
    } else if d == LOWER_T {
        Some(TAB)
    } else if d == LOWER_V {
        Some(11u8)
    } else if d == DQUOTE || d == SQUOTE || d == BACKSLASH || d == SLASH {
        Some(d)
    } else if d == DIGIT_0 {
        Some(NUL)
    } else {
        None
    }
}

/// The byte stored for a code point given by a `\u` or `\x` escape: the code point itself
/// when it is ASCII, and `?` otherwise.
pub open spec fn escaped_byte(v: nat) -> u8 {
    if v < 128 {
        v as u8
    } else {
        QUESTION
    }
}

/// How scanning a quoted string ends: with the string's bytes and the position just past
/// the closing quote, with an error and its position, or on a path where the scanner
/// panics (the input ends inside the string, or an escape's value overflows).
pub enum QuotedScan {
    Closed(Seq<u8>, int),
    Failed(LexErrorKind, int),
    Panics,
}

/// `r` with the byte sequence `acc` put in front of the string it closes with.
pub open spec fn with_prefix(acc: Seq<u8>, r: QuotedScan) -> QuotedScan {
    match r {
        QuotedScan::Closed(bytes, end) => QuotedScan::Closed(acc + bytes, end),
        other => other,
    }
}

/// Whether byte `c` is the closing quote character.
pub open spec fn is_quote(c: u8, quote: char) -> bool {
    c as u32 == quote as u32
}

/// An escape's digits end after they start and within one past the end of input.
pub proof fn lemma_escape_scan_end(input: Seq<u8>, pos: int)
    requires
        0 <= pos <= input.len(),
    ensures
        unicode_escape_scan(input, pos) matches EscapeScan::Value(v, end) ==> pos < end <= input.len() + 1,
        hex_escape_scan(input, pos) matches EscapeScan::Value(v, end) ==> pos < end <= input.len() + 1,
{
    let p = |i: int| hex_digit(byte_at(input, i)) is None;
    lemma_first_from_covers(p, pos, input.len() as int, pos);
    if pos + 1 <= input.len() {
        lemma_first_from_covers(p, pos + 1, input.len() as int, pos + 1);
    }
}

/// Scanning the body of a string from index `i` up to the closing quote.
pub open spec fn quoted_scan(input: Seq<u8>, i: int, quote: char) -> QuotedScan
    decreases input.len() + 1 - i,
{
    let c = byte_at(input, i);
    if is_quote(c, quote) {
        QuotedScan::Closed(Seq::empty(), adv(input, i))
    } else if c == 0 || i < 0 || i >= input.len() {
        QuotedScan::Panics
    } else if c == BACKSLASH {
        let d = byte_at(input, i + 1);
        match simple_escape(d) {
            Some(b) => with_prefix(seq![b], quoted_scan(input, i + 2, quote)),
            None => if d == LOWER_U || d == LOWER_X {
                let esc = if d == LOWER_U {
                    unicode_escape_scan(input, i + 2)
                } else {
                    hex_escape_scan(input, i + 2)
                };
                match esc {
                    EscapeScan::Value(v, end) => if !is_scalar(v as u32) {
                        QuotedScan::Failed(LexErrorKind::BadCodepoint(v as u32), end)
                    } else {
                        proof {
                            lemma_escape_scan_end(input, i + 2);
                        }
                        with_prefix(seq![escaped_byte(v)], quoted_scan(input, end, quote))
                    },
                    EscapeScan::BadDigit(at) => QuotedScan::Failed(LexErrorKind::BadHexEscape, at),
                    EscapeScan::Overflow => QuotedScan::Panics,
                }
            } else {
                QuotedScan::Failed(LexErrorKind::UnknownEscape(d), adv(input, i + 1))
            },
        }
    } else {
        with_prefix(seq![c], quoted_scan(input, i + 1, quote))
    }
}

proof fn lemma_with_prefix_push(acc: Seq<u8>, b: u8, r: QuotedScan)
    ensures
        with_prefix(acc, with_prefix(seq![b], r)) == with_prefix(acc.push(b), r),
{
    if let QuotedScan::Closed(bytes, end) = r {
        assert(acc + (seq![b] + bytes) =~= acc.push(b) + bytes);
    }
}

/// Reads the rest of a string literal whose opening quote has been read, up to and
/// including the closing `quote`, decoding escapes. A `\u` or `\x` escape outside ASCII
/// is stored as `?`.
pub fn quoted(s: &mut Scanner, quote: char) -> (r: Result<String, LexError>)
    requires
        old(s).wf(),
        !(quoted_scan(old(s).input@, old(s).pos as int, quote) is Panics),
    ensures
        final(s).wf(),
        final(s).input == old(s).input,
        match quoted_scan(old(s).input@, old(s).pos as int, quote) {
            QuotedScan::Closed(bytes, end) => {
                &&& final(s).pos == end
                &&& valid_utf8(bytes) ==> (r matches Ok(t) && t@ == decode_utf8(bytes))
                &&& !valid_utf8(bytes) ==> r == Err::<String, LexError>(
                    LexError { kind: LexErrorKind::BadUtf8, at: final(s).pos },
                )
            },
            QuotedScan::Failed(kind, at) => {
                &&& final(s).pos == at
                &&& r == Err::<String, LexError>(LexError { kind, at: final(s).pos })
            },
            QuotedScan::Panics => false,
        },
{
    let ghost input = old(s).input@;
    let ghost start = old(s).pos as int;
    let mut str: Vec<u8> = Vec::new();
    let quote_code = quote as u32;
    loop
        invariant_except_break
            with_prefix(str@, quoted_scan(input, s.pos as int, quote)) == quoted_scan(input, start, quote),
        invariant
            s.wf(),
            s.input == old(s).input,
            input == s.input@,
            start == old(s).pos,
            quote_code == quote as u32,
            !(quoted_scan(input, start, quote) is Panics),
        ensures
            s.wf(),
            s.input == old(s).input,
            quoted_scan(input, start, quote) == QuotedScan::Closed(str@, s.pos as int),
        decreases input.len() + 1 - s.pos,
    {
        let ghost i = s.pos as int;
        let c = s.read();
        if c as u32 == quote_code {
            proof {
                assert(str@ + Seq::<u8>::empty() =~= str@);
            }
            break ;
        }
        if c == NUL {
            return unreached();
        } else if c == BACKSLASH {
            let d = s.read();
            let b: u8 = match d {
                LOWER_B => 8,
                LOWER_F => 12,
                LOWER_N => LF,
                LOWER_R => CR,
                LOWER_T => TAB,
                LOWER_U => {
                    proof {
                        lemma_escape_scan_end(input, i + 2);
                    }
                    let e = unicode_escape(s)?;
                    let v = e as u32;
                    if v < 128 {
                        v as u8
                    } else {
                        QUESTION
                    }
                },
                LOWER_V => 11,
                LOWER_X => {
                    proof {
                        lemma_escape_scan_end(input, i + 2);
                    }
                    let e = hex_escape(s)?;
                    let v = e as u32;
                    if v < 128 {
                        v as u8
                    } else {
                        QUESTION
                    }
                },
                DQUOTE => DQUOTE,
                SQUOTE => SQUOTE,
                BACKSLASH => BACKSLASH,
                DIGIT_0 => NUL,
                SLASH => SLASH,
                _ => return Err(s.err(LexErrorKind::UnknownEscape(d))),
            };
            proof {
                assert(quoted_scan(input, i, quote) == with_prefix(seq![b], quoted_scan(input, s.pos as int, quote)));
                lemma_with_prefix_push(str@, b, quoted_scan(input, s.pos as int, quote));
            }
            str.push(b);
        } else {
            proof {
                assert(quoted_scan(input, i, quote) == with_prefix(seq![c], quoted_scan(input, s.pos as int, quote)));
                lemma_with_prefix_push(str@, c, quoted_scan(input, s.pos as int, quote));
            }
            str.push(c);
        }
    }
    match string_from_utf8(str) {
        Some(t) => Ok(t),
        None => Err(s.err(LexErrorKind::BadUtf8)),
    }
}

/// The index of the first backtick at or after `pos` (or the end of input if there is none).
pub open spec fn template_end(input: Seq<u8>, pos: int) -> int {
    first_from(|i: int| byte_at(input, i) == BACKTICK, pos, input.len() as int)
}

/// Reads the rest of a template literal whose opening backtick has been read, up to
/// and including the closing backtick; returns the text in between.
pub fn template(s: &mut Scanner) -> (r: Result<String, LexError>)
    requires
        old(s).wf(),
        byte_at(old(s).input@, template_end(old(s).input@, old(s).pos as int)) == BACKTICK,
    ensures
        final(s).wf(),
        final(s).input == old(s).input,
        ({
            let input = old(s).input@;
            let k = template_end(input, old(s).pos as int);
            let bytes = input.subrange(old(s).pos as int, k);
            &&& final(s).pos == k + 1
            &&& valid_utf8(bytes) ==> (r matches Ok(t) && t@ == decode_utf8(bytes))
            &&& !valid_utf8(bytes) ==> r == Err::<String, LexError>(
                LexError { kind: LexErrorKind::BadUtf8, at: final(s).pos },
            )
        }),
{
    let ghost input = old(s).input@;
    let ghost start = old(s).pos as int;
    let ghost p = |i: int| byte_at(input, i) == BACKTICK;
    let ghost k = template_end(input, start);
    let mut str: Vec<u8> = Vec::new();
    proof {
        lemma_first_from_covers(p, start, input.len() as int, start);
    }
    loop
        invariant_except_break
            start <= s.pos <= k < input.len(),
            forall|j: int| start <= j < s.pos ==> !#[trigger] p(j),
            str@ == input.subrange(start, s.pos as int),
        invariant
            s.wf(),
            s.input == old(s).input,
            input == s.input@,
            start == old(s).pos,
            p == (|i: int| byte_at(input, i) == BACKTICK),
            k == template_end(input, start),
            byte_at(input, k) == BACKTICK,
        ensures
            s.wf(),
            s.input == old(s).input,
            s.pos == k + 1,
            str@ == input.subrange(start, k),
        decreases input.len() - s.pos,
    {
        let ghost i = s.pos as int;
        let c = s.read();
        if c == BACKTICK {
            proof {
                lemma_first_from(p, start, input.len() as int, i);
            }
            break ;
        }
        proof {
            assert(!p(i));
            assert forall|j: int| start <= j < i + 1 implies !#[trigger] p(j) by {
                if j < i {
                }
            }
            lemma_first_from_covers(p, start, input.len() as int, i + 1);
            assert(input.subrange(start, i + 1) =~= input.subrange(start, i).push(c));
        }
        str.push(c);
    }
    match string_from_utf8(str) {
        Some(t) => Ok(t),
        None => Err(s.err(LexErrorKind::BadUtf8)),
    }
}

/// Where the body of a regular expression literal that is scanned from `i` ends: just
/// past the closing `/`, which does not count inside a `[...]` class or after a
/// backslash. `None` where the scanner panics: the input or the line ends first.
pub open spec fn regex_body_end(input: Seq<u8>, i: int, in_class: bool) -> Option<int>
    decreases input.len() + 1 - i,
{
    let c = byte_at(input, i);
    if !in_class && c == SLASH {
        Some(i + 1)
    } else if c == 0 || c == LF || i < 0 || i >= input.len() {
        None
    } else if c == BACKSLASH {
        regex_body_end(input, i + 2, in_class)
    } else if !in_class && c == LSQUARE {
        regex_body_end(input, i + 1, true)
    } else if in_class && c == RSQUARE {
        regex_body_end(input, i + 1, false)
    } else {
        regex_body_end(input, i + 1, in_class)
    }
}

/// Reads the body of a regular expression literal whose opening `/` has been read, up to
/// and including the closing `/`.
pub fn regex_body(s: &mut Scanner)
    requires
        old(s).wf(),
        regex_body_end(old(s).input@, old(s).pos as int, false) is Some,
    ensures
        final(s).wf(),
        final(s).input == old(s).input,
        Some(final(s).pos as int) == regex_body_end(old(s).input@, old(s).pos as int, false),
{
    let ghost input = old(s).input@;
    let ghost target = regex_body_end(input, old(s).pos as int, false);
    loop
        invariant_except_break
            regex_body_end(input, s.pos as int, false) == target,
        invariant
            s.wf(),
            s.input == old(s).input,
            input == s.input@,
            target == regex_body_end(input, old(s).pos as int, false),
            target is Some,
        ensures
            s.wf(),
            s.input == old(s).input,
            target == Some(s.pos as int),
        decreases input.len() + 1 - s.pos,
    {
        let ghost i = s.pos as int;
        let c = s.read();
        if c == SLASH {
            break ;
        } else if c == NUL {
            return unreached();
        } else if c == LF {
            return unreached();
        } else if c == BACKSLASH {
            s.read();
        } else if c == LSQUARE {
            loop
                invariant_except_break
                    regex_body_end(input, s.pos as int, true) == target,
                invariant
                    s.wf(),
                    s.input == old(s).input,
                    input == s.input@,
                    target is Some,
                    i < s.pos,
                ensures
                    s.wf(),
                    s.input == old(s).input,
                    regex_body_end(input, s.pos as int, false) == target,
                    i < s.pos,
                decreases input.len() + 1 - s.pos,
            {
                let d = s.read();
                if d == NUL {
                    return unreached();
                } else if d == LF {
                    return unreached();
                } else if d == BACKSLASH {
                    s.read();
                } else if d == RSQUARE {
                    break ;
                }
            }
        }
    }
}

/// Reads a regular expression literal whose opening `/` has been read: its body and the
/// flags (`g`, `i`, `m`) that follow.
pub fn regex(s: &mut Scanner)
    requires
        old(s).wf(),
        regex_body_end(old(s).input@, old(s).pos as int, false) is Some,
    ensures
        final(s).wf(),
        final(s).input == old(s).input,
        ({
            let input = old(s).input@;
            let body_end = regex_body_end(input, old(s).pos as int, false)->0;
            final(s).pos == regex_flags_end(input, body_end)
        }),
{
    regex_body(s);
    let ghost input = old(s).input@;
    let ghost from = s.pos as int;
    let ghost p = |i: int| !is_regex_flag(byte_at(input, i));
    proof {
        lemma_regex_body_end_bound(input, old(s).pos as int, false);
    }
    loop
        invariant
            s.wf(),
            s.input == old(s).input,
            input == s.input@,
            p == (|i: int| !is_regex_flag(byte_at(input, i))),
            from <= s.pos <= input.len(),
            forall|j: int| from <= j < s.pos ==> !#[trigger] p(j),
        ensures
            s.wf(),
            s.input == old(s).input,
            s.pos == regex_flags_end(input, from),
        decreases input.len() - s.pos,
    {
        let ghost i = s.pos as int;
        let c = s.read();
        if c == LOWER_G || c == LOWER_I || c == LOWER_M {
        } else {
            s.back();
            proof {
                lemma_first_from(p, from, input.len() as int, i);
            }
            break ;
        }
    }
}

/// The flags allowed after a regular expression literal.
pub open spec fn is_regex_flag(b: u8) -> bool {
    b == LOWER_G || b == LOWER_I || b == LOWER_M
}

/// The index just past the run of regular expression flags that starts at `from`.
pub open spec fn regex_flags_end(input: Seq<u8>, from: int) -> int {
    first_from(|i: int| !is_regex_flag(byte_at(input, i)), from, input.len() as int)
}

/// A regular expression body that is scanned from inside the input ends inside it.
proof fn lemma_regex_body_end_bound(input: Seq<u8>, i: int, in_class: bool)
    requires
        0 <= i,
        regex_body_end(input, i, in_class) is Some,
    ensures
        i < regex_body_end(input, i, in_class)->0 <= input.len(),
    decreases input.len() + 1 - i,
{
    let c = byte_at(input, i);
    if !in_class && c == SLASH {
    } else if c == 0 || c == LF || i >= input.len() {
    } else if c == BACKSLASH {
        lemma_regex_body_end_bound(input, i + 2, in_class);
    } else if !in_class && c == LSQUARE {
        lemma_regex_body_end_bound(input, i + 1, true);
    } else if in_class && c == RSQUARE {
        lemma_regex_body_end_bound(input, i + 1, false);
    } else {
        lemma_regex_body_end_bound(input, i + 1, in_class);
    }
}

/// Skipping whitespace where there is none moves nowhere and sees no line break, so a
/// second call right after a first does nothing.
pub proof fn law_whitespace_idempotent(input: Seq<u8>, from: int, end: int, saw_newline: bool)
    requires
        !is_ws(byte_at(input, from)),
        whitespace_scanned(input, from, end, saw_newline),
    ensures
        end == from,
        !saw_newline,
{
    if end > from {
        assert(is_ws(byte_at(input, from)));
    }
}

/// A line comment leaves the scanner on the line feed that ends it, where the whitespace
/// scanner then sees a line break; or else just past the end of input (or past a 0 byte).
pub proof fn law_line_comment_leaves_newline(input: Seq<u8>, pos: int, end: int, saw_newline: bool)
    requires
        0 <= pos <= input.len(),
        whitespace_scanned(input, line_comment_stop(input, pos), end, saw_newline),
    ensures
        byte_at(input, line_comment_stop(input, pos)) == LF ==> saw_newline,
        byte_at(input, line_comment_stop(input, pos)) != LF ==> byte_at(input, line_comment_stop(input, pos) - 1) == NUL,
{
    let p = |i: int| line_stop(input, i);
    let k = line_comment_end(input, pos);
    lemma_first_from_covers(p, pos, input.len() as int, pos);
    let stop = line_comment_stop(input, pos);
    if byte_at(input, stop) == LF {
        assert(is_ws(byte_at(input, stop)));
        assert(is_newline(byte_at(input, stop)));
    } else {
        if k < input.len() {
            assert(p(k));
        }
    }
}

/// A string body without backslashes, 0 bytes or the quote is taken verbatim: the string
/// is the bytes up to the closing quote, and the scan ends just past it.
pub proof fn law_quoted_plain_text(input: Seq<u8>, pos: int, quote: char, k: int)
    requires
        0 <= pos <= k < input.len(),
        is_quote(input[k], quote),
        forall|i: int|
            pos <= i < k ==> {
                let c = #[trigger] input[i];
                c != BACKSLASH && c != NUL && !is_quote(c, quote)
            },
    ensures
        quoted_scan(input, pos, quote) == QuotedScan::Closed(input.subrange(pos, k), k + 1),
    decreases k - pos,
{
    if pos < k {
        let c = input[pos];
        law_quoted_plain_text(input, pos + 1, quote, k);
        assert(seq![c] + input.subrange(pos + 1, k) =~= input.subrange(pos, k));
    } else {
        assert(input.subrange(pos, k) =~= Seq::<u8>::empty());
    }
}

/// Scanning a string body that closes ends past where it started.
pub proof fn lemma_quoted_scan_moves(input: Seq<u8>, i: int, quote: char)
    requires
        0 <= i <= input.len(),
    ensures
        quoted_scan(input, i, quote) matches QuotedScan::Closed(bytes, end) ==> end > i,
    decreases input.len() + 1 - i,
{
    let c = byte_at(input, i);
    if is_quote(c, quote) {
    } else if c == 0 || i >= input.len() {
    } else if c == BACKSLASH {
        let d = byte_at(input, i + 1);
        if simple_escape(d) is Some {
            if i + 2 <= input.len() {
                lemma_quoted_scan_moves(input, i + 2, quote);
            }
        } else if d == LOWER_U || d == LOWER_X {
            lemma_escape_scan_end(input, i + 2);
            let esc = if d == LOWER_U {
                unicode_escape_scan(input, i + 2)
            } else {
                hex_escape_scan(input, i + 2)
            };
            if let EscapeScan::Value(v, end) = esc {
                if is_scalar(v as u32) && end <= input.len() {
                    lemma_quoted_scan_moves(input, end, quote);
                }
            }
        }
    } else {
        lemma_quoted_scan_moves(input, i + 1, quote);
    }
}

} // verus!
