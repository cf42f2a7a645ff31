//! Tokens, the keyword table and the token dispatcher.

use vstd::prelude::*;
use vstd::utf8::{valid_utf8, decode_utf8};
use vstd::pervasive::unreached;
use crate::lex::scanner::{Scanner, LexError, LexErrorKind, byte_at, adv, lemma_first_from_covers};
use crate::lex::hand::{
    self, NumberLit, QuotedScan, quoted_scan, number_scanned, hex_literal_fits, block_comment_scanned,
    line_comment_stop, ident_scanned, lemma_quoted_scan_moves, lemma_decimal_end_bounds,
    starts_hex, comment_stop, line_stop, hex_digit,
};
use crate::lex::ascii::{
    NUL, BANG, DQUOTE, PERCENT, AMP, SQUOTE, LPAREN, RPAREN, STAR, PLUS, COMMA, MINUS, DOT, SLASH,
    COLON, SEMI, LESS, EQUALS, GREATER, QUESTION, LSQUARE, RSQUARE, CARET, LBRACE, PIPE, RBRACE,
    TILDE, DIGIT_0, DIGIT_9, UPPER_A, UPPER_Z, UNDERSCORE, DOLLAR, LOWER_Z, LOWER_A, LOWER_B, LOWER_C, LOWER_D, LOWER_E, LOWER_F, LOWER_G, LOWER_H, LOWER_I,
    LOWER_K, LOWER_L, LOWER_M, LOWER_N, LOWER_O, LOWER_P, LOWER_R, LOWER_S, LOWER_T, LOWER_U, LOWER_V,
    LOWER_W, LOWER_X, LOWER_Y,
};

verus! {

/// The kinds of token.
#[derive(Copy, Clone, Debug, PartialEq, Eq, Structural)]
pub enum Tok {
    EOF,
    LBrace,
    LParen,
    RParen,
    LSquare,
    RSquare,
    Dot,
    Ellipsis,
    Semi,
    Question,
    Colon,
    RBrace,
    Not,
    BNot,
    PlusPlus,
    MinusMinus,
    Eq,
    LT,
    GT,
    LTE,
    GTE,
    EqEq,
    NEq,
    EqEqEq,
    NEqEq,
    Plus,
    Minus,
    Star,
    Percent,
    StarStar,
    LTLT,
    GTGT,
    GTGTGT,
    BAnd,
    BOr,
    Xor,
    AndAnd,
    OrOr,
    PlusEq,
    MinusEq,
    StarEq,
    PercentEq,
    StarStarEq,
    LTLTEq,
    GTGTEq,
    GTGTGTEq,
    AndEq,
    OrEq,
    CaratEq,
    Div,
    DivEq,
    Comma,
    Await,
    Break,
    Case,
    Catch,
    Class,
    Const,
    Continue,
    Debugger,
    Default,
    Delete,
    Do,
    Else,
    Export,
    Extends,
    Finally,
    For,
    Function,
    If,
    Import,
    In,
    InstanceOf,
    New,
    Return,
    Super,
    Switch,
    This,
    Throw,
    Try,
    TypeOf,
    Var,
    Void,
    While,
    With,
    Yield,
    Comment,
    String,
    Number,
    Ident,
}

/// How a reserved word is spelled; `None` for tokens that are not reserved words.
pub open spec fn keyword_spelling(t: Tok) -> Option<Seq<u8>> {
    match t {
        Tok::Await => Some(seq![LOWER_A, LOWER_W, LOWER_A, LOWER_I, LOWER_T]),
        Tok::Break => Some(seq![LOWER_B, LOWER_R, LOWER_E, LOWER_A, LOWER_K]),
        Tok::Case => Some(seq![LOWER_C, LOWER_A, LOWER_S, LOWER_E]),
        Tok::Catch => Some(seq![LOWER_C, LOWER_A, LOWER_T, LOWER_C, LOWER_H]),
        Tok::Class => Some(seq![LOWER_C, LOWER_L, LOWER_A, LOWER_S, LOWER_S]),
        Tok::Const => Some(seq![LOWER_C, LOWER_O, LOWER_N, LOWER_S, LOWER_T]),
        Tok::Continue => Some(seq![LOWER_C, LOWER_O, LOWER_N, LOWER_T, LOWER_I, LOWER_N, LOWER_U, LOWER_E]),
        Tok::Debugger => Some(seq![LOWER_D, LOWER_E, LOWER_B, LOWER_U, LOWER_G, LOWER_G, LOWER_E, LOWER_R]),
        Tok::Default => Some(seq![LOWER_D, LOWER_E, LOWER_F, LOWER_A, LOWER_U, LOWER_L, LOWER_T]),
        Tok::Delete => Some(seq![LOWER_D, LOWER_E, LOWER_L, LOWER_E, LOWER_T, LOWER_E]),
        Tok::Do => Some(seq![LOWER_D, LOWER_O]),
        Tok::Else => Some(seq![LOWER_E, LOWER_L, LOWER_S, LOWER_E]),
        Tok::Export => Some(seq![LOWER_E, LOWER_X, LOWER_P, LOWER_O, LOWER_R, LOWER_T]),
        Tok::Extends => Some(seq![LOWER_E, LOWER_X, LOWER_T, LOWER_E, LOWER_N, LOWER_D, LOWER_S]),
        Tok::Finally => Some(seq![LOWER_F, LOWER_I, LOWER_N, LOWER_A, LOWER_L, LOWER_L, LOWER_Y]),
        Tok::For => Some(seq![LOWER_F, LOWER_O, LOWER_R]),
        Tok::Function => Some(seq![LOWER_F, LOWER_U, LOWER_N, LOWER_C, LOWER_T, LOWER_I, LOWER_O, LOWER_N]),
        Tok::If => Some(seq![LOWER_I, LOWER_F]),
        Tok::Import => Some(seq![LOWER_I, LOWER_M, LOWER_P, LOWER_O, LOWER_R, LOWER_T]),
        Tok::In => Some(seq![LOWER_I, LOWER_N]),
        Tok::InstanceOf => Some(seq![LOWER_I, LOWER_N, LOWER_S, LOWER_T, LOWER_A, LOWER_N, LOWER_C, LOWER_E, LOWER_O, LOWER_F]),
        Tok::New => Some(seq![LOWER_N, LOWER_E, LOWER_W]),
        Tok::Return => Some(seq![LOWER_R, LOWER_E, LOWER_T, LOWER_U, LOWER_R, LOWER_N]),
        Tok::Super => Some(seq![LOWER_S, LOWER_U, LOWER_P, LOWER_E, LOWER_R]),
        Tok::Switch => Some(seq![LOWER_S, LOWER_W, LOWER_I, LOWER_T, LOWER_C, LOWER_H]),
        Tok::This => Some(seq![LOWER_T, LOWER_H, LOWER_I, LOWER_S]),
        Tok::Throw => Some(seq![LOWER_T, LOWER_H, LOWER_R, LOWER_O, LOWER_W]),
        Tok::Try => Some(seq![LOWER_T, LOWER_R, LOWER_Y]),
        Tok::TypeOf => Some(seq![LOWER_T, LOWER_Y, LOWER_P, LOWER_E, LOWER_O, LOWER_F]),
        Tok::Var => Some(seq![LOWER_V, LOWER_A, LOWER_R]),
        Tok::Void => Some(seq![LOWER_V, LOWER_O, LOWER_I, LOWER_D]),
        Tok::While => Some(seq![LOWER_W, LOWER_H, LOWER_I, LOWER_L, LOWER_E]),
        Tok::With => Some(seq![LOWER_W, LOWER_I, LOWER_T, LOWER_H]),
        Tok::Yield => Some(seq![LOWER_Y, LOWER_I, LOWER_E, LOWER_L, LOWER_D]),
        _ => None,
    }
}

/// How a punctuator is spelled; `None` for tokens that are not punctuators.
pub open spec fn punct_spelling(t: Tok) -> Option<Seq<u8>> {
    match t {
        Tok::LBrace => Some(seq![LBRACE]),
        Tok::LParen => Some(seq![LPAREN]),
        Tok::RParen => Some(seq![RPAREN]),
        Tok::LSquare => Some(seq![LSQUARE]),
        Tok::RSquare => Some(seq![RSQUARE]),
        Tok::Dot => Some(seq![DOT]),
        Tok::Ellipsis => Some(seq![DOT, DOT, DOT]),
        Tok::Semi => Some(seq![SEMI]),
        Tok::Question => Some(seq![QUESTION]),
        Tok::Colon => Some(seq![COLON]),
        Tok::RBrace => Some(seq![RBRACE]),
        Tok::Not => Some(seq![BANG]),
        Tok::BNot => Some(seq![TILDE]),
        Tok::PlusPlus => Some(seq![PLUS, PLUS]),
        Tok::MinusMinus => Some(seq![MINUS, MINUS]),
        Tok::Eq => Some(seq![EQUALS]),
        Tok::LT => Some(seq![LESS]),
        Tok::GT => Some(seq![GREATER]),
        Tok::LTE => Some(seq![LESS, EQUALS]),
        Tok::GTE => Some(seq![GREATER, EQUALS]),
        Tok::EqEq => Some(seq![EQUALS, EQUALS]),
        Tok::NEq => Some(seq![BANG, EQUALS]),
        Tok::EqEqEq => Some(seq![EQUALS, EQUALS, EQUALS]),
        Tok::NEqEq => Some(seq![BANG, EQUALS, EQUALS]),
        Tok::Plus => Some(seq![PLUS]),
        Tok::Minus => Some(seq![MINUS]),
        Tok::Star => Some(seq![STAR]),
        Tok::Percent => Some(seq![PERCENT]),
        Tok::StarStar => Some(seq![STAR, STAR]),
        Tok::LTLT => Some(seq![LESS, LESS]),
        Tok::GTGT => Some(seq![GREATER, GREATER]),
        Tok::GTGTGT => Some(seq![GREATER, GREATER, GREATER]),
        Tok::BAnd => Some(seq![AMP]),
        Tok::BOr => Some(seq![PIPE]),
        Tok::Xor => Some(seq![CARET]),
        Tok::AndAnd => Some(seq![AMP, AMP]),
        Tok::OrOr => Some(seq![PIPE, PIPE]),
        Tok::PlusEq => Some(seq![PLUS, EQUALS]),
        Tok::MinusEq => Some(seq![MINUS, EQUALS]),
        Tok::StarEq => Some(seq![STAR, EQUALS]),
        Tok::PercentEq => Some(seq![PERCENT, EQUALS]),
        Tok::StarStarEq => Some(seq![STAR, STAR, EQUALS]),
        Tok::LTLTEq => Some(seq![LESS, LESS, EQUALS]),
        Tok::GTGTEq => Some(seq![GREATER, GREATER, EQUALS]),
        Tok::GTGTGTEq => Some(seq![GREATER, GREATER, GREATER, EQUALS]),
        Tok::AndEq => Some(seq![AMP, EQUALS]),
        Tok::OrEq => Some(seq![PIPE, EQUALS]),
        Tok::CaratEq => Some(seq![CARET, EQUALS]),
        Tok::Div => Some(seq![SLASH]),
        Tok::DivEq => Some(seq![SLASH, EQUALS]),
        Tok::Comma => Some(seq![COMMA]),
        _ => None,
    }
}

impl Tok {
    /// Whether the token is a reserved word.
    pub fn is_kw(&self) -> (r: bool)
        ensures
            r == keyword_spelling(*self) is Some,
    {
        match *self {
            Tok::EOF => false,
            Tok::LBrace => false,
            Tok::LParen => false,
            Tok::RParen => false,
            Tok::LSquare => false,
            Tok::RSquare => false,
            Tok::Dot => false,
            Tok::Ellipsis => false,
            Tok::Semi => false,
            Tok::Question => false,
            Tok::Colon => false,
            Tok::RBrace => false,
            Tok::Not => false,
            Tok::BNot => false,
            Tok::PlusPlus => false,
            Tok::MinusMinus => false,
            Tok::Eq => false,
            Tok::LT => false,
            Tok::GT => false,
            Tok::LTE => false,
            Tok::GTE => false,
            Tok::EqEq => false,
            Tok::NEq => false,
            Tok::EqEqEq => false,
            Tok::NEqEq => false,
            Tok::Plus => false,
            Tok::Minus => false,
            Tok::Star => false,
            Tok::Percent => false,
            Tok::StarStar => false,
            Tok::LTLT => false,
            Tok::GTGT => false,
            Tok::GTGTGT => false,
            Tok::BAnd => false,
            Tok::BOr => false,
            Tok::Xor => false,
            Tok::AndAnd => false,
            Tok::OrOr => false,
            Tok::PlusEq => false,
            Tok::MinusEq => false,
            Tok::StarEq => false,
            Tok::PercentEq => false,
            Tok::StarStarEq => false,
            Tok::LTLTEq => false,
            Tok::GTGTEq => false,
            Tok::GTGTGTEq => false,
            Tok::AndEq => false,
            Tok::OrEq => false,
            Tok::CaratEq => false,
            Tok::Div => false,
            Tok::DivEq => false,
            Tok::Comma => false,
            Tok::Await => true,
            Tok::Break => true,
            Tok::Case => true,
            Tok::Catch => true,
            Tok::Class => true,
            Tok::Const => true,
            Tok::Continue => true,
            Tok::Debugger => true,
            Tok::Default => true,
            Tok::Delete => true,
            Tok::Do => true,
            Tok::Else => true,
            Tok::Export => true,
            Tok::Extends => true,
            Tok::Finally => true,
            Tok::For => true,
            Tok::Function => true,
            Tok::If => true,
            Tok::Import => true,
            Tok::In => true,
            Tok::InstanceOf => true,
            Tok::New => true,
            Tok::Return => true,
            Tok::Super => true,
            Tok::Switch => true,
            Tok::This => true,
            Tok::Throw => true,
            Tok::Try => true,
            Tok::TypeOf => true,
            Tok::Var => true,
            Tok::Void => true,
            Tok::While => true,
            Tok::With => true,
            Tok::Yield => true,
            Tok::Comment => false,
            Tok::String => false,
            Tok::Number => false,
            Tok::Ident => false,
        }
    }
}

/// Whether two byte strings are equal.
fn same_bytes(text: &[u8], word: &[u8]) -> (r: bool)
    ensures
        r == (text@ == word@),
{
    if text.len() != word.len() {
        return false;
    }
    let mut i: usize = 0;
    while i < text.len()
        invariant
            text@.len() == word@.len(),
            i <= text@.len(),
            forall|j: int| 0 <= j < i ==> text@[j] == word@[j],
        decreases text@.len() - i,
    {
        if text[i] != word[i] {
            return false;
        }
        i = i + 1;
    }
    assert(text@ =~= word@);
    true
}

/// `t` is what looking `text` up among the reserved words finds: the reserved word that
/// `text` spells, or `Tok::Ident` when it spells none.
pub open spec fn kw_found(text: Seq<u8>, t: Tok) -> bool {
    &&& t != Tok::Ident ==> keyword_spelling(t) == Some(text)
    &&& t == Tok::Ident ==> forall|k: Tok| #[trigger] keyword_spelling(k) != Some(text)
}

/// The reserved word that `text` spells, or `Tok::Ident` when it spells none.
pub fn kw(text: &[u8]) -> (t: Tok)
    ensures
        kw_found(text@, t),
{
    match text.len() {
        2 => {
            if same_bytes(text, &[LOWER_D, LOWER_O]) {
                return Tok::Do;
            }
            if same_bytes(text, &[LOWER_I, LOWER_F]) {
                return Tok::If;
            }
            if same_bytes(text, &[LOWER_I, LOWER_N]) {
                return Tok::In;
            }
        },
        3 => {
            if same_bytes(text, &[LOWER_F, LOWER_O, LOWER_R]) {
                return Tok::For;
            }
            if same_bytes(text, &[LOWER_N, LOWER_E, LOWER_W]) {
                return Tok::New;
            }
            if same_bytes(text, &[LOWER_T, LOWER_R, LOWER_Y]) {
                return Tok::Try;
            }
            if same_bytes(text, &[LOWER_V, LOWER_A, LOWER_R]) {
                return Tok::Var;
            }
        },
        4 => {
            if same_bytes(text, &[LOWER_C, LOWER_A, LOWER_S, LOWER_E]) {
                return Tok::Case;
            }
            if same_bytes(text, &[LOWER_E, LOWER_L, LOWER_S, LOWER_E]) {
                return Tok::Else;
            }
            if same_bytes(text, &[LOWER_T, LOWER_H, LOWER_I, LOWER_S]) {
                return Tok::This;
            }
            if same_bytes(text, &[LOWER_V, LOWER_O, LOWER_I, LOWER_D]) {
                return Tok::Void;
            }
            if same_bytes(text, &[LOWER_W, LOWER_I, LOWER_T, LOWER_H]) {
                return Tok::With;
            }
        },
        5 => {
            if same_bytes(text, &[LOWER_A, LOWER_W, LOWER_A, LOWER_I, LOWER_T]) {
                return Tok::Await;
            }
            if same_bytes(text, &[LOWER_B, LOWER_R, LOWER_E, LOWER_A, LOWER_K]) {
                return Tok::Break;
            }
            if same_bytes(text, &[LOWER_C, LOWER_A, LOWER_T, LOWER_C, LOWER_H]) {
                return Tok::Catch;
            }
            if same_bytes(text, &[LOWER_C, LOWER_L, LOWER_A, LOWER_S, LOWER_S]) {
                return Tok::Class;
            }
            if same_bytes(text, &[LOWER_C, LOWER_O, LOWER_N, LOWER_S, LOWER_T]) {
                return Tok::Const;
            }
            if same_bytes(text, &[LOWER_S, LOWER_U, LOWER_P, LOWER_E, LOWER_R]) {
                return Tok::Super;
            }
            if same_bytes(text, &[LOWER_T, LOWER_H, LOWER_R, LOWER_O, LOWER_W]) {
                return Tok::Throw;
            }
            if same_bytes(text, &[LOWER_W, LOWER_H, LOWER_I, LOWER_L, LOWER_E]) {
                return Tok::While;
            }
            if same_bytes(text, &[LOWER_Y, LOWER_I, LOWER_E, LOWER_L, LOWER_D]) {
                return Tok::Yield;
            }
        },
        6 => {
            if same_bytes(text, &[LOWER_D, LOWER_E, LOWER_L, LOWER_E, LOWER_T, LOWER_E]) {
                return Tok::Delete;
            }
            if same_bytes(text, &[LOWER_E, LOWER_X, LOWER_P, LOWER_O, LOWER_R, LOWER_T]) {
                return Tok::Export;
            }
            if same_bytes(text, &[LOWER_I, LOWER_M, LOWER_P, LOWER_O, LOWER_R, LOWER_T]) {
                return Tok::Import;
            }
            if same_bytes(text, &[LOWER_R, LOWER_E, LOWER_T, LOWER_U, LOWER_R, LOWER_N]) {
                return Tok::Return;
            }
            if same_bytes(text, &[LOWER_S, LOWER_W, LOWER_I, LOWER_T, LOWER_C, LOWER_H]) {
                return Tok::Switch;
            }
            if same_bytes(text, &[LOWER_T, LOWER_Y, LOWER_P, LOWER_E, LOWER_O, LOWER_F]) {
                return Tok::TypeOf;
            }
        },
        7 => {
            if same_bytes(text, &[LOWER_D, LOWER_E, LOWER_F, LOWER_A, LOWER_U, LOWER_L, LOWER_T]) {
                return Tok::Default;
            }
            if same_bytes(text, &[LOWER_E, LOWER_X, LOWER_T, LOWER_E, LOWER_N, LOWER_D, LOWER_S]) {
                return Tok::Extends;
            }
            if same_bytes(text, &[LOWER_F, LOWER_I, LOWER_N, LOWER_A, LOWER_L, LOWER_L, LOWER_Y]) {
                return Tok::Finally;
            }
        },
        8 => {
            if same_bytes(text, &[LOWER_C, LOWER_O, LOWER_N, LOWER_T, LOWER_I, LOWER_N, LOWER_U, LOWER_E]) {
                return Tok::Continue;
            }
            if same_bytes(text, &[LOWER_D, LOWER_E, LOWER_B, LOWER_U, LOWER_G, LOWER_G, LOWER_E, LOWER_R]) {
                return Tok::Debugger;
            }
            if same_bytes(text, &[LOWER_F, LOWER_U, LOWER_N, LOWER_C, LOWER_T, LOWER_I, LOWER_O, LOWER_N]) {
                return Tok::Function;
            }
        },
        10 => {
            if same_bytes(text, &[LOWER_I, LOWER_N, LOWER_S, LOWER_T, LOWER_A, LOWER_N, LOWER_C, LOWER_E, LOWER_O, LOWER_F]) {
                return Tok::InstanceOf;
            }
        },
        _ => {},
    }
    return Tok::Ident;
}

/// What a token carries besides its kind: a string literal's text or a number literal.
#[derive(Debug)]
pub enum TokData {
    Empty,
    String(String),
    Number(NumberLit),
}

/// ASCII digits.
pub open spec fn is_digit(b: u8) -> bool {
    DIGIT_0 <= b <= DIGIT_9
}

/// Bytes that start an identifier: ASCII letters, `_`, `$`, and any non-ASCII byte.
pub open spec fn is_ident_start(b: u8) -> bool {
    ||| LOWER_A <= b <= LOWER_Z
    ||| UPPER_A <= b <= UPPER_Z
    ||| b == UNDERSCORE
    ||| b == DOLLAR
    ||| b > 0x7f
}

/// Bytes that start a punctuator (or, for `/`, a comment).
pub open spec fn is_punct_start(b: u8) -> bool {
    ||| b == BANG || b == PERCENT || b == AMP || b == LPAREN || b == RPAREN || b == STAR
    ||| b == PLUS || b == COMMA || b == MINUS || b == DOT || b == SLASH || b == COLON
    ||| b == SEMI || b == LESS || b == EQUALS || b == GREATER || b == QUESTION
    ||| b == LSQUARE || b == RSQUARE || b == CARET || b == LBRACE || b == PIPE
    ||| b == RBRACE || b == TILDE
}

/// Whether the bytes at `pos` spell `sp`, a spelling of one to four bytes.
pub open spec fn spelled_at(input: Seq<u8>, pos: int, sp: Seq<u8>) -> bool {
    &&& 1 <= sp.len() <= 4
    &&& byte_at(input, pos) == sp[0]
    &&& sp.len() > 1 ==> byte_at(input, pos + 1) == sp[1]
    &&& sp.len() > 2 ==> byte_at(input, pos + 2) == sp[2]
    &&& sp.len() > 3 ==> byte_at(input, pos + 3) == sp[3]
}

/// Whether `/` at `pos` opens a comment (`//` or `/*`).
pub open spec fn opens_comment(input: Seq<u8>, pos: int) -> bool {
    byte_at(input, pos) == SLASH && (byte_at(input, pos + 1) == SLASH || byte_at(input, pos + 1) == STAR)
}

/// Two dots not followed by a third, which no token spells.
pub open spec fn stray_dots(input: Seq<u8>, pos: int) -> bool {
    byte_at(input, pos) == DOT && byte_at(input, pos + 1) == DOT && byte_at(input, pos + 2) != DOT
}

/// `t` is the longest punctuator spelled at `pos`.
pub open spec fn longest_punct(input: Seq<u8>, pos: int, t: Tok) -> bool {
    &&& punct_spelling(t) is Some
    &&& spelled_at(input, pos, punct_spelling(t)->0)
    &&& forall|u: Tok| #[trigger]
        punct_spelling(u) is Some && spelled_at(input, pos, punct_spelling(u)->0) ==> punct_spelling(
            u,
        )->0.len() <= punct_spelling(t)->0.len()
}

/// The inputs on which the dispatcher returns: it panics on a byte that starts no token,
/// on two dots not followed by a third, on a string literal that the input ends inside,
/// and where a literal's value overflows.
pub open spec fn sc_accepts(input: Seq<u8>, pos: int) -> bool {
    let c = byte_at(input, pos);
    &&& c == NUL || c == DQUOTE || c == SQUOTE || is_punct_start(c) || is_digit(c) || is_ident_start(c)
    &&& !stray_dots(input, pos)
    &&& c == DQUOTE ==> !(quoted_scan(input, pos + 1, '"') is Panics)
    &&& c == SQUOTE ==> !(quoted_scan(input, pos + 1, '\'') is Panics)
    &&& is_digit(c) ==> hex_literal_fits(input, pos)
}

/// The token, final position and data of a string literal whose body is scanned as `scan`.
pub open spec fn string_token(
    scan: QuotedScan,
    r: Result<Tok, LexError>,
    end: int,
    old_data: TokData,
    new_data: TokData,
) -> bool {
    match scan {
        QuotedScan::Closed(bytes, close) => {
            &&& end == close
            &&& valid_utf8(bytes) ==> {
                &&& r == Ok::<Tok, LexError>(Tok::String)
                &&& new_data matches TokData::String(t) && t@ == decode_utf8(bytes)
            }
            &&& !valid_utf8(bytes) ==> {
                &&& r == Err::<Tok, LexError>(LexError { kind: LexErrorKind::BadUtf8, at: end as usize })
                &&& new_data == old_data
            }
        },
        QuotedScan::Failed(kind, at) => {
            &&& end == at
            &&& r == Err::<Tok, LexError>(LexError { kind, at: end as usize })
            &&& new_data == old_data
        },
        QuotedScan::Panics => false,
    }
}

/// A token result with the token dropped, as a block comment scan returns it.
pub open spec fn comment_result(r: Result<Tok, LexError>) -> Result<(), LexError> {
    match r {
        Ok(_) => Ok(()),
        Err(e) => Err(e),
    }
}

/// The result, final position and data of scanning one token at `pos`, by the kind of
/// token that its first byte starts.
pub open spec fn sc_scanned(
    input: Seq<u8>,
    pos: int,
    r: Result<Tok, LexError>,
    end: int,
    old_data: TokData,
    new_data: TokData,
) -> bool {
    let c = byte_at(input, pos);
    let same_data = new_data == old_data;
    &&& c == NUL ==> r == Ok::<Tok, LexError>(Tok::EOF) && end == adv(input, pos) && same_data
    &&& c == DQUOTE ==> string_token(quoted_scan(input, pos + 1, '"'), r, end, old_data, new_data)
    &&& c == SQUOTE ==> string_token(quoted_scan(input, pos + 1, '\''), r, end, old_data, new_data)
    &&& c == SLASH && byte_at(input, pos + 1) == STAR ==> {
        &&& block_comment_scanned(input, pos + 2, comment_result(r), end)
        &&& r is Ok ==> r == Ok::<Tok, LexError>(Tok::Comment)
        &&& same_data
    }
    &&& c == SLASH && byte_at(input, pos + 1) == SLASH ==> {
        &&& r == Ok::<Tok, LexError>(Tok::Comment)
        &&& end == line_comment_stop(input, pos + 2)
        &&& same_data
    }
    &&& is_digit(c) ==> {
        &&& r == Ok::<Tok, LexError>(Tok::Number)
        &&& new_data matches TokData::Number(lit) && number_scanned(input, pos, lit, end)
    }
    &&& is_ident_start(c) ==> {
        &&& r == Ok::<Tok, LexError>(Tok::Ident)
        &&& ident_scanned(input, pos + 1, end)
        &&& same_data
    }
    &&& is_punct_start(c) && !opens_comment(input, pos) ==> {
        &&& r matches Ok(t) && longest_punct(input, pos, t)
            && end == pos + punct_spelling(t)->0.len()
        &&& same_data
    }
}

/// Scans one token, which starts at the scanner's position (whitespace has been skipped).
/// A string or number token also stores its text or literal in `data`.
#[verifier::rlimit(40)]
pub fn sc(s: &mut Scanner, data: &mut TokData) -> (r: Result<Tok, LexError>)
    requires
        old(s).wf(),
        sc_accepts(old(s).input@, old(s).pos as int),
    ensures
        final(s).wf(),
        final(s).input == old(s).input,
        sc_scanned(old(s).input@, old(s).pos as int, r, final(s).pos as int, *old(data), *final(data)),
{
    let ghost input = old(s).input@;
    let ghost pos = old(s).pos as int;
    let c = s.read();
    let t = match c {
        NUL => Tok::EOF,
        BANG => match s.read() {
            EQUALS => match s.read() {
                EQUALS => Tok::NEqEq,
                _ => {
                    s.back();
                    Tok::NEq
                },
            },
            _ => {
                s.back();
                Tok::Not
            },
        },
        DQUOTE => {
            *data = TokData::String(hand::quoted(s, '"')?);
            Tok::String
        },
        PERCENT => match s.read() {
            EQUALS => Tok::PercentEq,
            _ => {
                s.back();
                Tok::Percent
            },
        },
        AMP => match s.read() {
            AMP => Tok::AndAnd,
            EQUALS => Tok::AndEq,
            _ => {
                s.back();
                Tok::BAnd
            },
        },
        SQUOTE => {
            *data = TokData::String(hand::quoted(s, '\'')?);
            Tok::String
        },
        LPAREN => Tok::LParen,
        RPAREN => Tok::RParen,
        STAR => match s.read() {
            STAR => match s.read() {
                EQUALS => Tok::StarStarEq,
                _ => {
                    s.back();
                    Tok::StarStar
                },
            },
            EQUALS => Tok::StarEq,
            _ => {
                s.back();
                Tok::Star
            },
        },
        PLUS => match s.read() {
            PLUS => Tok::PlusPlus,
            EQUALS => Tok::PlusEq,
            _ => {
                s.back();
                Tok::Plus
            },
        },
        COMMA => Tok::Comma,
        MINUS => match s.read() {
            MINUS => Tok::MinusMinus,
            EQUALS => Tok::MinusEq,
            _ => {
                s.back();
                Tok::Minus
            },
        },
        DOT => match s.read() {
            DOT => match s.read() {
                DOT => Tok::Ellipsis,
                _ => return unreached(),
            },
            _ => {
                s.back();
                Tok::Dot
            },
        },
        SLASH => match s.read() {
            STAR => {
                hand::block_comment(s)?;
                Tok::Comment
            },
            SLASH => {
                hand::line_comment(s);
                Tok::Comment
            },
            EQUALS => Tok::DivEq,
            _ => {
                s.back();
                Tok::Div
            },
        },
        COLON => Tok::Colon,
        SEMI => Tok::Semi,
        LESS => match s.read() {
            LESS => match s.read() {
                EQUALS => Tok::LTLTEq,
                _ => {
                    s.back();
                    Tok::LTLT
                },
            },
            EQUALS => Tok::LTE,
            _ => {
                s.back();
                Tok::LT
            },
        },
        EQUALS => match s.read() {
            EQUALS => match s.read() {
                EQUALS => Tok::EqEqEq,
                _ => {
                    s.back();
                    Tok::EqEq
                },
            },
            _ => {
                s.back();
                Tok::Eq
            },
        },
        GREATER => match s.read() {
            EQUALS => Tok::GTE,
            GREATER => match s.read() {
                EQUALS => Tok::GTGTEq,
                GREATER => match s.read() {
                    EQUALS => Tok::GTGTGTEq,
                    _ => {
                        s.back();
                        Tok::GTGTGT
                    },
                },
                _ => {
                    s.back();
                    Tok::GTGT
                },
            },
            _ => {
                s.back();
                Tok::GT
            },
        },
        QUESTION => Tok::Question,
        LSQUARE => Tok::LSquare,
        RSQUARE => Tok::RSquare,
        CARET => match s.read() {
            EQUALS => Tok::CaratEq,
            _ => {
                s.back();
                Tok::Xor
            },
        },
        LBRACE => Tok::LBrace,
        PIPE => match s.read() {
            EQUALS => Tok::OrEq,
            PIPE => Tok::OrOr,
            _ => {
                s.back();
                Tok::BOr
            },
        },
        RBRACE => Tok::RBrace,
        TILDE => Tok::BNot,
        _ => {
            if DIGIT_0 <= c && c <= DIGIT_9 {
                s.back();
                *data = TokData::Number(hand::number(s));
                Tok::Number
            } else if (LOWER_A <= c && c <= LOWER_Z) || (UPPER_A <= c && c <= UPPER_Z) || c == UNDERSCORE
                || c == DOLLAR || c > 127 {
                hand::ident(s);
                Tok::Ident
            } else {
                return unreached();
            }
        },
    };
    proof {
        if is_punct_start(c) && !opens_comment(input, pos) {
            assert forall|u: Tok| #[trigger]
                punct_spelling(u) is Some && spelled_at(input, pos, punct_spelling(u)->0) implies punct_spelling(
                u,
            )->0.len() <= punct_spelling(t)->0.len() by {
            }
        }
    }
    Ok(t)
}

/// The reserved word spelled `sp`, read off its bytes.
spec fn keyword_named(sp: Seq<u8>) -> Option<Tok> {
    if sp.len() == 5 && sp[0] == LOWER_A && sp[1] == LOWER_W && sp[2] == LOWER_A && sp[3] == LOWER_I && sp[4] == LOWER_T {
        Some(Tok::Await)
    } else if sp.len() == 5 && sp[0] == LOWER_B && sp[1] == LOWER_R && sp[2] == LOWER_E && sp[3] == LOWER_A && sp[4] == LOWER_K {
        Some(Tok::Break)
    } else if sp.len() == 4 && sp[0] == LOWER_C && sp[1] == LOWER_A && sp[2] == LOWER_S && sp[3] == LOWER_E {
        Some(Tok::Case)
    } else if sp.len() == 5 && sp[0] == LOWER_C && sp[1] == LOWER_A && sp[2] == LOWER_T && sp[3] == LOWER_C && sp[4] == LOWER_H {
        Some(Tok::Catch)
    } else if sp.len() == 5 && sp[0] == LOWER_C && sp[1] == LOWER_L && sp[2] == LOWER_A && sp[3] == LOWER_S && sp[4] == LOWER_S {
        Some(Tok::Class)
    } else if sp.len() == 5 && sp[0] == LOWER_C && sp[1] == LOWER_O && sp[2] == LOWER_N && sp[3] == LOWER_S && sp[4] == LOWER_T {
        Some(Tok::Const)
    } else if sp.len() == 8 && sp[0] == LOWER_C && sp[1] == LOWER_O && sp[2] == LOWER_N && sp[3] == LOWER_T && sp[4] == LOWER_I && sp[5] == LOWER_N && sp[6] == LOWER_U && sp[7] == LOWER_E {
        Some(Tok::Continue)
    } else if sp.len() == 8 && sp[0] == LOWER_D && sp[1] == LOWER_E && sp[2] == LOWER_B && sp[3] == LOWER_U && sp[4] == LOWER_G && sp[5] == LOWER_G && sp[6] == LOWER_E && sp[7] == LOWER_R {
        Some(Tok::Debugger)
    } else if sp.len() == 7 && sp[0] == LOWER_D && sp[1] == LOWER_E && sp[2] == LOWER_F && sp[3] == LOWER_A && sp[4] == LOWER_U && sp[5] == LOWER_L && sp[6] == LOWER_T {
        Some(Tok::Default)
    } else if sp.len() == 6 && sp[0] == LOWER_D && sp[1] == LOWER_E && sp[2] == LOWER_L && sp[3] == LOWER_E && sp[4] == LOWER_T && sp[5] == LOWER_E {
        Some(Tok::Delete)
    } else if sp.len() == 2 && sp[0] == LOWER_D && sp[1] == LOWER_O {
        Some(Tok::Do)
    } else if sp.len() == 4 && sp[0] == LOWER_E && sp[1] == LOWER_L && sp[2] == LOWER_S && sp[3] == LOWER_E {
        Some(Tok::Else)
    } else if sp.len() == 6 && sp[0] == LOWER_E && sp[1] == LOWER_X && sp[2] == LOWER_P && sp[3] == LOWER_O && sp[4] == LOWER_R && sp[5] == LOWER_T {
        Some(Tok::Export)
    } else if sp.len() == 7 && sp[0] == LOWER_E && sp[1] == LOWER_X && sp[2] == LOWER_T && sp[3] == LOWER_E && sp[4] == LOWER_N && sp[5] == LOWER_D && sp[6] == LOWER_S {
        Some(Tok::Extends)
    } else if sp.len() == 7 && sp[0] == LOWER_F && sp[1] == LOWER_I && sp[2] == LOWER_N && sp[3] == LOWER_A && sp[4] == LOWER_L && sp[5] == LOWER_L && sp[6] == LOWER_Y {
        Some(Tok::Finally)
    } else if sp.len() == 3 && sp[0] == LOWER_F && sp[1] == LOWER_O && sp[2] == LOWER_R {
        Some(Tok::For)
    } else if sp.len() == 8 && sp[0] == LOWER_F && sp[1] == LOWER_U && sp[2] == LOWER_N && sp[3] == LOWER_C && sp[4] == LOWER_T && sp[5] == LOWER_I && sp[6] == LOWER_O && sp[7] == LOWER_N {
        Some(Tok::Function)
    } else if sp.len() == 2 && sp[0] == LOWER_I && sp[1] == LOWER_F {
        Some(Tok::If)
    } else if sp.len() == 6 && sp[0] == LOWER_I && sp[1] == LOWER_M && sp[2] == LOWER_P && sp[3] == LOWER_O && sp[4] == LOWER_R && sp[5] == LOWER_T {
        Some(Tok::Import)
    } else if sp.len() == 2 && sp[0] == LOWER_I && sp[1] == LOWER_N {
        Some(Tok::In)
    } else if sp.len() == 10 && sp[0] == LOWER_I && sp[1] == LOWER_N && sp[2] == LOWER_S && sp[3] == LOWER_T && sp[4] == LOWER_A && sp[5] == LOWER_N && sp[6] == LOWER_C && sp[7] == LOWER_E && sp[8] == LOWER_O && sp[9] == LOWER_F {
        Some(Tok::InstanceOf)
    } else if sp.len() == 3 && sp[0] == LOWER_N && sp[1] == LOWER_E && sp[2] == LOWER_W {
        Some(Tok::New)
    } else if sp.len() == 6 && sp[0] == LOWER_R && sp[1] == LOWER_E && sp[2] == LOWER_T && sp[3] == LOWER_U && sp[4] == LOWER_R && sp[5] == LOWER_N {
        Some(Tok::Return)
    } else if sp.len() == 5 && sp[0] == LOWER_S && sp[1] == LOWER_U && sp[2] == LOWER_P && sp[3] == LOWER_E && sp[4] == LOWER_R {
        Some(Tok::Super)
    } else if sp.len() == 6 && sp[0] == LOWER_S && sp[1] == LOWER_W && sp[2] == LOWER_I && sp[3] == LOWER_T && sp[4] == LOWER_C && sp[5] == LOWER_H {
        Some(Tok::Switch)
    } else if sp.len() == 4 && sp[0] == LOWER_T && sp[1] == LOWER_H && sp[2] == LOWER_I && sp[3] == LOWER_S {
        Some(Tok::This)
    } else if sp.len() == 5 && sp[0] == LOWER_T && sp[1] == LOWER_H && sp[2] == LOWER_R && sp[3] == LOWER_O && sp[4] == LOWER_W {
        Some(Tok::Throw)
    } else if sp.len() == 3 && sp[0] == LOWER_T && sp[1] == LOWER_R && sp[2] == LOWER_Y {
        Some(Tok::Try)
    } else if sp.len() == 6 && sp[0] == LOWER_T && sp[1] == LOWER_Y && sp[2] == LOWER_P && sp[3] == LOWER_E && sp[4] == LOWER_O && sp[5] == LOWER_F {
        Some(Tok::TypeOf)
    } else if sp.len() == 3 && sp[0] == LOWER_V && sp[1] == LOWER_A && sp[2] == LOWER_R {
        Some(Tok::Var)
    } else if sp.len() == 4 && sp[0] == LOWER_V && sp[1] == LOWER_O && sp[2] == LOWER_I && sp[3] == LOWER_D {
        Some(Tok::Void)
    } else if sp.len() == 5 && sp[0] == LOWER_W && sp[1] == LOWER_H && sp[2] == LOWER_I && sp[3] == LOWER_L && sp[4] == LOWER_E {
        Some(Tok::While)
    } else if sp.len() == 4 && sp[0] == LOWER_W && sp[1] == LOWER_I && sp[2] == LOWER_T && sp[3] == LOWER_H {
        Some(Tok::With)
    } else if sp.len() == 5 && sp[0] == LOWER_Y && sp[1] == LOWER_I && sp[2] == LOWER_E && sp[3] == LOWER_L && sp[4] == LOWER_D {
        Some(Tok::Yield)
    } else {
        None
    }
}

/// No two reserved words are spelled alike.
pub proof fn law_keyword_spelling_injective(t1: Tok, t2: Tok)
    requires
        keyword_spelling(t1) is Some,
        keyword_spelling(t1) == keyword_spelling(t2),
    ensures
        t1 == t2,
{
    assert(keyword_named(keyword_spelling(t1)->0) == Some(t1));
    assert(keyword_named(keyword_spelling(t2)->0) == Some(t2));
}


/// Looking up a reserved word's spelling finds that reserved word.
pub proof fn law_kw_finds_keyword(t: Tok, found: Tok)
    requires
        keyword_spelling(t) is Some,
        kw_found(keyword_spelling(t)->0, found),
    ensures
        found == t,
{
    law_keyword_spelling_injective(t, found);
}

/// What the lookup finds is a reserved word exactly when it is not `Tok::Ident`, and a
/// reserved word's spelling found anew gives the same word.
pub proof fn law_kw_found_is_keyword(text: Seq<u8>, found: Tok)
    requires
        kw_found(text, found),
    ensures
        keyword_spelling(found) is Some <==> found != Tok::Ident,
        found != Tok::Ident ==> kw_found(keyword_spelling(found)->0, found),
{
    assert(keyword_spelling(Tok::Ident) is None);
    if found != Tok::Ident {
        assert forall|k: Tok| keyword_spelling(k) == Some(text) implies k == found by {
            law_keyword_spelling_injective(found, k);
        }
    }
}

/// No token is both a reserved word and a punctuator.
pub proof fn law_keywords_are_not_punctuators(t: Tok)
    ensures
        keyword_spelling(t) is Some ==> punct_spelling(t) is None,
{
}

/// At most one punctuator is the longest one spelled at a position: the dispatcher's
/// contract fixes the token it returns.
pub proof fn law_longest_punct_unique(input: Seq<u8>, pos: int, t1: Tok, t2: Tok)
    requires
        longest_punct(input, pos, t1),
        longest_punct(input, pos, t2),
    ensures
        t1 == t2,
{
    assert(punct_spelling(t1)->0.len() == punct_spelling(t2)->0.len());
    let sp1 = punct_spelling(t1)->0;
    let sp2 = punct_spelling(t2)->0;
    assert(sp1 =~= sp2);
    assert(punct_named(sp1) == Some(t1));
    assert(punct_named(sp2) == Some(t2));
}

/// The punctuator spelled `sp`, read off its bytes.
spec fn punct_named(sp: Seq<u8>) -> Option<Tok> {
    if sp.len() == 1 && sp[0] == LBRACE {
        Some(Tok::LBrace)
    } else if sp.len() == 1 && sp[0] == LPAREN {
        Some(Tok::LParen)
    } else if sp.len() == 1 && sp[0] == RPAREN {
        Some(Tok::RParen)
    } else if sp.len() == 1 && sp[0] == LSQUARE {
        Some(Tok::LSquare)
    } else if sp.len() == 1 && sp[0] == RSQUARE {
        Some(Tok::RSquare)
    } else if sp.len() == 1 && sp[0] == DOT {
        Some(Tok::Dot)
    } else if sp.len() == 3 && sp[0] == DOT && sp[1] == DOT && sp[2] == DOT {
        Some(Tok::Ellipsis)
    } else if sp.len() == 1 && sp[0] == SEMI {
        Some(Tok::Semi)
    } else if sp.len() == 1 && sp[0] == QUESTION {
        Some(Tok::Question)
    } else if sp.len() == 1 && sp[0] == COLON {
        Some(Tok::Colon)
    } else if sp.len() == 1 && sp[0] == RBRACE {
        Some(Tok::RBrace)
    } else if sp.len() == 1 && sp[0] == BANG {
        Some(Tok::Not)
    } else if sp.len() == 1 && sp[0] == TILDE {
        Some(Tok::BNot)
    } else if sp.len() == 2 && sp[0] == PLUS && sp[1] == PLUS {
        Some(Tok::PlusPlus)
    } else if sp.len() == 2 && sp[0] == MINUS && sp[1] == MINUS {
        Some(Tok::MinusMinus)
    } else if sp.len() == 1 && sp[0] == EQUALS {
        Some(Tok::Eq)
    } else if sp.len() == 1 && sp[0] == LESS {
        Some(Tok::LT)
    } else if sp.len() == 1 && sp[0] == GREATER {
        Some(Tok::GT)
    } else if sp.len() == 2 && sp[0] == LESS && sp[1] == EQUALS {
        Some(Tok::LTE)
    } else if sp.len() == 2 && sp[0] == GREATER && sp[1] == EQUALS {
        Some(Tok::GTE)
    } else if sp.len() == 2 && sp[0] == EQUALS && sp[1] == EQUALS {
        Some(Tok::EqEq)
    } else if sp.len() == 2 && sp[0] == BANG && sp[1] == EQUALS {
        Some(Tok::NEq)
    } else if sp.len() == 3 && sp[0] == EQUALS && sp[1] == EQUALS && sp[2] == EQUALS {
        Some(Tok::EqEqEq)
    } else if sp.len() == 3 && sp[0] == BANG && sp[1] == EQUALS && sp[2] == EQUALS {
        Some(Tok::NEqEq)
    } else if sp.len() == 1 && sp[0] == PLUS {
        Some(Tok::Plus)
    } else if sp.len() == 1 && sp[0] == MINUS {
        Some(Tok::Minus)
    } else if sp.len() == 1 && sp[0] == STAR {
        Some(Tok::Star)
    } else if sp.len() == 1 && sp[0] == PERCENT {
        Some(Tok::Percent)
    } else if sp.len() == 2 && sp[0] == STAR && sp[1] == STAR {
        Some(Tok::StarStar)
    } else if sp.len() == 2 && sp[0] == LESS && sp[1] == LESS {
        Some(Tok::LTLT)
    } else if sp.len() == 2 && sp[0] == GREATER && sp[1] == GREATER {
        Some(Tok::GTGT)
    } else if sp.len() == 3 && sp[0] == GREATER && sp[1] == GREATER && sp[2] == GREATER {
        Some(Tok::GTGTGT)
    } else if sp.len() == 1 && sp[0] == AMP {
        Some(Tok::BAnd)
    } else if sp.len() == 1 && sp[0] == PIPE {
        Some(Tok::BOr)
    } else if sp.len() == 1 && sp[0] == CARET {
        Some(Tok::Xor)
    } else if sp.len() == 2 && sp[0] == AMP && sp[1] == AMP {
        Some(Tok::AndAnd)
    } else if sp.len() == 2 && sp[0] == PIPE && sp[1] == PIPE {
        Some(Tok::OrOr)
    } else if sp.len() == 2 && sp[0] == PLUS && sp[1] == EQUALS {
        Some(Tok::PlusEq)
    } else if sp.len() == 2 && sp[0] == MINUS && sp[1] == EQUALS {
        Some(Tok::MinusEq)
    } else if sp.len() == 2 && sp[0] == STAR && sp[1] == EQUALS {
        Some(Tok::StarEq)
    } else if sp.len() == 2 && sp[0] == PERCENT && sp[1] == EQUALS {
        Some(Tok::PercentEq)
    } else if sp.len() == 3 && sp[0] == STAR && sp[1] == STAR && sp[2] == EQUALS {
        Some(Tok::StarStarEq)
    } else if sp.len() == 3 && sp[0] == LESS && sp[1] == LESS && sp[2] == EQUALS {
        Some(Tok::LTLTEq)
    } else if sp.len() == 3 && sp[0] == GREATER && sp[1] == GREATER && sp[2] == EQUALS {
        Some(Tok::GTGTEq)
    } else if sp.len() == 4 && sp[0] == GREATER && sp[1] == GREATER && sp[2] == GREATER && sp[3] == EQUALS {
        Some(Tok::GTGTGTEq)
    } else if sp.len() == 2 && sp[0] == AMP && sp[1] == EQUALS {
        Some(Tok::AndEq)
    } else if sp.len() == 2 && sp[0] == PIPE && sp[1] == EQUALS {
        Some(Tok::OrEq)
    } else if sp.len() == 2 && sp[0] == CARET && sp[1] == EQUALS {
        Some(Tok::CaratEq)
    } else if sp.len() == 1 && sp[0] == SLASH {
        Some(Tok::Div)
    } else if sp.len() == 2 && sp[0] == SLASH && sp[1] == EQUALS {
        Some(Tok::DivEq)
    } else if sp.len() == 1 && sp[0] == COMMA {
        Some(Tok::Comma)
    } else {
        None
    }
}


/// A token other than the end of input that is scanned successfully ends past where it
/// starts, so a loop that scans tokens one after another moves through the input.
pub proof fn law_sc_progress(
    input: Seq<u8>,
    pos: int,
    r: Result<Tok, LexError>,
    end: int,
    old_data: TokData,
    new_data: TokData,
)
    requires
        0 <= pos <= input.len(),
        sc_accepts(input, pos),
        sc_scanned(input, pos, r, end, old_data, new_data),
        r is Ok,
        byte_at(input, pos) != NUL,
    ensures
        pos < end,
{
    let c = byte_at(input, pos);
    if c == DQUOTE {
        lemma_quoted_scan_moves(input, pos + 1, '"');
    } else if c == SQUOTE {
        lemma_quoted_scan_moves(input, pos + 1, '\'');
    } else if c == SLASH && byte_at(input, pos + 1) == STAR {
        lemma_first_from_covers(|i: int| comment_stop(input, i), pos + 2, input.len() as int, pos + 2);
    } else if c == SLASH && byte_at(input, pos + 1) == SLASH {
        lemma_first_from_covers(|i: int| line_stop(input, i), pos + 2, input.len() as int, pos + 2);
    } else if is_digit(c) {
        if starts_hex(input, pos) {
            lemma_first_from_covers(
                |i: int| hex_digit(byte_at(input, i)) is None,
                pos + 2,
                input.len() as int,
                pos + 2,
            );
        } else {
            lemma_decimal_end_bounds(input, pos + 1);
        }
    }
}

/// The dispatcher writes the token data only for string and number tokens: any other
/// result, an error included, leaves the data as it was.
pub proof fn law_sc_data_untouched(
    input: Seq<u8>,
    pos: int,
    r: Result<Tok, LexError>,
    end: int,
    old_data: TokData,
    new_data: TokData,
)
    requires
        sc_accepts(input, pos),
        sc_scanned(input, pos, r, end, old_data, new_data),
    ensures
        r != Ok::<Tok, LexError>(Tok::String) && r != Ok::<Tok, LexError>(Tok::Number) ==> new_data
            == old_data,
{
}

} // verus!
