use jslex::lex::hand::NumberLit;
use jslex::lex::scan::{kw, sc, Tok, TokData};
use jslex::lex::scanner::{LexError, LexErrorKind, Scanner};

const KEYWORDS: [(&str, Tok); 34] = [
    ("await", Tok::Await),
    ("break", Tok::Break),
    ("case", Tok::Case),
    ("catch", Tok::Catch),
    ("class", Tok::Class),
    ("const", Tok::Const),
    ("continue", Tok::Continue),
    ("debugger", Tok::Debugger),
    ("default", Tok::Default),
    ("delete", Tok::Delete),
    ("do", Tok::Do),
    ("else", Tok::Else),
    ("export", Tok::Export),
    ("extends", Tok::Extends),
    ("finally", Tok::Finally),
    ("for", Tok::For),
    ("function", Tok::Function),
    ("if", Tok::If),
    ("import", Tok::Import),
    ("in", Tok::In),
    ("instanceof", Tok::InstanceOf),
    ("new", Tok::New),
    ("return", Tok::Return),
    ("super", Tok::Super),
    ("switch", Tok::Switch),
    ("this", Tok::This),
    ("throw", Tok::Throw),
    ("try", Tok::Try),
    ("typeof", Tok::TypeOf),
    ("var", Tok::Var),
    ("void", Tok::Void),
    ("while", Tok::While),
    ("with", Tok::With),
    ("yield", Tok::Yield),
];

#[test]
fn kw_finds_every_keyword() {
    for (text, tok) in KEYWORDS.iter() {
        assert_eq!(kw(text.as_bytes()), *tok);
        assert!(tok.is_kw());
    }
}

#[test]
fn kw_other_words_are_identifiers() {
    for text in ["", "x", "iff", "Do", "functions", "instanceo", "yields", "let"].iter() {
        assert_eq!(kw(text.as_bytes()), Tok::Ident);
    }
}

#[test]
fn is_kw_on_other_tokens() {
    for tok in [Tok::Ident, Tok::EOF, Tok::Plus, Tok::String, Tok::Number, Tok::Comment, Tok::Comma].iter() {
        assert!(!tok.is_kw());
    }
}

fn scan_one(input: &str) -> (Result<Tok, LexError>, usize, TokData) {
    let mut s = Scanner::new(input.as_bytes());
    let mut data = TokData::Empty;
    let r = sc(&mut s, &mut data);
    (r, s.pos, data)
}

#[test]
fn sc_takes_longest_punctuator() {
    let cases: [(&str, Tok, usize); 24] = [
        ("!x", Tok::Not, 1),
        ("!=x", Tok::NEq, 2),
        ("!==", Tok::NEqEq, 3),
        ("=>", Tok::Eq, 1),
        ("===", Tok::EqEqEq, 3),
        ("<<=", Tok::LTLTEq, 3),
        ("<<<", Tok::LTLT, 2),
        ("<=", Tok::LTE, 2),
        (">>>=", Tok::GTGTGTEq, 4),
        (">>>>", Tok::GTGTGT, 3),
        (">>=", Tok::GTGTEq, 3),
        (">=", Tok::GTE, 2),
        ("**=", Tok::StarStarEq, 3),
        ("***", Tok::StarStar, 2),
        ("&&=", Tok::AndAnd, 2),
        ("|=", Tok::OrEq, 2),
        ("||", Tok::OrOr, 2),
        ("^=", Tok::CaratEq, 2),
        ("++", Tok::PlusPlus, 2),
        ("-=", Tok::MinusEq, 2),
        ("...", Tok::Ellipsis, 3),
        (".5", Tok::Dot, 1),
        ("/=", Tok::DivEq, 2),
        ("/x", Tok::Div, 1),
    ];
    for (input, tok, end) in cases.iter() {
        let (r, pos, data) = scan_one(input);
        assert_eq!(r, Ok(*tok), "input {:?}", input);
        assert_eq!(pos, *end, "input {:?}", input);
        assert!(matches!(data, TokData::Empty));
    }
}

#[test]
fn sc_single_byte_punctuators() {
    let cases: [(&str, Tok); 12] = [
        ("{", Tok::LBrace),
        ("}", Tok::RBrace),
        ("(", Tok::LParen),
        (")", Tok::RParen),
        ("[", Tok::LSquare),
        ("]", Tok::RSquare),
        (";", Tok::Semi),
        (":", Tok::Colon),
        ("?", Tok::Question),
        (",", Tok::Comma),
        ("~", Tok::BNot),
        ("%", Tok::Percent),
    ];
    for (input, tok) in cases.iter() {
        assert_eq!(scan_one(input).0, Ok(*tok));
        assert_eq!(scan_one(input).1, 1);
    }
}

#[test]
fn sc_end_of_input() {
    let (r, pos, _) = scan_one("");
    assert_eq!(r, Ok(Tok::EOF));
    assert_eq!(pos, 1);
}

#[test]
fn sc_strings_store_their_text() {
    let (r, pos, data) = scan_one("'a\\tb' + 1");
    assert_eq!(r, Ok(Tok::String));
    assert_eq!(pos, 6);
    match data {
        TokData::String(t) => assert_eq!(t, "a\tb"),
        other => panic!("unexpected {:?}", other),
    }
    let (r, _, data) = scan_one("\"\\z\"");
    assert_eq!(r, Err(LexError { kind: LexErrorKind::UnknownEscape(b'z'), at: 3 }));
    assert!(matches!(data, TokData::Empty));
}

#[test]
fn sc_numbers_store_their_literal() {
    let (r, pos, data) = scan_one("0x10)");
    assert_eq!(r, Ok(Tok::Number));
    assert_eq!(pos, 4);
    assert!(matches!(data, TokData::Number(NumberLit::Hex(16))));
    let (r, pos, data) = scan_one("3.25;");
    assert_eq!(r, Ok(Tok::Number));
    assert_eq!(pos, 4);
    match data {
        TokData::Number(NumberLit::Decimal(text)) => assert_eq!(text, b"3.25".to_vec()),
        other => panic!("unexpected {:?}", other),
    }
}

#[test]
fn sc_identifiers_and_keywords() {
    let (r, pos, _) = scan_one("if (x)");
    assert_eq!(r, Ok(Tok::Ident));
    assert_eq!(pos, 2);
    let (r, pos, _) = scan_one("$el_2.x");
    assert_eq!(r, Ok(Tok::Ident));
    assert_eq!(pos, 5);
    let (r, pos, _) = scan_one("\u{e9}t\u{e9} ");
    assert_eq!(r, Ok(Tok::Ident));
    assert_eq!(pos, 5);
}

#[test]
fn sc_comments() {
    let (r, pos, _) = scan_one("// note\nx");
    assert_eq!(r, Ok(Tok::Comment));
    assert_eq!(pos, 7);
    let (r, pos, _) = scan_one("/* a */b");
    assert_eq!(r, Ok(Tok::Comment));
    assert_eq!(pos, 7);
    let (r, _, _) = scan_one("/* a");
    assert_eq!(r, Err(LexError { kind: LexErrorKind::UnexpectedEof, at: 5 }));
}

#[test]
fn sc_scans_a_statement() {
    let input = "x += 0x1F; // done";
    let mut s = Scanner::new(input.as_bytes());
    let mut toks = Vec::new();
    loop {
        jslex::lex::hand::whitespace(&mut s);
        let mut data = TokData::Empty;
        let t = sc(&mut s, &mut data).unwrap();
        toks.push(t);
        if t == Tok::EOF {
            break;
        }
    }
    assert_eq!(
        toks,
        vec![Tok::Ident, Tok::PlusEq, Tok::Number, Tok::Semi, Tok::Comment, Tok::EOF]
    );
}

#[test]
fn sc_leaves_data_alone_for_other_tokens() {
    let mut s = Scanner::new("+ 'a'".as_bytes());
    let mut data = TokData::String("kept".to_string());
    assert_eq!(sc(&mut s, &mut data), Ok(Tok::Plus));
    assert!(matches!(&data, TokData::String(t) if t == "kept"));
    let mut s = Scanner::new("'\\q'".as_bytes());
    let mut data = TokData::Number(NumberLit::Hex(7));
    assert!(sc(&mut s, &mut data).is_err());
    assert!(matches!(data, TokData::Number(NumberLit::Hex(7))));
}
