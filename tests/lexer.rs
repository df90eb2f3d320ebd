use mygo_lex::{Lexer, MyGOError, MyGoToken, ParseData};

fn float_of(t: Option<Result<MyGoToken, MyGOError>>) -> Option<(f64, (usize, usize))> {
    match t {
        Some(Ok(MyGoToken::FloatNumber(p))) => Some((p.data.parse::<f64>().unwrap(), p.loc)),
        _ => None,
    }
}

fn unit(loc: (usize, usize)) -> ParseData<()> {
    ParseData { data: (), loc }
}

#[test]
fn test_lexer_id() {
    let input_f = String::from("abc123\n_abc");
    let mut lex = MyGoToken::lexer(&input_f);
    let should_be1 = MyGoToken::Identifier(ParseData { data: String::from("abc123"), loc: (0, 0) });
    let should_be2 = MyGoToken::Identifier(ParseData { data: String::from("_abc"), loc: (1, 0) });
    assert_eq!(lex.next(), Some(Ok(should_be1)));
    assert_eq!(lex.next(), Some(Ok(should_be2)));
    assert_eq!(lex.next(), None);
}

#[test]
fn test_lexer_number() {
    let input_f = String::from("1234\n1_2\n1.2\n1.0\n1_2.34\n.34");
    let mut lex = MyGoToken::lexer(&input_f);
    assert_eq!(lex.next(), Some(Ok(MyGoToken::Integer(ParseData { data: 1234, loc: (0, 0) }))));
    assert_eq!(lex.next(), Some(Ok(MyGoToken::Integer(ParseData { data: 12, loc: (1, 0) }))));
    assert_eq!(float_of(lex.next()), Some((1.2, (2, 0))));
    assert_eq!(float_of(lex.next()), Some((1.0, (3, 0))));
    assert_eq!(float_of(lex.next()), Some((12.34, (4, 0))));
    assert_eq!(float_of(lex.next()), Some((0.34, (5, 0))));
    assert_eq!(lex.next(), None);
}

#[test]
fn test_lexer_rune() {
    let input_f = String::from("'a'\n'ä'\n'本'\n'\\n'\n'\\r'\n'\\t'\n'\\v'\n'\\f'\n'\\b'\n@");
    let mut lex = MyGoToken::lexer(&input_f);
    let runes = ['a', 'ä', '本', '\n', '\r', '\t', '\x0B', '\x0C', '\x08'];
    for (i, c) in runes.iter().enumerate() {
        assert_eq!(lex.next(), Some(Ok(MyGoToken::Rune(ParseData { data: *c, loc: (i, 0) }))));
    }
    assert_eq!(lex.next(), Some(Err(MyGOError::UnKnownToken)));
    assert_eq!(lex.extras.0, 9);
}

#[test]
fn test_lexer_keyword() {
    let input_f = String::from("var\nif\nelse\nfor\nconst\nfunc");
    let mut lex = MyGoToken::lexer(&input_f);
    assert_eq!(lex.next(), Some(Ok(MyGoToken::TVar(unit((0, 0))))));
    assert_eq!(lex.next(), Some(Ok(MyGoToken::TIf(unit((1, 0))))));
    assert_eq!(lex.next(), Some(Ok(MyGoToken::TElse(unit((2, 0))))));
    assert_eq!(lex.next(), Some(Ok(MyGoToken::TFor(unit((3, 0))))));
    assert_eq!(lex.next(), Some(Ok(MyGoToken::TConst(unit((4, 0))))));
    assert_eq!(lex.next(), Some(Ok(MyGoToken::TFunc(unit((5, 0))))));
}

#[test]
fn test_lexer_operator_and_punctuation() {
    let input_f = String::from(
        "+\n-\n*\n/\n%\n&\n|\n^\n{\n}\n=\n(\n)\n[\n]\n!\n~\n+=\n-=\n*=\n/=\n%=\n++\n--\n&&\n||\n==\n<\n>\n;\n:\n,\n.\n:=\n>=\n<=\n!=",
    );
    let mut lex = MyGoToken::lexer(&input_f);
    let expected: Vec<fn(ParseData<()>) -> MyGoToken> = vec![
        MyGoToken::TAdd,
        MyGoToken::TSub,
        MyGoToken::TMult,
        MyGoToken::TDiv,
        MyGoToken::TMod,
        MyGoToken::TBitand,
        MyGoToken::TBitor,
        MyGoToken::TBitxor,
        MyGoToken::TLCBrack,
        MyGoToken::TRCBrack,
        MyGoToken::TEq,
        MyGoToken::TLRBrack,
        MyGoToken::TRRBrack,
        MyGoToken::TLSBrack,
        MyGoToken::TRSBrack,
        MyGoToken::TLogiNot,
        MyGoToken::TBitNot,
        MyGoToken::TAddEq,
        MyGoToken::TSubEq,
        MyGoToken::TMultEq,
        MyGoToken::TDivEq,
        MyGoToken::TModEq,
        MyGoToken::TAddone,
        MyGoToken::TSubone,
        MyGoToken::TLogiand,
        MyGoToken::TLogior,
        MyGoToken::TLogiEq,
        MyGoToken::TLess,
        MyGoToken::TGreater,
        MyGoToken::TSemi,
        MyGoToken::TColon,
        MyGoToken::TComma,
        MyGoToken::TDot,
        MyGoToken::TShortDecl,
        MyGoToken::TGreaterEq,
        MyGoToken::TLessEq,
        MyGoToken::TLogiNotEq,
    ];
    for (i, make) in expected.iter().enumerate() {
        assert_eq!(lex.next(), Some(Ok(make(unit((i, 0))))));
    }
}

#[test]
fn test_lexer_string_from_file() {
    // The raw string on the fourth line holds a newline, which is counted.
    let input = String::from("\"abc\"\n\"hello,world\"\n\"中文\\n\"\n`\\n\n\\n`\n`abc\n    123`");
    let mut lex = MyGoToken::lexer(&input);
    assert_eq!(
        lex.next(),
        Some(Ok(MyGoToken::String(ParseData { data: "abc".to_string(), loc: (0, 0) })))
    );
    assert_eq!(
        lex.next(),
        Some(Ok(MyGoToken::String(ParseData { data: "hello,world".to_string(), loc: (1, 0) })))
    );
    assert_eq!(
        lex.next(),
        Some(Ok(MyGoToken::String(ParseData { data: r"中文\n".to_string(), loc: (2, 0) })))
    );
    assert_eq!(
        lex.next(),
        Some(Ok(MyGoToken::String(ParseData { data: "\\n\n\\n".to_string(), loc: (3, 0) })))
    );
    assert_eq!(
        lex.next(),
        Some(Ok(MyGoToken::String(ParseData { data: "abc\n    123".to_string(), loc: (5, 0) })))
    );
}

#[test]
fn identifier_alone_is_one_token() {
    for w in ["x", "variable", "iff", "elsewhere", "_", "a1_b2", "названиеä"] {
        let mut lex = Lexer::new(w);
        assert_eq!(
            lex.next(),
            Some(Ok(MyGoToken::Identifier(ParseData { data: w.to_string(), loc: (0, 0) })))
        );
        assert_eq!(lex.next(), None);
    }
}

#[test]
fn keyword_alone_is_its_token() {
    let cases: Vec<(&str, fn(ParseData<()>) -> MyGoToken)> = vec![
        ("var", MyGoToken::TVar),
        ("if", MyGoToken::TIf),
        ("else", MyGoToken::TElse),
        ("for", MyGoToken::TFor),
        ("const", MyGoToken::TConst),
        ("func", MyGoToken::TFunc),
    ];
    for (w, make) in cases {
        let mut lex = Lexer::new(w);
        assert_eq!(lex.next(), Some(Ok(make(unit((0, 0))))));
        assert_eq!(lex.next(), None);
    }
}

#[test]
fn separators_do_not_change_values() {
    let mut a = Lexer::new("1_2_3");
    let mut b = Lexer::new("123");
    assert_eq!(a.next(), b.next());
    assert_eq!(float_of(Lexer::new("1_2.34").next()), Some((12.34, (0, 0))));
    assert_eq!(float_of(Lexer::new("1_2.3_4").next()), Some((12.34, (0, 0))));
}

#[test]
fn floats_with_one_empty_side() {
    assert_eq!(float_of(Lexer::new(".34").next()), Some((0.34, (0, 0))));
    assert_eq!(float_of(Lexer::new("1.").next()), Some((1.0, (0, 0))));
    assert_eq!(float_of(Lexer::new("1.2").next()), Some((1.2, (0, 0))));
    match Lexer::new("1.").next() {
        Some(Ok(MyGoToken::FloatNumber(p))) => assert_eq!(p.data, "1.0"),
        other => panic!("unexpected {:?}", other),
    }
}

#[test]
fn runes_and_invalid_runes() {
    assert_eq!(
        Lexer::new("'\\n'").next(),
        Some(Ok(MyGoToken::Rune(ParseData { data: '\n', loc: (0, 0) })))
    );
    assert_eq!(
        Lexer::new("'本'").next(),
        Some(Ok(MyGoToken::Rune(ParseData { data: '本', loc: (0, 0) })))
    );
    assert_eq!(
        Lexer::new("'\\a'").next(),
        Some(Ok(MyGoToken::Rune(ParseData { data: '\x07', loc: (0, 0) })))
    );
    assert_eq!(
        Lexer::new("'\\''").next(),
        Some(Ok(MyGoToken::Rune(ParseData { data: '\'', loc: (0, 0) })))
    );
    let mut empty = Lexer::new("''");
    assert_eq!(empty.next(), Some(Err(MyGOError::InvalidRune)));
    assert_eq!(empty.next(), None);
    let mut two = Lexer::new("'ab' x");
    assert_eq!(two.next(), Some(Err(MyGOError::InvalidRune)));
    assert_eq!(
        two.next(),
        Some(Ok(MyGoToken::Identifier(ParseData { data: "x".to_string(), loc: (0, 5) })))
    );
}

#[test]
fn interpreted_and_raw_strings() {
    assert_eq!(
        Lexer::new("\"abc\"").next(),
        Some(Ok(MyGoToken::String(ParseData { data: "abc".to_string(), loc: (0, 0) })))
    );
    let mut raw = Lexer::new("`abc\n    123` y");
    assert_eq!(
        raw.next(),
        Some(Ok(MyGoToken::String(ParseData { data: "abc\n    123".to_string(), loc: (0, 0) })))
    );
    assert_eq!(raw.extras.0, 1);
    assert_eq!(
        raw.next(),
        Some(Ok(MyGoToken::Identifier(ParseData { data: "y".to_string(), loc: (1, 9) })))
    );
    // An interpreted string holds letters, digits, punctuation, blanks and
    // escapes only: neither a newline nor a symbol such as `+`.
    let mut plus = Lexer::new("\"a+b\"");
    assert_eq!(plus.next(), Some(Err(MyGOError::UnKnownToken)));
    assert_eq!(
        Lexer::new("\"a, b!\\t\"").next(),
        Some(Ok(MyGoToken::String(ParseData { data: "a, b!\\t".to_string(), loc: (0, 0) })))
    );
    let mut open = Lexer::new("\"ab\ncd\"");
    assert_eq!(open.next(), Some(Err(MyGOError::UnKnownToken)));
}

#[test]
fn comments_are_skipped_and_counted() {
    let mut lex = Lexer::new("// anything\nx");
    assert_eq!(
        lex.next(),
        Some(Ok(MyGoToken::Identifier(ParseData { data: "x".to_string(), loc: (1, 0) })))
    );
    assert_eq!(lex.next(), None);
    let mut block = Lexer::new("/* a\n b\n */ z");
    assert_eq!(
        block.next(),
        Some(Ok(MyGoToken::Identifier(ParseData { data: "z".to_string(), loc: (2, 4) })))
    );
    let mut open = Lexer::new("/* x");
    assert_eq!(open.next(), Some(Ok(MyGoToken::TDiv(unit((0, 0))))));
    assert_eq!(open.next(), Some(Ok(MyGoToken::TMult(unit((0, 1))))));
}

#[test]
fn longest_symbol_wins() {
    let mut a = Lexer::new(":=");
    assert_eq!(a.next(), Some(Ok(MyGoToken::TShortDecl(unit((0, 0))))));
    assert_eq!(a.next(), None);
    let mut b = Lexer::new("==");
    assert_eq!(b.next(), Some(Ok(MyGoToken::TLogiEq(unit((0, 0))))));
    assert_eq!(b.next(), None);
    let mut c = Lexer::new("a+=b");
    c.next();
    assert_eq!(c.next(), Some(Ok(MyGoToken::TAddEq(unit((0, 1))))));
}

#[test]
fn unknown_symbol_then_resume() {
    let mut lex = Lexer::new("@x");
    assert_eq!(lex.next(), Some(Err(MyGOError::UnKnownToken)));
    assert_eq!(
        lex.next(),
        Some(Ok(MyGoToken::Identifier(ParseData { data: "x".to_string(), loc: (0, 1) })))
    );
    assert_eq!(lex.next(), None);
}

#[test]
fn empty_input_has_no_tokens() {
    let mut lex = Lexer::new("");
    assert_eq!(lex.next(), None);
    assert_eq!(lex.next(), None);
}

#[test]
fn integer_overflow_is_an_error() {
    let mut max = Lexer::new("9223372036854775807");
    assert_eq!(
        max.next(),
        Some(Ok(MyGoToken::Integer(ParseData { data: i64::MAX, loc: (0, 0) })))
    );
    let mut over = Lexer::new("9223372036854775808 1");
    assert_eq!(over.next(), Some(Err(MyGOError::InvalidInterger)));
    assert_eq!(
        over.next(),
        Some(Ok(MyGoToken::Integer(ParseData { data: 1, loc: (0, 20) })))
    );
}

#[test]
fn columns_count_characters() {
    let mut lex = Lexer::new("ä\tb \u{c}c\r");
    lex.next();
    assert_eq!(
        lex.next(),
        Some(Ok(MyGoToken::Identifier(ParseData { data: "b".to_string(), loc: (0, 2) })))
    );
    assert_eq!(
        lex.next(),
        Some(Ok(MyGoToken::Identifier(ParseData { data: "c".to_string(), loc: (0, 5) })))
    );
    assert_eq!(lex.next(), Some(Err(MyGOError::UnKnownToken)));
}
