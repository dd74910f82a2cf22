use front_end::file::identifier::Identifier;
use front_end::file::source_file::SourceFile;
use front_end::lexer::keyword::Keyword;
use front_end::lexer::lexer::Lexer;
use front_end::lexer::token::Operator as E;
use front_end::lexer::token::{Operator, Token, TokenData};

fn token_data(source: &str) -> Vec<TokenData> {
    let file = SourceFile::new(source).rc();
    front_end::lexer::tokenize(file).into_iter().map(|Token(f, _)| f).collect()
}

fn f32_of(data: &TokenData) -> f32 {
    match data {
        TokenData::F32Literal(text) => text.parse().unwrap(),
        other => panic!("not a 32-bit float: {:?}", other),
    }
}

fn f64_of(data: &TokenData) -> f64 {
    match data {
        TokenData::F64Literal(text) => text.parse().unwrap(),
        other => panic!("not a 64-bit float: {:?}", other),
    }
}

#[test]
pub fn identifier() {
    let tokens = token_data(r#"
        me _wh_en__ the
    "#);

    assert_eq!(tokens, vec![
        TokenData::Identifier(Identifier::from("me")),
        TokenData::Identifier(Identifier::from("_wh_en__")),
        TokenData::Identifier(Identifier::from("the")),
        TokenData::EOF,
    ]);
}

#[test]
pub fn bool() {
    let tokens = token_data(r#"
        true false false true true false true
    "#);

    assert_eq!(tokens, vec![
        TokenData::BoolLiteral(true),
        TokenData::BoolLiteral(false),
        TokenData::BoolLiteral(false),
        TokenData::BoolLiteral(true),
        TokenData::BoolLiteral(true),
        TokenData::BoolLiteral(false),
        TokenData::BoolLiteral(true),
        TokenData::EOF,
    ]);
}

#[test]
pub fn test_operator() {
    let tokens = token_data(r#"
    {}()[]~!%^&*-+/| = < >
    : && || << >> :: %= ^= &= *=
    -= += /= <<= >>= &&= ||= <= >= != == . ,
    => ->
    "#);
    let mut expect = [
        E::CurlyOpen,
        E::CurlyClose,
        E::ParenOpen,
        E::ParenClose,
        E::BracketOpen,
        E::BracketClose,
        E::BitNot,
        E::Not,
        E::Mod,
        E::Xor,
        E::BitAnd,
        E::Multiply,
        E::Minus,
        E::Plus,
        E::Divide,
        E::BitOr,
        E::Assign,
        E::Less,
        E::Greater,
        E::Colon,
        E::And,
        E::Or,
        E::BitShiftLeft,
        E::BitShiftRight,
        E::DoubleColon,
        E::ModAssigns,
        E::XorAssign,
        E::BitAndAssign,
        E::MultiplyAssign,
        E::MinusAssign,
        E::PlusAssign,
        E::DivideAssign,
        E::BitShiftLeftAssign,
        E::BitShiftRightAssign,
        E::AndAssign,
        E::OrAssign,
        E::LessEquals,
        E::GreaterEquals,
        E::NotEquals,
        E::Equals,
        E::Dot,
        E::Comma,
        E::ThickRightArrow,
        E::ThinRightArrow,
    ].map(|o| TokenData::Operator(o)).into_iter().collect::<Vec<TokenData>>();
    expect.push(TokenData::EOF);
    assert_eq!(tokens, expect)
}

#[test]
fn string() {
    let tokens = token_data(r#"
        "me when the \" ""yuh"
    "#);

    assert_eq!(tokens, vec![
        TokenData::StringLiteral("me when the \" ".into()),
        TokenData::StringLiteral("yuh".into()),
        TokenData::EOF,
    ]);
}

#[test]
fn number() {
    let tokens = token_data(r#"
        1 4 2.0. 9L 2.f 10.0d 0.1f
    "#);

    assert_eq!(tokens.len(), 9);
    assert_eq!(tokens[0], TokenData::I32Literal(1));
    assert_eq!(tokens[1], TokenData::I32Literal(4));
    assert_eq!(f32_of(&tokens[2]), 2.0);
    assert_eq!(tokens[3], TokenData::Operator(Operator::Dot));
    assert_eq!(tokens[4], TokenData::I64Literal(9));
    assert_eq!(f32_of(&tokens[5]), 2.);
    assert_eq!(f64_of(&tokens[6]), 10.);
    assert_eq!(f32_of(&tokens[7]), 0.1f32);
    assert_eq!(tokens[8], TokenData::EOF);
}

#[test]
fn test_macro() {
    let tokens = token_data(r#"
        bruh moment.println!("huh")
    "#);

    assert_eq!(tokens, vec![
        TokenData::Identifier("bruh".into()),
        TokenData::Identifier("moment".into()),
        TokenData::Operator(Operator::Dot),
        TokenData::MacroIdentifier("println!".into()),
        TokenData::Operator(Operator::ParenOpen),
        TokenData::StringLiteral("huh".into()),
        TokenData::Operator(Operator::ParenClose),
        TokenData::EOF,
    ]);
}

fn tokens_of(source: &str) -> Vec<Token> {
    front_end::lexer::tokenize(SourceFile::new(source).rc())
}

fn lexemes(source: &str) -> Vec<String> {
    tokens_of(source).iter().map(|t| source[t.1.range.clone()].to_string()).collect()
}

#[test]
fn spans_cover_the_lexemes() {
    let source = "let x1 = \"a\\\"b\" // note\n  >>= 2.5f /* c */ 10L foo! true";
    assert_eq!(
        lexemes(source),
        vec!["let", "x1", "=", "\"a\\\"b\"", ">>=", "2.5f", "10L", "foo!", "true", ""]
    );
    let tokens = tokens_of(source);
    assert_eq!(tokens[0].1.range, 0..3);
    assert_eq!(tokens[2].1.range, 7..8);
    assert_eq!(tokens[9].1.range, source.len()..source.len());
    assert_eq!(tokens[9].0, TokenData::EOF);
}

#[test]
fn spans_count_bytes_not_characters() {
    let source = "\"h\u{e9}\u{4e16}\" x\u{a0}y";
    let tokens = tokens_of(source);
    assert_eq!(tokens[0].0, TokenData::StringLiteral("h\u{e9}\u{4e16}".into()));
    assert_eq!(tokens[0].1.range, 0..8);
    assert_eq!(tokens[1].0, TokenData::Identifier("x".into()));
    assert_eq!(tokens[1].1.range, 9..10);
    assert_eq!(tokens[2].0, TokenData::Identifier("y".into()));
    assert_eq!(tokens[2].1.range, 12..13);
    assert_eq!(lexemes(source), vec!["\"h\u{e9}\u{4e16}\"", "x", "y", ""]);
}

#[test]
fn shift_assign_is_one_token() {
    assert_eq!(
        token_data("a >>= b"),
        vec![
            TokenData::Identifier("a".into()),
            TokenData::Operator(Operator::BitShiftRightAssign),
            TokenData::Identifier("b".into()),
            TokenData::EOF,
        ]
    );
    assert_eq!(
        token_data(">> ="),
        vec![
            TokenData::Operator(Operator::BitShiftRight),
            TokenData::Operator(Operator::Assign),
            TokenData::EOF,
        ]
    );
    assert_eq!(
        token_data(">>>="),
        vec![
            TokenData::Operator(Operator::BitShiftRight),
            TokenData::Operator(Operator::GreaterEquals),
            TokenData::EOF,
        ]
    );
}

#[test]
fn comments_leave_no_token() {
    assert_eq!(
        token_data("a // b c\nd /* e\n f */ g /* open"),
        vec![
            TokenData::Identifier("a".into()),
            TokenData::Identifier("d".into()),
            TokenData::Identifier("g".into()),
            TokenData::EOF,
        ]
    );
    assert_eq!(token_data("/*/ a"), vec![TokenData::EOF]);
    assert_eq!(
        token_data("/**/a/"),
        vec![
            TokenData::Identifier("a".into()),
            TokenData::Operator(Operator::Divide),
            TokenData::EOF
        ]
    );
}

#[test]
fn strings_run_to_the_quote_or_the_end() {
    assert_eq!(token_data("\"abc"), vec![TokenData::StringLiteral("abc".into()), TokenData::EOF]);
    assert_eq!(token_data("\"ab\\"), vec![TokenData::StringLiteral("ab".into()), TokenData::EOF]);
    assert_eq!(token_data("\"\""), vec![TokenData::StringLiteral("".into()), TokenData::EOF]);
    assert_eq!(
        token_data("\"a\\nb\\\\\""),
        vec![TokenData::StringLiteral("anb\\".into()), TokenData::EOF]
    );
    let tokens = tokens_of("\"abc");
    assert_eq!(tokens[0].1.range, 0..4);
}

#[test]
fn numeric_suffixes_in_their_order() {
    assert_eq!(token_data("5f"), vec![TokenData::F32Literal("5".into()), TokenData::EOF]);
    assert_eq!(token_data("5d"), vec![TokenData::F64Literal("5".into()), TokenData::EOF]);
    assert_eq!(token_data("1.5d"), vec![TokenData::F64Literal("1.5".into()), TokenData::EOF]);
    assert_eq!(token_data(".5"), vec![TokenData::F32Literal(".5".into()), TokenData::EOF]);
    assert_eq!(token_data("1."), vec![TokenData::F32Literal("1.".into()), TokenData::EOF]);
    assert_eq!(
        token_data("1.5L"),
        vec![
            TokenData::F32Literal("1.5".into()),
            TokenData::Identifier("L".into()),
            TokenData::EOF
        ]
    );
    assert_eq!(
        token_data(". .x"),
        vec![
            TokenData::Operator(Operator::Dot),
            TokenData::Operator(Operator::Dot),
            TokenData::Identifier("x".into()),
            TokenData::EOF
        ]
    );
    assert_eq!(token_data("007"), vec![TokenData::I32Literal(7), TokenData::EOF]);
    assert_eq!(token_data("2147483647"), vec![TokenData::I32Literal(i32::MAX), TokenData::EOF]);
    assert_eq!(
        token_data("9223372036854775807L"),
        vec![TokenData::I64Literal(i64::MAX), TokenData::EOF]
    );
}

#[test]
fn integer_literals_that_do_not_fit_are_reported() {
    let fits = |source: &str| front_end::lexer::try_tokenize(SourceFile::new(source).rc()).is_some();
    assert!(fits("2147483647"));
    assert!(!fits("2147483648"));
    assert!(fits("2147483648L"));
    assert!(fits("9223372036854775807L"));
    assert!(!fits("9223372036854775808L"));
    assert!(!fits("a + 99999999999999999999999999999999999999999 b"));
    assert!(fits("99999999999999999999999999999999999999999.0"));
    assert!(fits("99999999999999999999999999999999999999999f"));
    let tokens = front_end::lexer::try_tokenize(SourceFile::new("1 2L").rc()).unwrap();
    assert_eq!(tokens.len(), 3);
}

#[test]
fn characters_that_start_no_token_are_passed_over() {
    assert_eq!(
        token_data("a # $ b \u{e9} ` c"),
        vec![
            TokenData::Identifier("a".into()),
            TokenData::Identifier("b".into()),
            TokenData::Identifier("c".into()),
            TokenData::EOF,
        ]
    );
    assert_eq!(token_data("\u{a0}\u{2003}\t\r\n\u{3000}"), vec![TokenData::EOF]);
    assert_eq!(token_data(""), vec![TokenData::EOF]);
}

#[test]
fn words_are_keywords_literals_identifiers_or_macros() {
    use_keywords();
    assert_eq!(
        token_data("trueish _ a1 If"),
        vec![
            TokenData::Identifier("trueish".into()),
            TokenData::Identifier("_".into()),
            TokenData::Identifier("a1".into()),
            TokenData::Identifier("If".into()),
            TokenData::EOF,
        ]
    );
    assert_eq!(
        token_data("a!=b let!"),
        vec![
            TokenData::MacroIdentifier("a!".into()),
            TokenData::Operator(Operator::Assign),
            TokenData::Identifier("b".into()),
            TokenData::MacroIdentifier("let!".into()),
            TokenData::EOF,
        ]
    );
}

fn use_keywords() {
    let table = [
        ("let", Keyword::Let),
        ("mut", Keyword::Mut),
        ("fun", Keyword::Fun),
        ("return", Keyword::Return),
        ("ref", Keyword::Ref),
        ("deref", Keyword::Deref),
        ("for", Keyword::For),
        ("while", Keyword::While),
        ("unless", Keyword::Unless),
        ("until", Keyword::Until),
        ("if", Keyword::If),
        ("else", Keyword::Else),
        ("struct", Keyword::Struct),
        ("impl", Keyword::Impl),
        ("sizeof", Keyword::Sizeof),
        ("as", Keyword::As),
        ("pub", Keyword::Public),
        ("unit", Keyword::Unit),
    ];
    for (text, word) in table {
        assert_eq!(Keyword::parse(text), Some(word));
        assert_eq!(token_data(text), vec![TokenData::Keyword(word), TokenData::EOF]);
    }
    assert_eq!(Keyword::parse("Let"), None);
    assert_eq!(Keyword::parse("lets"), None);
    assert_eq!(Keyword::parse(""), None);
    assert_eq!(Keyword::parse("import"), None);
    assert_eq!(Keyword::parse("true"), None);
}

#[test]
fn the_token_sequence_ends_with_one_end_marker() {
    for source in ["", "a", "a b // c", "\"open", "1 + 2 /* x"] {
        let tokens = token_data(source);
        assert_eq!(tokens.last(), Some(&TokenData::EOF));
        assert_eq!(tokens.iter().filter(|t| **t == TokenData::EOF).count(), 1);
    }
}

#[test]
fn the_scanner_reads_and_moves() {
    let mut lexer = Lexer::new(SourceFile::new("ab//c\nd").rc());
    assert_eq!(lexer.curr(), 'a');
    assert!(lexer.has_clearance(7));
    assert!(!lexer.has_clearance(8));
    assert_eq!(lexer.slice(2), "ab");
    assert_eq!(lexer.slice(100), "ab//c\nd");
    assert_eq!(lexer.advance(), 'b');
    assert!(!lexer.comment());
    assert_eq!(lexer.advance(), '/');
    assert_eq!(lexer.trace(2).range, 2..4);
    assert_eq!(lexer.trace_from(1, 100).range, 1..7);
    assert_eq!(lexer.trace_from(50, 1).range, 7..7);
    assert!(lexer.comment());
    assert_eq!(lexer.curr(), '\n');
    assert_eq!(lexer.advance_by(1), 'd');
    assert!(lexer.not_eof());
    assert!(lexer.has_clearance(1));
    assert_eq!(lexer.advance_by(1), ' ');
    assert!(!lexer.not_eof());
    assert!(lexer.has_clearance(0));
    assert!(!lexer.has_clearance(1));
    assert_eq!(lexer.slice(3), "");
    assert_eq!(lexer.trace(1).range, 7..7);
    assert_eq!(lexer.advance_by(10), ' ');
    assert!(!lexer.not_eof());
    assert!(!lexer.has_clearance(0));
    assert_eq!(lexer.curr(), ' ');
    assert_eq!(lexer.trace(1).range, 7..7);
    assert_eq!(lexer.advance(), ' ');
    assert!(!lexer.comment());
    assert_eq!(lexer.identifier(), None);
    assert_eq!(lexer.string(), None);
    assert_eq!(lexer.number(), None);
    assert_eq!(lexer.operator(), None);
    assert_eq!(lexer.dual_operator(), None);
    assert_eq!(lexer.tri_operator(), None);
    let rest = lexer.tokenize();
    assert_eq!(rest.len(), 1);
}

#[test]
fn each_recognizer_takes_its_own_lexeme_only() {
    let mut lexer = Lexer::new(SourceFile::new("<<=x").rc());
    assert_eq!(lexer.string(), None);
    assert_eq!(lexer.number(), None);
    assert_eq!(lexer.identifier(), None);
    let token = lexer.operator().unwrap();
    assert_eq!(token.0, TokenData::Operator(Operator::Less));
    assert_eq!(token.1.range, 0..1);
    let token = lexer.dual_operator().unwrap();
    assert_eq!(token.0, TokenData::Operator(Operator::LessEquals));
    assert_eq!(token.1.range, 1..3);
    assert_eq!(lexer.tri_operator(), None);
    let token = lexer.identifier().unwrap();
    assert_eq!(token.token(), &TokenData::Identifier("x".into()));
    assert_eq!(token.trace().range, 3..4);

    let mut lexer = Lexer::new(SourceFile::new("<<=x").rc());
    let token = lexer.tri_operator().unwrap();
    assert_eq!(token.0, TokenData::Operator(Operator::BitShiftLeftAssign));
    assert_eq!(token.1.range, 0..3);
}

#[test]
fn tokens_and_identifiers_open_onto_what_they_hold() {
    let mut tokens = tokens_of("name 1");
    assert_eq!(*tokens[0], TokenData::Identifier("name".into()));
    assert!(tokens[2].is_eof());
    assert!(!tokens[1].is_eof());
    assert!(tokens[1].same_as(&TokenData::I32Literal(1)));
    assert!(!tokens[1].same_as(&TokenData::I64Literal(1)));
    *tokens[1] = TokenData::I32Literal(2);
    assert_eq!(tokens[1].0, TokenData::I32Literal(2));
    assert_eq!(tokens[1].1.range, 5..6);
    let name = Identifier::from("name");
    assert_eq!(name.len(), 4);
    assert!(name.starts_with("na"));
    assert_eq!(tokens[0].clone(), tokens[0]);
}

#[test]
fn tokens_stand_in_the_order_of_the_text() {
    for source in [
        "",
        "a",
        "let x1 = \"a\\\"b\" // note\n  >>= 2.5f /* c */ 10L foo! true",
        "\"h\u{e9}\u{4e16}\" x\u{a0}y # z",
        "f(1, 2)+g::h(\"open",
    ] {
        let tokens = tokens_of(source);
        for pair in tokens.windows(2) {
            assert!(pair[0].1.range.start <= pair[0].1.range.end);
            assert!(pair[0].1.range.end <= pair[1].1.range.start);
        }
        let last = tokens.last().unwrap();
        assert_eq!(last.1.range, source.len()..source.len());
        for token in &tokens {
            assert_eq!(token.1.source.source, source);
            assert!(source.is_char_boundary(token.1.range.start));
            assert!(source.is_char_boundary(token.1.range.end));
        }
    }
}
