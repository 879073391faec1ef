use paca::{Keyword, LexError, LexErrorType, Lexer, Token, TokenKind, Tokenize};

fn lex(src: &str) -> Result<Vec<Token>, LexError> {
    let src = src.to_string();
    Lexer::new(None, &src).tokenize()
}

fn kinds(src: &str) -> Vec<TokenKind> {
    lex(src).unwrap().into_iter().map(|t| t.kind).collect()
}

fn error_of(src: &str) -> LexErrorType {
    lex(src).unwrap_err().error_type().clone()
}

fn float_value(kind: &TokenKind) -> f64 {
    match kind {
        TokenKind::Float(text) => text.parse::<f64>().unwrap(),
        other => panic!("not a float literal: {:?}", other),
    }
}

#[test]
fn keywords_and_types() {
    let src = "if else match def let str int float struct enum impl for while self Self break return continue methods import export true false".to_string();
    let lexer = Lexer::new(None, &src);
    let tokens = lexer.tokenize();

    assert!(matches!(tokens, Ok(_)));

    let tokens = tokens.unwrap();
    assert_eq!(tokens.len(), 23);

    assert_eq!(tokens[0].kind, TokenKind::Keyword(Keyword::If));
    assert_eq!(tokens[1].kind, TokenKind::Keyword(Keyword::Else));
    assert_eq!(tokens[2].kind, TokenKind::Keyword(Keyword::Match));
    assert_eq!(tokens[3].kind, TokenKind::Keyword(Keyword::Def));
    assert_eq!(tokens[4].kind, TokenKind::Keyword(Keyword::Let));
    assert_eq!(tokens[5].kind, TokenKind::Keyword(Keyword::Str));
    assert_eq!(tokens[6].kind, TokenKind::Keyword(Keyword::Int));
    assert_eq!(tokens[7].kind, TokenKind::Keyword(Keyword::Float));
    assert_eq!(tokens[8].kind, TokenKind::Keyword(Keyword::Struct));
    assert_eq!(tokens[9].kind, TokenKind::Keyword(Keyword::Enum));
    assert_eq!(tokens[10].kind, TokenKind::Keyword(Keyword::Impl));
    assert_eq!(tokens[11].kind, TokenKind::Keyword(Keyword::For));
    assert_eq!(tokens[12].kind, TokenKind::Keyword(Keyword::While));
    assert_eq!(tokens[13].kind, TokenKind::Keyword(Keyword::LilSelf));
    assert_eq!(tokens[14].kind, TokenKind::Keyword(Keyword::BigSelf));
    assert_eq!(tokens[15].kind, TokenKind::Keyword(Keyword::Break));
    assert_eq!(tokens[16].kind, TokenKind::Keyword(Keyword::Return));
    assert_eq!(tokens[17].kind, TokenKind::Keyword(Keyword::Continue));
    assert_eq!(tokens[18].kind, TokenKind::Keyword(Keyword::Methods));
    assert_eq!(tokens[19].kind, TokenKind::Keyword(Keyword::Import));
    assert_eq!(tokens[20].kind, TokenKind::Keyword(Keyword::Export));
    assert_eq!(tokens[21].kind, TokenKind::Keyword(Keyword::True));
    assert_eq!(tokens[22].kind, TokenKind::Keyword(Keyword::False));
}

#[test]
fn literals() {
    let src = "123 1.23 0xabc \"Hello, world\" '\\n' identifier".to_string();
    let lexer = Lexer::new(None, &src);
    let tokens = lexer.tokenize();

    assert!(matches!(tokens, Ok(_)));

    let tokens = tokens.unwrap();
    assert_eq!(tokens.len(), 6);

    assert_eq!(tokens[0].kind, TokenKind::Int(123));
    assert_eq!(float_value(&tokens[1].kind), 1.23);
    assert_eq!(tokens[2].kind, TokenKind::Int(2748));
    assert_eq!(tokens[3].kind, TokenKind::Str("Hello, world".to_string()));
    assert_eq!(tokens[4].kind, TokenKind::Char('\n'));
    assert_eq!(tokens[5].kind, TokenKind::Ident("identifier".to_string()));
}

#[test]
fn blank_input_has_no_tokens() {
    assert_eq!(kinds(""), vec![]);
    assert_eq!(kinds("  \t\n\r\n   "), vec![]);
    assert_eq!(kinds("// only a comment"), vec![]);
    assert_eq!(kinds("  // one\n\t// two\n\n"), vec![]);
}

#[test]
fn identifiers_keep_their_text() {
    assert_eq!(kinds("foo"), vec![TokenKind::Ident("foo".to_string())]);
    assert_eq!(kinds("_x9"), vec![TokenKind::Ident("_x9".to_string())]);
    assert_eq!(kinds("iff"), vec![TokenKind::Ident("iff".to_string())]);
    assert_eq!(kinds("If"), vec![TokenKind::Ident("If".to_string())]);
    assert_eq!(kinds("selfish"), vec![TokenKind::Ident("selfish".to_string())]);
}

#[test]
fn identifiers_take_unicode_letters_and_numerals() {
    assert_eq!(kinds("héllo"), vec![TokenKind::Ident("héllo".to_string())]);
    assert_eq!(kinds("x²"), vec![TokenKind::Ident("x²".to_string())]);
    assert_eq!(kinds("\u{00A0}y"), vec![TokenKind::Ident("y".to_string())]);
}

#[test]
fn reserved_words_map_exactly() {
    assert_eq!(kinds("if"), vec![TokenKind::Keyword(Keyword::If)]);
    assert_eq!(kinds("while"), vec![TokenKind::Keyword(Keyword::While)]);
    assert_eq!(kinds("methods"), vec![TokenKind::Keyword(Keyword::Methods)]);
    assert_eq!(kinds("Self self"), vec![
        TokenKind::Keyword(Keyword::BigSelf),
        TokenKind::Keyword(Keyword::LilSelf),
    ]);
}

#[test]
fn hexadecimal_numbers() {
    assert_eq!(kinds("0x1F"), vec![TokenKind::Int(31)]);
    assert_eq!(kinds("0x7fffffffffffffff"), vec![TokenKind::Int(i64::MAX)]);
    assert_eq!(error_of("0x"), LexErrorType::InvalidHexadecimalNumber);
    assert_eq!(error_of("0xg"), LexErrorType::InvalidHexadecimalNumber);
    assert_eq!(error_of("0x8000000000000000"), LexErrorType::InvalidHexadecimalNumber);
}

#[test]
fn decimal_numbers() {
    assert_eq!(kinds("0"), vec![TokenKind::Int(0)]);
    assert_eq!(kinds("9223372036854775807"), vec![TokenKind::Int(i64::MAX)]);
    assert_eq!(error_of("9223372036854775808"), LexErrorType::InvalidInteger);
    assert_eq!(kinds("12+3"), vec![TokenKind::Int(12), TokenKind::Plus, TokenKind::Int(3)]);
}

#[test]
fn floating_point_numbers() {
    let tokens = kinds("1.23");
    assert_eq!(tokens.len(), 1);
    assert_eq!(float_value(&tokens[0]), 1.23);
    assert_eq!(tokens[0], TokenKind::Float("1.23".to_string()));
    assert_eq!(error_of("1.2.3"), LexErrorType::InvalidFloatingPointNumber);
    assert_eq!(error_of("1..2"), LexErrorType::InvalidFloatingPointNumber);
}

#[test]
fn string_escapes_are_decoded() {
    assert_eq!(kinds("\"hi\\n\""), vec![TokenKind::Str("hi\n".to_string())]);
    assert_eq!(kinds("\"\""), vec![TokenKind::Str(String::new())]);
    assert_eq!(kinds("\"a\\\"b\""), vec![TokenKind::Str("a\"b".to_string())]);
    assert_eq!(kinds("\"\\\\\\0\\r\\t\""), vec![TokenKind::Str("\\\0\r\t".to_string())]);
    assert_eq!(kinds("\"a\\qb\""), vec![TokenKind::Str("aqb".to_string())]);
}

#[test]
fn unterminated_string_is_an_error() {
    assert_eq!(error_of("\"abc"), LexErrorType::InvalidString);
    assert_eq!(error_of("\"abc\\"), LexErrorType::InvalidString);
}

#[test]
fn character_literals() {
    assert_eq!(kinds("'\\t'"), vec![TokenKind::Char('\t')]);
    assert_eq!(kinds("'é'"), vec![TokenKind::Char('é')]);
    assert_eq!(error_of("'ab'"), LexErrorType::InvalidCharacterLiteral);
    assert_eq!(error_of("''"), LexErrorType::InvalidCharacterLiteral);
    assert_eq!(error_of("'a"), LexErrorType::InvalidCharacterLiteral);
}

#[test]
fn compound_operators() {
    assert_eq!(kinds("+="), vec![TokenKind::PlusEq]);
    assert_eq!(kinds("->"), vec![TokenKind::MinusGreaterThan]);
    assert_eq!(kinds("=>"), vec![TokenKind::EqGreaterThan]);
    assert_eq!(kinds("::"), vec![TokenKind::DoubleColon]);
    assert_eq!(kinds("- -= * *= / /= % %= > >= < <= ! != = == : ."), vec![
        TokenKind::Minus,
        TokenKind::MinusEq,
        TokenKind::Mul,
        TokenKind::MulEq,
        TokenKind::Div,
        TokenKind::DivEq,
        TokenKind::Rem,
        TokenKind::RemEq,
        TokenKind::GreaterThan,
        TokenKind::GreaterThanOrEq,
        TokenKind::LessThan,
        TokenKind::LessThanOrEq,
        TokenKind::Bang,
        TokenKind::BangEq,
        TokenKind::Eq,
        TokenKind::DoubleEq,
        TokenKind::Colon,
        TokenKind::Dot,
    ]);
}

#[test]
fn single_symbols_at_the_end_of_input() {
    assert_eq!(kinds("+"), vec![TokenKind::Plus]);
    assert_eq!(kinds("x ="), vec![TokenKind::Ident("x".to_string()), TokenKind::Eq]);
    assert_eq!(kinds("( ) { } [ ] \\ , ;"), vec![
        TokenKind::LeftParen,
        TokenKind::RightParen,
        TokenKind::LeftBrace,
        TokenKind::RightBrace,
        TokenKind::LeftBracket,
        TokenKind::RightBracket,
        TokenKind::BackSlash,
        TokenKind::Comma,
        TokenKind::SemiColon,
    ]);
}

#[test]
fn logical_operators_need_both_characters() {
    assert_eq!(error_of("&"), LexErrorType::InvalidToken(vec!["&&"]));
    assert_eq!(error_of("a & b"), LexErrorType::InvalidToken(vec!["&&"]));
    assert_eq!(kinds("&&"), vec![TokenKind::DoubleAmp]);
    assert_eq!(error_of("|x"), LexErrorType::InvalidToken(vec!["||"]));
    assert_eq!(kinds("||"), vec![TokenKind::DoubleVertical]);
}

#[test]
fn invalid_character() {
    assert_eq!(error_of("a # b"), LexErrorType::InvalidCharacter);
}

#[test]
fn comments_produce_no_tokens() {
    let tokens = lex("// comment\nx").unwrap();
    assert_eq!(tokens.len(), 1);
    assert_eq!(tokens[0].kind, TokenKind::Ident("x".to_string()));
    assert_eq!(tokens[0].loc.line, 2);
    assert_eq!(tokens[0].loc.column, 1);
}

#[test]
fn tokenizing_twice_gives_the_same_tokens() {
    let src = "def f(a) { return a /= 0x10; } // end\n'c' \"s\" 2.5".to_string();
    let first = Lexer::new(Some("m.paca".to_string()), &src).tokenize().unwrap();
    let second = Lexer::new(Some("m.paca".to_string()), &src).tokenize().unwrap();
    assert_eq!(first, second);
    let bad = "x & y".to_string();
    assert_eq!(Lexer::new(None, &bad).tokenize().unwrap_err(), Lexer::new(None, &bad).tokenize().unwrap_err());
}

#[test]
fn end_to_end_statement() {
    assert_eq!(kinds("if x { return 1; }"), vec![
        TokenKind::Keyword(Keyword::If),
        TokenKind::Ident("x".to_string()),
        TokenKind::LeftBrace,
        TokenKind::Keyword(Keyword::Return),
        TokenKind::Int(1),
        TokenKind::SemiColon,
        TokenKind::RightBrace,
    ]);
}

#[test]
fn tokens_carry_their_spans() {
    let src = "ab\n  \"cd\" é+=".to_string();
    let tokens = Lexer::new(Some("f".to_string()), &src).tokenize().unwrap();
    assert_eq!(tokens.len(), 4);
    let l = &tokens[0].loc;
    assert_eq!((l.line, l.column, l.offset, l.length), (1, 1, 0, 2));
    let l = &tokens[1].loc;
    assert_eq!((l.line, l.column, l.offset, l.length), (2, 3, 5, 4));
    let l = &tokens[2].loc;
    assert_eq!(tokens[2].kind, TokenKind::Ident("é".to_string()));
    assert_eq!((l.line, l.column, l.offset, l.length), (2, 8, 10, 1));
    let l = &tokens[3].loc;
    assert_eq!(tokens[3].kind, TokenKind::PlusEq);
    assert_eq!((l.line, l.column, l.offset, l.length), (2, 9, 12, 2));
    assert_eq!(l.filename, Some("f".to_string()));
}

#[test]
fn errors_carry_their_spans() {
    let err = lex("x = 1.2.3").unwrap_err();
    let l = err.loc();
    assert_eq!((l.line, l.column, l.offset, l.length), (1, 5, 4, 5));
    let err = lex("\n &").unwrap_err();
    let l = err.loc();
    assert_eq!((l.line, l.column, l.offset, l.length), (2, 2, 2, 1));
    assert_eq!(l.filename, None);
}
