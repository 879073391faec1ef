use paca::{
    GenerateErrorMessage, LexError, LexErrorType, Lexer, ParseError, ParseErrorType,
    SourceCodeLocation, Token, TokenKind, Tokenize,
};

#[test]
fn renders_the_line_and_carets() {
    let src = "let a = 1;\nlet b = a + #;".to_string();
    let loc = SourceCodeLocation::new(2, 13, 23, 1, None);
    assert_eq!(
        loc.line_in_source_code(&src),
        Some("Error at unknown:2:13:23\n\nlet b = a + #;\n            ^".to_string())
    );
    let loc = SourceCodeLocation::new(1, 5, 4, 1, Some("main.paca".to_string()));
    assert_eq!(
        loc.line_in_source_code(&src),
        Some("Error at main.paca:1:5:4\n\nlet a = 1;\n    ^".to_string())
    );
}

#[test]
fn rendering_strips_the_line_ending() {
    let src = "ab\r\ncd\n".to_string();
    let loc = SourceCodeLocation::new(1, 1, 0, 2, None);
    assert_eq!(loc.line_in_source_code(&src), Some("Error at unknown:1:1:0\n\nab\n^^".to_string()));
    let loc = SourceCodeLocation::new(2, 2, 5, 1, None);
    assert_eq!(loc.line_in_source_code(&src), Some("Error at unknown:2:2:5\n\ncd\n ^".to_string()));
}

#[test]
fn rendering_a_missing_line_fails() {
    let src = "one\ntwo\n".to_string();
    assert_eq!(SourceCodeLocation::new(3, 1, 0, 1, None).line_in_source_code(&src), None);
    assert_eq!(SourceCodeLocation::new(0, 1, 0, 1, None).line_in_source_code(&src), None);
    assert_eq!(SourceCodeLocation::new(1, 1, 0, 1, None).line_in_source_code(&String::new()), None);
    assert_eq!(
        SourceCodeLocation::new(2, 1, 4, 3, None).line_in_source_code(&src),
        Some("Error at unknown:2:1:4\n\ntwo\n^^^".to_string())
    );
}

#[test]
fn lexer_error_message() {
    let src = "a & b".to_string();
    let err = Lexer::new(None, &src).tokenize().unwrap_err();
    assert_eq!(
        err.generate_error_message(&src),
        Some("Error at unknown:1:3:2\n\na & b\n  ^\nParse Error: Expected &&".to_string())
    );
    let src = "x\ny 0x".to_string();
    let err = Lexer::new(Some("h".to_string()), &src).tokenize().unwrap_err();
    assert_eq!(
        err.generate_error_message(&src),
        Some("Error at h:2:3:4\n\ny 0x\n  ^^\nParse Error: Invalid hexadecimal number literal.".to_string())
    );
}

#[test]
fn lexer_error_messages_by_kind() {
    let src = "z".to_string();
    let loc = SourceCodeLocation::new(1, 1, 0, 1, None);
    let cases = vec![
        (LexErrorType::InvalidCharacter, "Invalid character."),
        (LexErrorType::InvalidCharacterLiteral, "Invalid character literal."),
        (LexErrorType::InvalidFloatingPointNumber, "Invalid float literal."),
        (LexErrorType::InvalidInteger, "Invalid integer literal."),
        (LexErrorType::InvalidString, "Invalid string literal."),
        (LexErrorType::InvalidToken(vec!["a", "b"]), "Expected a, b"),
    ];
    for (kind, reason) in cases {
        let err = LexError::new(kind, loc.clone());
        assert_eq!(
            err.generate_error_message(&src),
            Some(format!("Error at unknown:1:1:0\n\nz\n^\nParse Error: {}", reason))
        );
    }
}

#[test]
fn parser_error_messages() {
    let src = "fn".to_string();
    let loc = SourceCodeLocation::new(1, 1, 0, 2, None);
    let head = "Error at unknown:1:1:0\n\nfn\n^^\nParse Error: ";
    let err = ParseError::new(ParseErrorType::InvalidToken("fn".to_string()), loc.clone());
    assert_eq!(err.generate_error_message(&src), Some(format!("{}Unexpected token: fn.", head)));
    let err = ParseError::new(ParseErrorType::UnexpectedToken(vec!["(", "{"]), loc.clone());
    assert_eq!(err.generate_error_message(&src), Some(format!("{}Expected ( or {{.", head)));
    let err = ParseError::new(ParseErrorType::UnexpectedEndOfBlock, loc.clone());
    assert_eq!(
        err.generate_error_message(&src),
        Some(format!("{}Unexpected end of input while parsing a block", head))
    );
    let err = ParseError::new(ParseErrorType::UnexpectedEndOfBlock, SourceCodeLocation::new(4, 1, 0, 1, None));
    assert_eq!(err.generate_error_message(&src), None);
}

#[test]
fn token_converts_to_its_location() {
    let loc = SourceCodeLocation::new(3, 7, 20, 2, Some("m".to_string()));
    let token = Token::new(TokenKind::DoubleEq, loc.clone());
    let back: SourceCodeLocation = token.into();
    assert_eq!(back, loc);
}
