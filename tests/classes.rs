use paca::text::CharClass;
use paca::{Cursor, Lexer, TokenKind, Tokenize};

const PLAIN: CharClass = CharClass { letter: false, numeral: false, blank: false };
const LETTER: CharClass = CharClass { letter: true, numeral: false, blank: false };
const BLANK: CharClass = CharClass { letter: false, numeral: false, blank: true };
const NUMERAL: CharClass = CharClass { letter: false, numeral: true, blank: false };

#[test]
fn given_classes_decide_words_and_blanks() {
    let src = "a#b".to_string();
    let tokens = Lexer::with_classes(None, &src, vec![LETTER, BLANK, LETTER]).tokenize().unwrap();
    let kinds: Vec<TokenKind> = tokens.into_iter().map(|t| t.kind).collect();
    assert_eq!(kinds, vec![TokenKind::Ident("a".to_string()), TokenKind::Ident("b".to_string())]);

    let src = "a#".to_string();
    let tokens = Lexer::with_classes(None, &src, vec![LETTER, NUMERAL]).tokenize().unwrap();
    assert_eq!(tokens[0].kind, TokenKind::Ident("a#".to_string()));

    let src = "+=".to_string();
    let tokens = Lexer::with_classes(None, &src, vec![PLAIN, PLAIN]).tokenize().unwrap();
    assert_eq!(tokens.len(), 1);
    assert_eq!(tokens[0].kind, TokenKind::PlusEq);
    assert_eq!(tokens[0].loc.length, 2);
}

#[test]
fn cursor_tracks_positions_and_stops_at_the_end() {
    let mut cur = Cursor::new(vec!['a', '\n', 'é']);
    assert_eq!(cur.current(), Some('a'));
    assert_eq!(cur.peek(), Some('\n'));
    assert_eq!(cur.advance(), Some('a'));
    assert_eq!((cur.line(), cur.column(), cur.offset()), (1, 2, 1));
    assert_eq!(cur.advance(), Some('\n'));
    assert_eq!((cur.line(), cur.column(), cur.offset()), (2, 1, 2));
    assert_eq!(cur.peek(), None);
    assert_eq!(cur.advance(), Some('é'));
    assert_eq!((cur.line(), cur.column(), cur.offset(), cur.position()), (2, 2, 4, 3));
    assert!(cur.is_end());
    assert_eq!(cur.current(), None);
    assert_eq!(cur.advance(), None);
    assert_eq!(cur.position(), 3);
}
