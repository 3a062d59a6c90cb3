use atoy::lexer::{LexError, Lexer, Position};
use atoy::token::Token;

fn lex(src: &str) -> Result<Vec<Token>, LexError> {
    let mut lexer = Lexer::new(src.to_owned());
    lexer.tokenize()
}

#[test]
fn lexer_test() {
    let tokens = lex("if a == 2.0 {}\n").unwrap();
    assert_eq!(
        tokens,
        vec![
            Token::If,
            Token::Ident("a".to_owned()),
            Token::Eq,
            Token::Float("2.0".to_owned()),
            Token::LBrace,
            Token::RBrace,
            Token::Eof,
        ]
    );
}

#[test]
fn lexer_lexer_test() {
    let tokens = lex("if a == 2.0 {}\n").unwrap();
    assert_eq!(tokens.len(), 7);
    assert_eq!(tokens[3], Token::Float("2.0".to_owned()));
    assert_eq!(tokens[6], Token::Eof);
}

#[test]
fn operators_and_compound_assignments() {
    let tokens = lex("+ += - -= * *= / /= = == > >= < <= ! != ( ) , ; { }").unwrap();
    assert_eq!(
        tokens,
        vec![
            Token::Plus,
            Token::PlusAssign,
            Token::Minus,
            Token::MinusAssign,
            Token::Star,
            Token::StarAssign,
            Token::Slash,
            Token::SlashAssign,
            Token::Assign,
            Token::Eq,
            Token::Gt,
            Token::Gte,
            Token::Lt,
            Token::Lte,
            Token::Not,
            Token::NEq,
            Token::LParen,
            Token::RParen,
            Token::Comma,
            Token::Semicolon,
            Token::LBrace,
            Token::RBrace,
            Token::Eof,
        ]
    );
}

#[test]
fn keywords_and_names() {
    let tokens = lex("let true false if else return while fn and or not name_1").unwrap();
    assert_eq!(
        tokens,
        vec![
            Token::Let,
            Token::True,
            Token::False,
            Token::If,
            Token::Else,
            Token::Return,
            Token::While,
            Token::Fn,
            Token::And,
            Token::Or,
            Token::Not,
            Token::Ident("name_1".to_owned()),
            Token::Eof,
        ]
    );
}

#[test]
fn comments_are_skipped() {
    let tokens = lex("1 // one\n2").unwrap();
    assert_eq!(tokens, vec![Token::Integer(1), Token::Integer(2), Token::Eof]);
}

#[test]
fn string_escapes() {
    let tokens = lex(r#"'a\n\t\\b' "c""#).unwrap();
    assert_eq!(
        tokens,
        vec![Token::String("a\n\t\\b".to_owned()), Token::String("c".to_owned()), Token::Eof]
    );
}

#[test]
fn unicode_escape() {
    let tokens = lex(r#""\u0041""#).unwrap();
    assert_eq!(tokens, vec![Token::String("A".to_owned()), Token::Eof]);
}

#[test]
fn empty_source_is_just_eof() {
    assert_eq!(lex("").unwrap(), vec![Token::Eof]);
    assert_eq!(lex("   \n\t ").unwrap(), vec![Token::Eof]);
}

#[test]
fn multiple_dots_is_an_error() {
    assert_eq!(
        lex("1.2.3"),
        Err(LexError::MultipleDots { position: Position { line: 0, col: 3 } })
    );
}

#[test]
fn unexpected_character_is_an_error() {
    assert_eq!(
        lex("a @"),
        Err(LexError::UnexpectedChar { ch: '@', position: Position { line: 0, col: 3 } })
    );
}

#[test]
fn unterminated_string_is_an_error() {
    assert_eq!(lex("'abc"), Err(LexError::UnexpectedEof));
}

#[test]
fn newline_in_string_is_an_error() {
    assert!(matches!(lex("'ab\ncd'"), Err(LexError::UnexpectedEol { .. })));
}

#[test]
fn illegal_escape_is_an_error() {
    assert!(matches!(lex(r"'\q'"), Err(LexError::IllegalEscapingSequence { ch: 'q', .. })));
}

#[test]
fn position_of_a_fresh_lexer() {
    let lexer = Lexer::new("ab\ncd".to_owned());
    let p = lexer.get_position();
    assert_eq!(p, Position { line: 0, col: 0 });
}

#[test]
fn skipping_whitespace_and_comments() {
    let mut lexer = Lexer::new("  // note\n  x".to_owned());
    lexer.skip_whitespace_and_comments();
    assert_eq!(lexer.get_position(), Position { line: 1, col: 2 });
}

#[test]
fn checked_tokenize_reports_an_overflowing_literal() {
    let mut lexer = Lexer::new("99999999999999999999".to_owned());
    assert_eq!(lexer.tokenize_checked(), None);
    let mut ok = Lexer::new("42".to_owned());
    assert_eq!(ok.tokenize_checked(), Some(Ok(vec![Token::Integer(42), Token::Eof])));
}

#[test]
fn token_text() {
    assert_eq!(Token::PlusAssign.text(), "+=");
    assert_eq!(Token::Integer(-5).text(), "-5");
    assert_eq!(Token::Eof.text(), "EOF");
}

#[test]
fn member_index_and_concat_punctuation() {
    assert_eq!(
        lex("a.b:c[1] .. [] {}").unwrap(),
        vec![
            Token::Ident("a".to_owned()),
            Token::Dot,
            Token::Ident("b".to_owned()),
            Token::Colon,
            Token::Ident("c".to_owned()),
            Token::LBracket,
            Token::Integer(1),
            Token::RBracket,
            Token::DotDot,
            Token::LBracket,
            Token::RBracket,
            Token::LBrace,
            Token::RBrace,
            Token::Eof,
        ]
    );
    assert_eq!(Token::DotDot.text(), "..");
    assert_eq!(Token::Colon.text(), ":");
    assert_eq!(Token::RBracket.text(), "]");
}

#[test]
fn a_number_keeps_its_dot() {
    assert_eq!(lex("1.x").unwrap(), vec![Token::Float("1.".to_owned()), Token::Ident("x".to_owned()), Token::Eof]);
    assert_eq!(lex("1 ..2").unwrap(), vec![Token::Integer(1), Token::DotDot, Token::Integer(2), Token::Eof]);
}

#[test]
fn escaped_quotes_stay_in_the_string() {
    let mut lexer = Lexer::new(r"'it\'s'".to_owned());
    assert_eq!(lexer.tokenize().unwrap(), vec![Token::String("it's".to_owned()), Token::Eof]);
    assert_eq!(lex(r#""a\"b""#).unwrap(), vec![Token::String("a\"b".to_owned()), Token::Eof]);
}

#[test]
fn unicode_white_space_is_skipped() {
    assert_eq!(
        lex("a\u{3000}b\u{00A0}\u{2028}c").unwrap(),
        vec![Token::Ident("a".to_owned()), Token::Ident("b".to_owned()), Token::Ident("c".to_owned()), Token::Eof]
    );
}
