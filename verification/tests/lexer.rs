use otter_fusion::lexer::{Lexer, LexerError};
use otter_fusion::tokens::{Token, TokenType};

fn lex(src: &str) -> Result<Vec<Token>, LexerError> {
    Lexer::new(src).scan_all()
}

fn kinds(src: &str) -> Vec<TokenType> {
    lex(src).unwrap().into_iter().map(|t| t.token_type).collect()
}

#[test]
fn tokens_carry_the_position_after_their_text() {
    let toks = lex("var x = 1;").unwrap();
    assert_eq!(toks.len(), 5);
    assert_eq!(toks[0], Token::new(TokenType::Var, 3, 1, 4));
    assert_eq!(toks[1], Token::new(TokenType::Identifier("x".to_string()), 5, 1, 6));
    assert_eq!(toks[2], Token::new(TokenType::Eq, 7, 1, 8));
    assert_eq!(toks[3], Token::new(TokenType::Int("1".to_string()), 9, 1, 10));
    assert_eq!(toks[4], Token::new(TokenType::Semicolon, 10, 1, 11));
}

#[test]
fn comments_are_dropped_and_lines_counted() {
    let toks = lex("// hi\nx").unwrap();
    assert_eq!(toks, vec![Token::new(TokenType::Identifier("x".to_string()), 7, 2, 2)]);
}

#[test]
fn next_token_yields_comments_and_eof() {
    let mut lx = Lexer::new("// c");
    let t = lx.next_token().unwrap().unwrap();
    assert_eq!(t.token_type, TokenType::Comment(" c".to_string()));
    let e = lx.next_token().unwrap().unwrap();
    assert_eq!(e.token_type, TokenType::EOF);
    let again = lx.next_token().unwrap().unwrap();
    assert_eq!(again.token_type, TokenType::EOF);
}

#[test]
fn empty_input_has_no_tokens() {
    assert_eq!(lex("").unwrap(), vec![]);
    assert_eq!(lex("  \n\t ").unwrap(), vec![]);
}

#[test]
fn keywords_and_identifiers() {
    assert_eq!(
        kinds("struct function for while null true false var extend return interface is type as in self"),
        vec![
            TokenType::Struct,
            TokenType::Function,
            TokenType::For,
            TokenType::While,
            TokenType::Null,
            TokenType::True,
            TokenType::False,
            TokenType::Var,
            TokenType::Extend,
            TokenType::Return,
            TokenType::Interface,
            TokenType::Is,
            TokenType::Type,
            TokenType::As,
            TokenType::In,
            TokenType::SelfRef,
        ]
    );
    assert_eq!(
        kinds("match class if else continue break extern import from _a $b c9"),
        vec![
            TokenType::Match,
            TokenType::Class,
            TokenType::If,
            TokenType::Else,
            TokenType::Continue,
            TokenType::Break,
            TokenType::Extern,
            TokenType::Import,
            TokenType::From,
            TokenType::Identifier("_a".to_string()),
            TokenType::Identifier("$b".to_string()),
            TokenType::Identifier("c9".to_string()),
        ]
    );
}

#[test]
fn operators_take_the_longest_match() {
    assert_eq!(
        kinds("( ) { } [ ] < <= > >= = == => ! != + - * / % && || | : ; . ,"),
        vec![
            TokenType::LeftParen,
            TokenType::RightParen,
            TokenType::LeftBrace,
            TokenType::RightBrace,
            TokenType::LeftBracket,
            TokenType::RightBracket,
            TokenType::LT,
            TokenType::LtEq,
            TokenType::GT,
            TokenType::GtEq,
            TokenType::Eq,
            TokenType::EqEq,
            TokenType::FatArrow,
            TokenType::Bang,
            TokenType::BangEq,
            TokenType::Plus,
            TokenType::Minus,
            TokenType::Star,
            TokenType::Slash,
            TokenType::Percent,
            TokenType::And,
            TokenType::Or,
            TokenType::Pipe,
            TokenType::Colon,
            TokenType::Semicolon,
            TokenType::Dot,
            TokenType::Comma,
        ]
    );
}

#[test]
fn literals() {
    assert_eq!(
        kinds("42 3.14 \"a\\\"b\" 'z'"),
        vec![
            TokenType::Int("42".to_string()),
            TokenType::Float("3.14".to_string()),
            TokenType::StringLit("a\"b".to_string()),
            TokenType::CharLit('z'),
        ]
    );
    let toks = lex("'a'").unwrap();
    assert_eq!(toks, vec![Token::new(TokenType::CharLit('a'), 3, 1, 4)]);
}

#[test]
fn unexpected_character_error() {
    let e = lex("@").unwrap_err();
    assert_eq!(e, LexerError::UnexpectedCharacter('@', 1, 2));
    assert_eq!(e.span(), (1, 2));
    assert_eq!(e.message(), "unexpected character '@'");
    assert_eq!(lex("a & b").unwrap_err(), LexerError::UnexpectedCharacter('&', 1, 4));
    assert_eq!(lex("''").unwrap_err(), LexerError::UnexpectedCharacter('\'', 1, 3));
    assert_eq!(lex("'ab'").unwrap_err(), LexerError::UnexpectedCharacter('a', 1, 3));
}

#[test]
fn unterminated_string_error() {
    let e = lex("\"abc").unwrap_err();
    assert_eq!(e, LexerError::UnterminatedString(1, 5));
    assert_eq!(e.message(), "unterminated string literal");
}

#[test]
fn invalid_number_errors() {
    let e = lex("1.2.3").unwrap_err();
    assert_eq!(e, LexerError::InvalidNumber("1.2".to_string(), 1, 4));
    assert_eq!(e.message(), "invalid number literal '1.2'");
    assert_eq!(lex("5.").unwrap_err(), LexerError::InvalidNumber("5.".to_string(), 1, 3));
}

#[test]
fn scan_all_never_returns_eof_or_comment_tokens() {
    let toks = lex("x // one\n// two\ny").unwrap();
    assert_eq!(toks.len(), 2);
    for t in &toks {
        assert!(!matches!(t.token_type, TokenType::EOF | TokenType::Comment(_)));
    }
}

#[test]
fn unicode_whitespace_is_skipped() {
    let toks = lex("\u{00A0}x").unwrap();
    assert_eq!(toks, vec![Token::new(TokenType::Identifier("x".to_string()), 2, 1, 3)]);
}

#[test]
fn token_coordinates_follow_the_text() {
    let src = "a\n  bc\n\n\"s\"";
    let toks = lex(src).unwrap();
    assert_eq!(toks.len(), 3);
    let chars: Vec<char> = src.chars().collect();
    for t in &toks {
        let before = &chars[..t.position];
        let line = 1 + before.iter().filter(|c| **c == '\n').count();
        let start = before.iter().rposition(|c| *c == '\n').map(|k| k + 1).unwrap_or(0);
        assert_eq!(t.line, line);
        assert_eq!(t.column, t.position - start + 1);
    }
    assert_eq!((toks[1].line, toks[1].column), (2, 5));
    assert_eq!((toks[2].line, toks[2].column), (4, 4));
}
