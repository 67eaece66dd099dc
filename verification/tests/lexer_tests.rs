use bytecode_vm::lexer::{Lexer, Token};

fn tokens_of(src: &str) -> Vec<Token> {
    let mut lx = Lexer::new(src);
    let mut out = Vec::new();
    loop {
        let t = lx.next_token();
        let done = t == Token::EOF;
        out.push(t);
        if done {
            return out;
        }
    }
}

#[test]
fn empty_input_is_eof() {
    assert_eq!(tokens_of(""), vec![Token::EOF]);
    assert_eq!(tokens_of("   \t\n\r "), vec![Token::EOF]);
}

#[test]
fn number_token() {
    assert_eq!(tokens_of("123"), vec![Token::Number(123), Token::EOF]);
    assert_eq!(tokens_of("007"), vec![Token::Number(7), Token::EOF]);
    assert_eq!(tokens_of("0"), vec![Token::Number(0), Token::EOF]);
}

#[test]
fn quoted_text_token() {
    assert_eq!(
        tokens_of("\"hi there\""),
        vec![Token::Text("hi there".to_string()), Token::EOF]
    );
}

#[test]
fn unterminated_text_runs_to_end() {
    assert_eq!(
        tokens_of("\"abc"),
        vec![Token::Text("abc".to_string()), Token::EOF]
    );
}

#[test]
fn identifiers_and_keywords() {
    assert_eq!(
        tokens_of("if else while let iffy_2"),
        vec![
            Token::If,
            Token::Else,
            Token::While,
            Token::Let,
            Token::Identifier("iffy_2".to_string()),
            Token::EOF,
        ]
    );
}

#[test]
fn operators_and_punctuation() {
    assert_eq!(
        tokens_of("= + - * / ( ) { } ;"),
        vec![
            Token::Equal,
            Token::Plus,
            Token::Minus,
            Token::Asterisk,
            Token::Slash,
            Token::LeftParen,
            Token::RightParen,
            Token::LeftBrace,
            Token::RightBrace,
            Token::Semicolon,
            Token::EOF,
        ]
    );
}

#[test]
fn unexpected_character_is_reported() {
    assert_eq!(
        tokens_of("@"),
        vec![Token::Unexpected('@'), Token::EOF]
    );
}

#[test]
fn a_small_program_tokenizes() {
    assert_eq!(
        tokens_of("let x = 5; while (5 - x) { x = x + 1 }"),
        vec![
            Token::Let,
            Token::Identifier("x".to_string()),
            Token::Equal,
            Token::Number(5),
            Token::Semicolon,
            Token::While,
            Token::LeftParen,
            Token::Number(5),
            Token::Minus,
            Token::Identifier("x".to_string()),
            Token::RightParen,
            Token::LeftBrace,
            Token::Identifier("x".to_string()),
            Token::Equal,
            Token::Identifier("x".to_string()),
            Token::Plus,
            Token::Number(1),
            Token::RightBrace,
            Token::EOF,
        ]
    );
}

#[test]
fn skip_whitespace_stops_at_content() {
    let mut lx = Lexer::new("   7");
    lx.skip_whitespace();
    assert_eq!(lx.next_token(), Token::Number(7));
}

#[test]
fn tokens_without_separating_spaces() {
    assert_eq!(
        tokens_of("x=1;"),
        vec![
            Token::Identifier("x".to_string()),
            Token::Equal,
            Token::Number(1),
            Token::Semicolon,
            Token::EOF,
        ]
    );
}

#[test]
fn number_at_the_64_bit_limit() {
    assert_eq!(
        tokens_of("9223372036854775807"),
        vec![Token::Number(i64::MAX), Token::EOF]
    );
}

#[test]
fn number_beyond_the_limit_wraps() {
    assert_eq!(
        tokens_of("9223372036854775808"),
        vec![Token::Number(i64::MIN), Token::EOF]
    );
    assert_eq!(
        tokens_of("18446744073709551616"),
        vec![Token::Number(0), Token::EOF]
    );
}
