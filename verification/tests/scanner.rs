use dry::scanner::Scanner;
use dry::tokens::{Arithmetic, Bitwise, Comparison, Keyword, Literal, Token, TokenType};

/// Scans the whole source, Eof token included.
fn scan_all(source: &str) -> Vec<Token> {
    let mut scanner = Scanner::new(source);
    let mut tokens = Vec::new();
    loop {
        let token = scanner.scan_token();
        let done = *token.token_type() == TokenType::Eof;
        tokens.push(token);
        if done {
            break;
        }
    }
    tokens
}

fn types_of(source: &str) -> Vec<TokenType> {
    scan_all(source).iter().map(|t| *t.token_type()).collect()
}

#[test]
fn single_character_tokens() {
    assert_eq!(
        types_of("(){},.;"),
        vec![
            TokenType::LeftParen,
            TokenType::RightParen,
            TokenType::LeftBrace,
            TokenType::RightBrace,
            TokenType::Comma,
            TokenType::Dot,
            TokenType::Semicolon,
            TokenType::Eof,
        ]
    );
}

#[test]
fn arithmetic_and_bitwise_tokens() {
    assert_eq!(
        types_of("+ - * % & | ^"),
        vec![
            TokenType::Arithmetic(Arithmetic::Plus),
            TokenType::Arithmetic(Arithmetic::Minus),
            TokenType::Arithmetic(Arithmetic::Times),
            TokenType::Arithmetic(Arithmetic::Modulo),
            TokenType::Bitwise(Bitwise::BAnd),
            TokenType::Bitwise(Bitwise::BOr),
            TokenType::Bitwise(Bitwise::BXor),
            TokenType::Eof,
        ]
    );
}

#[test]
fn bang_and_equal_pair_up_with_equals() {
    assert_eq!(
        types_of("!= ! == ="),
        vec![
            TokenType::Comparison(Comparison::NotEqual),
            TokenType::Keyword(Keyword::Not),
            TokenType::Comparison(Comparison::EqualEqual),
            TokenType::Comparison(Comparison::Equal),
            TokenType::Eof,
        ]
    );
}

#[test]
fn keywords_are_recognized() {
    let cases: Vec<(&str, Keyword)> = vec![
        ("and", Keyword::And),
        ("or", Keyword::Or),
        ("class", Keyword::Class),
        ("else", Keyword::Else),
        ("true", Keyword::True),
        ("while", Keyword::While),
        ("def", Keyword::Def),
        ("return", Keyword::Return),
        ("self", Keyword::Self_),
        ("false", Keyword::False),
        ("for", Keyword::For),
        ("import", Keyword::Import),
        ("if", Keyword::If),
        ("let", Keyword::Let),
        ("lambda", Keyword::Lambda),
        ("none", Keyword::NoneKw),
        ("not", Keyword::Not),
    ];
    for (source, keyword) in cases {
        let mut scanner = Scanner::new(source);
        let token = scanner.scan_token();
        assert_eq!(
            *token.token_type(),
            TokenType::Keyword(keyword),
            "keyword {source}"
        );
        assert_eq!(token.lexeme(), source);
    }
}

#[test]
fn near_keywords_stay_identifiers() {
    for source in [
        "an", "ands", "o", "fo", "forx", "fa", "i", "im", "imports", "l", "le", "lets", "la",
        "n", "no", "non", "nones", "nots", "selfish", "klass",
    ] {
        let mut scanner = Scanner::new(source);
        let token = scanner.scan_token();
        assert_eq!(*token.token_type(), TokenType::Identifier, "lexeme {source}");
    }
}

#[test]
fn identifiers_carry_their_lexeme() {
    let mut scanner = Scanner::new("foo_bar123 baz");
    let token = scanner.scan_token();
    assert_eq!(*token.token_type(), TokenType::Identifier);
    assert_eq!(token.lexeme(), "foo_bar123");
    let token = scanner.scan_token();
    assert_eq!(token.lexeme(), "baz");
}

#[test]
fn numbers_with_and_without_fraction() {
    let mut scanner = Scanner::new("123 3.14");
    let token = scanner.scan_token();
    assert_eq!(*token.token_type(), TokenType::Literal(Literal::Number));
    assert_eq!(token.lexeme(), "123");
    let token = scanner.scan_token();
    assert_eq!(*token.token_type(), TokenType::Literal(Literal::Number));
    assert_eq!(token.lexeme(), "3.14");
}

#[test]
fn trailing_dot_is_not_part_of_a_number() {
    assert_eq!(
        types_of("1."),
        vec![
            TokenType::Literal(Literal::Number),
            TokenType::Dot,
            TokenType::Eof,
        ]
    );
}

#[test]
fn string_literals_keep_their_quotes() {
    let mut scanner = Scanner::new("\"hi there\"");
    let token = scanner.scan_token();
    assert_eq!(*token.token_type(), TokenType::Literal(Literal::Str));
    assert_eq!(token.lexeme(), "\"hi there\"");
}

#[test]
fn multiline_strings_count_lines() {
    let mut scanner = Scanner::new("\"a\nb\" x");
    let token = scanner.scan_token();
    assert_eq!(*token.token_type(), TokenType::Literal(Literal::Str));
    assert_eq!(token.line(), 2);
    let token = scanner.scan_token();
    assert_eq!(token.lexeme(), "x");
    assert_eq!(token.line(), 2);
}

#[test]
fn unterminated_string_is_an_error_token() {
    let mut scanner = Scanner::new("\"oops");
    let token = scanner.scan_token();
    assert_eq!(*token.token_type(), TokenType::Error);
    assert_eq!(token.lexeme(), "Unterminated string");
}

#[test]
fn unexpected_character_is_an_error_token() {
    let mut scanner = Scanner::new("@");
    let token = scanner.scan_token();
    assert_eq!(*token.token_type(), TokenType::Error);
    assert_eq!(token.lexeme(), "Unexpected character.");
    // scanning goes on after the error
    let token = scanner.scan_token();
    assert_eq!(*token.token_type(), TokenType::Eof);
}

#[test]
fn comments_run_to_the_end_of_the_line() {
    assert_eq!(
        types_of("// nothing here\nlet // trailing\n"),
        vec![TokenType::Keyword(Keyword::Let), TokenType::Eof]
    );
}

#[test]
fn lone_slash_is_unexpected() {
    let mut scanner = Scanner::new("/");
    let token = scanner.scan_token();
    assert_eq!(*token.token_type(), TokenType::Error);
    assert_eq!(token.lexeme(), "Unexpected character.");
}

#[test]
fn newlines_advance_the_line_counter() {
    let mut scanner = Scanner::new("a\nb\n\nc");
    assert_eq!(scanner.scan_token().line(), 1);
    assert_eq!(scanner.scan_token().line(), 2);
    assert_eq!(scanner.scan_token().line(), 4);
    assert_eq!(scanner.scan_token().line(), 4);
}

#[test]
fn empty_source_scans_to_eof_forever() {
    let mut scanner = Scanner::new("");
    assert_eq!(*scanner.scan_token().token_type(), TokenType::Eof);
    assert_eq!(*scanner.scan_token().token_type(), TokenType::Eof);
}

#[test]
fn scanner_exposes_its_cursors() {
    let mut scanner = Scanner::new("let x");
    assert_eq!(scanner.start(), 0);
    assert_eq!(scanner.current(), 0);
    assert_eq!(scanner.line(), 1);
    assert_eq!(scanner.source(), "let x");
    scanner.scan_token();
    assert_eq!(scanner.start(), 0);
    assert_eq!(scanner.current(), 3);
}

#[test]
fn whitespace_is_skipped() {
    assert_eq!(
        types_of("  \t\r  let  "),
        vec![TokenType::Keyword(Keyword::Let), TokenType::Eof]
    );
}

#[test]
fn a_small_program_scans_as_expected() {
    let types = types_of("def f(x) { return x * 2.5; } // doubles, sort of");
    assert_eq!(
        types,
        vec![
            TokenType::Keyword(Keyword::Def),
            TokenType::Identifier,
            TokenType::LeftParen,
            TokenType::Identifier,
            TokenType::RightParen,
            TokenType::LeftBrace,
            TokenType::Keyword(Keyword::Return),
            TokenType::Identifier,
            TokenType::Arithmetic(Arithmetic::Times),
            TokenType::Literal(Literal::Number),
            TokenType::Semicolon,
            TokenType::RightBrace,
            TokenType::Eof,
        ]
    );
}
