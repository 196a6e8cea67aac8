use jazzy_parser::ast::AST;
use jazzy_parser::checked::{file_input_ok, repl_input_ok};
use jazzy_parser::error::ErrorReporter;
use jazzy_parser::parser::Parser;
use jazzy_parser::token::{LocationInfo, Token, TokenType};

fn word(token_type: TokenType, lexeme: &str) -> Token {
    Token {
        token_type,
        lexeme: Some(lexeme.to_string()),
        location_info: LocationInfo { line: 1, start: 0, end: 0 },
        whitespace_precedes: true,
        whitespace_follows: true,
    }
}

fn finish() -> Token {
    Token {
        token_type: TokenType::EOF,
        lexeme: None,
        location_info: LocationInfo { line: 2, start: 0, end: 0 },
        whitespace_precedes: true,
        whitespace_follows: false,
    }
}

fn declaration() -> Vec<Token> {
    vec![
        word(TokenType::Let, "let"),
        word(TokenType::ID, "x"),
        word(TokenType::Assign, ":="),
        word(TokenType::IntLit, "1"),
        word(TokenType::Semicolon, ";"),
        finish(),
    ]
}

#[test]
fn well_formed_file_passes_the_check() {
    let tokens = declaration();
    assert!(file_input_ok(&tokens));
    assert!(repl_input_ok(&tokens));
    let mut p = Parser::new(tokens, AST::new(false), ErrorReporter::new());
    p.parse();
    assert_eq!(p.error.reports.len(), 0);
}

#[test]
fn tokens_without_end_fail_the_check() {
    assert!(!file_input_ok(&vec![]));
    assert!(!repl_input_ok(&vec![]));
    let mut tokens = declaration();
    tokens.pop();
    assert!(!file_input_ok(&tokens));
    assert!(!repl_input_ok(&tokens));
}

#[test]
fn statement_cut_off_by_the_end_fails_the_check() {
    // Reading `let x := 1` EOF goes past the end looking for the next statement.
    let tokens = vec![
        word(TokenType::Let, "let"),
        word(TokenType::ID, "x"),
        word(TokenType::Assign, ":="),
        word(TokenType::IntLit, "1"),
        finish(),
    ];
    assert!(!file_input_ok(&tokens));
    assert!(!repl_input_ok(&tokens));
}

#[test]
fn integer_too_large_fails_the_check() {
    let tokens = vec![word(TokenType::IntLit, "999999999999999999999999999999999999999999"), finish()];
    assert!(!file_input_ok(&tokens));
    assert!(!repl_input_ok(&tokens));
    let fits = vec![word(TokenType::HexLit, "0x7f"), finish()];
    assert!(file_input_ok(&fits));
}

#[test]
fn command_that_never_moves_on_fails_the_repl_check() {
    // An identifier without its text is read as no expression and not consumed.
    let mut bare = word(TokenType::ID, "");
    bare.lexeme = None;
    let tokens = vec![bare, finish()];
    assert!(file_input_ok(&tokens));
    assert!(!repl_input_ok(&tokens));
}

#[test]
fn parenthesized_expression_passes_the_check() {
    let tokens = vec![
        word(TokenType::LeftParen, "("),
        word(TokenType::IntLit, "7"),
        word(TokenType::Plus, "+"),
        word(TokenType::Minus, "-"),
        word(TokenType::IntLit, "2"),
        word(TokenType::RightParen, ")"),
        finish(),
    ];
    assert!(file_input_ok(&tokens));
    assert!(repl_input_ok(&tokens));
}

#[test]
fn empty_input_passes_the_check() {
    let tokens = vec![finish()];
    assert!(file_input_ok(&tokens));
    assert!(repl_input_ok(&tokens));
}
