use jazzy_parser::ast::AST;
use jazzy_parser::error::{ErrorReporter, ErrorType};
use jazzy_parser::nodes::{
    BinaryOperator, ExpressionKey, Literal, REPLCommandKey, RootKey, StatementKey, UnaryOperator,
};
use jazzy_parser::parser::Parser;
use jazzy_parser::token::{LocationInfo, Token, TokenType};
use jazzy_parser::types::{Primitive, Type};

fn at(line: usize) -> LocationInfo {
    LocationInfo { line, start: 0, end: 0 }
}

fn tok(token_type: TokenType, lexeme: &str) -> Token {
    Token {
        token_type,
        lexeme: Some(lexeme.to_string()),
        location_info: at(1),
        whitespace_precedes: true,
        whitespace_follows: true,
    }
}

fn eof() -> Token {
    Token {
        token_type: TokenType::EOF,
        lexeme: None,
        location_info: at(9),
        whitespace_precedes: true,
        whitespace_follows: false,
    }
}

fn int_tok(text: &str) -> Token {
    tok(TokenType::IntLit, text)
}

fn op(token_type: TokenType, text: &str) -> Token {
    tok(token_type, text)
}

fn run(mut tokens: Vec<Token>, repl: bool) -> Parser {
    tokens.push(eof());
    let mut parser = Parser::new(tokens, AST::new(repl), ErrorReporter::new());
    parser.parse();
    parser
}

fn file_code(p: &Parser) -> String {
    match p.ast.root {
        RootKey::File(k) => p.ast.get_file_root(k).to_code(&p.ast),
        RootKey::REPL(_) => panic!("expected a file root"),
    }
}

fn file_outline(p: &Parser) -> String {
    match p.ast.root {
        RootKey::File(k) => p.ast.get_file_root(k).to_string(&p.ast),
        RootKey::REPL(_) => panic!("expected a file root"),
    }
}

fn repl_code(p: &Parser) -> String {
    match p.ast.root {
        RootKey::REPL(k) => p.ast.get_repl_root(k).to_code(&p.ast),
        RootKey::File(_) => panic!("expected a REPL root"),
    }
}

fn message(p: &Parser, report: usize, line: usize) -> String {
    p.error.reports[report].messages[line].message.clone().unwrap()
}

fn file_expression(p: &Parser) -> Option<ExpressionKey> {
    match p.ast.root {
        RootKey::File(k) => {
            let f = p.ast.get_file_root(k).file.unwrap();
            p.ast.get_file(f).expression
        },
        RootKey::REPL(_) => panic!("expected a file root"),
    }
}

fn file_statements(p: &Parser) -> Vec<StatementKey> {
    match p.ast.root {
        RootKey::File(k) => {
            let f = p.ast.get_file_root(k).file.unwrap();
            p.ast.get_file(f).statements.clone()
        },
        RootKey::REPL(_) => panic!("expected a file root"),
    }
}

#[test]
fn multiplication_binds_tighter_than_addition() {
    let p = run(vec![int_tok("1"), op(TokenType::Plus, "+"), int_tok("2"), op(TokenType::Star, "*"), int_tok("3")], false);
    assert_eq!(file_code(&p), "{File}int: 1 + int: 2 * int: 3;;");
    assert_eq!(p.error.reports.len(), 0);
    match file_expression(&p) {
        Some(ExpressionKey::Binary(b)) => {
            let node = p.ast.get_binary_expression(b);
            assert_eq!(node.operator, BinaryOperator::Plus);
            assert!(matches!(node.right, ExpressionKey::Binary(_)));
            assert!(matches!(node.left, ExpressionKey::Literal(_)));
        },
        _ => panic!("expected a binary expression"),
    }
}

#[test]
fn subtraction_associates_to_the_left() {
    let p = run(vec![int_tok("1"), op(TokenType::Minus, "-"), int_tok("2"), op(TokenType::Minus, "-"), int_tok("3")], false);
    assert_eq!(file_code(&p), "{File}int: 1 - int: 2; - int: 3;");
}

#[test]
fn outline_of_a_parsed_file() {
    let p = run(vec![int_tok("1"), op(TokenType::Plus, "+"), int_tok("2"), op(TokenType::Star, "*"), int_tok("3")], false);
    assert_eq!(
        file_outline(&p),
        "{FileRoot}\n{File}\n\t\t{+}\n\t\t\t{int: 1}\n\t\t\t{*}\n\t\t\t\t{int: 2}\n\t\t\t\t{int: 3}\n"
    );
}

#[test]
fn every_precedence_level_in_one_expression() {
    // a == b < c + d * e and f
    let tokens = vec![
        tok(TokenType::ID, "a"),
        op(TokenType::Equal, "=="),
        tok(TokenType::ID, "b"),
        op(TokenType::LessThan, "<"),
        tok(TokenType::ID, "c"),
        op(TokenType::Plus, "+"),
        tok(TokenType::ID, "d"),
        op(TokenType::Star, "*"),
        tok(TokenType::ID, "e"),
        op(TokenType::And, "and"),
        tok(TokenType::ID, "f"),
    ];
    let p = run(tokens, false);
    assert_eq!(file_code(&p), "{File}a == b < c + d * e and f;;;;;");
    assert_eq!(p.error.reports.len(), 0);
}

#[test]
fn unary_minus_and_not() {
    let p = run(vec![op(TokenType::Minus, "-"), op(TokenType::Minus, "-"), int_tok("5")], false);
    assert_eq!(file_code(&p), "{File}--int: 5;;");
    match file_expression(&p) {
        Some(ExpressionKey::Unary(u)) => {
            let node = p.ast.get_unary_expression(u);
            assert_eq!(node.operator, UnaryOperator::Minus);
            assert_eq!(node.node_to_string(), "{unary -}");
        },
        _ => panic!("expected a unary expression"),
    }
    let q = run(vec![op(TokenType::Not, "!"), tok(TokenType::True, "true")], false);
    assert_eq!(file_code(&q), "{File}nottrue;");
}

#[test]
fn parentheses_group_first() {
    let tokens = vec![
        op(TokenType::LeftParen, "("),
        int_tok("1"),
        op(TokenType::Plus, "+"),
        int_tok("2"),
        op(TokenType::RightParen, ")"),
        op(TokenType::Star, "*"),
        int_tok("3"),
    ];
    let p = run(tokens, false);
    assert_eq!(file_code(&p), "{File}int: 1 + int: 2; * int: 3;");
    assert_eq!(p.error.reports.len(), 0);
}

#[test]
fn unmatched_parenthesis_is_reported() {
    let tokens = vec![op(TokenType::LeftParen, "("), int_tok("1"), op(TokenType::Plus, "+"), int_tok("2")];
    let p = run(tokens, false);
    assert_eq!(file_code(&p), "{File}int: 1 + int: 2;");
    assert_eq!(p.error.reports.len(), 1);
    let r = &p.error.reports[0];
    assert_eq!(r.error_type, ErrorType::UnMatchedParenError);
    assert_eq!(message(&p, 0, 0), "Expected token \")\" after expression but got token EOF");
    assert_eq!(message(&p, 0, 1), "Un-matched left parenthesis");
    assert_eq!(r.messages[0].location_info, at(9));
    assert_eq!(r.hint.clone().unwrap(), "Try putting a \")\" after the expression");
}

#[test]
fn declaration_with_mut_and_type_hint() {
    let tokens = vec![
        tok(TokenType::Let, "let"),
        tok(TokenType::Mut, "mut"),
        tok(TokenType::ID, "x"),
        op(TokenType::LeftParen, "("),
        tok(TokenType::I32, "i32"),
        op(TokenType::RightParen, ")"),
        op(TokenType::Assign, ":="),
        int_tok("5"),
        op(TokenType::Semicolon, ";"),
    ];
    let p = run(tokens, false);
    assert_eq!(file_code(&p), "{File}let (mut) x i32 := int: 5;");
    // The trailing expression is optional: a file of statements alone is not reported.
    assert_eq!(p.error.reports.len(), 0);
    let statements = file_statements(&p);
    assert_eq!(statements.len(), 1);
    match statements[0] {
        StatementKey::VarDecl(d) => {
            let decl = p.ast.get_variable_declaration(d);
            assert!(decl.mutable);
            assert_eq!(decl.name, "x");
            assert_eq!(decl.token.token_type, TokenType::Assign);
            let hint = p.ast.get_type_hint(decl.type_hint.unwrap());
            assert_eq!(hint.get_type().data_type, Type::Primitive(Primitive::I32));
            assert_eq!(decl.node_to_string(), "{Declaration (mut)}");
        },
        _ => panic!("expected a declaration"),
    }
    assert!(file_expression(&p).is_none());
}

#[test]
fn declaration_outline_indents_each_child() {
    let tokens = vec![
        tok(TokenType::Let, "let"),
        tok(TokenType::ID, "y"),
        op(TokenType::Assign, ":="),
        tok(TokenType::StringLit, "hi"),
        op(TokenType::Semicolon, ";"),
    ];
    let p = run(tokens, false);
    assert_eq!(
        file_outline(&p),
        "{FileRoot}\n{File}\n\t\t{Declaration}\n\t\t\t{ID: y}\n\t\t\t{string: \"hi\"}\n"
    );
    assert_eq!(file_code(&p), "{File}let y := string: \"hi\";");
}

#[test]
fn unknown_type_hint_is_untyped() {
    let tokens = vec![
        tok(TokenType::Let, "let"),
        tok(TokenType::ID, "x"),
        op(TokenType::LeftParen, "("),
        tok(TokenType::ID, "widget"),
        op(TokenType::RightParen, ")"),
        op(TokenType::Assign, ":="),
        int_tok("1"),
        op(TokenType::Semicolon, ";"),
    ];
    let p = run(tokens, false);
    assert_eq!(file_code(&p), "{File}let x untyped := int: 1;");
}

#[test]
fn missing_closing_parenthesis_of_type_hint() {
    let tokens = vec![
        tok(TokenType::Let, "let"),
        tok(TokenType::ID, "x"),
        op(TokenType::LeftParen, "("),
        tok(TokenType::Bool, "bool"),
        op(TokenType::Assign, ":="),
        int_tok("1"),
        op(TokenType::Semicolon, ";"),
        op(TokenType::Semicolon, ";"),
    ];
    let p = run(tokens, false);
    // The token in place of ")" is consumed, so ":=" goes missing too.
    assert_eq!(p.error.reports[0].error_type, ErrorType::UnexpectedTokenError);
    assert_eq!(message(&p, 0, 0), "Expected \")\" after type hint but got \":=\"");
    assert_eq!(message(&p, 0, 1), "Un-matched left parenthesis");
    assert_eq!(message(&p, 1, 0), "Did you mean \":=\"?");
}

#[test]
fn declaration_without_identifier_makes_no_node() {
    let tokens = vec![
        tok(TokenType::Let, "let"),
        op(TokenType::Assign, ":="),
        int_tok("5"),
        op(TokenType::Semicolon, ";"),
        op(TokenType::Semicolon, ";"),
    ];
    let p = run(tokens, false);
    assert_eq!(file_statements(&p), vec![StatementKey::NotANode]);
    assert_eq!(p.error.reports.len(), 3);
    assert_eq!(message(&p, 0, 0), "Expected \";\" but got \":=\"");
    assert_eq!(message(&p, 1, 0), "Did you mean \":=\"?");
    assert_eq!(message(&p, 2, 0), "Expected expression but got \";\"");
    assert_eq!(file_code(&p), "{File}");
}

#[test]
fn equals_sign_in_declaration_is_reported() {
    let tokens = vec![
        tok(TokenType::Let, "let"),
        tok(TokenType::ID, "x"),
        op(TokenType::BadAssign, "="),
        int_tok("5"),
        op(TokenType::Semicolon, ";"),
    ];
    let p = run(tokens, false);
    assert_eq!(p.error.reports[0].error_type, ErrorType::UnexpectedTokenError);
    assert_eq!(message(&p, 0, 0), "Did you mean \":=\"?");
    assert_eq!(file_code(&p), "{File}let x := int: 5;");
}

#[test]
fn missing_semicolon_is_reported() {
    let tokens = vec![
        tok(TokenType::ID, "x"),
        op(TokenType::Assign, ":="),
        int_tok("1"),
        op(TokenType::RightParen, ")"),
        int_tok("2"),
    ];
    let p = run(tokens, false);
    assert_eq!(p.error.reports.len(), 1);
    assert_eq!(message(&p, 0, 0), "Expected \";\" but got \")\"");
    assert_eq!(file_code(&p), "{File}x := int: 1;int: 2");
}

#[test]
fn single_equals_in_expression_means_equality() {
    let tokens = vec![
        op(TokenType::LeftParen, "("),
        int_tok("1"),
        op(TokenType::BadAssign, "="),
        int_tok("2"),
        op(TokenType::RightParen, ")"),
    ];
    let p = run(tokens, false);
    assert_eq!(p.error.reports.len(), 1);
    assert_eq!(message(&p, 0, 0), "Did you mean \"==\"?");
    assert_eq!(file_code(&p), "{File}int: 1 == int: 2;");
}

#[test]
fn operator_without_padding_is_warned() {
    let mut plus = op(TokenType::Plus, "+");
    plus.whitespace_follows = false;
    let p = run(vec![int_tok("1"), plus, int_tok("2")], false);
    assert_eq!(p.error.reports.len(), 1);
    let r = &p.error.reports[0];
    assert_eq!(r.error_type, ErrorType::MissingPaddingAroundOperatorError);
    assert_eq!(message(&p, 0, 0), "in jazzy, you have to surround binary operators with whitespace");
    assert_eq!(
        r.hint.clone().unwrap(),
        "Consider placing a space after the operator like so: \"left + right\""
    );

    let mut minus = op(TokenType::Minus, "-");
    minus.whitespace_precedes = false;
    let q = run(vec![int_tok("1"), minus, int_tok("2")], false);
    assert_eq!(
        q.error.reports[0].hint.clone().unwrap(),
        "Consider placing a space before the operator like so: \"left - right\""
    );

    let mut star = op(TokenType::Star, "*");
    star.whitespace_precedes = false;
    star.whitespace_follows = false;
    let s = run(vec![int_tok("1"), star, int_tok("2")], false);
    assert_eq!(
        s.error.reports[0].hint.clone().unwrap(),
        "Consider placing a space before and after the operator like so: \"left * right\""
    );
}

#[test]
fn unary_operator_needs_no_padding() {
    let mut minus = op(TokenType::Minus, "-");
    minus.whitespace_follows = false;
    let p = run(vec![minus, int_tok("2")], false);
    assert_eq!(p.error.reports.len(), 0);
}

#[test]
fn literal_kinds() {
    let p = run(vec![tok(TokenType::HexLit, "0xff")], false);
    assert_eq!(file_code(&p), "{File}int: 255");
    let q = run(vec![tok(TokenType::BinaryLit, "0b101")], false);
    assert_eq!(file_code(&q), "{File}int: 5");
    let r = run(vec![int_tok("170141183460469231731687303715884105727")], false);
    assert_eq!(file_code(&r), "{File}int: 170141183460469231731687303715884105727");
    let s = run(vec![tok(TokenType::FloatLit, "1.5")], false);
    assert_eq!(file_code(&s), "{File}float: 1.5");
    let t = run(vec![tok(TokenType::False, "false")], false);
    assert_eq!(file_code(&t), "{File}false");
    match file_expression(&p) {
        Some(ExpressionKey::Literal(l)) => {
            assert!(matches!(p.ast.get_literal_expression(l).value, Literal::Int(255)));
        },
        _ => panic!("expected a literal"),
    }
}

#[test]
fn token_that_is_no_expression_is_reported_and_skipped() {
    let p = run(vec![op(TokenType::Semicolon, ";"), int_tok("3")], false);
    assert_eq!(p.error.reports.len(), 1);
    assert_eq!(p.error.reports[0].error_type, ErrorType::ExpectedExpressionError);
    assert_eq!(message(&p, 0, 0), "Expected expression but got \";\"");
    assert!(file_expression(&p).is_none());
    assert_eq!(p.current, 1);
}

#[test]
fn repl_commands_are_statements_and_expressions() {
    let tokens = vec![
        tok(TokenType::ID, "x"),
        op(TokenType::Assign, ":="),
        int_tok("1"),
        op(TokenType::Semicolon, ";"),
        tok(TokenType::ID, "x"),
    ];
    let mut p = run(tokens, true);
    assert_eq!(p.error.reports.len(), 0);
    // REPL input is read up to its end token.
    assert_eq!(p.current, 5);
    assert_eq!(repl_code(&p), "{REPLRoot}x := int: 1;x");
    match p.ast.root {
        RootKey::REPL(k) => {
            let root = p.ast.get_repl_root(k);
            assert_eq!(root.commands.len(), 2);
            assert!(matches!(root.commands[0], REPLCommandKey::Stmt(StatementKey::VarAssmt(_))));
            assert!(matches!(root.commands[1], REPLCommandKey::Expr(ExpressionKey::Variable(_))));
            assert_eq!(root.new_commands_start_at, 0);
        },
        RootKey::File(_) => panic!("expected a REPL root"),
    }
    assert!(p.ast.has_been_changed());
    assert!(!p.ast.has_been_changed());
}

#[test]
fn repl_input_appends_to_earlier_commands() {
    let first = run(vec![tok(TokenType::ID, "x"), op(TokenType::Assign, ":="), int_tok("1"), op(TokenType::Semicolon, ";")], true);
    let mut second = Parser::new(vec![int_tok("2"), eof()], first.ast, ErrorReporter::new());
    second.parse();
    assert_eq!(repl_code(&second), "{REPLRoot}x := int: 1;int: 2");
    match second.ast.root {
        RootKey::REPL(k) => {
            let root = second.ast.get_repl_root(k);
            assert_eq!(root.commands.len(), 2);
            assert_eq!(root.new_commands_start_at, 1);
        },
        RootKey::File(_) => panic!("expected a REPL root"),
    }
}

#[test]
fn file_tree_never_reports_a_change() {
    let mut p = run(vec![int_tok("1")], false);
    assert!(!p.ast.has_been_changed());
}

#[test]
fn parsing_statements_one_by_one() {
    let tokens = vec![
        tok(TokenType::Let, "let"),
        tok(TokenType::ID, "a"),
        op(TokenType::Assign, ":="),
        int_tok("1"),
        op(TokenType::Semicolon, ";"),
        tok(TokenType::ID, "a"),
        op(TokenType::BadAssign, "="),
        int_tok("2"),
        op(TokenType::Semicolon, ";"),
        eof(),
    ];
    let mut p = Parser::new(tokens, AST::new(false), ErrorReporter::new());
    let first = p.statement();
    assert!(matches!(first, StatementKey::VarDecl(_)));
    assert_eq!(p.current, 5);
    let second = p.statement();
    assert!(matches!(second, StatementKey::VarAssmt(_)));
    assert_eq!(p.current, 9);
    assert_eq!(p.error.reports.len(), 1);
    assert_eq!(message(&p, 0, 0), "Did you mean \":=\"?");
}

#[test]
fn type_hint_reads_one_token() {
    let mut p = Parser::new(vec![tok(TokenType::Str, "str"), eof()], AST::new(false), ErrorReporter::new());
    let key = p.type_hint();
    let hint = p.ast.get_type_hint(key);
    assert_eq!(hint.get_type().data_type, Type::Primitive(Primitive::String));
    assert_eq!(hint.node_to_string(), "{Type: str}");
    assert_eq!(hint.to_code(), "str");
    assert_eq!(p.current, 1);
}

#[test]
fn statement_cut_off_by_the_end_moves_past_it() {
    let tokens = vec![
        tok(TokenType::Let, "let"),
        tok(TokenType::ID, "x"),
        op(TokenType::Assign, ":="),
        int_tok("1"),
        eof(),
    ];
    let mut p = Parser::new(tokens, AST::new(false), ErrorReporter::new());
    let s = p.statement();
    assert!(matches!(s, StatementKey::VarDecl(_)));
    // The missing ";" is not reported at the end, and the end token is consumed.
    assert_eq!(p.error.reports.len(), 0);
    assert_eq!(p.current, 5);
}

#[test]
fn identifier_without_text_is_no_expression() {
    let mut bare = tok(TokenType::ID, "");
    bare.lexeme = None;
    let p = run(vec![bare], false);
    assert_eq!(p.error.reports.len(), 1);
    assert_eq!(message(&p, 0, 0), "Expected expression but got ID");
    assert!(file_expression(&p).is_none());
}

#[test]
fn tokens_after_where_reading_stops_are_not_read() {
    // The integer after ";" does not fit an i128, but it is never read.
    let p = run(vec![op(TokenType::Semicolon, ";"), int_tok("999999999999999999999999999999999999999999")], false);
    assert_eq!(p.current, 1);
    assert_eq!(p.error.reports.len(), 1);
}

#[test]
fn file_of_statements_alone_is_not_reported() {
    let tokens = vec![
        tok(TokenType::Let, "let"),
        tok(TokenType::ID, "x"),
        op(TokenType::Assign, ":="),
        int_tok("1"),
        op(TokenType::Semicolon, ";"),
    ];
    let p = run(tokens, false);
    assert_eq!(p.error.reports.len(), 0);
    assert!(file_expression(&p).is_none());
    assert_eq!(file_statements(&p).len(), 1);
    assert_eq!(p.current, 5);
}

#[test]
fn empty_file_is_not_reported() {
    let p = run(vec![], false);
    assert_eq!(p.error.reports.len(), 0);
    assert!(file_expression(&p).is_none());
    assert_eq!(file_code(&p), "{File}");
}
