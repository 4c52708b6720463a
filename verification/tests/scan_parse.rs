use tinycomp::parser::Parser;
use tinycomp::scanner::{scan, Token, TokenType};
use tinycomp::tree::{ASTNodeKind, Node};

fn types_of(tokens: &Vec<Token>) -> Vec<TokenType> {
    tokens.iter().map(|t| t.get_type()).collect()
}

#[test]
fn scan_assignment_statement() {
    let tokens = scan("x = 5;".to_string());
    assert_eq!(
        types_of(&tokens),
        vec![
            TokenType::Variable,
            TokenType::EqualSign,
            TokenType::Integer,
            TokenType::Terminator,
        ]
    );
    assert_eq!(tokens[0].get_val(), "x");
    assert_eq!(tokens[2].get_val(), "5");
}

#[test]
fn scan_call_statement() {
    let tokens = scan("print(97);".to_string());
    assert_eq!(
        types_of(&tokens),
        vec![
            TokenType::FunctionCall,
            TokenType::ParenOpen,
            TokenType::Integer,
            TokenType::ParenClose,
            TokenType::Terminator,
        ]
    );
    assert_eq!(tokens[0].get_val(), "print");
    assert_eq!(tokens[2].get_val(), "97");
}

#[test]
fn scan_classifies_a_name_by_the_following_paren() {
    let tokens = scan("foo(bar".to_string());
    assert_eq!(tokens[0].get_type(), TokenType::FunctionCall);
    assert_eq!(tokens[2].get_type(), TokenType::Variable);
}

#[test]
fn scan_renders_integers_canonically() {
    let tokens = scan("007".to_string());
    assert_eq!(tokens[0].get_type(), TokenType::Integer);
    assert_eq!(tokens[0].get_val(), "7");
}

#[test]
fn scan_turns_an_oversized_integer_into_zero() {
    // one past the largest signed 64-bit value
    let tokens = scan("9223372036854775808".to_string());
    assert_eq!(tokens[0].get_val(), "0");
    // the largest value itself is kept
    let tokens = scan("9223372036854775807".to_string());
    assert_eq!(tokens[0].get_val(), "9223372036854775807");
}

#[test]
fn scan_punctuation_and_unknown_characters() {
    let tokens = scan("+-*/%^=(){}?".to_string());
    assert_eq!(
        types_of(&tokens),
        vec![
            TokenType::Add,
            TokenType::Subtract,
            TokenType::Multiply,
            TokenType::Divide,
            TokenType::Modulus,
            TokenType::Exponent,
            TokenType::EqualSign,
            TokenType::ParenOpen,
            TokenType::ParenClose,
            TokenType::BraceOpen,
            TokenType::BraceClose,
            TokenType::Unknown,
        ]
    );
}

#[test]
fn scan_skips_spaces_and_newlines() {
    let tokens = scan("  a \n b ".to_string());
    assert_eq!(types_of(&tokens), vec![TokenType::Variable, TokenType::Variable]);
}

#[test]
fn token_accessors() {
    let tokens = scan("abc".to_string());
    assert!(tokens[0].is_type(TokenType::Variable));
    assert!(!tokens[0].is_type(TokenType::Integer));
    assert_eq!(tokens[0].get_val(), "abc");
    let d: Token = Default::default();
    assert!(d.is_type(TokenType::Unknown));
    assert_eq!(d.get_val(), "");
}

fn unwrap_node(n: Option<Node>) -> Node {
    match n {
        Some(node) => node,
        None => panic!("expected a node"),
    }
}

#[test]
fn parse_assignment_builds_the_expected_tree_and_pool() {
    let tokens = scan("x = 42;".to_string());
    let mut p = Parser::new(&tokens);
    let ast = p.start().expect("parse should succeed");
    assert_eq!(ast.len(), 1);
    let stmt = &ast[0];
    assert_eq!(stmt.get_kind(), ASTNodeKind::Assignment);
    assert!(!stmt.has_val());
    let left = unwrap_node(stmt.get_left());
    let right = unwrap_node(stmt.get_right());
    assert_eq!(left.get_kind(), ASTNodeKind::Variable);
    assert_eq!(left.val, Some("x".to_string()));
    assert_eq!(right.get_kind(), ASTNodeKind::Integer);
    assert_eq!(right.val, Some("42".to_string()));
    let cd = p.get_const_data();
    assert_eq!(cd.get_const_index("42"), 0);
    assert_eq!(cd.get_const_length("42"), 2);
}

#[test]
fn parse_call_builds_a_param_chain_and_registers_every_literal() {
    let tokens = scan("print(97 5);".to_string());
    let mut p = Parser::new(&tokens);
    let ast = p.start().expect("parse should succeed");
    assert_eq!(ast.len(), 1);
    let stmt = &ast[0];
    assert_eq!(stmt.get_kind(), ASTNodeKind::FunctionCall);
    assert_eq!(stmt.val, Some("print".to_string()));
    assert!(!stmt.has_left());
    let first = unwrap_node(stmt.get_right());
    assert_eq!(first.get_kind(), ASTNodeKind::Integer);
    assert_eq!(first.val, Some("97".to_string()));
    let cd = p.get_const_data();
    assert_eq!(cd.get_const_index("97"), 0);
    assert_eq!(cd.get_const_index("5"), 2);
}

#[test]
fn parse_two_statements() {
    let tokens = scan("x = 1; print(2);".to_string());
    let mut p = Parser::new(&tokens);
    let ast = p.start().expect("parse should succeed");
    assert_eq!(ast.len(), 2);
    assert_eq!(ast[0].get_kind(), ASTNodeKind::Assignment);
    assert_eq!(ast[1].get_kind(), ASTNodeKind::FunctionCall);
}

#[test]
fn malformed_param_list_is_fatal() {
    let tokens = scan("print(x);".to_string());
    let mut p = Parser::new(&tokens);
    assert!(p.start().is_none());
}

#[test]
fn trailing_garbage_stops_the_parse_without_failure() {
    let tokens = scan("x = 1; = =".to_string());
    let mut p = Parser::new(&tokens);
    let ast = p.start().expect("parse should succeed");
    assert_eq!(ast.len(), 1);
}

#[test]
fn assignment_without_equal_sign_yields_no_statement() {
    let tokens = scan("x 5;".to_string());
    let mut p = Parser::new(&tokens);
    let ast = p.start().expect("parse should succeed");
    assert_eq!(ast.len(), 0);
}
