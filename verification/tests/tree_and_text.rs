use tinycomp::strutil::{parse_decimal, str_eq, u64_to_dec_string};
use tinycomp::tree::{ASTNodeKind, Node};

fn leaf(kind: ASTNodeKind, val: &str) -> Node {
    Node { kind, val: Some(val.to_string()), left: None, right: None }
}

#[test]
fn insert_fills_the_first_free_slot_down_a_spine() {
    let mut t = Node { kind: ASTNodeKind::Assignment, val: None, left: None, right: None };
    t.insert_l(ASTNodeKind::Variable, Some("x".to_string()));
    t.insert_r(ASTNodeKind::Integer, Some("1".to_string()));
    t.insert_r(ASTNodeKind::Integer, Some("2".to_string()));
    assert!(t.has_left() && t.has_right());
    let right = t.get_right().unwrap();
    assert_eq!(right.val, Some("1".to_string()));
    let deeper = right.get_right().unwrap();
    assert_eq!(deeper.val, Some("2".to_string()));
    assert!(!t.has_val());
    assert_eq!(t.get_kind(), ASTNodeKind::Assignment);
}

#[test]
fn append_grafts_a_whole_subtree() {
    let mut call = leaf(ASTNodeKind::FunctionCall, "print");
    call.val = Some("print".to_string());
    let mut arg = leaf(ASTNodeKind::Integer, "97");
    arg.append_r(ASTNodeKind::Integer, leaf(ASTNodeKind::Integer, "5"));
    call.append_r(ASTNodeKind::Integer, arg);
    let first = call.get_right().unwrap();
    assert_eq!(first.val, Some("97".to_string()));
    assert_eq!(first.get_right().unwrap().val, Some("5".to_string()));
}

#[test]
fn postorder_visits_children_before_parents() {
    let mut t = Node { kind: ASTNodeKind::Assignment, val: None, left: None, right: None };
    t.append_l(ASTNodeKind::Variable, leaf(ASTNodeKind::Variable, "x"));
    t.append_r(ASTNodeKind::Integer, leaf(ASTNodeKind::Integer, "42"));
    let order: Vec<ASTNodeKind> = t.traverse_postorder().iter().map(|n| n.get_kind()).collect();
    assert_eq!(
        order,
        vec![ASTNodeKind::Variable, ASTNodeKind::Integer, ASTNodeKind::Assignment]
    );
}

#[test]
fn preorder_visits_parents_before_children() {
    let mut t = Node { kind: ASTNodeKind::Assignment, val: None, left: None, right: None };
    t.append_l(ASTNodeKind::Variable, leaf(ASTNodeKind::Variable, "x"));
    t.append_r(ASTNodeKind::Integer, leaf(ASTNodeKind::Integer, "42"));
    let order: Vec<ASTNodeKind> = t.traverse_preorder().iter().map(|n| n.get_kind()).collect();
    assert_eq!(
        order,
        vec![ASTNodeKind::Assignment, ASTNodeKind::Variable, ASTNodeKind::Integer]
    );
}

#[test]
fn clone_copies_the_whole_tree() {
    let mut t = leaf(ASTNodeKind::FunctionCall, "print");
    t.append_r(ASTNodeKind::Integer, leaf(ASTNodeKind::Integer, "7"));
    let copy = t.clone();
    assert_eq!(copy.val, Some("print".to_string()));
    assert_eq!(copy.get_right().unwrap().val, Some("7".to_string()));
}

#[test]
fn parse_decimal_reads_digit_strings() {
    assert_eq!(parse_decimal("0"), Some(0));
    assert_eq!(parse_decimal("97"), Some(97));
    assert_eq!(parse_decimal("18446744073709551615"), Some(u64::MAX));
    assert_eq!(parse_decimal("18446744073709551616"), None);
}

#[test]
fn u64_to_dec_string_renders_canonically() {
    assert_eq!(u64_to_dec_string(0), "0");
    assert_eq!(u64_to_dec_string(7), "7");
    assert_eq!(u64_to_dec_string(1234567890), "1234567890");
    assert_eq!(u64_to_dec_string(u64::MAX), "18446744073709551615");
}

#[test]
fn str_eq_compares_contents() {
    assert!(str_eq("abc", "abc"));
    assert!(!str_eq("abc", "abd"));
    assert!(!str_eq("abc", "ab"));
    assert!(str_eq("", ""));
}
