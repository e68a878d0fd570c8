//! The node accessors and the token constructors.

use exprparse::ast::{Node, Value};
use exprparse::token::{Kind, Token};

fn ident(s: &str) -> Node {
    Node::Identifier { value: s.to_string(), next: None }
}

#[test]
fn is_identifier_tells_identifiers_apart() {
    assert!(ident("x").is_identifier());
    assert!(!Node::Empty.is_identifier());
    assert!(!(Node::Num { value: Value::IntNumber(1), next: None }).is_identifier());
}

#[test]
fn identity_value_returns_the_name_only_for_identifiers() {
    let n = ident("count");
    assert_eq!(n.identity_value(), Some(&"count".to_string()));
    let m = Node::Num { value: Value::IntNumber(3), next: None };
    assert_eq!(m.identity_value(), None);
}

#[test]
fn set_next_identity_attaches_a_chain_to_an_identifier() {
    let mut n = ident("f");
    n.set_next_identity(Node::Num { value: Value::IntNumber(1), next: None });
    assert_eq!(
        n,
        Node::Identifier {
            value: "f".to_string(),
            next: Some(Box::new(Node::Num { value: Value::IntNumber(1), next: None })),
        }
    );
}

#[test]
fn set_next_identity_leaves_other_nodes_unchanged() {
    let mut n = Node::Num { value: Value::IntNumber(2), next: None };
    n.set_next_identity(ident("x"));
    assert_eq!(n, Node::Num { value: Value::IntNumber(2), next: None });
}

#[test]
fn the_default_token_is_the_sentinel() {
    let t = Token::default();
    assert!(matches!(t.kind, Kind::Sentinel));
    let s = Token::none();
    assert!(matches!(s.kind, Kind::Sentinel));
}
