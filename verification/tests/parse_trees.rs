//! Trees built by the grammar, observed through an evaluator that compares
//! the statement it is handed against an expected tree.

use exprparse::ast::{Node, Value};
use exprparse::parser::{Evaluator, Parser};
use exprparse::token::{Kind, Token};
use std::collections::VecDeque;
use std::rc::Rc;

fn letter(s: &str) -> Token {
    Token::new(Kind::Letter(s.to_string()))
}

fn num_tok(v: i64) -> Token {
    Token::new(Kind::IntNumber(v))
}

fn float(v: f64) -> Token {
    Token::new(Kind::FloatNumber(v.to_bits()))
}

fn op(c: char) -> Token {
    Token::new(Kind::Op(c))
}

fn queue(toks: Vec<Token>) -> VecDeque<Token> {
    toks.into_iter().collect()
}

fn num(v: i64) -> Node {
    Node::Num { value: Value::IntNumber(v), next: None }
}

fn ident(s: &str) -> Node {
    Node::Identifier { value: s.to_string(), next: None }
}

fn binop(op: char, left: Node, right: Node) -> Node {
    Node::BinOp { left: Box::new(left), op, right: Box::new(right) }
}

/// Succeeds on every statement and remembers whether one of them equalled
/// the expected tree.
struct Expecting {
    expected: Node,
    matched: bool,
    calls: usize,
}

impl Expecting {
    fn new(expected: Node) -> Expecting {
        Expecting { expected, matched: false, calls: 0 }
    }
}

impl Evaluator for Expecting {
    fn evaluate(&mut self, ast: &Node) -> Result<Rc<Value>, String> {
        self.calls += 1;
        if *ast == self.expected {
            self.matched = true;
        }
        Ok(Rc::new(Value::IntNumber(7)))
    }
}

#[test]
fn multiplication_binds_tighter_than_addition() {
    let mut p = Parser::new();
    let expected = binop('+', num(1), binop('*', num(2), num(3)));
    let mut e = Expecting::new(expected);
    let r = p.parse(queue(vec![num_tok(1), op('+'), num_tok(2), op('*'), num_tok(3)]), &mut e);
    assert_eq!(r, Ok(Some(Value::IntNumber(7))));
    assert!(e.matched);
    assert_eq!(e.calls, 1);
}

#[test]
fn additive_folding_is_left_associative() {
    let mut p = Parser::new();
    let expected = binop('-', binop('+', num(1), num(2)), num(3));
    let mut e = Expecting::new(expected);
    let r = p.parse(queue(vec![num_tok(1), op('+'), num_tok(2), op('-'), num_tok(3)]), &mut e);
    assert_eq!(r, Ok(Some(Value::IntNumber(7))));
    assert!(e.matched);
}

#[test]
fn multiplicative_folding_is_left_associative() {
    let mut p = Parser::new();
    let expected = binop('%', binop('/', num(8), num(2)), num(3));
    let mut e = Expecting::new(expected);
    let r = p.parse(queue(vec![num_tok(8), op('/'), num_tok(2), op('%'), num_tok(3)]), &mut e);
    assert_eq!(r, Ok(Some(Value::IntNumber(7))));
    assert!(e.matched);
}

#[test]
fn parentheses_override_precedence() {
    let mut p = Parser::new();
    let expected = binop('*', binop('+', num(1), num(2)), num(3));
    let mut e = Expecting::new(expected);
    let r = p.parse(
        queue(vec![
            Token::new(Kind::LParen),
            num_tok(1),
            op('+'),
            num_tok(2),
            Token::new(Kind::RParen),
            op('*'),
            num_tok(3),
        ]),
        &mut e,
    );
    assert_eq!(r, Ok(Some(Value::IntNumber(7))));
    assert!(e.matched);
}

#[test]
fn call_arguments_chain_head_first() {
    let mut p = Parser::new();
    let expected = Node::Identifier {
        value: "f".to_string(),
        next: Some(Box::new(Node::Num {
            value: Value::IntNumber(1),
            next: Some(Box::new(Node::Num {
                value: Value::IntNumber(2),
                next: Some(Box::new(num(3))),
            })),
        })),
    };
    let mut e = Expecting::new(expected);
    let r = p.parse(queue(vec![letter("f"), num_tok(1), num_tok(2), num_tok(3)]), &mut e);
    assert_eq!(r, Ok(Some(Value::IntNumber(7))));
    assert!(e.matched);
}

#[test]
fn mixed_argument_kinds_chain_in_order() {
    let mut p = Parser::new();
    let expected = Node::Identifier {
        value: "g".to_string(),
        next: Some(Box::new(Node::Identifier {
            value: "x".to_string(),
            next: Some(Box::new(Node::Num {
                value: Value::FloatNumber(2.5f64.to_bits()),
                next: None,
            })),
        })),
    };
    let mut e = Expecting::new(expected);
    let r = p.parse(queue(vec![letter("g"), letter("x"), float(2.5)]), &mut e);
    assert_eq!(r, Ok(Some(Value::IntNumber(7))));
    assert!(e.matched);
}

#[test]
fn inline_assignment_builds_binop_with_equals() {
    let mut p = Parser::new();
    let expected = binop('=', ident("x"), binop('+', num(1), num(2)));
    let mut e = Expecting::new(expected);
    let r = p.parse(queue(vec![letter("x"), op('='), num_tok(1), op('+'), num_tok(2)]), &mut e);
    assert_eq!(r, Ok(Some(Value::IntNumber(7))));
    assert!(e.matched);
}

#[test]
fn assignment_marker_builds_assign_node() {
    let mut p = Parser::new();
    let expected = Node::Assign { left: Box::new(ident("x")), right: Box::new(num(5)) };
    let mut e = Expecting::new(expected);
    let r = p.parse(queue(vec![letter("x"), Token::new(Kind::Assign), num_tok(5)]), &mut e);
    assert_eq!(r, Ok(Some(Value::IntNumber(7))));
    assert!(e.matched);
}

#[test]
fn function_definition_collects_name_params_and_body() {
    let mut p = Parser::new();
    let expected = Node::FunctionDef {
        name: "add".to_string(),
        params: vec![ident("a"), ident("b")],
        body: Rc::new(binop('+', ident("a"), ident("b"))),
    };
    let mut e = Expecting::new(expected);
    let r = p.parse(
        queue(vec![
            Token::new(Kind::Keyword("fn".to_string())),
            letter("add"),
            letter("a"),
            letter("b"),
            Token::new(Kind::FnOp),
            letter("a"),
            op('+'),
            letter("b"),
        ]),
        &mut e,
    );
    assert_eq!(r, Ok(Some(Value::IntNumber(7))));
    assert!(e.matched);
}

#[test]
fn float_literal_keeps_its_bit_pattern() {
    let mut p = Parser::new();
    let expected = Node::Num { value: Value::FloatNumber(0.1f64.to_bits()), next: None };
    let mut e = Expecting::new(expected);
    let r = p.parse(queue(vec![float(0.1)]), &mut e);
    assert_eq!(r, Ok(Some(Value::IntNumber(7))));
    assert!(e.matched);
}

#[test]
fn parse_returns_the_evaluator_value() {
    struct FortyTwo;
    impl Evaluator for FortyTwo {
        fn evaluate(&mut self, _ast: &Node) -> Result<Rc<Value>, String> {
            Ok(Rc::new(Value::IntNumber(42)))
        }
    }
    let mut p = Parser::new();
    let mut e = FortyTwo;
    let r = p.parse(queue(vec![num_tok(5)]), &mut e);
    assert_eq!(r, Ok(Some(Value::IntNumber(42))));
}
