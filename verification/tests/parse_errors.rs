//! The error taxonomy: each failure comes on exactly the inputs the grammar
//! rejects, and the first failure aborts the parse.

use exprparse::ast::{Node, Value};
use exprparse::error::ParseError;
use exprparse::parser::{Evaluator, Parser};
use exprparse::token::{Kind, Token};
use std::collections::VecDeque;
use std::rc::Rc;

fn letter(s: &str) -> Token {
    Token::new(Kind::Letter(s.to_string()))
}

fn num_tok(v: i64) -> Token {
    Token::new(Kind::IntNumber(v))
}

fn op(c: char) -> Token {
    Token::new(Kind::Op(c))
}

fn keyword(s: &str) -> Token {
    Token::new(Kind::Keyword(s.to_string()))
}

fn queue(toks: Vec<Token>) -> VecDeque<Token> {
    toks.into_iter().collect()
}

/// Succeeds on every statement, counting the calls.
struct Counting {
    calls: usize,
}

impl Evaluator for Counting {
    fn evaluate(&mut self, _ast: &Node) -> Result<Rc<Value>, String> {
        self.calls += 1;
        Ok(Rc::new(Value::IntNumber(0)))
    }
}

fn run(toks: Vec<Token>) -> Result<Option<Value>, ParseError> {
    let mut p = Parser::new();
    let mut e = Counting { calls: 0 };
    p.parse(queue(toks), &mut e)
}

#[test]
fn empty_input_is_the_no_statement_error() {
    assert_eq!(run(vec![]), Err(ParseError::NoStatement));
}

#[test]
fn a_sentinel_token_ends_the_program_immediately() {
    assert_eq!(run(vec![Token::none()]), Err(ParseError::NoStatement));
}

#[test]
fn unmatched_left_parenthesis_is_the_missing_right_paren_error() {
    assert_eq!(
        run(vec![Token::new(Kind::LParen), num_tok(1), op('+'), num_tok(2)]),
        Err(ParseError::MissingRightParen)
    );
}

#[test]
fn two_statements_are_rejected_after_both_evaluate() {
    let mut p = Parser::new();
    let mut e = Counting { calls: 0 };
    let r = p.parse(
        queue(vec![
            Token::new(Kind::LParen),
            num_tok(1),
            op('+'),
            num_tok(2),
            Token::new(Kind::RParen),
            Token::new(Kind::LParen),
            num_tok(3),
            op('+'),
            num_tok(4),
            Token::new(Kind::RParen),
        ]),
        &mut e,
    );
    assert_eq!(r, Err(ParseError::MultipleStatements));
    assert_eq!(e.calls, 2);
}

#[test]
fn duplicate_parameter_name_is_rejected_with_the_name() {
    assert_eq!(
        run(vec![
            keyword("fn"),
            letter("f"),
            letter("a"),
            letter("b"),
            letter("a"),
            Token::new(Kind::FnOp),
            num_tok(1),
        ]),
        Err(ParseError::DuplicateParameter("a".to_string()))
    );
}

#[test]
fn duplicate_parameter_is_rejected_in_any_position() {
    assert_eq!(
        run(vec![
            keyword("fn"),
            letter("f"),
            letter("x"),
            letter("y"),
            letter("z"),
            letter("y"),
            Token::new(Kind::FnOp),
            num_tok(1),
        ]),
        Err(ParseError::DuplicateParameter("y".to_string()))
    );
}

#[test]
fn argument_run_after_non_identifier_fails() {
    assert_eq!(run(vec![num_tok(1), num_tok(2)]), Err(ParseError::CallOnNonIdentifier));
}

#[test]
fn argument_run_after_parenthesized_sum_fails() {
    assert_eq!(
        run(vec![
            Token::new(Kind::LParen),
            num_tok(1),
            op('+'),
            num_tok(2),
            Token::new(Kind::RParen),
            num_tok(3),
        ]),
        Err(ParseError::CallOnNonIdentifier)
    );
}

#[test]
fn keyword_other_than_fn_is_a_syntax_error() {
    assert_eq!(run(vec![keyword("let"), letter("x")]), Err(ParseError::UnexpectedKeyword));
}

#[test]
fn function_without_a_name_is_rejected() {
    assert_eq!(run(vec![keyword("fn"), num_tok(1)]), Err(ParseError::MissingFunctionName));
}

#[test]
fn missing_function_body_marker_is_rejected() {
    assert_eq!(
        run(vec![keyword("fn"), letter("f"), letter("a"), num_tok(1)]),
        Err(ParseError::MissingFunctionBody)
    );
}

#[test]
fn no_factor_starts_with_an_operator() {
    assert_eq!(run(vec![op('+'), num_tok(1)]), Err(ParseError::UnknownFactor));
}

#[test]
fn arithmetic_does_not_resume_after_a_call_chain() {
    // The call-argument chain ends the expression, so the `+` that follows
    // opens a second statement, whose factor production rejects it.
    assert_eq!(
        run(vec![letter("f"), num_tok(1), num_tok(2), op('+'), num_tok(3)]),
        Err(ParseError::UnknownFactor)
    );
}

#[test]
fn evaluator_failure_is_handed_back_unchanged() {
    struct Failing;
    impl Evaluator for Failing {
        fn evaluate(&mut self, _ast: &Node) -> Result<Rc<Value>, String> {
            Err("division by zero".to_string())
        }
    }
    let mut p = Parser::new();
    let mut e = Failing;
    let r = p.parse(queue(vec![num_tok(1)]), &mut e);
    assert_eq!(r, Err(ParseError::Evaluation("division by zero".to_string())));
}

#[test]
fn parse_error_preempts_evaluation_of_the_failing_statement() {
    let mut p = Parser::new();
    let mut e = Counting { calls: 0 };
    let r = p.parse(queue(vec![op('*')]), &mut e);
    assert_eq!(r, Err(ParseError::UnknownFactor));
    assert_eq!(e.calls, 0);
}
