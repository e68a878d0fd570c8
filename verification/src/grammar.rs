//! The grammar, stated mathematically: each production is a specification
//! function from a cursor position (current token kind plus the remaining
//! kinds) to the node it builds and the position it leaves behind. The
//! executable parser is proved to return exactly what these functions say.
//!
//! Each production consumes at least one token before recursing, so every
//! recursion is bounded by `remaining`. Where that bound follows from a
//! sub-production's success rather than from the definition itself, the
//! definition guards the recursive call on the bound; the progress lemmas
//! below prove that those guards always hold, so the guarded branch is the
//! only one ever taken.

use crate::ast::{NodeV, Value};
use crate::error::ParseErrorV;
use crate::token::KindV;
use vstd::prelude::*;

verus! {

/// The result of one production: the node built, then the cursor position
/// (current kind and remaining kinds) where parsing continues.
pub type Step = Result<(NodeV, KindV, Seq<KindV>), ParseErrorV>;

/// How many meaningful tokens a cursor position still holds: the remaining
/// queue, plus the current token unless it is the sentinel.
pub open spec fn remaining(cur: KindV, rest: Seq<KindV>) -> nat {
    rest.len() + if cur is Sentinel {
        0nat
    } else {
        1nat
    }
}

/// The current kind after one advance: the head of the queue, or the
/// sentinel once the queue is empty.
pub open spec fn shift_cur(rest: Seq<KindV>) -> KindV {
    if rest.len() > 0 {
        rest[0]
    } else {
        KindV::Sentinel
    }
}

/// The remaining queue after one advance.
pub open spec fn shift_rest(rest: Seq<KindV>) -> Seq<KindV> {
    if rest.len() > 0 {
        rest.skip(1)
    } else {
        rest
    }
}

/// The kinds that may stand in a call-argument run: identifiers and numeric
/// literals.
pub open spec fn is_run_kind(k: KindV) -> bool {
    k is Letter || k is IntNumber || k is FloatNumber
}

/// The leaf node for one run token, with the given trailing chain.
pub open spec fn leaf_node(k: KindV, next: Option<Box<NodeV>>) -> NodeV
    recommends
        is_run_kind(k),
{
    match k {
        KindV::Letter(s) => NodeV::Identifier { value: s, next },
        KindV::IntNumber(v) => NodeV::Num { value: Value::IntNumber(v), next },
        KindV::FloatNumber(b) => NodeV::Num { value: Value::FloatNumber(b), next },
        _ => NodeV::Empty,
    }
}

/// The call-argument chain: the maximal run of identifier and literal kinds,
/// linked head-first so the chain's head is the first argument encountered.
/// An empty run yields the `Empty` node. Never fails.
pub open spec fn spec_call_params(cur: KindV, rest: Seq<KindV>) -> (NodeV, KindV, Seq<KindV>)
    decreases remaining(cur, rest),
{
    if is_run_kind(cur) {
        let (tail, c2, r2) = spec_call_params(shift_cur(rest), shift_rest(rest));
        let next = if tail is Empty {
            Option::<Box<NodeV>>::None
        } else {
            Option::Some(Box::new(tail))
        };
        (leaf_node(cur, next), c2, r2)
    } else {
        (NodeV::Empty, cur, rest)
    }
}

/// The parameter names of a function definition: the maximal run of
/// identifier kinds, rejected with a duplicate-parameter error as soon as a
/// name repeats one already seen (`seen` holds the names collected so far).
pub open spec fn spec_def_params(seen: Seq<Seq<char>>, cur: KindV, rest: Seq<KindV>) -> Result<
    (Seq<Seq<char>>, KindV, Seq<KindV>),
    ParseErrorV,
>
    decreases remaining(cur, rest),
{
    match cur {
        KindV::Letter(name) => if seen.contains(name) {
            Err(ParseErrorV::DuplicateParameter(name))
        } else {
            match spec_def_params(seen.push(name), shift_cur(rest), shift_rest(rest)) {
                Ok((names, c2, r2)) => Ok((seq![name] + names, c2, r2)),
                Err(e) => Err(e),
            }
        },
        _ => Ok((Seq::empty(), cur, rest)),
    }
}

/// The factor production: a literal, an identifier (possibly opening an
/// inline `=` assignment), or a parenthesized expression.
pub open spec fn spec_factor(cur: KindV, rest: Seq<KindV>) -> Step
    decreases remaining(cur, rest), 0int,
{
    match cur {
        KindV::FloatNumber(b) => Ok(
            (
                NodeV::Num { value: Value::FloatNumber(b), next: Option::None },
                shift_cur(rest),
                shift_rest(rest),
            ),
        ),
        KindV::IntNumber(v) => Ok(
            (
                NodeV::Num { value: Value::IntNumber(v), next: Option::None },
                shift_cur(rest),
                shift_rest(rest),
            ),
        ),
        KindV::Letter(name) => {
            let c1 = shift_cur(rest);
            let r1 = shift_rest(rest);
            if c1 == KindV::Op('=') {
                match spec_expression(shift_cur(r1), shift_rest(r1)) {
                    Ok((rhs, c2, r2)) => Ok(
                        (
                            NodeV::BinOp {
                                left: Box::new(
                                    NodeV::Identifier { value: name, next: Option::None },
                                ),
                                op: '=',
                                right: Box::new(rhs),
                            },
                            c2,
                            r2,
                        ),
                    ),
                    Err(e) => Err(e),
                }
            } else {
                Ok((NodeV::Identifier { value: name, next: Option::None }, c1, r1))
            }
        },
        KindV::LParen => {
            match spec_expression(shift_cur(rest), shift_rest(rest)) {
                Ok((inner, c2, r2)) => if c2 is RParen {
                    Ok((inner, shift_cur(r2), shift_rest(r2)))
                } else {
                    Err(ParseErrorV::MissingRightParen)
                },
                Err(e) => Err(e),
            }
        },
        _ => Err(ParseErrorV::UnknownFactor),
    }
}

/// The folding half of the term production: while the current token is `*`,
/// `/` or `%`, consume it and the next factor and fold left-associatively.
pub open spec fn spec_term_tail(acc: NodeV, cur: KindV, rest: Seq<KindV>) -> Step
    decreases remaining(cur, rest), 1int,
{
    if cur == KindV::Op('*') || cur == KindV::Op('/') || cur == KindV::Op('%') {
        match spec_factor(shift_cur(rest), shift_rest(rest)) {
            Ok((f, c2, r2)) => if remaining(c2, r2) < remaining(cur, rest) {
                spec_term_tail(
                    NodeV::BinOp { left: Box::new(acc), op: cur->Op_0, right: Box::new(f) },
                    c2,
                    r2,
                )
            } else {
                vstd::pervasive::arbitrary()
            },
            Err(e) => Err(e),
        }
    } else {
        Ok((acc, cur, rest))
    }
}

/// The term production: one factor, folded with multiplicative operators.
pub open spec fn spec_term(cur: KindV, rest: Seq<KindV>) -> Step
    decreases remaining(cur, rest), 2int,
{
    match spec_factor(cur, rest) {
        Ok((n, c2, r2)) => if remaining(c2, r2) < remaining(cur, rest) {
            spec_term_tail(n, c2, r2)
        } else {
            vstd::pervasive::arbitrary()
        },
        Err(e) => Err(e),
    }
}

/// The folding half of the expression production, checked in this order on
/// each step: the statement-assignment marker folds into an `Assign` node;
/// `+` or `-` folds left-associatively into a `BinOp`; any other operator is
/// left unconsumed and ends the fold; an identifier or literal is
/// call-argument sugar — the accumulated result must be an identifier, the
/// chain is attached to its `next` field, and the fold stops.
pub open spec fn spec_expr_tail(acc: NodeV, cur: KindV, rest: Seq<KindV>) -> Step
    decreases remaining(cur, rest), 3int,
{
    if cur is Assign {
        match spec_expression(shift_cur(rest), shift_rest(rest)) {
            Ok((rhs, c2, r2)) => if remaining(c2, r2) < remaining(cur, rest) {
                spec_expr_tail(
                    NodeV::Assign { left: Box::new(acc), right: Box::new(rhs) },
                    c2,
                    r2,
                )
            } else {
                vstd::pervasive::arbitrary()
            },
            Err(e) => Err(e),
        }
    } else if cur == KindV::Op('+') || cur == KindV::Op('-') {
        match spec_term(shift_cur(rest), shift_rest(rest)) {
            Ok((t, c2, r2)) => if remaining(c2, r2) < remaining(cur, rest) {
                spec_expr_tail(
                    NodeV::BinOp { left: Box::new(acc), op: cur->Op_0, right: Box::new(t) },
                    c2,
                    r2,
                )
            } else {
                vstd::pervasive::arbitrary()
            },
            Err(e) => Err(e),
        }
    } else if cur is Op {
        Ok((acc, cur, rest))
    } else if is_run_kind(cur) {
        if acc is Identifier {
            let (chain, c2, r2) = spec_call_params(cur, rest);
            Ok(
                (
                    NodeV::Identifier {
                        value: acc->Identifier_value,
                        next: Option::Some(Box::new(chain)),
                    },
                    c2,
                    r2,
                ),
            )
        } else {
            Err(ParseErrorV::CallOnNonIdentifier)
        }
    } else {
        Ok((acc, cur, rest))
    }
}

/// The expression production: one term, then assignment, additive and
/// call-sugar folding at the lowest precedence level.
pub open spec fn spec_expression(cur: KindV, rest: Seq<KindV>) -> Step
    decreases remaining(cur, rest), 4int,
{
    match spec_term(cur, rest) {
        Ok((n, c2, r2)) => if remaining(c2, r2) < remaining(cur, rest) {
            spec_expr_tail(n, c2, r2)
        } else {
            vstd::pervasive::arbitrary()
        },
        Err(e) => Err(e),
    }
}

/// A function body: the function-body marker, then one full expression.
pub open spec fn spec_function_expression(cur: KindV, rest: Seq<KindV>) -> Step
    decreases remaining(cur, rest), 0int,
{
    if cur is FnOp {
        spec_expression(shift_cur(rest), shift_rest(rest))
    } else {
        Err(ParseErrorV::MissingFunctionBody)
    }
}

/// A function definition, after the `fn` keyword itself was consumed: the
/// function name, the parameter list, then the body.
pub open spec fn spec_function_def(cur: KindV, rest: Seq<KindV>) -> Step
    decreases remaining(cur, rest), 1int,
{
    match cur {
        KindV::Letter(name) => {
            match spec_def_params(Seq::empty(), shift_cur(rest), shift_rest(rest)) {
                Ok((params, c2, r2)) => if remaining(c2, r2) < remaining(cur, rest) {
                    match spec_function_expression(c2, r2) {
                        Ok((body, c3, r3)) => Ok(
                            (NodeV::FunctionDef { name, params, body: Box::new(body) }, c3, r3),
                        ),
                        Err(e) => Err(e),
                    }
                } else {
                    vstd::pervasive::arbitrary()
                },
                Err(e) => Err(e),
            }
        },
        _ => Err(ParseErrorV::MissingFunctionName),
    }
}

/// The statement production: a function definition when the current token is
/// the keyword `fn`, a syntax error on any other keyword, an expression
/// otherwise.
pub open spec fn spec_stmt(cur: KindV, rest: Seq<KindV>) -> Step
    decreases remaining(cur, rest), 5int,
{
    match cur {
        KindV::Keyword(kw) => if kw == "fn"@ {
            spec_function_def(shift_cur(rest), shift_rest(rest))
        } else {
            Err(ParseErrorV::UnexpectedKeyword)
        },
        _ => spec_expression(cur, rest),
    }
}

/// The whole program: statements parsed in order until the current token is
/// the sentinel.
pub open spec fn spec_statements(cur: KindV, rest: Seq<KindV>) -> Result<Seq<NodeV>, ParseErrorV>
    decreases remaining(cur, rest), 6int,
{
    if cur is Sentinel {
        Ok(Seq::empty())
    } else {
        match spec_stmt(cur, rest) {
            Ok((n, c2, r2)) => if remaining(c2, r2) < remaining(cur, rest) {
                match spec_statements(c2, r2) {
                    Ok(tail) => Ok(seq![n] + tail),
                    Err(e) => Err(e),
                }
            } else {
                vstd::pervasive::arbitrary()
            },
            Err(e) => Err(e),
        }
    }
}

/// The whole program as a function of the full token queue: the first
/// advance installs the queue's head (or the sentinel when it is empty), and
/// statements are parsed until the sentinel.
pub open spec fn spec_program(q: Seq<KindV>) -> Result<Seq<NodeV>, ParseErrorV> {
    spec_statements(shift_cur(q), shift_rest(q))
}

/// One advance never leaves more behind than the queue held.
pub proof fn lemma_shift_le(rest: Seq<KindV>)
    ensures
        remaining(shift_cur(rest), shift_rest(rest)) <= rest.len(),
{
}

/// A call-argument run never grows the stream.
pub proof fn lemma_call_params_le(cur: KindV, rest: Seq<KindV>)
    ensures
        ({
            let (chain, c2, r2) = spec_call_params(cur, rest);
            remaining(c2, r2) <= remaining(cur, rest)
        }),
    decreases remaining(cur, rest),
{
    if is_run_kind(cur) {
        lemma_shift_le(rest);
        lemma_call_params_le(shift_cur(rest), shift_rest(rest));
    }
}

/// A parameter list never grows the stream.
pub proof fn lemma_def_params_le(seen: Seq<Seq<char>>, cur: KindV, rest: Seq<KindV>)
    ensures
        spec_def_params(seen, cur, rest) matches Ok((names, c2, r2)) ==> remaining(c2, r2)
            <= remaining(cur, rest),
    decreases remaining(cur, rest),
{
    if let KindV::Letter(name) = cur {
        if !seen.contains(name) {
            lemma_shift_le(rest);
            lemma_def_params_le(seen.push(name), shift_cur(rest), shift_rest(rest));
        }
    }
}

/// A successful factor consumes at least one token.
pub proof fn lemma_factor_lt(cur: KindV, rest: Seq<KindV>)
    ensures
        spec_factor(cur, rest) matches Ok((n, c2, r2)) ==> remaining(c2, r2) < remaining(
            cur,
            rest,
        ),
    decreases remaining(cur, rest), 0int,
{
    lemma_shift_le(rest);
    match cur {
        KindV::Letter(name) => {
            let c1 = shift_cur(rest);
            let r1 = shift_rest(rest);
            if c1 == KindV::Op('=') {
                lemma_shift_le(r1);
                lemma_expression_lt(shift_cur(r1), shift_rest(r1));
            }
        },
        KindV::LParen => {
            lemma_expression_lt(shift_cur(rest), shift_rest(rest));
            if let Ok((inner, c2, r2)) = spec_expression(shift_cur(rest), shift_rest(rest)) {
                lemma_shift_le(r2);
            }
        },
        _ => {},
    }
}

/// Multiplicative folding never grows the stream.
pub proof fn lemma_term_tail_le(acc: NodeV, cur: KindV, rest: Seq<KindV>)
    ensures
        spec_term_tail(acc, cur, rest) matches Ok((n, c2, r2)) ==> remaining(c2, r2) <= remaining(
            cur,
            rest,
        ),
    decreases remaining(cur, rest), 1int,
{
    if cur == KindV::Op('*') || cur == KindV::Op('/') || cur == KindV::Op('%') {
        lemma_shift_le(rest);
        let c1 = shift_cur(rest);
        let r1 = shift_rest(rest);
        lemma_factor_lt(c1, r1);
        if let Ok((f, c2, r2)) = spec_factor(c1, r1) {
            lemma_term_tail_le(
                NodeV::BinOp { left: Box::new(acc), op: cur->Op_0, right: Box::new(f) },
                c2,
                r2,
            );
        }
    }
}

/// A successful term consumes at least one token.
pub proof fn lemma_term_lt(cur: KindV, rest: Seq<KindV>)
    ensures
        spec_term(cur, rest) matches Ok((n, c2, r2)) ==> remaining(c2, r2) < remaining(cur, rest),
    decreases remaining(cur, rest), 2int,
{
    lemma_factor_lt(cur, rest);
    if let Ok((n, c2, r2)) = spec_factor(cur, rest) {
        lemma_term_tail_le(n, c2, r2);
    }
}

/// Expression folding never grows the stream.
pub proof fn lemma_expr_tail_le(acc: NodeV, cur: KindV, rest: Seq<KindV>)
    ensures
        spec_expr_tail(acc, cur, rest) matches Ok((n, c2, r2)) ==> remaining(c2, r2) <= remaining(
            cur,
            rest,
        ),
    decreases remaining(cur, rest), 3int,
{
    let c1 = shift_cur(rest);
    let r1 = shift_rest(rest);
    if cur is Assign {
        lemma_shift_le(rest);
        lemma_expression_lt(c1, r1);
        if let Ok((rhs, c2, r2)) = spec_expression(c1, r1) {
            lemma_expr_tail_le(
                NodeV::Assign { left: Box::new(acc), right: Box::new(rhs) },
                c2,
                r2,
            );
        }
    } else if cur == KindV::Op('+') || cur == KindV::Op('-') {
        lemma_shift_le(rest);
        lemma_term_lt(c1, r1);
        if let Ok((t, c2, r2)) = spec_term(c1, r1) {
            lemma_expr_tail_le(
                NodeV::BinOp { left: Box::new(acc), op: cur->Op_0, right: Box::new(t) },
                c2,
                r2,
            );
        }
    } else if is_run_kind(cur) {
        lemma_call_params_le(cur, rest);
    }
}

/// A successful expression consumes at least one token.
pub proof fn lemma_expression_lt(cur: KindV, rest: Seq<KindV>)
    ensures
        spec_expression(cur, rest) matches Ok((n, c2, r2)) ==> remaining(c2, r2) < remaining(
            cur,
            rest,
        ),
    decreases remaining(cur, rest), 4int,
{
    lemma_term_lt(cur, rest);
    if let Ok((n, c2, r2)) = spec_term(cur, rest) {
        lemma_expr_tail_le(n, c2, r2);
    }
}

/// A successful function body consumes at least one token.
pub proof fn lemma_function_expression_lt(cur: KindV, rest: Seq<KindV>)
    ensures
        spec_function_expression(cur, rest) matches Ok((n, c2, r2)) ==> remaining(c2, r2)
            < remaining(cur, rest),
    decreases remaining(cur, rest), 0int,
{
    if cur is FnOp {
        lemma_shift_le(rest);
        lemma_expression_lt(shift_cur(rest), shift_rest(rest));
    }
}

/// A successful function definition consumes at least one token.
pub proof fn lemma_function_def_lt(cur: KindV, rest: Seq<KindV>)
    ensures
        spec_function_def(cur, rest) matches Ok((n, c2, r2)) ==> remaining(c2, r2) < remaining(
            cur,
            rest,
        ),
    decreases remaining(cur, rest), 1int,
{
    if let KindV::Letter(name) = cur {
        lemma_shift_le(rest);
        let c1 = shift_cur(rest);
        let r1 = shift_rest(rest);
        lemma_def_params_le(Seq::empty(), c1, r1);
        if let Ok((params, c2, r2)) = spec_def_params(Seq::empty(), c1, r1) {
            lemma_function_expression_lt(c2, r2);
        }
    }
}

/// A successful statement consumes at least one token.
pub proof fn lemma_stmt_lt(cur: KindV, rest: Seq<KindV>)
    ensures
        spec_stmt(cur, rest) matches Ok((n, c2, r2)) ==> remaining(c2, r2) < remaining(cur, rest),
    decreases remaining(cur, rest), 5int,
{
    match cur {
        KindV::Keyword(kw) => {
            if kw == "fn"@ {
                lemma_shift_le(rest);
                lemma_function_def_lt(shift_cur(rest), shift_rest(rest));
            }
        },
        _ => {
            lemma_expression_lt(cur, rest);
        },
    }
}

} // verus!
