//! Laws of the grammar, proved once and for all inputs: operator precedence,
//! left-associativity, parenthesization, distinctness of parameter names and
//! the identifier requirement of call-argument sugar.

use crate::ast::NodeV;
use crate::error::ParseErrorV;
use crate::grammar::{
    is_run_kind, leaf_node, remaining, shift_cur, shift_rest, spec_call_params, spec_def_params,
    spec_expr_tail, spec_expression, spec_factor, spec_term, spec_term_tail,
};
use crate::token::KindV;
use vstd::prelude::*;

verus! {

/// A factor on an identifier or literal token is that token's leaf node,
/// provided no inline `=` follows an identifier.
pub proof fn lemma_factor_leaf(k: KindV, rest: Seq<KindV>)
    requires
        is_run_kind(k),
        shift_cur(rest) != KindV::Op('='),
    ensures
        spec_factor(k, rest) == Ok::<_, ParseErrorV>(
            (leaf_node(k, Option::None), shift_cur(rest), shift_rest(rest)),
        ),
{
}

/// Multiplicative operators bind tighter than additive ones: for every three
/// identifier or literal tokens, `k1 + k2 * k3` parses to
/// `BinOp(+, k1, BinOp(*, k2, k3))`.
pub proof fn lemma_mul_binds_tighter(k1: KindV, k2: KindV, k3: KindV)
    requires
        is_run_kind(k1),
        is_run_kind(k2),
        is_run_kind(k3),
    ensures
        spec_expression(k1, seq![KindV::Op('+'), k2, KindV::Op('*'), k3]) matches Ok(
            (n, c, r),
        ) && n == (NodeV::BinOp {
            left: Box::new(leaf_node(k1, Option::None)),
            op: '+',
            right: Box::new(
                NodeV::BinOp {
                    left: Box::new(leaf_node(k2, Option::None)),
                    op: '*',
                    right: Box::new(leaf_node(k3, Option::None)),
                },
            ),
        }) && c is Sentinel && r.len() == 0,
{
    let rest0 = seq![KindV::Op('+'), k2, KindV::Op('*'), k3];
    let rest1 = seq![k2, KindV::Op('*'), k3];
    let rest2 = seq![KindV::Op('*'), k3];
    let rest3 = seq![k3];
    let empty = Seq::<KindV>::empty();
    assert(shift_rest(rest0) =~= rest1);
    assert(shift_rest(rest1) =~= rest2);
    assert(shift_rest(rest2) =~= rest3);
    assert(shift_rest(rest3) =~= empty);
    let leaf1 = leaf_node(k1, Option::None);
    let leaf2 = leaf_node(k2, Option::None);
    let leaf3 = leaf_node(k3, Option::None);
    lemma_factor_leaf(k1, rest0);
    lemma_factor_leaf(k2, rest2);
    lemma_factor_leaf(k3, rest3);
    assert(spec_term(k1, rest0) == spec_term_tail(leaf1, KindV::Op('+'), rest1));
    assert(spec_expression(k1, rest0) == spec_expr_tail(leaf1, KindV::Op('+'), rest1));
    assert(spec_term_tail(leaf2, KindV::Op('*'), rest3) == spec_term_tail(
        NodeV::BinOp { left: Box::new(leaf2), op: '*', right: Box::new(leaf3) },
        KindV::Sentinel,
        empty,
    ));
    assert(spec_term(k2, rest2) == Ok::<_, ParseErrorV>(
        (
            NodeV::BinOp { left: Box::new(leaf2), op: '*', right: Box::new(leaf3) },
            KindV::Sentinel,
            empty,
        ),
    ));
    assert(spec_expr_tail(leaf1, KindV::Op('+'), rest1) == spec_expr_tail(
        NodeV::BinOp {
            left: Box::new(leaf1),
            op: '+',
            right: Box::new(
                NodeV::BinOp { left: Box::new(leaf2), op: '*', right: Box::new(leaf3) },
            ),
        },
        KindV::Sentinel,
        empty,
    ));
}

/// Additive folding is left-associative: for every three identifier or
/// literal tokens and operators `o1`, `o2` drawn from `+` and `-`,
/// `k1 o1 k2 o2 k3` parses to `BinOp(o2, BinOp(o1, k1, k2), k3)`.
pub proof fn lemma_additive_left_associative(k1: KindV, k2: KindV, k3: KindV, o1: char, o2: char)
    requires
        is_run_kind(k1),
        is_run_kind(k2),
        is_run_kind(k3),
        o1 == '+' || o1 == '-',
        o2 == '+' || o2 == '-',
    ensures
        spec_expression(k1, seq![KindV::Op(o1), k2, KindV::Op(o2), k3]) matches Ok(
            (n, c, r),
        ) && n == (NodeV::BinOp {
            left: Box::new(
                NodeV::BinOp {
                    left: Box::new(leaf_node(k1, Option::None)),
                    op: o1,
                    right: Box::new(leaf_node(k2, Option::None)),
                },
            ),
            op: o2,
            right: Box::new(leaf_node(k3, Option::None)),
        }) && c is Sentinel && r.len() == 0,
{
    let rest0 = seq![KindV::Op(o1), k2, KindV::Op(o2), k3];
    let rest1 = seq![k2, KindV::Op(o2), k3];
    let rest2 = seq![KindV::Op(o2), k3];
    let rest3 = seq![k3];
    let empty = Seq::<KindV>::empty();
    assert(shift_rest(rest0) =~= rest1);
    assert(shift_rest(rest1) =~= rest2);
    assert(shift_rest(rest2) =~= rest3);
    assert(shift_rest(rest3) =~= empty);
    let leaf1 = leaf_node(k1, Option::None);
    let leaf2 = leaf_node(k2, Option::None);
    let leaf3 = leaf_node(k3, Option::None);
    lemma_factor_leaf(k1, rest0);
    lemma_factor_leaf(k2, rest2);
    lemma_factor_leaf(k3, empty);
    assert(spec_term(k1, rest0) == spec_term_tail(leaf1, KindV::Op(o1), rest1));
    assert(spec_expression(k1, rest0) == spec_expr_tail(leaf1, KindV::Op(o1), rest1));
    assert(spec_term(k2, rest2) == spec_term_tail(leaf2, KindV::Op(o2), rest3));
    assert(spec_term(k2, rest2) == Ok::<_, ParseErrorV>((leaf2, KindV::Op(o2), rest3)));
    let once = NodeV::BinOp { left: Box::new(leaf1), op: o1, right: Box::new(leaf2) };
    assert(spec_expr_tail(leaf1, KindV::Op(o1), rest1) == spec_expr_tail(
        once,
        KindV::Op(o2),
        rest3,
    ));
    assert(spec_term(k3, empty) == spec_term_tail(leaf3, KindV::Sentinel, empty));
    assert(spec_expr_tail(once, KindV::Op(o2), rest3) == spec_expr_tail(
        NodeV::BinOp { left: Box::new(once), op: o2, right: Box::new(leaf3) },
        KindV::Sentinel,
        empty,
    ));
}

/// Parentheses override precedence: for every three identifier or literal
/// tokens, `( k1 + k2 ) * k3` parses to `BinOp(*, BinOp(+, k1, k2), k3)`.
pub proof fn lemma_paren_overrides_precedence(k1: KindV, k2: KindV, k3: KindV)
    requires
        is_run_kind(k1),
        is_run_kind(k2),
        is_run_kind(k3),
    ensures
        spec_expression(
            KindV::LParen,
            seq![k1, KindV::Op('+'), k2, KindV::RParen, KindV::Op('*'), k3],
        ) matches Ok((n, c, r)) && n == (NodeV::BinOp {
            left: Box::new(
                NodeV::BinOp {
                    left: Box::new(leaf_node(k1, Option::None)),
                    op: '+',
                    right: Box::new(leaf_node(k2, Option::None)),
                },
            ),
            op: '*',
            right: Box::new(leaf_node(k3, Option::None)),
        }) && c is Sentinel && r.len() == 0,
{
    let rest0 = seq![k1, KindV::Op('+'), k2, KindV::RParen, KindV::Op('*'), k3];
    let r1 = seq![KindV::Op('+'), k2, KindV::RParen, KindV::Op('*'), k3];
    let r2 = seq![k2, KindV::RParen, KindV::Op('*'), k3];
    let r3 = seq![KindV::RParen, KindV::Op('*'), k3];
    let r4 = seq![KindV::Op('*'), k3];
    let r5 = seq![k3];
    let empty = Seq::<KindV>::empty();
    assert(shift_rest(rest0) =~= r1);
    assert(shift_rest(r1) =~= r2);
    assert(shift_rest(r2) =~= r3);
    assert(shift_rest(r3) =~= r4);
    assert(shift_rest(r4) =~= r5);
    assert(shift_rest(r5) =~= empty);
    let leaf1 = leaf_node(k1, Option::None);
    let leaf2 = leaf_node(k2, Option::None);
    let leaf3 = leaf_node(k3, Option::None);
    lemma_factor_leaf(k1, r1);
    lemma_factor_leaf(k2, r3);
    lemma_factor_leaf(k3, empty);
    assert(spec_term(k1, r1) == spec_term_tail(leaf1, KindV::Op('+'), r2));
    assert(spec_expression(k1, r1) == spec_expr_tail(leaf1, KindV::Op('+'), r2));
    assert(spec_term(k2, r3) == spec_term_tail(leaf2, KindV::RParen, r4));
    assert(spec_term(k2, r3) == Ok::<_, ParseErrorV>((leaf2, KindV::RParen, r4)));
    let inner = NodeV::BinOp { left: Box::new(leaf1), op: '+', right: Box::new(leaf2) };
    assert(spec_expr_tail(leaf1, KindV::Op('+'), r2) == spec_expr_tail(
        inner,
        KindV::RParen,
        r4,
    ));
    assert(spec_expression(k1, r1) == Ok::<_, ParseErrorV>((inner, KindV::RParen, r4)));
    assert(spec_factor(KindV::LParen, rest0) == Ok::<_, ParseErrorV>(
        (inner, KindV::Op('*'), r5),
    ));
    assert(spec_term(KindV::LParen, rest0) == spec_term_tail(inner, KindV::Op('*'), r5));
    assert(spec_term(k3, empty) == spec_term_tail(leaf3, KindV::Sentinel, empty));
    assert(spec_term_tail(inner, KindV::Op('*'), r5) == spec_term_tail(
        NodeV::BinOp { left: Box::new(inner), op: '*', right: Box::new(leaf3) },
        KindV::Sentinel,
        empty,
    ));
    assert(spec_expression(KindV::LParen, rest0) == spec_expr_tail(
        NodeV::BinOp { left: Box::new(inner), op: '*', right: Box::new(leaf3) },
        KindV::Sentinel,
        empty,
    ));
}

/// A parameter list succeeds only with pairwise-distinct names, none of them
/// seen before; and the only error it can raise is the duplicate-parameter
/// error. Together: a duplicated parameter name always fails with that error,
/// wherever it stands.
pub proof fn lemma_def_params_distinct(seen: Seq<Seq<char>>, cur: KindV, rest: Seq<KindV>)
    ensures
        spec_def_params(seen, cur, rest) matches Ok((names, c2, r2)) ==> ((forall|i: int, j: int|
            0 <= i < j < names.len() ==> names[i] != names[j]) && (forall|i: int|
            0 <= i < names.len() ==> !seen.contains(names[i]))),
        spec_def_params(seen, cur, rest) matches Err(e) ==> e is DuplicateParameter,
    decreases remaining(cur, rest),
{
    if let KindV::Letter(name) = cur {
        if !seen.contains(name) {
            lemma_def_params_distinct(seen.push(name), shift_cur(rest), shift_rest(rest));
            if let Ok((tail_names, c2, r2)) = spec_def_params(
                seen.push(name),
                shift_cur(rest),
                shift_rest(rest),
            ) {
                let names = seq![name] + tail_names;
                assert forall|i: int| 0 <= i < names.len() implies !seen.contains(
                    names[i],
                ) by {
                    if i > 0 {
                        assert(names[i] == tail_names[i - 1]);
                        if seen.contains(names[i]) {
                            let w = choose|w: int|
                                0 <= w < seen.len() && seen[w] == names[i];
                            assert(seen.push(name)[w] == names[i]);
                        }
                    }
                }
                assert forall|i: int, j: int| 0 <= i < j < names.len() implies names[i]
                    != names[j] by {
                    assert(names[j] == tail_names[j - 1]);
                    if i == 0 {
                        assert(seen.push(name)[seen.len() as int] == name);
                        assert(!seen.push(name).contains(tail_names[j - 1]));
                    } else {
                        assert(names[i] == tail_names[i - 1]);
                    }
                }
            }
        }
    }
}

/// A three-argument call run chains head-first: for every identifier name
/// and three identifier or literal tokens, `f a1 a2 a3` parses to the
/// identifier node for `f` whose `next` chain holds the arguments in
/// encounter order.
pub proof fn lemma_call_run_chains_head_first(f: Seq<char>, a1: KindV, a2: KindV, a3: KindV)
    requires
        is_run_kind(a1),
        is_run_kind(a2),
        is_run_kind(a3),
    ensures
        spec_expression(KindV::Letter(f), seq![a1, a2, a3]) matches Ok(
            (n, c, r),
        ) && n == (NodeV::Identifier {
            value: f,
            next: Option::Some(
                Box::new(
                    leaf_node(
                        a1,
                        Option::Some(
                            Box::new(
                                leaf_node(
                                    a2,
                                    Option::Some(Box::new(leaf_node(a3, Option::None))),
                                ),
                            ),
                        ),
                    ),
                ),
            ),
        }) && c is Sentinel && r.len() == 0,
{
    let rest0 = seq![a1, a2, a3];
    let r1 = seq![a2, a3];
    let r2 = seq![a3];
    let empty = Seq::<KindV>::empty();
    assert(shift_rest(rest0) =~= r1);
    assert(shift_rest(r1) =~= r2);
    assert(shift_rest(r2) =~= empty);
    assert(spec_call_params(KindV::Sentinel, empty) == (NodeV::Empty, KindV::Sentinel, empty));
    assert(spec_call_params(a3, empty) == (
        leaf_node(a3, Option::None),
        KindV::Sentinel,
        empty,
    ));
    assert(spec_call_params(a2, r2) == (
        leaf_node(a2, Option::Some(Box::new(leaf_node(a3, Option::None)))),
        KindV::Sentinel,
        empty,
    ));
    assert(spec_call_params(a1, r1) == (
        leaf_node(
            a1,
            Option::Some(
                Box::new(
                    leaf_node(a2, Option::Some(Box::new(leaf_node(a3, Option::None)))),
                ),
            ),
        ),
        KindV::Sentinel,
        empty,
    ));
    let ident = NodeV::Identifier { value: f, next: Option::None };
    lemma_factor_leaf(KindV::Letter(f), rest0);
    assert(spec_term(KindV::Letter(f), rest0) == spec_term_tail(ident, a1, r1));
    assert(spec_expression(KindV::Letter(f), rest0) == spec_expr_tail(ident, a1, r1));
}

/// Call-argument sugar demands an identifier: whenever an identifier or
/// literal token follows an accumulated result that is not an `Identifier`
/// node, the expression fold fails with the call-on-non-identifier error.
pub proof fn lemma_call_sugar_needs_identifier(acc: NodeV, cur: KindV, rest: Seq<KindV>)
    requires
        is_run_kind(cur),
        !(acc is Identifier),
    ensures
        spec_expr_tail(acc, cur, rest) == Err::<(NodeV, KindV, Seq<KindV>), _>(
            ParseErrorV::CallOnNonIdentifier,
        ),
{
}

} // verus!
