//! The executable parser: a one-token-lookahead cursor over a queue of
//! pre-lexed tokens, and the grammar productions proved against the
//! specification functions in `grammar`.

use crate::ast::{Node, NodeV, Value};
use crate::error::ParseError;
use crate::grammar::{
    lemma_def_params_le, lemma_expression_lt, lemma_factor_lt, lemma_shift_le, lemma_stmt_lt,
    lemma_term_lt, remaining, shift_cur, shift_rest, spec_call_params, spec_def_params,
    spec_expr_tail, spec_expression, spec_factor, spec_function_def, spec_function_expression,
    spec_program, spec_statements, spec_stmt, spec_term, spec_term_tail,
};
use crate::token::{Kind, KindV, Token};
use std::collections::VecDeque;
use std::rc::Rc;
use vstd::prelude::*;

verus! {

/// The kinds under a sequence of tokens.
pub open spec fn kinds_of(q: Seq<Token>) -> Seq<KindV> {
    q.map_values(|t: Token| t@)
}

/// The names under a sequence of parameter-name strings.
pub open spec fn names_of(seen: Seq<String>) -> Seq<Seq<char>> {
    seen.map_values(|s: String| s@)
}

/// Whether one of the collected names is this one.
fn contains_name(seen: &Vec<String>, name: &String) -> (b: bool)
    ensures
        b == names_of(seen@).contains(name@),
{
    let mut i: usize = 0;
    while i < seen.len()
        invariant
            0 <= i <= seen@.len(),
            forall|j: int| 0 <= j < i ==> seen@[j]@ != name@,
        decreases seen@.len() - i,
    {
        if seen[i] == *name {
            proof {
                assert(names_of(seen@)[i as int] == seen@[i as int]@);
            }
            return true;
        }
        i += 1;
    }
    proof {
        assert forall|j: int| 0 <= j < names_of(seen@).len() implies names_of(seen@)[j]
            != name@ by {
            assert(names_of(seen@)[j] == seen@[j]@);
        }
    }
    false
}

/// The evaluator collaborator: interprets one completed statement's tree.
/// Implementations are supplied by the caller; nothing is assumed of them.
pub trait Evaluator {
    /// Evaluates one statement's tree, returning its value or a message.
    fn evaluate(&mut self, ast: &Node) -> Result<Rc<Value>, String>;
}

/// The parser: the current token and the remaining queue. The current token
/// is the single point of lookahead; it is the sentinel before the first
/// advance and after the queue is exhausted.
#[derive(Debug)]
pub struct Parser {
    curr_token: Token,
    input: VecDeque<Token>,
}

impl Default for Parser {
    /// The default parser equals a fresh one.
    fn default() -> (p: Parser)
        ensures
            p.cur() == KindV::Sentinel,
            p.toks() == Seq::<KindV>::empty(),
    {
        Parser::new()
    }
}

impl Parser {
    /// The current token's kind.
    pub closed spec fn cur(&self) -> KindV {
        self.curr_token@
    }

    /// The kinds still queued behind the current token.
    pub closed spec fn toks(&self) -> Seq<KindV> {
        self.input@.map_values(|t: Token| t@)
    }

    /// A fresh parser with an empty queue and the sentinel installed.
    pub fn new() -> (p: Parser)
        ensures
            p.cur() == KindV::Sentinel,
            p.toks() == Seq::<KindV>::empty(),
    {
        let p = Parser { curr_token: Token::none(), input: VecDeque::new() };
        proof {
            assert(p.toks() =~= Seq::<KindV>::empty());
        }
        p
    }

    /// Advances the cursor: dequeues the next token (the sentinel once the
    /// queue is empty), installs it as current, and hands the previous
    /// current token to the caller.
    fn shift_input(&mut self) -> (t: Token)
        ensures
            t == old(self).curr_token,
            final(self).cur() == shift_cur(old(self).toks()),
            final(self).toks() == shift_rest(old(self).toks()),
    {
        let next = match self.input.pop_front() {
            Some(tk) => tk,
            None => Token::none(),
        };
        let mut t = next;
        core::mem::swap(&mut t, &mut self.curr_token);
        proof {
            assert(self.toks() =~= shift_rest(old(self).toks()));
        }
        t
    }

    /// The call-argument chain: greedily consumes the maximal run of
    /// identifier and literal tokens and links them head-first; an empty run
    /// yields the `Empty` node.
    fn _function_call_parameter(&mut self) -> (chain: Node)
        ensures
            ({
                let (n, c2, r2) = spec_call_params(old(self).cur(), old(self).toks());
                chain@ == n && final(self).cur() == c2 && final(self).toks() == r2
            }),
        decreases remaining(self.cur(), self.toks()), 0int,
    {
        let ghost t0 = self.toks();
        let in_run = match &self.curr_token.kind {
            Kind::Letter(_) | Kind::IntNumber(_) | Kind::FloatNumber(_) => true,
            _ => false,
        };
        if in_run {
            let t = self.shift_input();
            proof {
                lemma_shift_le(t0);
            }
            let tail = self._function_call_parameter();
            let next = match tail {
                Node::Empty => None,
                other => Some(Box::new(other)),
            };
            match t.kind {
                Kind::Letter(s) => Node::Identifier { value: s, next },
                Kind::IntNumber(v) => Node::Num { value: Value::IntNumber(v), next },
                Kind::FloatNumber(b) => Node::Num { value: Value::FloatNumber(b), next },
                _ => Node::Empty,
            }
        } else {
            Node::Empty
        }
    }

    /// The factor production: a literal, an identifier (possibly opening an
    /// inline `=` assignment), or a parenthesized expression.
    fn _factor(&mut self) -> (r: Result<Node, ParseError>)
        ensures
            spec_factor(old(self).cur(), old(self).toks()) matches Ok((n, c2, r2)) ==> (
            r matches Ok(node) && node@ == n && final(self).cur() == c2 && final(self).toks()
                == r2),
            spec_factor(old(self).cur(), old(self).toks()) matches Err(e) ==> (r matches Err(err)
                && err@ == e),
        decreases remaining(self.cur(), self.toks()), 1int,
    {
        let ghost c0 = self.cur();
        let ghost t0 = self.toks();
        match &self.curr_token.kind {
            Kind::FloatNumber(b) => {
                let value = *b;
                self.shift_input();
                Ok(Node::Num { value: Value::FloatNumber(value), next: None })
            },
            Kind::IntNumber(v) => {
                let value = *v;
                self.shift_input();
                Ok(Node::Num { value: Value::IntNumber(value), next: None })
            },
            Kind::Letter(s) => {
                let name = s.clone();
                self.shift_input();
                let n = Node::Identifier { value: name, next: None };
                proof {
                    assert(n@ == (NodeV::Identifier {
                        value: c0->Letter_0,
                        next: Option::None,
                    }));
                }
                let inline_assign = match &self.curr_token.kind {
                    Kind::Op(c) => *c == '=',
                    _ => false,
                };
                if inline_assign {
                    let ghost t1 = self.toks();
                    self.shift_input();
                    proof {
                        lemma_shift_le(t0);
                        lemma_shift_le(t1);
                    }
                    match self._expression() {
                        Ok(rhs) => Ok(
                            Node::BinOp { left: Box::new(n), op: '=', right: Box::new(rhs) },
                        ),
                        Err(e) => Err(e),
                    }
                } else {
                    Ok(n)
                }
            },
            Kind::LParen => {
                self.shift_input();
                proof {
                    lemma_shift_le(t0);
                }
                match self._expression() {
                    Ok(inner) => {
                        let closed = match &self.curr_token.kind {
                            Kind::RParen => true,
                            _ => false,
                        };
                        if closed {
                            self.shift_input();
                            Ok(inner)
                        } else {
                            Err(ParseError::MissingRightParen)
                        }
                    },
                    Err(e) => Err(e),
                }
            },
            _ => Err(ParseError::UnknownFactor),
        }
    }

    /// The term production: one factor, then left-associative folding of the
    /// multiplicative operators `*`, `/` and `%`; any other operator is left
    /// unconsumed.
    fn _term(&mut self) -> (r: Result<Node, ParseError>)
        ensures
            spec_term(old(self).cur(), old(self).toks()) matches Ok((n, c2, r2)) ==> (
            r matches Ok(node) && node@ == n && final(self).cur() == c2 && final(self).toks()
                == r2),
            spec_term(old(self).cur(), old(self).toks()) matches Err(e) ==> (r matches Err(err)
                && err@ == e),
        decreases remaining(self.cur(), self.toks()), 2int,
    {
        let ghost c0 = self.cur();
        let ghost t0 = self.toks();
        let mut result = match self._factor() {
            Ok(n) => n,
            Err(e) => {
                return Err(e);
            },
        };
        proof {
            lemma_factor_lt(c0, t0);
        }
        loop
            invariant
                spec_term(old(self).cur(), old(self).toks()) == spec_term_tail(
                    result@,
                    self.cur(),
                    self.toks(),
                ),
                remaining(self.cur(), self.toks()) < remaining(old(self).cur(), old(self).toks()),
            ensures
                spec_term(old(self).cur(), old(self).toks()) == spec_term_tail(
                    result@,
                    self.cur(),
                    self.toks(),
                ),
                !(self.cur() == KindV::Op('*') || self.cur() == KindV::Op('/') || self.cur()
                    == KindV::Op('%')),
            decreases remaining(self.cur(), self.toks()),
        {
            let ghost ti = self.toks();
            let op = match &self.curr_token.kind {
                Kind::Op(c) if *c == '*' || *c == '/' || *c == '%' => *c,
                _ => {
                    break ;
                },
            };
            self.shift_input();
            proof {
                lemma_shift_le(ti);
                lemma_factor_lt(self.cur(), self.toks());
            }
            let right = match self._factor() {
                Ok(n) => n,
                Err(e) => {
                    return Err(e);
                },
            };
            result = Node::BinOp { left: Box::new(result), op, right: Box::new(right) };
        }
        Ok(result)
    }

    /// The expression production: one term, then assignment folding, additive
    /// folding and call-argument sugar at the lowest precedence level.
    fn _expression(&mut self) -> (r: Result<Node, ParseError>)
        ensures
            spec_expression(old(self).cur(), old(self).toks()) matches Ok((n, c2, r2)) ==> (
            r matches Ok(node) && node@ == n && final(self).cur() == c2 && final(self).toks()
                == r2),
            spec_expression(old(self).cur(), old(self).toks()) matches Err(e) ==> (
            r matches Err(err) && err@ == e),
        decreases remaining(self.cur(), self.toks()), 3int,
    {
        let ghost c0 = self.cur();
        let ghost t0 = self.toks();
        let mut result = match self._term() {
            Ok(n) => n,
            Err(e) => {
                return Err(e);
            },
        };
        proof {
            lemma_term_lt(c0, t0);
        }
        loop
            invariant_except_break
                spec_expression(old(self).cur(), old(self).toks()) == spec_expr_tail(
                    result@,
                    self.cur(),
                    self.toks(),
                ),
                remaining(self.cur(), self.toks()) < remaining(old(self).cur(), old(self).toks()),
            ensures
                spec_expression(old(self).cur(), old(self).toks()) == Ok::<
                    _,
                    crate::error::ParseErrorV,
                >((result@, self.cur(), self.toks())),
            decreases remaining(self.cur(), self.toks()),
        {
            let ghost ti = self.toks();
            let assign_marker = match &self.curr_token.kind {
                Kind::Assign => true,
                _ => false,
            };
            if assign_marker {
                self.shift_input();
                proof {
                    lemma_shift_le(ti);
                    lemma_expression_lt(self.cur(), self.toks());
                }
                let rhs = match self._expression() {
                    Ok(n) => n,
                    Err(e) => {
                        return Err(e);
                    },
                };
                result = Node::Assign { left: Box::new(result), right: Box::new(rhs) };
            } else {
                let op = match &self.curr_token.kind {
                    Kind::Op(c) => Some(*c),
                    _ => None,
                };
                match op {
                    Some(c) if c == '+' || c == '-' => {
                        self.shift_input();
                        proof {
                            lemma_shift_le(ti);
                            lemma_term_lt(self.cur(), self.toks());
                        }
                        let right = match self._term() {
                            Ok(n) => n,
                            Err(e) => {
                                return Err(e);
                            },
                        };
                        result = Node::BinOp {
                            left: Box::new(result),
                            op: c,
                            right: Box::new(right),
                        };
                    },
                    Some(_) => {
                        break ;
                    },
                    None => {
                        let in_run = match &self.curr_token.kind {
                            Kind::Letter(_) | Kind::IntNumber(_) | Kind::FloatNumber(_) => true,
                            _ => false,
                        };
                        if in_run {
                            if !result.is_identifier() {
                                return Err(ParseError::CallOnNonIdentifier);
                            }
                            let chain = self._function_call_parameter();
                            result.set_next_identity(chain);
                            break ;
                        } else {
                            break ;
                        }
                    },
                }
            }
        }
        Ok(result)
    }

    /// The parameter list of a function definition: the maximal run of
    /// identifier tokens, each made an `Identifier` node, with a
    /// duplicate-parameter error as soon as a name repeats.
    fn _function_def_parameter(&mut self) -> (r: Result<Vec<Node>, ParseError>)
        ensures
            spec_def_params(Seq::empty(), old(self).cur(), old(self).toks()) matches Ok(
                (names, c2, r2),
            ) ==> (r matches Ok(params) && Seq::new(
                params@.len(),
                |i: int| crate::ast::param_name(params@[i]),
            ) == names && final(self).cur() == c2 && final(self).toks() == r2),
            spec_def_params(Seq::empty(), old(self).cur(), old(self).toks()) matches Err(e) ==> (
            r matches Err(err) && err@ == e),
    {
        let mut result: Vec<Node> = Vec::new();
        let mut seen: Vec<String> = Vec::new();
        proof {
            assert(names_of(seen@) =~= Seq::<Seq<char>>::empty());
        }
        loop
            invariant
                seen@.len() == result@.len(),
                forall|i: int|
                    0 <= i < result@.len() ==> crate::ast::param_name(result@[i]) == seen@[i]@,
                ({
                    match spec_def_params(names_of(seen@), self.cur(), self.toks()) {
                        Ok((names, c2, r2)) => spec_def_params(
                            Seq::empty(),
                            old(self).cur(),
                            old(self).toks(),
                        ) == Ok::<_, crate::error::ParseErrorV>(
                            (names_of(seen@) + names, c2, r2),
                        ),
                        Err(e) => spec_def_params(
                            Seq::empty(),
                            old(self).cur(),
                            old(self).toks(),
                        ) == Err::<(Seq<Seq<char>>, KindV, Seq<KindV>), _>(e),
                    }
                }),
            ensures
                !(self.cur() is Letter),
                seen@.len() == result@.len(),
                forall|i: int|
                    0 <= i < result@.len() ==> crate::ast::param_name(result@[i]) == seen@[i]@,
                ({
                    match spec_def_params(names_of(seen@), self.cur(), self.toks()) {
                        Ok((names, c2, r2)) => spec_def_params(
                            Seq::empty(),
                            old(self).cur(),
                            old(self).toks(),
                        ) == Ok::<_, crate::error::ParseErrorV>(
                            (names_of(seen@) + names, c2, r2),
                        ),
                        Err(e) => spec_def_params(
                            Seq::empty(),
                            old(self).cur(),
                            old(self).toks(),
                        ) == Err::<(Seq<Seq<char>>, KindV, Seq<KindV>), _>(e),
                    }
                }),
            decreases remaining(self.cur(), self.toks()),
        {
            let ghost prev_seen = seen@;
            let name = match &self.curr_token.kind {
                Kind::Letter(s) => s.clone(),
                _ => {
                    break ;
                },
            };
            let ghost gname = name@;
            if contains_name(&seen, &name) {
                return Err(ParseError::DuplicateParameter(name));
            }
            seen.push(name.clone());
            let node = Node::Identifier { value: name, next: None };
            proof {
                assert(crate::ast::param_name(node) == gname);
            }
            result.push(node);
            self.shift_input();
            proof {
                assert(names_of(seen@) =~= names_of(prev_seen).push(gname));
                match spec_def_params(names_of(seen@), self.cur(), self.toks()) {
                    Ok(step) => {
                        let (ns, c2, r2) = step;
                        assert(names_of(prev_seen) + (seq![gname] + ns) =~= names_of(seen@) + ns);
                    },
                    Err(_) => {},
                }
            }
        }
        proof {
            assert(names_of(seen@) + Seq::<Seq<char>>::empty() =~= names_of(seen@));
            assert(Seq::new(result@.len(), |i: int| crate::ast::param_name(result@[i]))
                =~= names_of(seen@));
        }
        Ok(result)
    }

    /// A function body: the function-body marker, then one full expression.
    fn _function_expression(&mut self) -> (r: Result<Node, ParseError>)
        ensures
            spec_function_expression(old(self).cur(), old(self).toks()) matches Ok((n, c2, r2))
                ==> (r matches Ok(node) && node@ == n && final(self).cur() == c2
                && final(self).toks() == r2),
            spec_function_expression(old(self).cur(), old(self).toks()) matches Err(e) ==> (
            r matches Err(err) && err@ == e),
    {
        let has_marker = match &self.curr_token.kind {
            Kind::FnOp => true,
            _ => false,
        };
        if has_marker {
            self.shift_input();
            self._expression()
        } else {
            Err(ParseError::MissingFunctionBody)
        }
    }

    /// A function definition, after the `fn` keyword itself was consumed:
    /// the function name, the parameter list, then the body, which is held
    /// behind a shared-ownership reference so the evaluator can invoke it
    /// repeatedly.
    fn _function_def(&mut self) -> (r: Result<Node, ParseError>)
        ensures
            spec_function_def(old(self).cur(), old(self).toks()) matches Ok((n, c2, r2)) ==> (
            r matches Ok(node) && node@ == n && final(self).cur() == c2 && final(self).toks()
                == r2),
            spec_function_def(old(self).cur(), old(self).toks()) matches Err(e) ==> (
            r matches Err(err) && err@ == e),
    {
        let ghost c0 = self.cur();
        let ghost t0 = self.toks();
        let name = match &self.curr_token.kind {
            Kind::Letter(s) => s.clone(),
            _ => {
                return Err(ParseError::MissingFunctionName);
            },
        };
        self.shift_input();
        proof {
            lemma_shift_le(t0);
            lemma_def_params_le(Seq::empty(), self.cur(), self.toks());
        }
        let params = match self._function_def_parameter() {
            Ok(p) => p,
            Err(e) => {
                return Err(e);
            },
        };
        let body = match self._function_expression() {
            Ok(b) => b,
            Err(e) => {
                return Err(e);
            },
        };
        let node = Node::FunctionDef { name, params, body: Rc::new(body) };
        Ok(node)
    }

    /// The statement production: a function definition when the current
    /// token is the keyword `fn`, a syntax error on any other keyword, an
    /// expression otherwise.
    fn stmt(&mut self) -> (r: Result<Node, ParseError>)
        ensures
            spec_stmt(old(self).cur(), old(self).toks()) matches Ok((n, c2, r2)) ==> (
            r matches Ok(node) && node@ == n && final(self).cur() == c2 && final(self).toks()
                == r2),
            spec_stmt(old(self).cur(), old(self).toks()) matches Err(e) ==> (r matches Err(err)
                && err@ == e),
    {
        let is_keyword = match &self.curr_token.kind {
            Kind::Keyword(_) => true,
            _ => false,
        };
        if is_keyword {
            let is_fn = match &self.curr_token.kind {
                Kind::Keyword(s) => *s == "fn".to_owned(),
                _ => false,
            };
            if is_fn {
                self.shift_input();
                self._function_def()
            } else {
                Err(ParseError::UnexpectedKeyword)
            }
        } else {
            self._expression()
        }
    }

    /// The driver: installs the token queue, parses statements one at a
    /// time, and hands each to the evaluator before parsing the next. The
    /// result is the evaluator's value for the single statement; zero
    /// statements and more than one statement are both errors, and any
    /// evaluator failure is handed back unchanged.
    pub fn parse<E: Evaluator>(&mut self, tokens: VecDeque<Token>, e: &mut E) -> (r: Result<
        Option<Value>,
        ParseError,
    >)
        ensures
            spec_program(kinds_of(tokens@)) matches Err(pe) ==> (r matches Err(err) && (err@ == pe
                || err@ is Evaluation)),
            shift_cur(kinds_of(tokens@)) !is Sentinel ==> (spec_stmt(
                shift_cur(kinds_of(tokens@)),
                shift_rest(kinds_of(tokens@)),
            ) matches Err(e1) ==> (r matches Err(err) && err@ == e1)),
            spec_program(kinds_of(tokens@)) matches Ok(stmts) ==> ((stmts.len() == 0 ==> (
            r matches Err(err) && err@ is NoStatement)) && (stmts.len() == 1 ==> ((r matches Ok(v)
                && v is Some) || (r matches Err(err) && err@ is Evaluation))) && (stmts.len() > 1
                ==> (r matches Err(err) && (err@ is Evaluation || err@ is MultipleStatements)))),
    {
        self.input = tokens;
        self.shift_input();
        let ghost c0 = self.cur();
        let ghost t0 = self.toks();
        proof {
            assert(c0 == shift_cur(kinds_of(tokens@)));
            assert(t0 == shift_rest(kinds_of(tokens@)));
        }
        let mut ast: Vec<Rc<Node>> = Vec::new();
        let mut last_value: Option<Rc<Value>> = None;
        loop
            invariant
                c0 == shift_cur(kinds_of(tokens@)) && t0 == shift_rest(kinds_of(tokens@)),
                last_value is Some <==> ast@.len() > 0,
                ast@.len() == 0 ==> self.cur() == c0 && self.toks() == t0,
                ast@.len() > 0 ==> spec_stmt(c0, t0) is Ok,
                ({
                    match spec_statements(self.cur(), self.toks()) {
                        Ok(tail) => spec_statements(c0, t0) matches Ok(all) && all.len()
                            == ast@.len() + tail.len(),
                        Err(e) => spec_statements(c0, t0) == Err::<Seq<NodeV>, _>(e),
                    }
                }),
            ensures
                c0 == shift_cur(kinds_of(tokens@)) && t0 == shift_rest(kinds_of(tokens@)),
                self.cur() is Sentinel,
                last_value is Some <==> ast@.len() > 0,
                ast@.len() == 0 ==> self.cur() == c0 && self.toks() == t0,
                ast@.len() > 0 ==> spec_stmt(c0, t0) is Ok,
                spec_statements(c0, t0) matches Ok(all) && all.len() == ast@.len(),
            decreases remaining(self.cur(), self.toks()),
        {
            let ghost ci = self.cur();
            let ghost ti = self.toks();
            let done = match &self.curr_token.kind {
                Kind::Sentinel => true,
                _ => false,
            };
            if done {
                break ;
            }
            let n = match self.stmt() {
                Ok(n) => n,
                Err(err) => {
                    proof {
                        assert(spec_stmt(ci, ti) is Err);
                        assert(spec_statements(ci, ti) == Err::<Seq<NodeV>, _>(err@));
                        assert(spec_statements(c0, t0) == Err::<Seq<NodeV>, _>(err@));
                    }
                    return Err(err);
                },
            };
            proof {
                lemma_stmt_lt(ci, ti);
                assert(spec_stmt(ci, ti) is Ok);
                assert(spec_statements(ci, ti) matches Ok(tail) ==> tail.len() >= 1);
            }
            let result = match e.evaluate(&n) {
                Ok(v) => v,
                Err(msg) => {
                    return Err(ParseError::Evaluation(msg));
                },
            };
            ast.push(Rc::new(n));
            last_value = Some(result);
        }
        if ast.len() > 1 {
            return Err(ParseError::MultipleStatements);
        }
        match last_value {
            Some(rv) => Ok(Some(*rv)),
            None => Err(ParseError::NoStatement),
        }
    }
}

} // verus!
