//! The abstract syntax tree the grammar builds, and its mathematical image.

use std::rc::Rc;
use vstd::prelude::*;

verus! {

/// A numeric literal value. `FloatNumber` carries the IEEE 754 bit pattern of
/// the literal; the parser only transports it, it never computes with it.
#[derive(Debug, Clone, Copy, PartialEq, Eq, Structural)]
pub enum Value {
    IntNumber(i64),
    FloatNumber(u64),
}

/// Mathematical image of an AST node. Identifier and function names are
/// character sequences; a function definition's parameters are the sequence
/// of their names (each parameter node is an identifier without a chain).
pub enum NodeV {
    Empty,
    FunctionDef { name: Seq<char>, params: Seq<Seq<char>>, body: Box<NodeV> },
    Assign { left: Box<NodeV>, right: Box<NodeV> },
    BinOp { left: Box<NodeV>, op: char, right: Box<NodeV> },
    Num { value: Value, next: Option<Box<NodeV>> },
    Identifier { value: Seq<char>, next: Option<Box<NodeV>> },
}

/// An AST node: a tagged union with one case active at a time.
///
/// The `next` fields thread a call-argument chain through `Num` and
/// `Identifier` leaves. A function definition's body has shared ownership
/// (`Rc`) because the evaluator may invoke the same body many times without
/// the tree being re-parsed or cloned; every other edge is exclusive.
#[derive(Debug, PartialEq)]
pub enum Node {
    /// Empty or placeholder result.
    Empty,
    /// `fn` definition: name, ordered parameters (identifier nodes with
    /// pairwise-distinct names), and the body expression.
    FunctionDef { name: String, params: Vec<Node>, body: Rc<Node> },
    /// Statement-level assignment, built from the dedicated assignment token.
    Assign { left: Box<Node>, right: Box<Node> },
    /// Binary operation; `op` is one of `+ - * / % =` (the `=` case comes
    /// only from the inline-assignment rule in the factor production).
    BinOp { left: Box<Node>, op: char, right: Box<Node> },
    /// A numeric literal, optionally heading a call-argument chain.
    Num { value: Value, next: Option<Box<Node>> },
    /// A variable or function name, optionally heading a call-argument chain.
    Identifier { value: String, next: Option<Box<Node>> },
}

/// The name under a parameter node: parameters are always identifier nodes,
/// so anything else maps to the empty name.
pub open spec fn param_name(n: Node) -> Seq<char> {
    match n {
        Node::Identifier { value, .. } => value@,
        _ => Seq::empty(),
    }
}

impl View for Node {
    type V = NodeV;

    open spec fn view(&self) -> NodeV
        decreases self,
    {
        match self {
            Node::Empty => NodeV::Empty,
            Node::FunctionDef { name, params, body } => NodeV::FunctionDef {
                name: name@,
                params: Seq::new(params@.len(), |i: int| param_name(params@[i])),
                body: Box::new((**body)@),
            },
            Node::Assign { left, right } => NodeV::Assign {
                left: Box::new((**left)@),
                right: Box::new((**right)@),
            },
            Node::BinOp { left, op, right } => NodeV::BinOp {
                left: Box::new((**left)@),
                op: *op,
                right: Box::new((**right)@),
            },
            Node::Num { value, next } => NodeV::Num {
                value: *value,
                next: match next {
                    Option::Some(b) => Option::Some(Box::new((**b)@)),
                    Option::None => Option::None,
                },
            },
            Node::Identifier { value, next } => NodeV::Identifier {
                value: value@,
                next: match next {
                    Option::Some(b) => Option::Some(Box::new((**b)@)),
                    Option::None => Option::None,
                },
            },
        }
    }
}

impl Node {
    /// True exactly when this node is an `Identifier`.
    pub fn is_identifier(&self) -> (r: bool)
        ensures
            r == (self@ is Identifier),
    {
        match self {
            Node::Identifier { .. } => true,
            _ => false,
        }
    }

    /// The name under an `Identifier` node, if this is one.
    pub fn identity_value(&self) -> (r: Option<&String>)
        ensures
            match r {
                Option::Some(s) => self@ is Identifier && s@ == self@->Identifier_value,
                Option::None => !(self@ is Identifier),
            },
    {
        match self {
            Node::Identifier { value, .. } => Some(value),
            _ => None,
        }
    }

    /// Attaches a call-argument chain: on an `Identifier` node, replaces the
    /// `next` field with the given chain; any other node is left unchanged.
    pub fn set_next_identity(&mut self, next_value: Node)
        ensures
            old(self)@ is Identifier ==> final(self)@ == (NodeV::Identifier {
                value: old(self)@->Identifier_value,
                next: Option::Some(Box::new(next_value@)),
            }),
            !(old(self)@ is Identifier) ==> *final(self) == *old(self),
    {
        if let Node::Identifier { ref mut next, .. } = self {
            *next = Some(Box::new(next_value));
        }
    }
}

} // verus!
