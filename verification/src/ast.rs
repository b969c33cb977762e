//! The abstract syntax tree built by the parser, together with its
//! mathematical model used throughout the contracts.

use vstd::prelude::*;

verus! {

/// The binary operators of the expression grammar.
#[derive(Debug, Clone, Copy, PartialEq, Eq, Structural)]
pub enum BinaryOperator {
    Add,
    Subtract,
    Multiply,
    Divide,
}

/// A node of the syntax tree. Each node exclusively owns its children.
///
/// Every `Function` body produced by the parser is a `Program` node
/// listing the statements of the body.
#[derive(Debug, PartialEq)]
pub enum AstNode {
    Program(Vec<AstNode>),
    Number(i64),
    Identifier(String),
    Let { name: String, type_annotation: Option<String>, value: Box<AstNode> },
    Function { name: String, params: Vec<(String, String)>, body: Box<AstNode> },
    Return(Box<AstNode>),
    BinaryOp { op: BinaryOperator, left: Box<AstNode>, right: Box<AstNode> },
    StringLiteral(String),
    Boolean(bool),
}

/// The mathematical model of a syntax tree: names are character
/// sequences and child lists are sequences.
pub enum Ast {
    Program(Seq<Ast>),
    Number(int),
    Identifier(Seq<char>),
    Let { name: Seq<char>, type_annotation: Option<Seq<char>>, value: Box<Ast> },
    Function { name: Seq<char>, params: Seq<(Seq<char>, Seq<char>)>, body: Box<Ast> },
    Return(Box<Ast>),
    BinaryOp { op: BinaryOperator, left: Box<Ast>, right: Box<Ast> },
    StringLiteral(Seq<char>),
    Boolean(bool),
}

/// The models of a sequence of nodes, elementwise.
pub open spec fn deep_view_seq(nodes: Seq<AstNode>) -> Seq<Ast>
    decreases nodes,
{
    if nodes.len() == 0 {
        Seq::empty()
    } else {
        proof {
            assert(decreases_to!(nodes => nodes[0]));
            assert(decreases_to!(nodes => nodes.subrange(1, nodes.len() as int)));
        }
        seq![nodes[0].deep_view()] + deep_view_seq(nodes.subrange(1, nodes.len() as int))
    }
}

pub proof fn lemma_deep_view_seq(nodes: Seq<AstNode>)
    ensures
        deep_view_seq(nodes).len() == nodes.len(),
        forall|i: int|
            #![trigger deep_view_seq(nodes)[i]]
            #![trigger nodes[i].deep_view()]
            0 <= i < nodes.len() ==> deep_view_seq(nodes)[i] == nodes[i].deep_view(),
    decreases nodes.len(),
{
    if nodes.len() > 0 {
        let sub = nodes.subrange(1, nodes.len() as int);
        lemma_deep_view_seq(sub);
        assert forall|i: int| 0 <= i < nodes.len() implies deep_view_seq(nodes)[i]
            == nodes[i].deep_view() by {
            if i > 0 {
                assert(sub[i - 1] == nodes[i]);
            }
        }
    }
}

pub proof fn lemma_deep_view_seq_push(nodes: Seq<AstNode>, node: AstNode)
    ensures
        deep_view_seq(nodes.push(node)) == deep_view_seq(nodes).push(node.deep_view()),
{
    lemma_deep_view_seq(nodes.push(node));
    lemma_deep_view_seq(nodes);
    assert(deep_view_seq(nodes.push(node)) =~= deep_view_seq(nodes).push(node.deep_view()));
}

impl AstNode {
    /// The model of this node: the same tree over sequences.
    pub open spec fn deep_view(&self) -> Ast
        decreases self,
    {
        match self {
            AstNode::Program(nodes) => {
                proof {
                    assert(decreases_to!(self => nodes));
                    assert(decreases_to!(nodes => nodes@));
                }
                Ast::Program(deep_view_seq(nodes@))
            },
            AstNode::Number(n) => Ast::Number(*n as int),
            AstNode::Identifier(name) => Ast::Identifier(name@),
            AstNode::Let { name, type_annotation, value } => Ast::Let {
                name: name@,
                type_annotation: match type_annotation {
                    Some(t) => Some(t@),
                    None => None,
                },
                value: Box::new(value.deep_view()),
            },
            AstNode::Function { name, params, body } => Ast::Function {
                name: name@,
                params: params.deep_view(),
                body: Box::new(body.deep_view()),
            },
            AstNode::Return(expr) => Ast::Return(Box::new(expr.deep_view())),
            AstNode::BinaryOp { op, left, right } => Ast::BinaryOp {
                op: *op,
                left: Box::new(left.deep_view()),
                right: Box::new(right.deep_view()),
            },
            AstNode::StringLiteral(text) => Ast::StringLiteral(text@),
            AstNode::Boolean(b) => Ast::Boolean(*b),
        }
    }
}

} // verus!
