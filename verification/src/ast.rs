//! Syntax trees and syntax errors.

use vstd::prelude::*;
use crate::token::TokenType;

verus! {

/// The one kind of syntax error: a token of kind `found` stood at line `row`,
/// column `col`, where the grammar wanted one of kind `expected`.
#[derive(Debug, Clone, Copy, PartialEq, Eq, Structural)]
pub enum SyntaxError {
    UnexpectedToken { expected: TokenType, found: TokenType, row: usize, col: usize },
}

/// A node of the syntax tree. Every node owns its children.
#[derive(Debug, PartialEq, Eq)]
pub enum ASTNode {
    Let(Box<ASTNode>, Box<ASTNode>),
    Const(String, Box<ASTNode>),
    Var(String, String),
    Func(String, Vec<ASTNode>, String, Box<ASTNode>),
    Proc(String, Vec<ASTNode>, Box<ASTNode>),
    Type(String, Box<ASTNode>),
    Assign(Vec<String>, Box<ASTNode>),
    If(Box<ASTNode>, Box<ASTNode>, Box<ASTNode>),
    While(Box<ASTNode>, Box<ASTNode>),
    Call(String, Vec<ASTNode>),
    Expression(Box<ASTNode>),
    Identifier(String),
    Number(i64),
    Char(char),
    Operator(String, Box<ASTNode>, Box<ASTNode>),
    Declaration(Vec<ASTNode>),
    Command(Vec<ASTNode>),
}

/// The mathematical value of a syntax tree: the same shape as [`ASTNode`],
/// with names as character sequences and child lists as sequences.
pub enum Ast {
    Let(Box<Ast>, Box<Ast>),
    Const(Seq<char>, Box<Ast>),
    Var(Seq<char>, Seq<char>),
    Func(Seq<char>, Seq<Ast>, Seq<char>, Box<Ast>),
    Proc(Seq<char>, Seq<Ast>, Box<Ast>),
    Type(Seq<char>, Box<Ast>),
    Assign(Seq<Seq<char>>, Box<Ast>),
    If(Box<Ast>, Box<Ast>, Box<Ast>),
    While(Box<Ast>, Box<Ast>),
    Call(Seq<char>, Seq<Ast>),
    Expression(Box<Ast>),
    Identifier(Seq<char>),
    Number(i64),
    Char(char),
    Operator(Seq<char>, Box<Ast>, Box<Ast>),
    Declaration(Seq<Ast>),
    Command(Seq<Ast>),
}

/// The values of a list of names.
pub open spec fn names_view(names: Seq<String>) -> Seq<Seq<char>> {
    Seq::new(names.len(), |i: int| names[i]@)
}

/// The values of a list of nodes, element by element.
pub open spec fn nodes_view(nodes: Seq<ASTNode>) -> Seq<Ast>
    decreases nodes,
{
    Seq::new(
        nodes.len(),
        |i: int|
            if 0 <= i < nodes.len() {
                node_view(nodes[i])
            } else {
                Ast::Number(0)
            },
    )
}

/// The value of one node.
pub open spec fn node_view(node: ASTNode) -> Ast
    decreases node,
{
    match node {
        ASTNode::Let(d, b) => Ast::Let(Box::new(node_view(*d)), Box::new(node_view(*b))),
        ASTNode::Const(n, e) => Ast::Const(n@, Box::new(node_view(*e))),
        ASTNode::Var(n, t) => Ast::Var(n@, t@),
        ASTNode::Func(n, ps, t, b) => Ast::Func(
            n@,
            nodes_view(ps@),
            t@,
            Box::new(node_view(*b)),
        ),
        ASTNode::Proc(n, ps, b) => Ast::Proc(n@, nodes_view(ps@), Box::new(node_view(*b))),
        ASTNode::Type(n, d) => Ast::Type(n@, Box::new(node_view(*d))),
        ASTNode::Assign(path, e) => Ast::Assign(names_view(path@), Box::new(node_view(*e))),
        ASTNode::If(c, a, b) => Ast::If(
            Box::new(node_view(*c)),
            Box::new(node_view(*a)),
            Box::new(node_view(*b)),
        ),
        ASTNode::While(c, b) => Ast::While(Box::new(node_view(*c)), Box::new(node_view(*b))),
        ASTNode::Call(n, args) => Ast::Call(n@, nodes_view(args@)),
        ASTNode::Expression(e) => Ast::Expression(Box::new(node_view(*e))),
        ASTNode::Identifier(n) => Ast::Identifier(n@),
        ASTNode::Number(v) => Ast::Number(v),
        ASTNode::Char(c) => Ast::Char(c),
        ASTNode::Operator(op, l, r) => Ast::Operator(
            op@,
            Box::new(node_view(*l)),
            Box::new(node_view(*r)),
        ),
        ASTNode::Declaration(list) => Ast::Declaration(nodes_view(list@)),
        ASTNode::Command(list) => Ast::Command(nodes_view(list@)),
    }
}

impl View for ASTNode {
    type V = Ast;

    open spec fn view(&self) -> Ast {
        node_view(*self)
    }
}

} // verus!
