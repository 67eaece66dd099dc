//! The input tree shape consumed by the bytecode generator.

use vstd::prelude::*;

verus! {

/// One node of the syntax tree. Immutable once constructed; the generator
/// never mutates it.
pub enum ASTNode {
    StringLiteral(String),
    NumberLiteral(i64),
    BinaryOp(Box<ASTNode>, BinaryOperator, Box<ASTNode>),
    Variable(String),
    Assignment(String, Box<ASTNode>),
    If(Box<ASTNode>, Box<ASTNode>, Option<Box<ASTNode>>),
    While(Box<ASTNode>, Box<ASTNode>),
    Block(Vec<ASTNode>),
}

/// The four arithmetic operators of a binary-operation node.
#[derive(Debug, Clone, Copy, PartialEq, Eq, Structural)]
pub enum BinaryOperator {
    Add,
    Subtract,
    Multiply,
    Divide,
}

} // verus!
