use crate::typed_decl::TypedDecl;
use crate::typed_expr::{same_opt_type, TypedExpr};
use crate::typed_type::TypedType;
use vstd::prelude::*;

verus! {

#[derive(Debug, PartialEq, Eq)]
pub enum TypedStmt {
    Expr(TypedExpr),
    Decl(TypedDecl),
    Assignment(TypedAssignmentStmt),
    Loop(TypedLoopStmt),
}

#[derive(Debug, PartialEq, Eq)]
pub enum TypedAssignmentStmt {
    Assignment(TypedAssignment),
    AssignmentAndOperation(TypedAssignmentAndOperation),
}

#[derive(Debug, PartialEq, Eq)]
pub struct TypedAssignment {
    pub target: TypedExpr,
    pub value: TypedExpr,
}

#[derive(Debug, PartialEq, Eq)]
pub struct TypedAssignmentAndOperation {
    pub target: TypedExpr,
    pub operator: TypedAssignmentAndOperator,
    pub value: TypedExpr,
}

#[derive(Debug, PartialEq, Eq, Clone, Copy)]
pub enum TypedAssignmentAndOperator {
    Add,
    Sub,
    Mul,
    Div,
    Mod,
}

#[derive(Debug, PartialEq, Eq)]
pub enum TypedLoopStmt {
    While(TypedWhileLoopStmt),
    For(TypedForStmt),
}

#[derive(Debug, PartialEq, Eq)]
pub struct TypedWhileLoopStmt {
    pub condition: TypedExpr,
    pub block: TypedBlock,
}

#[derive(Debug, PartialEq, Eq)]
pub struct TypedForStmt {
    pub values: Vec<String>,
    pub iterator: TypedExpr,
    pub block: TypedBlock,
}

/// A block of statements; its value is that of a trailing expression.
#[derive(Debug, PartialEq, Eq)]
pub struct TypedBlock {
    pub body: Vec<TypedStmt>,
}

/// The type of a block: that of its last statement when that statement is
/// an expression, none otherwise.
pub open spec fn block_type_spec(body: Seq<TypedStmt>) -> Option<TypedType> {
    if body.len() > 0 && body.last() is Expr {
        body.last()->Expr_0.ty
    } else {
        None
    }
}

impl TypedBlock {
    pub fn type_(&self) -> (r: Option<TypedType>)
        ensures
            same_opt_type(r, block_type_spec(self.body@)),
    {
        if self.body.len() > 0 {
            match &self.body[self.body.len() - 1] {
                TypedStmt::Expr(e) => e.type_(),
                _ => None,
            }
        } else {
            None
        }
    }
}

} // verus!
