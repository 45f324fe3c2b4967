use crate::typed_stmt::TypedBlock;
use crate::typed_type::{same_type, TypedPackage, TypedType};
use vstd::prelude::*;

verus! {

/// A literal of the typed IR; numbers and booleans are kept as written.
#[derive(Debug, PartialEq, Eq)]
pub enum TypedLiteralKind {
    Integer(String),
    FloatingPoint(String),
    String(String),
    Boolean(String),
    NullLiteral,
}

/// A name, with the package it was found in and its type arguments.
#[derive(Debug, PartialEq, Eq)]
pub struct TypedName {
    pub package: TypedPackage,
    pub name: String,
    pub type_arguments: Option<Vec<TypedType>>,
}

/// The operators between two operands.
#[derive(Debug, PartialEq, Eq)]
pub enum TypedBinaryOperator {
    Equal,
    GrateThanEqual,
    GrateThan,
    LessThanEqual,
    LessThan,
    NotEqual,
    Add,
    Sub,
    Mul,
    Div,
    Mod,
    InfixFunctionCall(String),
}

/// An operation on two operands.
#[derive(Debug, PartialEq, Eq)]
pub struct TypedBinOp {
    pub left: Box<TypedExpr>,
    pub operator: TypedBinaryOperator,
    pub right: Box<TypedExpr>,
}

/// The operators before an operand.
#[derive(Debug, Clone, Copy, PartialEq, Eq, Structural)]
pub enum TypedPrefixUnaryOperator {
    Negative,
    Positive,
    Not,
    Reference,
    Dereference,
}

/// The operators after an operand.
#[derive(Debug, Clone, Copy, PartialEq, Eq, Structural)]
pub enum TypedPostfixUnaryOperator {
    Unwrap,
}

/// An operation written before its operand.
#[derive(Debug, PartialEq, Eq)]
pub struct TypedPrefixUnaryOp {
    pub target: Box<TypedExpr>,
    pub operator: TypedPrefixUnaryOperator,
}

/// An operation written after its operand.
#[derive(Debug, PartialEq, Eq)]
pub struct TypedPostfixUnaryOp {
    pub target: Box<TypedExpr>,
    pub operator: TypedPostfixUnaryOperator,
}

/// An operation on one operand.
#[derive(Debug, PartialEq, Eq)]
pub enum TypedUnaryOp {
    Prefix(TypedPrefixUnaryOp),
    Postfix(TypedPostfixUnaryOp),
}

/// An indexing of `target` by `indexes`.
#[derive(Debug, PartialEq, Eq)]
pub struct TypedSubscript {
    pub target: Box<TypedExpr>,
    pub indexes: Vec<TypedExpr>,
}

/// A member of `target`, reached safely (`?.`) or not.
#[derive(Debug, PartialEq, Eq)]
pub struct TypedInstanceMember {
    pub target: Box<TypedExpr>,
    pub name: String,
    pub is_safe: bool,
}

/// An array of elements, with the type its elements must have.
#[derive(Debug, PartialEq, Eq)]
pub struct TypedArray {
    pub elements: Vec<TypedExpr>,
    pub type_: Option<TypedType>,
}

/// An argument of a call.
#[derive(Debug, PartialEq, Eq)]
pub struct TypedCallArg {
    pub label: Option<String>,
    pub arg: Box<TypedExpr>,
    pub is_vararg: bool,
}

/// A call of `target` with `args`.
#[derive(Debug, PartialEq, Eq)]
pub struct TypedCall {
    pub target: Box<TypedExpr>,
    pub args: Vec<TypedCallArg>,
}

/// A conditional.
#[derive(Debug, PartialEq, Eq)]
pub struct TypedIf {
    pub condition: Box<TypedExpr>,
    pub body: TypedBlock,
    pub else_body: Option<TypedBlock>,
}

/// A return, with or without a value.
#[derive(Debug, PartialEq, Eq)]
pub struct TypedReturn {
    pub value: Option<Box<TypedExpr>>,
}

/// A conversion of `target` to `type_`.
#[derive(Debug, PartialEq, Eq)]
pub struct TypedTypeCast {
    pub target: Box<TypedExpr>,
    pub type_: TypedType,
}

/// The shape of an expression of the typed IR.
#[derive(Debug, PartialEq, Eq)]
pub enum TypedExprKind {
    Name(TypedName),
    Literal(TypedLiteralKind),
    BinOp(TypedBinOp),
    UnaryOp(TypedUnaryOp),
    Subscript(TypedSubscript),
    Member(TypedInstanceMember),
    Array(TypedArray),
    Call(TypedCall),
    If(TypedIf),
    Return(TypedReturn),
    TypeCast(TypedTypeCast),
}

/// An expression of the typed IR, with the type inferred for it, if any.
#[derive(Debug, PartialEq, Eq)]
pub struct TypedExpr {
    pub kind: TypedExprKind,
    pub ty: Option<TypedType>,
}

/// Two optional types that are equal, strings compared by their characters.
pub open spec fn same_opt_type(a: Option<TypedType>, b: Option<TypedType>) -> bool {
    match (a, b) {
        (None, None) => true,
        (Some(x), Some(y)) => same_type(x, y),
        _ => false,
    }
}

impl TypedExpr {
    /// The expression of shape `kind` and type `ty`.
    pub fn new(kind: TypedExprKind, ty: Option<TypedType>) -> (r: Self)
        ensures
            r.kind == kind,
            r.ty == ty,
    {
        TypedExpr { kind, ty }
    }

    /// The type of this expression, if it is known.
    pub fn type_(&self) -> (r: Option<TypedType>)
        ensures
            same_opt_type(r, self.ty),
    {
        match &self.ty {
            None => None,
            Some(t) => Some(t.duplicate()),
        }
    }
}

} // verus!
