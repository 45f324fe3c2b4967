use crate::typed_annotation::TypedAnnotations;
use crate::typed_expr::{same_opt_type, TypedExpr};
use crate::typed_stmt::TypedBlock;
pub use crate::typed_type::TypedArgDef;
use crate::typed_type::{
    duplicate_arg_defs, same_arg_def, same_type, TypedFunctionType, TypedPackage, TypedType,
    TypedTypeParam,
};
use vstd::prelude::*;

verus! {

/// A declaration of the typed IR.
#[derive(Debug, PartialEq, Eq)]
pub enum TypedDecl {
    Var(TypedVar),
    Fun(TypedFun),
    Struct(TypedStruct),
    Class,
    Enum,
    Protocol,
    Extension(TypedExtension),
}

#[derive(Debug, PartialEq, Eq)]
pub struct TypedVar {
    pub annotations: TypedAnnotations,
    pub package: TypedPackage,
    pub is_mut: bool,
    pub name: String,
    pub type_: Option<TypedType>,
    pub value: TypedExpr,
}

#[derive(Debug, PartialEq, Eq)]
pub struct TypedFun {
    pub annotations: TypedAnnotations,
    pub package: TypedPackage,
    pub modifiers: Vec<String>,
    pub name: String,
    pub type_params: Option<Vec<TypedTypeParam>>,
    pub arg_defs: Vec<TypedArgDef>,
    pub body: Option<TypedFunBody>,
    pub return_type: Option<TypedType>,
}

#[derive(Debug, PartialEq, Eq)]
pub enum TypedFunBody {
    Expr(TypedExpr),
    Block(TypedBlock),
}

#[derive(Debug, PartialEq, Eq)]
pub struct TypedStruct {
    pub annotations: TypedAnnotations,
    pub package: TypedPackage,
    pub name: String,
    pub type_params: Option<Vec<TypedTypeParam>>,
    pub initializers: Vec<TypedInitializer>,
    pub stored_properties: Vec<TypedStoredProperty>,
    pub computed_properties: Vec<TypedComputedProperty>,
    pub member_functions: Vec<TypedMemberFunction>,
}

/// An extension of a type: the type extended, the protocol it makes the
/// type conform to, and the members it adds.
#[derive(Debug, PartialEq, Eq)]
pub struct TypedExtension {
    pub name: TypedType,
    pub protocol: Option<TypedType>,
    pub computed_properties: Vec<TypedComputedProperty>,
    pub member_functions: Vec<TypedMemberFunction>,
}

#[derive(Debug, PartialEq, Eq)]
pub struct TypedInitializer {
    pub args: Vec<TypedArgDef>,
    pub body: TypedFunBody,
}

#[derive(Debug, PartialEq, Eq)]
pub struct TypedStoredProperty {
    pub name: String,
    pub type_: TypedType,
}

#[derive(Debug, PartialEq, Eq)]
pub struct TypedComputedProperty {
    pub name: String,
    pub type_: TypedType,
}

#[derive(Debug, PartialEq, Eq)]
pub struct TypedMemberFunction {
    pub name: String,
    pub type_params: Option<Vec<TypedTypeParam>>,
    pub arg_defs: Vec<TypedArgDef>,
    pub body: Option<TypedFunBody>,
    pub return_type: Option<TypedType>,
}

/// `t` is the function type taking `args` and returning `ret`, when the
/// return type is known; unknown otherwise.
pub open spec fn is_function_type_of(t: Option<TypedType>, args: Seq<TypedArgDef>, ret: Option<TypedType>) -> bool {
    match ret {
        None => t is None,
        Some(rt) => {
            &&& t is Some
            &&& t->0 is Function
            &&& t->0->Function_0.arguments@.len() == args.len()
            &&& forall|i: int| 0 <= i < args.len() ==> same_arg_def(#[trigger] t->0->Function_0.arguments@[i], args[i])
            &&& same_type(t->0->Function_0.return_type, rt)
        },
    }
}

fn function_type(args: &Vec<TypedArgDef>, ret: &Option<TypedType>) -> (r: Option<TypedType>)
    ensures
        is_function_type_of(r, args@, *ret),
{
    match ret {
        None => None,
        Some(return_type) => Some(TypedType::Function(Box::new(TypedFunctionType {
            arguments: duplicate_arg_defs(args),
            return_type: return_type.duplicate(),
        }))),
    }
}

impl TypedFun {
    /// The function's type, known once its return type is.
    pub fn type_(&self) -> (r: Option<TypedType>)
        ensures
            is_function_type_of(r, self.arg_defs@, self.return_type),
    {
        function_type(&self.arg_defs, &self.return_type)
    }
}

impl TypedMemberFunction {
    /// The member function's type, known once its return type is.
    pub fn type_(&self) -> (r: Option<TypedType>)
        ensures
            is_function_type_of(r, self.arg_defs@, self.return_type),
    {
        function_type(&self.arg_defs, &self.return_type)
    }
}

} // verus!
