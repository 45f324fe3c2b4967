use crate::typed_annotation::TypedAnnotations;
use crate::typed_type::{Package, TypedType};
use vstd::prelude::*;

verus! {

/// A `use` of a package, possibly under an alias.
#[derive(Debug, PartialEq, Eq)]
pub struct TypedUse {
    pub annotations: TypedAnnotations,
    pub package: Package,
    pub alias: Option<String>,
}

/// A type together with the constraints placed on it.
#[derive(Debug, PartialEq, Eq)]
pub struct TypedTypeConstraint {
    pub type_: TypedType,
    pub constraints: Vec<TypedType>,
}

} // verus!
