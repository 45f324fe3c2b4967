use crate::text::str_eq;
use crate::typed_expr::same_opt_type;
use crate::typed_type::{
    same_arg_def, same_named, same_package, same_type, TypedArgDef, TypedNamedValueType, TypedPackage,
    TypedType,
};
use vstd::prelude::*;

verus! {

/// Whether `a` and `b` hold the same strings, in the same order.
pub fn same_strings(a: &Vec<String>, b: &Vec<String>) -> (r: bool)
    ensures
        r == (a@.map_values(|n: String| n@) == b@.map_values(|n: String| n@)),
{
    if a.len() != b.len() {
        proof {
            assert(a@.map_values(|n: String| n@).len() != b@.map_values(|n: String| n@).len());
        }
        return false;
    }
    let mut i: usize = 0;
    while i < a.len()
        invariant
            a@.len() == b@.len(),
            i <= a@.len(),
            forall|j: int| 0 <= j < i ==> #[trigger] a@[j]@ == b@[j]@,
        decreases a@.len() - i,
    {
        if !str_eq(a[i].as_str(), b[i].as_str()) {
            proof {
                assert(a@.map_values(|n: String| n@)[i as int] != b@.map_values(|n: String| n@)[i as int]);
            }
            return false;
        }
        i = i + 1;
    }
    assert(a@.map_values(|n: String| n@) =~= b@.map_values(|n: String| n@));
    true
}

impl TypedPackage {
    /// Whether this package is the same as `other`.
    pub fn same_as(&self, other: &TypedPackage) -> (r: bool)
        ensures
            r == same_package(*self, *other),
    {
        match (self, other) {
            (TypedPackage::Raw(x), TypedPackage::Raw(y)) => same_strings(&x.names, &y.names),
            (TypedPackage::Resolved(x), TypedPackage::Resolved(y)) => same_strings(&x.names, &y.names),
            _ => false,
        }
    }
}

/// Whether the types of `a` and `b` are the same, one by one.
fn same_type_lists(a: &Vec<TypedType>, b: &Vec<TypedType>) -> (r: bool)
    ensures
        r == (a@.len() == b@.len() && forall|i: int| 0 <= i < a@.len() ==> same_type(#[trigger] a@[i], b@[i])),
    decreases a@,
{
    if a.len() != b.len() {
        return false;
    }
    let mut i: usize = 0;
    while i < a.len()
        invariant
            a@.len() == b@.len(),
            i <= a@.len(),
            forall|j: int| 0 <= j < i ==> same_type(#[trigger] a@[j], b@[j]),
        decreases a@.len() - i,
    {
        assert(decreases_to!(a@ => a@[i as int]));
        if !a[i].same_as(&b[i]) {
            return false;
        }
        i = i + 1;
    }
    true
}

/// Whether the parameters of `a` and `b` are the same, one by one.
fn same_arg_def_lists(a: &Vec<TypedArgDef>, b: &Vec<TypedArgDef>) -> (r: bool)
    ensures
        r == (a@.len() == b@.len() && forall|i: int| 0 <= i < a@.len() ==> same_arg_def(#[trigger] a@[i], b@[i])),
    decreases a@,
{
    if a.len() != b.len() {
        return false;
    }
    let mut i: usize = 0;
    while i < a.len()
        invariant
            a@.len() == b@.len(),
            i <= a@.len(),
            forall|j: int| 0 <= j < i ==> same_arg_def(#[trigger] a@[j], b@[j]),
        decreases a@.len() - i,
    {
        assert(decreases_to!(a@ => a@[i as int]));
        if !a[i].same_as(&b[i]) {
            return false;
        }
        i = i + 1;
    }
    true
}

impl TypedType {
    /// Whether this type is the same as `other`.
    pub fn same_as(&self, other: &TypedType) -> (r: bool)
        ensures
            r == same_type(*self, *other),
        decreases *self,
    {
        match (self, other) {
            (TypedType::Value(x), TypedType::Value(y)) => x.same_as(y),
            (TypedType::Type(x), TypedType::Type(y)) => x.same_as(y),
            (TypedType::Reference(x), TypedType::Reference(y)) => x.same_as(y),
            (TypedType::Function(f), TypedType::Function(g)) => {
                assert(decreases_to!(*self => f.arguments@));
                same_arg_def_lists(&f.arguments, &g.arguments) && f.return_type.same_as(&g.return_type)
            },
            _ => false,
        }
    }
}

impl TypedNamedValueType {
    /// Whether this type is the same as `other`.
    pub fn same_as(&self, other: &TypedNamedValueType) -> (r: bool)
        ensures
            r == same_named(*self, *other),
        decreases *self,
    {
        if !self.package.same_as(&other.package) || !str_eq(self.name.as_str(), other.name.as_str()) {
            return false;
        }
        match (&self.type_args, &other.type_args) {
            (None, None) => true,
            (Some(xs), Some(ys)) => {
                assert(decreases_to!(*self => xs@));
                same_type_lists(xs, ys)
            },
            _ => false,
        }
    }
}

impl TypedArgDef {
    /// Whether this parameter is the same as `other`.
    pub fn same_as(&self, other: &TypedArgDef) -> (r: bool)
        ensures
            r == same_arg_def(*self, *other),
        decreases *self,
    {
        str_eq(self.label.as_str(), other.label.as_str()) && str_eq(self.name.as_str(), other.name.as_str())
            && self.type_.same_as(&other.type_)
    }
}

/// Whether two optional types are the same.
pub fn same_opt_types(a: &Option<TypedType>, b: &Option<TypedType>) -> (r: bool)
    ensures
        r == same_opt_type(*a, *b),
{
    match (a, b) {
        (None, None) => true,
        (Some(x), Some(y)) => x.same_as(y),
        _ => false,
    }
}

/// Every type is the same as itself.
pub proof fn lemma_same_type_refl(t: TypedType)
    ensures
        same_type(t, t),
    decreases t,
{
    match t {
        TypedType::Value(n) => lemma_same_named_refl(n),
        TypedType::Type(n) => lemma_same_named_refl(n),
        TypedType::Reference(n) => lemma_same_named_refl(n),
        TypedType::Function(f) => {
            assert forall|i: int| 0 <= i < f.arguments@.len() implies same_arg_def(
                #[trigger] f.arguments@[i],
                f.arguments@[i],
            ) by {
                assert(decreases_to!(t => f.arguments@[i]));
                lemma_same_arg_def_refl(f.arguments@[i]);
            }
            lemma_same_type_refl(f.return_type);
        },
    }
}

/// Every named type is the same as itself.
pub proof fn lemma_same_named_refl(n: TypedNamedValueType)
    ensures
        same_named(n, n),
    decreases n,
{
    match n.type_args {
        Some(xs) => {
            assert forall|i: int| 0 <= i < xs@.len() implies same_type(#[trigger] xs@[i], xs@[i]) by {
                assert(decreases_to!(n => xs@[i]));
                lemma_same_type_refl(xs@[i]);
            }
        },
        None => {},
    }
}

/// Every parameter is the same as itself.
pub proof fn lemma_same_arg_def_refl(a: TypedArgDef)
    ensures
        same_arg_def(a, a),
    decreases a,
{
    lemma_same_type_refl(a.type_);
}

} // verus!
