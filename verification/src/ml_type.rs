use crate::text::{append_str, string_of};
use vstd::prelude::*;

verus! {

/// The primitive types of the mid-level IR.
#[derive(Debug, Clone, Copy, PartialEq, Eq, Structural, Hash)]
pub enum MLPrimitiveType {
    Int8,
    Int16,
    Int32,
    Int64,
    Int128,
    UInt8,
    UInt16,
    UInt32,
    UInt64,
    UInt128,
    Size,
    USize,
    Bool,
    Unit,
    Noting,
    Float,
    Double,
    String,
}

/// The type of a value of the mid-level IR.
#[derive(Debug, PartialEq, Eq, Hash)]
pub enum MLValueType {
    Primitive(MLPrimitiveType),
    Struct(String),
    Pointer(Box<MLType>),
    Reference(Box<MLType>),
}

/// The type of a function of the mid-level IR.
#[derive(Debug, PartialEq, Eq, Hash)]
pub struct MLFunctionType {
    pub arguments: Vec<MLValueType>,
    pub return_type: MLValueType,
}

/// A type of the mid-level IR: of a value or of a function.
#[derive(Debug, PartialEq, Eq, Hash)]
pub enum MLType {
    Value(MLValueType),
    Function(MLFunctionType),
}

/// The name by which a primitive type is printed.
pub open spec fn primitive_name(p: MLPrimitiveType) -> Seq<char> {
    match p {
        MLPrimitiveType::Int8 => "Int8"@,
        MLPrimitiveType::Int16 => "Int16"@,
        MLPrimitiveType::Int32 => "Int32"@,
        MLPrimitiveType::Int64 => "Int64"@,
        MLPrimitiveType::Int128 => "Int128"@,
        MLPrimitiveType::UInt8 => "UInt8"@,
        MLPrimitiveType::UInt16 => "UInt16"@,
        MLPrimitiveType::UInt32 => "UInt32"@,
        MLPrimitiveType::UInt64 => "UInt64"@,
        MLPrimitiveType::UInt128 => "UInt128"@,
        MLPrimitiveType::Size => "Size"@,
        MLPrimitiveType::USize => "USize"@,
        MLPrimitiveType::Bool => "Bool"@,
        MLPrimitiveType::Unit => "Unit"@,
        MLPrimitiveType::Noting => "Noting"@,
        MLPrimitiveType::Float => "Float"@,
        MLPrimitiveType::Double => "Double"@,
        MLPrimitiveType::String => "String"@,
    }
}

impl MLPrimitiveType {
    /// The name by which this type is printed.
    pub fn name(&self) -> (r: &'static str)
        ensures
            r@ == primitive_name(*self),
    {
        match self {
            MLPrimitiveType::Int8 => "Int8",
            MLPrimitiveType::Int16 => "Int16",
            MLPrimitiveType::Int32 => "Int32",
            MLPrimitiveType::Int64 => "Int64",
            MLPrimitiveType::Int128 => "Int128",
            MLPrimitiveType::UInt8 => "UInt8",
            MLPrimitiveType::UInt16 => "UInt16",
            MLPrimitiveType::UInt32 => "UInt32",
            MLPrimitiveType::UInt64 => "UInt64",
            MLPrimitiveType::UInt128 => "UInt128",
            MLPrimitiveType::Size => "Size",
            MLPrimitiveType::USize => "USize",
            MLPrimitiveType::Bool => "Bool",
            MLPrimitiveType::Unit => "Unit",
            MLPrimitiveType::Noting => "Noting",
            MLPrimitiveType::Float => "Float",
            MLPrimitiveType::Double => "Double",
            MLPrimitiveType::String => "String",
        }
    }
}

/// Two value types that are equal, the argument lists of function types
/// compared element by element.
pub open spec fn same_value_type(a: MLValueType, b: MLValueType) -> bool
    decreases a,
{
    match (a, b) {
        (MLValueType::Primitive(p), MLValueType::Primitive(q)) => p == q,
        (MLValueType::Struct(m), MLValueType::Struct(n)) => m@ == n@,
        (MLValueType::Pointer(s), MLValueType::Pointer(t)) => same_ml_type(*s, *t),
        (MLValueType::Reference(s), MLValueType::Reference(t)) => same_ml_type(*s, *t),
        _ => false,
    }
}

/// Two types that are equal, the argument lists of function types compared
/// element by element.
pub open spec fn same_ml_type(a: MLType, b: MLType) -> bool
    decreases a,
{
    match (a, b) {
        (MLType::Value(x), MLType::Value(y)) => same_value_type(x, y),
        (MLType::Function(f), MLType::Function(g)) => {
            &&& f.arguments@.len() == g.arguments@.len()
            &&& forall|i: int|
                0 <= i < f.arguments@.len() ==> same_value_type(#[trigger] f.arguments@[i], g.arguments@[i])
            &&& same_value_type(f.return_type, g.return_type)
        },
        _ => false,
    }
}

/// The value types of `v`, one by one.
pub fn duplicate_value_types(v: &Vec<MLValueType>) -> (r: Vec<MLValueType>)
    ensures
        r@.len() == v@.len(),
        forall|i: int| 0 <= i < v@.len() ==> same_value_type(#[trigger] r@[i], v@[i]),
    decreases v@,
{
    let mut r: Vec<MLValueType> = Vec::new();
    let mut i: usize = 0;
    while i < v.len()
        invariant
            i <= v@.len(),
            r@.len() == i,
            forall|j: int| 0 <= j < i ==> same_value_type(#[trigger] r@[j], v@[j]),
        decreases v@.len() - i,
    {
        assert(decreases_to!(v@ => v@[i as int]));
        r.push(v[i].duplicate());
        i = i + 1;
    }
    r
}

impl MLValueType {
    /// A value equal to this one.
    pub fn duplicate(&self) -> (r: Self)
        ensures
            same_value_type(r, *self),
        decreases *self,
    {
        match self {
            MLValueType::Primitive(p) => MLValueType::Primitive(*p),
            MLValueType::Struct(n) => MLValueType::Struct(n.clone()),
            MLValueType::Pointer(t) => MLValueType::Pointer(Box::new((**t).duplicate())),
            MLValueType::Reference(t) => MLValueType::Reference(Box::new((**t).duplicate())),
        }
    }

    /// The primitive type named `p`.
    pub fn primitive(p: MLPrimitiveType) -> (r: Self)
        ensures
            r == MLValueType::Primitive(p),
    {
        MLValueType::Primitive(p)
    }

    /// The struct type named `name`.
    pub fn struct_named(name: &str) -> (r: Self)
        ensures
            r matches MLValueType::Struct(n) && n@ == name@,
    {
        MLValueType::Struct(string_of(name))
    }
}

impl MLType {
    /// A value equal to this one.
    pub fn duplicate(&self) -> (r: Self)
        ensures
            same_ml_type(r, *self),
        decreases *self,
    {
        match self {
            MLType::Value(v) => MLType::Value(v.duplicate()),
            MLType::Function(f) => MLType::Function(
                MLFunctionType {
                    arguments: duplicate_value_types(&f.arguments),
                    return_type: f.return_type.duplicate(),
                },
            ),
        }
    }

    /// The value type this type is, where it is one.
    pub fn into_value_type(self) -> (r: Option<MLValueType>)
        ensures
            r == (match self {
                MLType::Value(v) => Some(v),
                MLType::Function(_) => None::<MLValueType>,
            }),
    {
        match self {
            MLType::Value(v) => Some(v),
            MLType::Function(_) => None,
        }
    }
}

/// How a value type is printed: a primitive or struct type by its name, a
/// pointer as `*` and a reference as `&` before the type pointed to.
pub open spec fn value_type_text(v: MLValueType) -> Seq<char>
    decreases v,
{
    match v {
        MLValueType::Primitive(p) => primitive_name(p),
        MLValueType::Struct(n) => n@,
        MLValueType::Pointer(t) => "*"@ + type_text(*t),
        MLValueType::Reference(t) => "&"@ + type_text(*t),
    }
}

/// How a type is printed: a function type as its argument types in brackets,
/// separated by commas, then `->` and the return type.
pub open spec fn type_text(t: MLType) -> Seq<char>
    decreases t,
{
    match t {
        MLType::Value(v) => value_type_text(v),
        MLType::Function(f) => "("@ + value_types_text(f.arguments@) + ")->"@ + value_type_text(f.return_type),
    }
}

/// The value types of `s` printed one after the other, separated by `, `.
pub open spec fn value_types_text(s: Seq<MLValueType>) -> Seq<char>
    decreases s,
{
    if s.len() == 0 {
        Seq::empty()
    } else if s.len() == 1 {
        value_type_text(s[0])
    } else {
        value_types_text(s.subrange(0, s.len() - 1)) + ", "@ + value_type_text(s[s.len() - 1])
    }
}

/// The printed form of the value types of `v`, separated by `, `.
pub fn value_types_to_text(v: &Vec<MLValueType>) -> (r: String)
    ensures
        r@ == value_types_text(v@),
    decreases v@,
{
    let mut r = String::new();
    let mut i: usize = 0;
    while i < v.len()
        invariant
            i <= v@.len(),
            r@ == value_types_text(v@.subrange(0, i as int)),
        decreases v@.len() - i,
    {
        assert(decreases_to!(v@ => v@[i as int]));
        if i > 0 {
            append_str(&mut r, ", ");
        }
        let t = v[i].to_text();
        append_str(&mut r, t.as_str());
        proof {
            let next = v@.subrange(0, i + 1);
            assert(next.subrange(0, i as int) =~= v@.subrange(0, i as int));
            assert(next[i as int] == v@[i as int]);
            if i == 0 {
                assert(v@.subrange(0, 0) =~= Seq::<MLValueType>::empty());
                assert(r@ =~= value_types_text(next));
            } else {
                assert(r@ =~= value_types_text(next));
            }
        }
        i = i + 1;
    }
    assert(v@.subrange(0, v@.len() as int) =~= v@);
    r
}

impl MLValueType {
    /// The printed form of this type.
    pub fn to_text(&self) -> (r: String)
        ensures
            r@ == value_type_text(*self),
        decreases *self,
    {
        match self {
            MLValueType::Primitive(p) => string_of(p.name()),
            MLValueType::Struct(n) => n.clone(),
            MLValueType::Pointer(t) => {
                let mut r = string_of("*");
                let inner = (**t).to_text();
                append_str(&mut r, inner.as_str());
                r
            },
            MLValueType::Reference(t) => {
                let mut r = string_of("&");
                let inner = (**t).to_text();
                append_str(&mut r, inner.as_str());
                r
            },
        }
    }
}

impl MLType {
    /// The printed form of this type.
    pub fn to_text(&self) -> (r: String)
        ensures
            r@ == type_text(*self),
        decreases *self,
    {
        match self {
            MLType::Value(v) => v.to_text(),
            MLType::Function(f) => {
                let mut r = string_of("(");
                let args = value_types_to_text(&f.arguments);
                append_str(&mut r, args.as_str());
                append_str(&mut r, ")->");
                let ret = f.return_type.to_text();
                append_str(&mut r, ret.as_str());
                r
            },
        }
    }
}

/// A reference prints with `&` before the type it refers to, a pointer with
/// `*`: the two never print alike.
pub proof fn law_reference_and_pointer_print_apart(t: MLType)
    ensures
        value_type_text(MLValueType::Reference(Box::new(t))) == seq!['&'] + type_text(t),
        value_type_text(MLValueType::Pointer(Box::new(t))) == seq!['*'] + type_text(t),
        value_type_text(MLValueType::Reference(Box::new(t)))[0] == '&',
        value_type_text(MLValueType::Pointer(Box::new(t))) != value_type_text(MLValueType::Reference(Box::new(t))),
{
    reveal_strlit("&");
    reveal_strlit("*");
    assert("&"@ =~= seq!['&']);
    assert("*"@ =~= seq!['*']);
    let a = value_type_text(MLValueType::Reference(Box::new(t)));
    let b = value_type_text(MLValueType::Pointer(Box::new(t)));
    assert(a[0] == '&');
    assert(b[0] == '*');
}

} // verus!
