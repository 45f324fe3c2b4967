use crate::text::{str_eq, string_of};
use vstd::prelude::*;

verus! {

pub const NOTING: &'static str = "Noting";
pub const UNIT: &'static str = "Unit";
pub const INT8: &'static str = "Int8";
pub const INT16: &'static str = "Int16";
pub const INT32: &'static str = "Int32";
pub const INT64: &'static str = "Int64";
pub const UINT8: &'static str = "UInt8";
pub const UINT16: &'static str = "UInt16";
pub const UINT32: &'static str = "UInt32";
pub const UINT64: &'static str = "UInt64";
pub const F32: &'static str = "Float";
pub const F64: &'static str = "Double";
pub const BOOL: &'static str = "Bool";
pub const STRING: &'static str = "String";
pub const UNSAFE_POINTER: &'static str = "UnsafePointer";

/// A package path, either as written in the source or after resolution.
#[derive(Debug, PartialEq, Eq, Hash)]
pub enum TypedPackage {
    Raw(Package),
    Resolved(Package),
}

/// A package path: the names of its namespaces from the root.
#[derive(Debug, PartialEq, Eq, Hash)]
pub struct Package {
    pub names: Vec<String>,
}

/// A type of the typed high-level IR.
#[derive(Debug, PartialEq, Eq, Hash)]
pub enum TypedType {
    Value(TypedNamedValueType),
    Function(Box<TypedFunctionType>),
    Type(TypedNamedValueType),
    Reference(TypedNamedValueType),
}

/// The structural form of a type, with a distinguished `Self` type.
#[derive(Debug, PartialEq, Eq, Hash)]
pub enum _TypedType {
    Self_,
    Value(TypedValueType),
    Function(Box<_TypedFunctionType>),
    Type(Box<_TypedType>),
}

/// A value type: named, array, tuple, pointer or reference.
#[derive(Debug, PartialEq, Eq, Hash)]
pub enum TypedValueType {
    Value(TypedNamedValueType),
    Array(Box<_TypedType>),
    Tuple(Vec<_TypedType>),
    Pointer(Box<_TypedType>),
    Reference(Box<_TypedType>),
}

#[derive(Debug, PartialEq, Eq, Hash)]
pub struct _TypedFunctionType {
    pub args_type: Vec<TypedArgType>,
    pub return_type: _TypedType,
}

/// An argument of a function type: its label and its type.
#[derive(Debug, PartialEq, Eq, Hash)]
pub struct TypedArgType {
    pub label: String,
    pub typ: _TypedType,
}

/// A named type: its package, its name and its type arguments.
#[derive(Debug, PartialEq, Eq, Hash)]
pub struct TypedNamedValueType {
    pub package: TypedPackage,
    pub name: String,
    pub type_args: Option<Vec<TypedType>>,
}

/// A function type: its arguments and its return type.
#[derive(Debug, PartialEq, Eq, Hash)]
pub struct TypedFunctionType {
    pub arguments: Vec<TypedArgDef>,
    pub return_type: TypedType,
}

/// An argument declaration: its label, its name and its type.
#[derive(Debug, PartialEq, Eq, Hash)]
pub struct TypedArgDef {
    pub label: String,
    pub name: String,
    pub type_: TypedType,
}

/// A type parameter with its constraints.
#[derive(Debug, PartialEq, Eq, Hash)]
pub struct TypedTypeParam {
    pub name: String,
    pub type_constraint: Vec<TypedType>,
}

impl _TypedType {
    pub fn is_self(&self) -> (r: bool)
        ensures
            r == (*self is Self_),
    {
        matches!(self, _TypedType::Self_)
    }
}

impl TypedArgType {
    pub fn is_self(&self) -> (r: bool)
        ensures
            r == (self.typ is Self_),
    {
        self.typ.is_self()
    }
}

impl TypedPackage {
    pub fn is_raw(&self) -> (r: bool)
        ensures
            r == (*self is Raw),
    {
        matches!(self, TypedPackage::Raw(_))
    }

    pub fn is_resolved(&self) -> (r: bool)
        ensures
            r == (*self is Resolved),
    {
        matches!(self, TypedPackage::Resolved(_))
    }

    /// The package of a path as written; a resolved one is refused.
    pub fn into_raw(self) -> (r: Package)
        requires
            self is Raw,
        ensures
            r == self->Raw_0,
    {
        match self {
            TypedPackage::Raw(p) => p,
            TypedPackage::Resolved(p) => p,
        }
    }

    /// The package of a resolved path; a raw one is refused.
    pub fn into_resolved(self) -> (r: Package)
        requires
            self is Resolved,
        ensures
            r == self->Resolved_0,
    {
        match self {
            TypedPackage::Raw(p) => p,
            TypedPackage::Resolved(p) => p,
        }
    }
}

impl Package {
    /// The empty package path.
    pub fn new() -> (r: Self)
        ensures
            r.names@.len() == 0,
    {
        Package { names: Vec::new() }
    }

    /// The root package, whose path is empty.
    pub fn global() -> (r: Self)
        ensures
            r.names@.len() == 0,
    {
        Package { names: Vec::new() }
    }

    pub fn is_global(&self) -> (r: bool)
        ensures
            r == (self.names@.len() == 0),
    {
        self.names.len() == 0
    }
}

/// `t` is the builtin named type `name`: resolved in the root package,
/// without type arguments.
pub open spec fn is_builtin_named(t: TypedNamedValueType, name: Seq<char>) -> bool {
    &&& t.package is Resolved
    &&& t.package->Resolved_0.names@.len() == 0
    &&& t.name@ == name
    &&& t.type_args is None
}

/// `t` is the value type of the builtin named `name`.
pub open spec fn is_builtin_value(t: TypedType, name: Seq<char>) -> bool {
    t is Value && is_builtin_named(t->Value_0, name)
}

/// `ts` lists the builtin value types of the names `names`, in that order.
pub open spec fn builtin_values(ts: Seq<TypedType>, names: Seq<Seq<char>>) -> bool {
    &&& ts.len() == names.len()
    &&& forall|i: int| 0 <= i < ts.len() ==> is_builtin_value(#[trigger] ts[i], names[i])
}

pub open spec fn signed_integer_names() -> Seq<Seq<char>> {
    seq![INT8@, INT16@, INT32@, INT64@]
}

pub open spec fn unsigned_integer_names() -> Seq<Seq<char>> {
    seq![UINT8@, UINT16@, UINT32@, UINT64@]
}

pub open spec fn integer_names() -> Seq<Seq<char>> {
    signed_integer_names() + unsigned_integer_names()
}

pub open spec fn floating_point_names() -> Seq<Seq<char>> {
    seq![F32@, F64@]
}

pub open spec fn builtin_names() -> Seq<Seq<char>> {
    integer_names() + floating_point_names() + seq![NOTING@, UNIT@, BOOL@, STRING@]
}

/// `t` is one of the builtin value types named in `names`.
pub open spec fn is_one_of(t: TypedType, names: Seq<Seq<char>>) -> bool {
    exists|i: int| 0 <= i < names.len() && is_builtin_value(t, #[trigger] names[i])
}

impl TypedNamedValueType {
    fn builtin(name: &str) -> (r: Self)
        ensures
            is_builtin_named(r, name@),
    {
        TypedNamedValueType {
            package: TypedPackage::Resolved(Package::global()),
            name: string_of(name),
            type_args: None,
        }
    }

    pub fn noting() -> (r: Self)
        ensures
            is_builtin_named(r, NOTING@),
    {
        Self::builtin(NOTING)
    }

    pub fn unit() -> (r: Self)
        ensures
            is_builtin_named(r, UNIT@),
    {
        Self::builtin(UNIT)
    }

    pub fn int8() -> (r: Self)
        ensures
            is_builtin_named(r, INT8@),
    {
        Self::builtin(INT8)
    }

    pub fn int16() -> (r: Self)
        ensures
            is_builtin_named(r, INT16@),
    {
        Self::builtin(INT16)
    }

    pub fn int32() -> (r: Self)
        ensures
            is_builtin_named(r, INT32@),
    {
        Self::builtin(INT32)
    }

    pub fn int64() -> (r: Self)
        ensures
            is_builtin_named(r, INT64@),
    {
        Self::builtin(INT64)
    }

    pub fn uint8() -> (r: Self)
        ensures
            is_builtin_named(r, UINT8@),
    {
        Self::builtin(UINT8)
    }

    pub fn uint16() -> (r: Self)
        ensures
            is_builtin_named(r, UINT16@),
    {
        Self::builtin(UINT16)
    }

    pub fn uint32() -> (r: Self)
        ensures
            is_builtin_named(r, UINT32@),
    {
        Self::builtin(UINT32)
    }

    pub fn uint64() -> (r: Self)
        ensures
            is_builtin_named(r, UINT64@),
    {
        Self::builtin(UINT64)
    }

    pub fn float() -> (r: Self)
        ensures
            is_builtin_named(r, F32@),
    {
        Self::builtin(F32)
    }

    pub fn double() -> (r: Self)
        ensures
            is_builtin_named(r, F64@),
    {
        Self::builtin(F64)
    }

    pub fn bool() -> (r: Self)
        ensures
            is_builtin_named(r, BOOL@),
    {
        Self::builtin(BOOL)
    }

    pub fn string() -> (r: Self)
        ensures
            is_builtin_named(r, STRING@),
    {
        Self::builtin(STRING)
    }

    /// Whether this is the builtin unsafe pointer type (type arguments aside).
    pub fn is_unsafe_pointer(&self) -> (r: bool)
        ensures
            r == (self.name@ == UNSAFE_POINTER@ && self.package is Resolved
                && self.package->Resolved_0.names@.len() == 0),
    {
        str_eq(self.name.as_str(), UNSAFE_POINTER) && match &self.package {
            TypedPackage::Resolved(pkg) => pkg.is_global(),
            TypedPackage::Raw(_) => false,
        }
    }

    /// Whether this is the builtin string type.
    pub fn is_string(&self) -> (r: bool)
        ensures
            r == is_builtin_named(*self, STRING@),
    {
        self.is_builtin(STRING)
    }

    /// Whether this is the builtin type named `name`.
    fn is_builtin(&self, name: &str) -> (r: bool)
        ensures
            r == is_builtin_named(*self, name@),
    {
        let resolved_global = match &self.package {
            TypedPackage::Resolved(pkg) => pkg.is_global(),
            TypedPackage::Raw(_) => false,
        };
        resolved_global && self.type_args.is_none() && str_eq(self.name.as_str(), name)
    }
}


/// Two packages with the same kind and the same path.
pub open spec fn same_package(a: TypedPackage, b: TypedPackage) -> bool {
    match (a, b) {
        (TypedPackage::Raw(x), TypedPackage::Raw(y)) => x.names@.map_values(|n: String| n@) == y.names@.map_values(|n: String| n@),
        (TypedPackage::Resolved(x), TypedPackage::Resolved(y)) => x.names@.map_values(|n: String| n@) == y.names@.map_values(|n: String| n@),
        _ => false,
    }
}

/// Two types that are equal, strings compared by their characters.
pub open spec fn same_type(a: TypedType, b: TypedType) -> bool
    decreases a,
{
    match (a, b) {
        (TypedType::Value(x), TypedType::Value(y)) => same_named(x, y),
        (TypedType::Type(x), TypedType::Type(y)) => same_named(x, y),
        (TypedType::Reference(x), TypedType::Reference(y)) => same_named(x, y),
        (TypedType::Function(f), TypedType::Function(g)) => {
            &&& f.arguments@.len() == g.arguments@.len()
            &&& forall|i: int| 0 <= i < f.arguments@.len() ==> same_arg_def(#[trigger] f.arguments@[i], g.arguments@[i])
            &&& same_type(f.return_type, g.return_type)
        },
        _ => false,
    }
}

/// Two named types that are equal, strings compared by their characters.
pub open spec fn same_named(a: TypedNamedValueType, b: TypedNamedValueType) -> bool
    decreases a,
{
    &&& same_package(a.package, b.package)
    &&& a.name@ == b.name@
    &&& match (a.type_args, b.type_args) {
        (None, None) => true,
        (Some(xs), Some(ys)) => xs@.len() == ys@.len() && forall|i: int| 0 <= i < xs@.len() ==> same_type(#[trigger] xs@[i], ys@[i]),
        _ => false,
    }
}

/// Two argument declarations that are equal, strings compared by their characters.
pub open spec fn same_arg_def(a: TypedArgDef, b: TypedArgDef) -> bool
    decreases a,
{
    &&& a.label@ == b.label@
    &&& a.name@ == b.name@
    &&& same_type(a.type_, b.type_)
}

fn duplicate_strings(v: &Vec<String>) -> (r: Vec<String>)
    ensures
        r@.map_values(|n: String| n@) == v@.map_values(|n: String| n@),
{
    let mut r: Vec<String> = Vec::new();
    let mut i: usize = 0;
    while i < v.len()
        invariant
            i <= v@.len(),
            r@.len() == i,
            forall|j: int| 0 <= j < i ==> #[trigger] r@[j]@ == v@[j]@,
        decreases v@.len() - i,
    {
        r.push(v[i].clone());
        i = i + 1;
    }
    assert(r@.map_values(|n: String| n@) =~= v@.map_values(|n: String| n@));
    r
}

/// Copies of the strings of `v`.
pub fn duplicate_strings_pub(v: &Vec<String>) -> (r: Vec<String>)
    ensures
        r@.map_values(|n: String| n@) == v@.map_values(|n: String| n@),
{
    duplicate_strings(v)
}

impl TypedPackage {
    /// A copy of this package.
    pub fn duplicate(&self) -> (r: Self)
        ensures
            same_package(r, *self),
    {
        match self {
            TypedPackage::Raw(p) => TypedPackage::Raw(Package { names: duplicate_strings(&p.names) }),
            TypedPackage::Resolved(p) => TypedPackage::Resolved(Package { names: duplicate_strings(&p.names) }),
        }
    }
}

impl TypedType {
    /// A copy of this type.
    pub fn duplicate(&self) -> (r: Self)
        ensures
            same_type(r, *self),
        decreases self,
    {
        match self {
            TypedType::Value(v) => TypedType::Value(v.duplicate()),
            TypedType::Type(v) => TypedType::Type(v.duplicate()),
            TypedType::Reference(v) => TypedType::Reference(v.duplicate()),
            TypedType::Function(f) => {
                let arguments = duplicate_arg_defs(&f.arguments);
                let return_type = f.return_type.duplicate();
                TypedType::Function(Box::new(TypedFunctionType { arguments, return_type }))
            },
        }
    }
}

impl TypedNamedValueType {
    /// A copy of this named type.
    pub fn duplicate(&self) -> (r: Self)
        ensures
            same_named(r, *self),
        decreases self,
    {
        let type_args = match &self.type_args {
            None => None,
            Some(args) => Some(duplicate_types(args)),
        };
        TypedNamedValueType { package: self.package.duplicate(), name: self.name.clone(), type_args }
    }
}

impl TypedArgDef {
    /// A copy of this argument declaration.
    pub fn duplicate(&self) -> (r: Self)
        ensures
            same_arg_def(r, *self),
        decreases self,
    {
        TypedArgDef { label: self.label.clone(), name: self.name.clone(), type_: self.type_.duplicate() }
    }
}

/// Copies of the types of `v`.
pub fn duplicate_types(v: &Vec<TypedType>) -> (r: Vec<TypedType>)
    ensures
        r@.len() == v@.len(),
        forall|i: int| 0 <= i < v@.len() ==> same_type(#[trigger] r@[i], v@[i]),
    decreases v,
{
    let mut r: Vec<TypedType> = Vec::new();
    let mut i: usize = 0;
    while i < v.len()
        invariant
            i <= v@.len(),
            r@.len() == i,
            forall|j: int| 0 <= j < i ==> same_type(#[trigger] r@[j], v@[j]),
        decreases v@.len() - i,
    {
        r.push(v[i].duplicate());
        i = i + 1;
    }
    r
}

/// Copies of the argument declarations of `v`.
pub fn duplicate_arg_defs(v: &Vec<TypedArgDef>) -> (r: Vec<TypedArgDef>)
    ensures
        r@.len() == v@.len(),
        forall|i: int| 0 <= i < v@.len() ==> same_arg_def(#[trigger] r@[i], v@[i]),
    decreases v,
{
    let mut r: Vec<TypedArgDef> = Vec::new();
    let mut i: usize = 0;
    while i < v.len()
        invariant
            i <= v@.len(),
            r@.len() == i,
            forall|j: int| 0 <= j < i ==> same_arg_def(#[trigger] r@[j], v@[j]),
        decreases v@.len() - i,
    {
        r.push(v[i].duplicate());
        i = i + 1;
    }
    r
}

impl TypedType {
    pub fn noting() -> (r: Self)
        ensures
            is_builtin_value(r, NOTING@),
    {
        TypedType::Value(TypedNamedValueType::noting())
    }

    pub fn unit() -> (r: Self)
        ensures
            is_builtin_value(r, UNIT@),
    {
        TypedType::Value(TypedNamedValueType::unit())
    }

    pub fn int8() -> (r: Self)
        ensures
            is_builtin_value(r, INT8@),
    {
        TypedType::Value(TypedNamedValueType::int8())
    }

    pub fn int16() -> (r: Self)
        ensures
            is_builtin_value(r, INT16@),
    {
        TypedType::Value(TypedNamedValueType::int16())
    }

    pub fn int32() -> (r: Self)
        ensures
            is_builtin_value(r, INT32@),
    {
        TypedType::Value(TypedNamedValueType::int32())
    }

    pub fn int64() -> (r: Self)
        ensures
            is_builtin_value(r, INT64@),
    {
        TypedType::Value(TypedNamedValueType::int64())
    }

    pub fn uint8() -> (r: Self)
        ensures
            is_builtin_value(r, UINT8@),
    {
        TypedType::Value(TypedNamedValueType::uint8())
    }

    pub fn uint16() -> (r: Self)
        ensures
            is_builtin_value(r, UINT16@),
    {
        TypedType::Value(TypedNamedValueType::uint16())
    }

    pub fn uint32() -> (r: Self)
        ensures
            is_builtin_value(r, UINT32@),
    {
        TypedType::Value(TypedNamedValueType::uint32())
    }

    pub fn uint64() -> (r: Self)
        ensures
            is_builtin_value(r, UINT64@),
    {
        TypedType::Value(TypedNamedValueType::uint64())
    }

    pub fn float() -> (r: Self)
        ensures
            is_builtin_value(r, F32@),
    {
        TypedType::Value(TypedNamedValueType::float())
    }

    pub fn double() -> (r: Self)
        ensures
            is_builtin_value(r, F64@),
    {
        TypedType::Value(TypedNamedValueType::double())
    }

    pub fn bool() -> (r: Self)
        ensures
            is_builtin_value(r, BOOL@),
    {
        TypedType::Value(TypedNamedValueType::bool())
    }

    pub fn string() -> (r: Self)
        ensures
            is_builtin_value(r, STRING@),
    {
        TypedType::Value(TypedNamedValueType::string())
    }

    /// The unsafe pointer type to `typ`.
    pub fn unsafe_pointer(typ: TypedType) -> (r: Self)
        ensures
            r is Value,
            r->Value_0.package is Resolved,
            r->Value_0.package->Resolved_0.names@.len() == 0,
            r->Value_0.name@ == UNSAFE_POINTER@,
            r->Value_0.type_args is Some,
            r->Value_0.type_args->0@ == seq![typ],
    {
        TypedType::Value(TypedNamedValueType {
            package: TypedPackage::Resolved(Package::global()),
            name: string_of(UNSAFE_POINTER),
            type_args: Some(vec![typ]),
        })
    }

    pub fn signed_integer_types() -> (r: Vec<TypedType>)
        ensures
            builtin_values(r@, signed_integer_names()),
    {
        vec![Self::int8(), Self::int16(), Self::int32(), Self::int64()]
    }

    pub fn unsigned_integer_types() -> (r: Vec<TypedType>)
        ensures
            builtin_values(r@, unsigned_integer_names()),
    {
        vec![Self::uint8(), Self::uint16(), Self::uint32(), Self::uint64()]
    }

    pub fn integer_types() -> (r: Vec<TypedType>)
        ensures
            builtin_values(r@, integer_names()),
    {
        let mut r = Self::signed_integer_types();
        let mut u = Self::unsigned_integer_types();
        r.append(&mut u);
        r
    }

    pub fn floating_point_types() -> (r: Vec<TypedType>)
        ensures
            builtin_values(r@, floating_point_names()),
    {
        vec![Self::float(), Self::double()]
    }

    /// Every builtin type: the integers, the floating point types, then
    /// `Noting`, `Unit`, `Bool` and `String`.
    pub fn builtin_types() -> (r: Vec<TypedType>)
        ensures
            builtin_values(r@, builtin_names()),
    {
        let mut r = Self::integer_types();
        let mut f = Self::floating_point_types();
        r.append(&mut f);
        let mut rest = vec![Self::noting(), Self::unit(), Self::bool(), Self::string()];
        r.append(&mut rest);
        r
    }

    pub fn is_function_type(&self) -> (r: bool)
        ensures
            r == (*self is Function),
    {
        matches!(self, TypedType::Function(_))
    }

    /// Whether this is one of the builtin types listed in `types`.
    fn is_among(&self, types: &Vec<TypedType>, Ghost(names): Ghost<Seq<Seq<char>>>) -> (r: bool)
        requires
            builtin_values(types@, names),
        ensures
            r == is_one_of(*self, names),
    {
        let v = match self {
            TypedType::Value(v) => v,
            _ => {
                return false;
            },
        };
        let mut i: usize = 0;
        while i < types.len()
            invariant
                i <= types@.len(),
                builtin_values(types@, names),
                *self is Value && *v == self->Value_0,
                forall|j: int| 0 <= j < i ==> !is_builtin_value(*self, #[trigger] names[j]),
            decreases types@.len() - i,
        {
            let name = match &types[i] {
                TypedType::Value(t) => &t.name,
                _ => {
                    assert(false);
                    return false;
                },
            };
            if v.is_builtin(name.as_str()) {
                return true;
            }
            i = i + 1;
        }
        false
    }

    pub fn is_primitive(&self) -> (r: bool)
        ensures
            r == is_one_of(*self, builtin_names()),
    {
        self.is_among(&Self::builtin_types(), Ghost(builtin_names()))
    }

    pub fn is_floating_point(&self) -> (r: bool)
        ensures
            r == is_one_of(*self, floating_point_names()),
    {
        self.is_among(&Self::floating_point_types(), Ghost(floating_point_names()))
    }

    pub fn is_signed_integer(&self) -> (r: bool)
        ensures
            r == is_one_of(*self, signed_integer_names()),
    {
        self.is_among(&Self::signed_integer_types(), Ghost(signed_integer_names()))
    }

    pub fn is_unsigned_integer(&self) -> (r: bool)
        ensures
            r == is_one_of(*self, unsigned_integer_names()),
    {
        self.is_among(&Self::unsigned_integer_types(), Ghost(unsigned_integer_names()))
    }

    pub fn is_integer(&self) -> (r: bool)
        ensures
            r == is_one_of(*self, integer_names()),
    {
        self.is_among(&Self::integer_types(), Ghost(integer_names()))
    }

    pub fn is_pointer_type(&self) -> (r: bool)
        ensures
            r == (*self is Value && self->Value_0.name@ == UNSAFE_POINTER@
                && self->Value_0.package is Resolved
                && self->Value_0.package->Resolved_0.names@.len() == 0),
    {
        match self {
            TypedType::Value(v) => v.is_unsafe_pointer(),
            _ => false,
        }
    }

    pub fn is_boolean(&self) -> (r: bool)
        ensures
            r == is_builtin_value(*self, BOOL@),
    {
        match self {
            TypedType::Value(v) => v.is_builtin(BOOL),
            _ => false,
        }
    }

    pub fn is_string(&self) -> (r: bool)
        ensures
            r == is_builtin_value(*self, STRING@),
    {
        match self {
            TypedType::Value(v) => v.is_builtin(STRING),
            _ => false,
        }
    }

    /// Whether this is a reference to the builtin string type.
    pub fn is_string_ref(&self) -> (r: bool)
        ensures
            r == (*self is Reference && is_builtin_named(self->Reference_0, STRING@)),
    {
        match self {
            TypedType::Reference(v) => v.is_builtin(STRING),
            _ => false,
        }
    }
}

} // verus!
