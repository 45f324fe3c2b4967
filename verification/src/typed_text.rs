use crate::text::{append_str, string_of};
use crate::typed_type::{Package, TypedNamedValueType, TypedPackage, TypedType};
use vstd::prelude::*;

verus! {

/// The names of `s` joined by `::`.
pub open spec fn joined_names(s: Seq<String>) -> Seq<char>
    decreases s.len(),
{
    if s.len() == 0 {
        Seq::empty()
    } else if s.len() == 1 {
        s[0]@
    } else {
        joined_names(s.subrange(0, s.len() - 1)) + "::"@ + s[s.len() - 1]@
    }
}

/// The package of a named type, raw or resolved.
pub open spec fn package_of(n: TypedNamedValueType) -> Package {
    match n.package {
        TypedPackage::Raw(k) => k,
        TypedPackage::Resolved(k) => k,
    }
}

/// How a named type reads: its fully qualified name, the package left out
/// when it is the global one, then its type arguments in angle brackets,
/// separated by commas.
pub open spec fn named_type_text(n: TypedNamedValueType) -> Seq<char>
    decreases n,
{
    (if package_of(n).names@.len() == 0 {
        n.name@
    } else {
        joined_names(package_of(n).names@) + "::"@ + n.name@
    }) + match n.type_args {
        None => Seq::empty(),
        Some(a) => "<"@ + type_args_text(a@) + ">"@,
    }
}

/// The types of `s` as they read, separated by commas.
pub open spec fn type_args_text(s: Seq<TypedType>) -> Seq<char>
    decreases s,
{
    if s.len() == 0 {
        Seq::empty()
    } else if s.len() == 1 {
        typed_type_text(s[0])
    } else {
        type_args_text(s.subrange(0, s.len() - 1)) + ","@ + typed_type_text(s[s.len() - 1])
    }
}

/// How a type reads: a value type as its name, a type as `Type<..>`, a
/// reference with `&` before it.
pub open spec fn typed_type_text(t: TypedType) -> Seq<char>
    decreases t,
{
    match t {
        TypedType::Value(n) => named_type_text(n),
        TypedType::Type(n) => "Type<"@ + named_type_text(n) + ">"@,
        TypedType::Reference(n) => "&"@ + named_type_text(n),
        TypedType::Function(_) => Seq::empty(),
    }
}

/// The type, and every type argument in it, is not a function type: only
/// such types can be read as text.
pub open spec fn readable_type(t: TypedType) -> bool
    decreases t,
{
    match t {
        TypedType::Value(n) => readable_named(n),
        TypedType::Type(n) => readable_named(n),
        TypedType::Reference(n) => readable_named(n),
        TypedType::Function(_) => false,
    }
}

/// Every type argument of the named type is readable.
pub open spec fn readable_named(n: TypedNamedValueType) -> bool
    decreases n,
{
    match n.type_args {
        None => true,
        Some(a) => forall|i: int| 0 <= i < a@.len() ==> readable_type(#[trigger] a@[i]),
    }
}

impl Package {
    /// The names of the package joined by `::`.
    pub fn to_string(&self) -> (r: String)
        ensures
            r@ == joined_names(self.names@),
    {
        let mut r = String::new();
        let mut i: usize = 0;
        while i < self.names.len()
            invariant
                i <= self.names@.len(),
                r@ == joined_names(self.names@.subrange(0, i as int)),
            decreases self.names@.len() - i,
        {
            if i > 0 {
                append_str(&mut r, "::");
            }
            append_str(&mut r, self.names[i].as_str());
            proof {
                let next = self.names@.subrange(0, i + 1);
                assert(next.subrange(0, i as int) =~= self.names@.subrange(0, i as int));
                assert(next[i as int] == self.names@[i as int]);
                if i == 0 {
                    assert(r@ =~= joined_names(next));
                } else {
                    assert(r@ =~= joined_names(next));
                }
            }
            i = i + 1;
        }
        assert(self.names@.subrange(0, self.names@.len() as int) =~= self.names@);
        r
    }
}

/// The types of `v` as they read, separated by commas.
pub(crate) fn type_args_to_string(v: &Vec<TypedType>) -> (r: String)
    requires
        forall|i: int| 0 <= i < v@.len() ==> readable_type(#[trigger] v@[i]),
    ensures
        r@ == type_args_text(v@),
    decreases v@,
{
    let mut r = String::new();
    let mut i: usize = 0;
    while i < v.len()
        invariant
            i <= v@.len(),
            forall|k: int| 0 <= k < v@.len() ==> readable_type(#[trigger] v@[k]),
            r@ == type_args_text(v@.subrange(0, i as int)),
        decreases v@.len() - i,
    {
        assert(decreases_to!(v@ => v@[i as int]));
        if i > 0 {
            append_str(&mut r, ",");
        }
        let t = v[i].to_string();
        append_str(&mut r, t.as_str());
        proof {
            let next = v@.subrange(0, i + 1);
            assert(next.subrange(0, i as int) =~= v@.subrange(0, i as int));
            assert(next[i as int] == v@[i as int]);
            if i == 0 {
                assert(r@ =~= type_args_text(next));
            } else {
                assert(r@ =~= type_args_text(next));
            }
        }
        i = i + 1;
    }
    assert(v@.subrange(0, v@.len() as int) =~= v@);
    r
}

impl TypedNamedValueType {
    /// The type as it reads; see `named_type_text`.
    pub fn to_string(&self) -> (r: String)
        requires
            readable_named(*self),
        ensures
            r@ == named_type_text(*self),
        decreases *self,
    {
        let pkg = match &self.package {
            TypedPackage::Raw(p) => p,
            TypedPackage::Resolved(p) => p,
        };
        let mut r = if pkg.is_global() {
            self.name.clone()
        } else {
            let mut f = pkg.to_string();
            append_str(&mut f, "::");
            append_str(&mut f, self.name.as_str());
            f
        };
        match &self.type_args {
            None => {},
            Some(a) => {
                assert(decreases_to!(*self => a@));
                append_str(&mut r, "<");
                append_str(&mut r, type_args_to_string(a).as_str());
                append_str(&mut r, ">");
            },
        }
        r
    }
}

impl TypedType {
    /// The type as it reads; see `typed_type_text`. Function types cannot be
    /// read.
    pub fn to_string(&self) -> (r: String)
        requires
            readable_type(*self),
        ensures
            r@ == typed_type_text(*self),
        decreases *self,
    {
        match self {
            TypedType::Value(n) => n.to_string(),
            TypedType::Type(n) => {
                let mut r = string_of("Type<");
                append_str(&mut r, n.to_string().as_str());
                append_str(&mut r, ">");
                r
            },
            TypedType::Reference(n) => {
                let mut r = string_of("&");
                append_str(&mut r, n.to_string().as_str());
                r
            },
            TypedType::Function(_) => String::new(),
        }
    }
}

} // verus!
