use crate::text::{append_str, string_of};
use crate::typed_type::{TypedArgDef, TypedNamedValueType, TypedPackage, TypedType};
use vstd::prelude::*;

verus! {

/// What `{:?}` writes for the string `s`.
pub uninterp spec fn str_debug_text(s: Seq<char>) -> Seq<char>;

/// `<str as Debug>::fmt`, through `format!("{:?}", s)`: the string in double
/// quotes with quotes, backslashes and unprintable characters escaped. The
/// result is named `str_debug_text`; the escaping rules are not restated.
#[verifier::external_body]
fn debug_str(s: &str) -> (r: String)
    ensures
        r@ == str_debug_text(s@),
{
    format!("{:?}", s)
}

/// The strings of `s` as `{:?}` writes them, separated by `, `.
pub open spec fn strings_joined(s: Seq<String>) -> Seq<char>
    decreases s.len(),
{
    if s.len() == 0 {
        Seq::empty()
    } else if s.len() == 1 {
        str_debug_text(s[0]@)
    } else {
        strings_joined(s.subrange(0, s.len() - 1)) + ", "@ + str_debug_text(s[s.len() - 1]@)
    }
}

/// How `{:?}` writes a package.
pub open spec fn package_debug_text(p: TypedPackage) -> Seq<char> {
    match p {
        TypedPackage::Raw(k) => "Raw(Package { names: ["@ + strings_joined(k.names@) + "] })"@,
        TypedPackage::Resolved(k) => "Resolved(Package { names: ["@ + strings_joined(k.names@) + "] })"@,
    }
}

/// How `{:?}` writes a type.
pub open spec fn type_debug_text(t: TypedType) -> Seq<char>
    decreases t,
{
    match t {
        TypedType::Value(n) => "Value("@ + named_debug_text(n) + ")"@,
        TypedType::Type(n) => "Type("@ + named_debug_text(n) + ")"@,
        TypedType::Reference(n) => "Reference("@ + named_debug_text(n) + ")"@,
        TypedType::Function(f) => "Function(TypedFunctionType { arguments: ["@ + arg_defs_joined(f.arguments@)
            + "], return_type: "@ + type_debug_text(f.return_type) + " })"@,
    }
}

/// How `{:?}` writes a named type.
pub open spec fn named_debug_text(n: TypedNamedValueType) -> Seq<char>
    decreases n,
{
    "TypedNamedValueType { package: "@ + package_debug_text(n.package) + ", name: "@ + str_debug_text(n.name@)
        + ", type_args: "@ + match n.type_args {
        None => "None"@,
        Some(v) => "Some(["@ + types_joined(v@) + "])"@,
    } + " }"@
}

/// How `{:?}` writes a parameter.
pub open spec fn arg_def_debug_text(a: TypedArgDef) -> Seq<char>
    decreases a,
{
    "TypedArgDef { label: "@ + str_debug_text(a.label@) + ", name: "@ + str_debug_text(a.name@) + ", type_: "@
        + type_debug_text(a.type_) + " }"@
}

/// The types of `s` as `{:?}` writes them, separated by `, `.
pub open spec fn types_joined(s: Seq<TypedType>) -> Seq<char>
    decreases s,
{
    if s.len() == 0 {
        Seq::empty()
    } else if s.len() == 1 {
        type_debug_text(s[0])
    } else {
        types_joined(s.subrange(0, s.len() - 1)) + ", "@ + type_debug_text(s[s.len() - 1])
    }
}

/// The parameters of `s` as `{:?}` writes them, separated by `, `.
pub open spec fn arg_defs_joined(s: Seq<TypedArgDef>) -> Seq<char>
    decreases s,
{
    if s.len() == 0 {
        Seq::empty()
    } else if s.len() == 1 {
        arg_def_debug_text(s[0])
    } else {
        arg_defs_joined(s.subrange(0, s.len() - 1)) + ", "@ + arg_def_debug_text(s[s.len() - 1])
    }
}

/// How `{:?}` writes an optional type.
pub open spec fn opt_type_debug_text(o: Option<TypedType>) -> Seq<char> {
    match o {
        None => "None"@,
        Some(t) => "Some("@ + type_debug_text(t) + ")"@,
    }
}

/// How `{:?}` writes the string `s`.
pub fn str_debug(s: &str) -> (r: String)
    ensures
        r@ == str_debug_text(s@),
{
    debug_str(s)
}

/// The strings of `v` as `{:?}` writes them, separated by `, `.
fn strings_to_debug(v: &Vec<String>) -> (r: String)
    ensures
        r@ == strings_joined(v@),
{
    let mut r = String::new();
    let mut i: usize = 0;
    while i < v.len()
        invariant
            i <= v@.len(),
            r@ == strings_joined(v@.subrange(0, i as int)),
        decreases v@.len() - i,
    {
        if i > 0 {
            append_str(&mut r, ", ");
        }
        let t = debug_str(v[i].as_str());
        append_str(&mut r, t.as_str());
        proof {
            let next = v@.subrange(0, i + 1);
            assert(next.subrange(0, i as int) =~= v@.subrange(0, i as int));
            assert(next[i as int] == v@[i as int]);
            if i == 0 {
                assert(r@ =~= strings_joined(next));
            } else {
                assert(r@ =~= strings_joined(next));
            }
        }
        i = i + 1;
    }
    assert(v@.subrange(0, v@.len() as int) =~= v@);
    r
}

impl TypedPackage {
    /// The text `{:?}` writes for this package.
    pub fn debug_text(&self) -> (r: String)
        ensures
            r@ == package_debug_text(*self),
    {
        let (mut r, k) = match self {
            TypedPackage::Raw(k) => (string_of("Raw(Package { names: ["), k),
            TypedPackage::Resolved(k) => (string_of("Resolved(Package { names: ["), k),
        };
        let names = strings_to_debug(&k.names);
        append_str(&mut r, names.as_str());
        append_str(&mut r, "] })");
        r
    }
}

/// The types of `v` as `{:?}` writes them, separated by `, `.
fn types_to_debug(v: &Vec<TypedType>) -> (r: String)
    ensures
        r@ == types_joined(v@),
    decreases v@,
{
    let mut r = String::new();
    let mut i: usize = 0;
    while i < v.len()
        invariant
            i <= v@.len(),
            r@ == types_joined(v@.subrange(0, i as int)),
        decreases v@.len() - i,
    {
        assert(decreases_to!(v@ => v@[i as int]));
        if i > 0 {
            append_str(&mut r, ", ");
        }
        let t = v[i].debug_text();
        append_str(&mut r, t.as_str());
        proof {
            let next = v@.subrange(0, i + 1);
            assert(next.subrange(0, i as int) =~= v@.subrange(0, i as int));
            assert(next[i as int] == v@[i as int]);
            if i == 0 {
                assert(r@ =~= types_joined(next));
            } else {
                assert(r@ =~= types_joined(next));
            }
        }
        i = i + 1;
    }
    assert(v@.subrange(0, v@.len() as int) =~= v@);
    r
}

/// The parameters of `v` as `{:?}` writes them, separated by `, `.
fn arg_defs_to_debug(v: &Vec<TypedArgDef>) -> (r: String)
    ensures
        r@ == arg_defs_joined(v@),
    decreases v@,
{
    let mut r = String::new();
    let mut i: usize = 0;
    while i < v.len()
        invariant
            i <= v@.len(),
            r@ == arg_defs_joined(v@.subrange(0, i as int)),
        decreases v@.len() - i,
    {
        assert(decreases_to!(v@ => v@[i as int]));
        if i > 0 {
            append_str(&mut r, ", ");
        }
        let t = v[i].debug_text();
        append_str(&mut r, t.as_str());
        proof {
            let next = v@.subrange(0, i + 1);
            assert(next.subrange(0, i as int) =~= v@.subrange(0, i as int));
            assert(next[i as int] == v@[i as int]);
            if i == 0 {
                assert(r@ =~= arg_defs_joined(next));
            } else {
                assert(r@ =~= arg_defs_joined(next));
            }
        }
        i = i + 1;
    }
    assert(v@.subrange(0, v@.len() as int) =~= v@);
    r
}

impl TypedType {
    /// The text `{:?}` writes for this type.
    pub fn debug_text(&self) -> (r: String)
        ensures
            r@ == type_debug_text(*self),
        decreases *self,
    {
        match self {
            TypedType::Value(n) => {
                let mut r = string_of("Value(");
                append_str(&mut r, n.debug_text().as_str());
                append_str(&mut r, ")");
                r
            },
            TypedType::Type(n) => {
                let mut r = string_of("Type(");
                append_str(&mut r, n.debug_text().as_str());
                append_str(&mut r, ")");
                r
            },
            TypedType::Reference(n) => {
                let mut r = string_of("Reference(");
                append_str(&mut r, n.debug_text().as_str());
                append_str(&mut r, ")");
                r
            },
            TypedType::Function(f) => {
                assert(decreases_to!(*self => f.arguments@));
                let mut r = string_of("Function(TypedFunctionType { arguments: [");
                append_str(&mut r, arg_defs_to_debug(&f.arguments).as_str());
                append_str(&mut r, "], return_type: ");
                append_str(&mut r, f.return_type.debug_text().as_str());
                append_str(&mut r, " })");
                r
            },
        }
    }
}

impl TypedNamedValueType {
    /// The text `{:?}` writes for this type.
    pub fn debug_text(&self) -> (r: String)
        ensures
            r@ == named_debug_text(*self),
        decreases *self,
    {
        let mut r = string_of("TypedNamedValueType { package: ");
        append_str(&mut r, self.package.debug_text().as_str());
        append_str(&mut r, ", name: ");
        append_str(&mut r, debug_str(self.name.as_str()).as_str());
        append_str(&mut r, ", type_args: ");
        match &self.type_args {
            None => append_str(&mut r, "None"),
            Some(v) => {
                assert(decreases_to!(*self => v@));
                append_str(&mut r, "Some([");
                append_str(&mut r, types_to_debug(v).as_str());
                append_str(&mut r, "])");
            },
        }
        append_str(&mut r, " }");
        r
    }
}

impl TypedArgDef {
    /// The text `{:?}` writes for this parameter.
    pub fn debug_text(&self) -> (r: String)
        ensures
            r@ == arg_def_debug_text(*self),
        decreases *self,
    {
        let mut r = string_of("TypedArgDef { label: ");
        append_str(&mut r, debug_str(self.label.as_str()).as_str());
        append_str(&mut r, ", name: ");
        append_str(&mut r, debug_str(self.name.as_str()).as_str());
        append_str(&mut r, ", type_: ");
        append_str(&mut r, self.type_.debug_text().as_str());
        append_str(&mut r, " }");
        r
    }
}

/// The text `{:?}` writes for an optional type.
pub fn opt_type_debug(o: &Option<TypedType>) -> (r: String)
    ensures
        r@ == opt_type_debug_text(*o),
{
    match o {
        None => string_of("None"),
        Some(t) => {
            let mut r = string_of("Some(");
            append_str(&mut r, t.debug_text().as_str());
            append_str(&mut r, ")");
            r
        },
    }
}

} // verus!
