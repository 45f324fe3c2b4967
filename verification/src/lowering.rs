use crate::arena::{names_of, path_of, resolve_spec, DeclarationItem, ResolverArena};
use crate::cli::{BuildType, Config, ConfigExt};
use crate::ml_decl::MLArgDef;
use crate::ml_expr::{MLCall, MLCallArg, MLExpr, MLLiteral, MLName};
use crate::ml_type::{primitive_name, MLFunctionType, MLPrimitiveType, MLType, MLValueType};
use crate::text::{append_str, str_eq, string_of};
use crate::typed_expr::{TypedCall, TypedCallArg, TypedExpr, TypedExprKind, TypedLiteralKind, TypedName};
use crate::typed_text::{joined_names, readable_type, type_args_text, type_args_to_string, typed_type_text};
use crate::typed_type::{Package, TypedArgDef, TypedNamedValueType, TypedPackage, TypedType};
use vstd::prelude::*;

verus! {

/// The annotation that keeps a declaration's name as written when it is
/// lowered.
pub const NO_MANGLE: &'static str = "no_mangle";

/// The primitive type of the mid-level IR that the builtin type named
/// `name` becomes, if it names one.
pub open spec fn primitive_of(name: Seq<char>) -> Option<MLPrimitiveType> {
    if name == "Noting"@ {
        Some(MLPrimitiveType::Noting)
    } else if name == "Unit"@ {
        Some(MLPrimitiveType::Unit)
    } else if name == "Int8"@ {
        Some(MLPrimitiveType::Int8)
    } else if name == "UInt8"@ {
        Some(MLPrimitiveType::UInt8)
    } else if name == "Int16"@ {
        Some(MLPrimitiveType::Int16)
    } else if name == "UInt16"@ {
        Some(MLPrimitiveType::UInt16)
    } else if name == "Int32"@ {
        Some(MLPrimitiveType::Int32)
    } else if name == "UInt32"@ {
        Some(MLPrimitiveType::UInt32)
    } else if name == "Int64"@ {
        Some(MLPrimitiveType::Int64)
    } else if name == "UInt64"@ {
        Some(MLPrimitiveType::UInt64)
    } else if name == "Int128"@ {
        Some(MLPrimitiveType::Int128)
    } else if name == "UInt128"@ {
        Some(MLPrimitiveType::UInt128)
    } else if name == "Size"@ {
        Some(MLPrimitiveType::Size)
    } else if name == "USize"@ {
        Some(MLPrimitiveType::USize)
    } else if name == "Bool"@ {
        Some(MLPrimitiveType::Bool)
    } else if name == "Float"@ {
        Some(MLPrimitiveType::Float)
    } else if name == "Double"@ {
        Some(MLPrimitiveType::Double)
    } else if name == "String"@ {
        Some(MLPrimitiveType::String)
    } else {
        None
    }
}

/// The primitive type that the builtin type named `name` becomes.
fn primitive_named(name: &str) -> (r: Option<MLPrimitiveType>)
    ensures
        r == primitive_of(name@),
{
    if str_eq(name, "Noting") {
        Some(MLPrimitiveType::Noting)
    } else if str_eq(name, "Unit") {
        Some(MLPrimitiveType::Unit)
    } else if str_eq(name, "Int8") {
        Some(MLPrimitiveType::Int8)
    } else if str_eq(name, "UInt8") {
        Some(MLPrimitiveType::UInt8)
    } else if str_eq(name, "Int16") {
        Some(MLPrimitiveType::Int16)
    } else if str_eq(name, "UInt16") {
        Some(MLPrimitiveType::UInt16)
    } else if str_eq(name, "Int32") {
        Some(MLPrimitiveType::Int32)
    } else if str_eq(name, "UInt32") {
        Some(MLPrimitiveType::UInt32)
    } else if str_eq(name, "Int64") {
        Some(MLPrimitiveType::Int64)
    } else if str_eq(name, "UInt64") {
        Some(MLPrimitiveType::UInt64)
    } else if str_eq(name, "Int128") {
        Some(MLPrimitiveType::Int128)
    } else if str_eq(name, "UInt128") {
        Some(MLPrimitiveType::UInt128)
    } else if str_eq(name, "Size") {
        Some(MLPrimitiveType::Size)
    } else if str_eq(name, "USize") {
        Some(MLPrimitiveType::USize)
    } else if str_eq(name, "Bool") {
        Some(MLPrimitiveType::Bool)
    } else if str_eq(name, "Float") {
        Some(MLPrimitiveType::Float)
    } else if str_eq(name, "Double") {
        Some(MLPrimitiveType::Double)
    } else if str_eq(name, "String") {
        Some(MLPrimitiveType::String)
    } else {
        None
    }
}

/// The names of the resolved package of `t`.
pub open spec fn resolved_names(t: TypedNamedValueType) -> Seq<String> {
    t.package->Resolved_0.names@
}

/// The struct name a named type becomes: its package's names and its own,
/// joined by `::`.
pub open spec fn struct_name_of(t: TypedNamedValueType) -> Seq<char> {
    if resolved_names(t).len() == 0 {
        t.name@
    } else {
        joined_names(resolved_names(t)) + "::"@ + t.name@
    }
}

/// `r` is what the named type `t` becomes: a builtin type of the root
/// package becomes its primitive type, any other type the struct named by
/// its full path.
pub open spec fn lowered_named(t: TypedNamedValueType, r: MLValueType) -> bool {
    if resolved_names(t).len() == 0 && primitive_of(t.name@) is Some {
        r == MLValueType::Primitive(primitive_of(t.name@)->0)
    } else {
        r is Struct && r->Struct_0@ == struct_name_of(t)
    }
}

/// `t` is a value or reference type whose package is resolved.
pub open spec fn lowerable_value(t: TypedType) -> bool {
    match t {
        TypedType::Value(n) => n.package is Resolved,
        TypedType::Reference(n) => n.package is Resolved,
        _ => false,
    }
}

/// `t` can be lowered: a value or reference type with a resolved package,
/// or a function type taking and giving such types.
pub open spec fn lowerable(t: TypedType) -> bool {
    match t {
        TypedType::Function(f) => {
            &&& forall|i: int| 0 <= i < f.arguments@.len() ==> lowerable_value(#[trigger] f.arguments@[i].type_)
            &&& lowerable_value(f.return_type)
        },
        _ => lowerable_value(t),
    }
}

/// `r` is the value type that the value or reference type `t` becomes.
pub open spec fn lowered_value(t: TypedType, r: MLValueType) -> bool {
    match t {
        TypedType::Value(n) => lowered_named(n, r),
        TypedType::Reference(n) => r is Reference && *r->Reference_0 is Value && lowered_named(
            n,
            (*r->Reference_0)->Value_0,
        ),
        _ => false,
    }
}

/// `r` is the type of the mid-level IR that `t` becomes.
pub open spec fn lowered_type(t: TypedType, r: MLType) -> bool {
    match t {
        TypedType::Function(f) => {
            &&& r is Function
            &&& r->Function_0.arguments@.len() == f.arguments@.len()
            &&& forall|i: int| 0 <= i < f.arguments@.len() ==> lowered_value(
                #[trigger] f.arguments@[i].type_,
                r->Function_0.arguments@[i],
            )
            &&& lowered_value(f.return_type, r->Function_0.return_type)
        },
        _ => r is Value && lowered_value(t, r->Value_0),
    }
}

/// A name in the package with names `names`, mangled: kept as is in the
/// root package, and for `main` in a binary; otherwise prefixed with the
/// package's path and `::`.
pub open spec fn mangled_spec(names: Seq<String>, name: Seq<char>, build_type: BuildType) -> Seq<char> {
    if names.len() == 0 || (name == "main"@ && build_type == BuildType::Binary) {
        name
    } else {
        joined_names(names) + "::"@ + name
    }
}

/// How an argument enters a mangled function name: its label, `#`, its type.
pub open spec fn arg_text(a: TypedArgDef) -> Seq<char> {
    a.label@ + "#"@ + typed_type_text(a.type_)
}

/// The arguments of a function as they enter its mangled name, separated by
/// `##`.
pub open spec fn arg_mangling(args: Seq<TypedArgDef>) -> Seq<char>
    decreases args.len(),
{
    if args.len() == 0 {
        Seq::empty()
    } else if args.len() == 1 {
        arg_text(args[0])
    } else {
        arg_mangling(args.subrange(0, args.len() - 1)) + "##"@ + arg_text(args[args.len() - 1])
    }
}

/// The declaration `name` of the package `names` is annotated to keep its
/// name as written.
pub open spec fn no_mangle_at(decls: Map<usize, DeclarationItem>, names: Seq<String>, name: Seq<char>) -> bool {
    match resolve_spec(decls, 0, names_of(names).push(name), false) {
        Some(i) => exists|k: int|
            0 <= k < decls[i].annotations.annotations@.len() && #[trigger] decls[i].annotations.annotations@[k]@
                == NO_MANGLE@,
        None => false,
    }
}

/// The name that the declaration `name` of the package `names` is given.
pub open spec fn mangled_name(
    decls: Map<usize, DeclarationItem>,
    build_type: BuildType,
    names: Seq<String>,
    name: Seq<char>,
) -> Seq<char> {
    if no_mangle_at(decls, names, name) {
        name
    } else {
        mangled_spec(names, name, build_type)
    }
}

/// The type arguments of a name in angle brackets, separated by commas;
/// nothing when there are none.
pub open spec fn type_args_suffix(a: Option<Vec<TypedType>>) -> Seq<char> {
    match a {
        Some(v) => "<"@ + type_args_text(v@) + ">"@,
        None => Seq::empty(),
    }
}

/// What names a function with arguments adds to its mangled name: `##` and
/// its arguments, unless the name is kept as written.
pub open spec fn fun_suffix(no_mangle: bool, ty: TypedType) -> Seq<char> {
    if !no_mangle && ty is Function && ty->Function_0.arguments@.len() > 0 {
        "##"@ + arg_mangling(ty->Function_0.arguments@)
    } else {
        Seq::empty()
    }
}

/// `v` is the struct type that the name `n` of the type `t` stands for:
/// the type's mangled name with the name's type arguments.
pub open spec fn struct_type_named(
    decls: Map<usize, DeclarationItem>,
    build_type: BuildType,
    n: TypedName,
    t: TypedNamedValueType,
    v: MLValueType,
) -> bool {
    v is Struct && v->Struct_0@ == mangled_name(decls, build_type, resolved_names(t), t.name@) + type_args_suffix(
        n.type_arguments,
    )
}

/// `r` is what the name `n` of type `ty` becomes: a name of a type becomes
/// a value of the struct it names; any other name becomes a name of the
/// mid-level IR, with its type lowered.
pub open spec fn lowered_name(
    decls: Map<usize, DeclarationItem>,
    build_type: BuildType,
    n: TypedName,
    ty: TypedType,
    r: MLExpr,
) -> bool {
    match ty {
        TypedType::Type(t) => match r {
            MLExpr::Literal(MLLiteral::Struct { fields, type_ }) => fields@.len() == 0 && struct_type_named(
                decls,
                build_type,
                n,
                t,
                type_,
            ),
            _ => false,
        },
        _ => match r {
            MLExpr::Name(m) => {
                &&& m.name@ == mangled_name(decls, build_type, n.package->Resolved_0.names@, n.name@)
                    + type_args_suffix(n.type_arguments) + fun_suffix(
                    no_mangle_at(decls, n.package->Resolved_0.names@, n.name@),
                    ty,
                )
                &&& lowered_type(ty, m.type_)
            },
            _ => false,
        },
    }
}

/// The type arguments `a`, when there are any, can be read as text.
pub open spec fn readable_args(a: Option<Vec<TypedType>>) -> bool {
    match a {
        Some(v) => forall|i: int| 0 <= i < v@.len() ==> readable_type(#[trigger] v@[i]),
        None => true,
    }
}

/// The name `n` of type `ty` can be lowered: its type arguments can be
/// read, and a type's package is resolved; any other name's package is
/// resolved and its type can be lowered, with readable argument types.
pub open spec fn lowerable_name(n: TypedName, ty: TypedType) -> bool {
    &&& readable_args(n.type_arguments)
    &&& match ty {
        TypedType::Type(t) => t.package is Resolved,
        _ => {
            &&& n.package is Resolved
            &&& lowerable(ty)
            &&& ty is Function ==> forall|i: int|
                0 <= i < ty->Function_0.arguments@.len() ==> readable_type(
                    #[trigger] ty->Function_0.arguments@[i].type_,
                )
        },
    }
}

/// The package of a resolved path.
fn resolved_package(p: &TypedPackage) -> (r: &Package)
    requires
        *p is Resolved,
    ensures
        *r == p->Resolved_0,
{
    match p {
        TypedPackage::Resolved(k) => k,
        TypedPackage::Raw(k) => k,
    }
}

/// The names of `v` as string slices.
pub(crate) fn str_refs(v: &Vec<String>) -> (r: Vec<&str>)
    ensures
        path_of(r@) == names_of(v@),
{
    let mut r: Vec<&str> = Vec::new();
    let mut i: usize = 0;
    while i < v.len()
        invariant
            i <= v@.len(),
            r@.len() == i,
            forall|j: int| 0 <= j < i ==> (#[trigger] r@[j])@ == v@[j]@,
        decreases v@.len() - i,
    {
        r.push(v[i].as_str());
        i = i + 1;
    }
    assert(path_of(r@) =~= names_of(v@));
    r
}

/// The arguments of a function as they enter its mangled name.
pub fn fun_arg_label_type_name_mangling(args: &Vec<TypedArgDef>) -> (r: String)
    requires
        forall|i: int| 0 <= i < args@.len() ==> readable_type(#[trigger] args@[i].type_),
    ensures
        r@ == arg_mangling(args@),
{
    let mut r = String::new();
    let mut i: usize = 0;
    while i < args.len()
        invariant
            i <= args@.len(),
            forall|i: int| 0 <= i < args@.len() ==> readable_type(#[trigger] args@[i].type_),
            r@ == arg_mangling(args@.subrange(0, i as int)),
        decreases args@.len() - i,
    {
        if i > 0 {
            append_str(&mut r, "##");
        }
        append_str(&mut r, args[i].label.as_str());
        append_str(&mut r, "#");
        let t = args[i].type_.to_string();
        append_str(&mut r, t.as_str());
        proof {
            let next = args@.subrange(0, i + 1);
            assert(next.subrange(0, i as int) =~= args@.subrange(0, i as int));
            assert(next[i as int] == args@[i as int]);
            assert(r@ =~= arg_mangling(next));
        }
        i = i + 1;
    }
    assert(args@.subrange(0, args@.len() as int) =~= args@);
    r
}

/// The type arguments `a` in angle brackets, or nothing.
fn type_args_suffix_text(a: &Option<Vec<TypedType>>) -> (r: String)
    requires
        readable_args(*a),
    ensures
        r@ == type_args_suffix(*a),
{
    match a {
        Some(v) => {
            let mut r = string_of("<");
            let t = type_args_to_string(v);
            append_str(&mut r, t.as_str());
            append_str(&mut r, ">");
            r
        },
        None => String::new(),
    }
}

/// The named type `t` in the mid-level IR.
fn named_value_type(t: &TypedNamedValueType) -> (r: MLValueType)
    requires
        t.package is Resolved,
    ensures
        lowered_named(*t, r),
{
    let pkg = resolved_package(&t.package);
    if pkg.names.len() == 0 {
        match primitive_named(t.name.as_str()) {
            Some(p) => {
                return MLValueType::Primitive(p);
            },
            None => {
                return MLValueType::Struct(t.name.clone());
            },
        }
    }
    let mut s = pkg.to_string();
    append_str(&mut s, "::");
    append_str(&mut s, t.name.as_str());
    MLValueType::Struct(s)
}

/// The value or reference type `t` in the mid-level IR.
fn value_type(t: &TypedType) -> (r: MLValueType)
    requires
        lowerable_value(*t),
    ensures
        lowered_value(*t, r),
{
    match t {
        TypedType::Value(n) => named_value_type(n),
        TypedType::Reference(n) => MLValueType::Reference(Box::new(MLType::Value(named_value_type(n)))),
        _ => MLValueType::Primitive(MLPrimitiveType::Noting),
    }
}

/// The type `t` in the mid-level IR.
pub fn lower_type(t: &TypedType) -> (r: MLType)
    requires
        lowerable(*t),
    ensures
        lowered_type(*t, r),
{
    match t {
        TypedType::Function(f) => {
            let mut arguments: Vec<MLValueType> = Vec::new();
            let mut i: usize = 0;
            while i < f.arguments.len()
                invariant
                    i <= f.arguments@.len(),
                    forall|i: int| 0 <= i < f.arguments@.len() ==> lowerable_value(#[trigger] f.arguments@[i].type_),
                    arguments@.len() == i,
                    forall|j: int| 0 <= j < i ==> lowered_value(#[trigger] f.arguments@[j].type_, arguments@[j]),
                decreases f.arguments@.len() - i,
            {
                arguments.push(value_type(&f.arguments[i].type_));
                i = i + 1;
            }
            MLType::Function(MLFunctionType { arguments, return_type: value_type(&f.return_type) })
        },
        _ => MLType::Value(value_type(t)),
    }
}

/// Lowers the typed IR into the mid-level IR, with the declarations of
/// `arena` and for a compilation of one build type.
pub struct HLIR2MLIR<'a> {
    arena: &'a ResolverArena,
    build_type: BuildType,
}

impl<'a> HLIR2MLIR<'a> {
    /// The arena whose declarations are read.
    pub closed spec fn arena_view(&self) -> ResolverArena {
        *self.arena
    }

    /// The build type lowered for.
    pub closed spec fn build_type_view(&self) -> BuildType {
        self.build_type
    }

    /// A lowering for the compilation `config`, reading `arena`.
    pub fn new(config: &Config, arena: &'a ResolverArena) -> (r: Self)
        ensures
            r.arena_view() == *arena,
            r.build_type_view() == (match config.type_ {
                Some(t) => t,
                None => BuildType::Binary,
            }),
    {
        HLIR2MLIR { arena, build_type: ConfigExt::type_(config) }
    }

    /// The name `name` of `package`, mangled.
    pub fn package_name_mangling_(&self, package: &Package, name: &str) -> (r: String)
        ensures
            r@ == mangled_spec(package.names@, name@, self.build_type_view()),
    {
        let is_main_binary = str_eq(name, "main") && match self.build_type {
            BuildType::Binary => true,
            _ => false,
        };
        if package.names.len() == 0 || is_main_binary {
            string_of(name)
        } else {
            let mut r = package.to_string();
            append_str(&mut r, "::");
            append_str(&mut r, name);
            r
        }
    }

    /// Whether the declaration `name` of the package `names` keeps its name
    /// as written.
    fn has_no_mangle(&self, names: &Vec<String>, name: &str) -> (r: bool)
        requires
            self.arena_view().wf(),
        ensures
            r == no_mangle_at(self.arena_view().decls(), names@, name@),
    {
        let ns = str_refs(names);
        match self.arena.get(ns.as_slice(), name) {
            Some(item) => item.has_annotation(NO_MANGLE),
            None => false,
        }
    }

    /// The name `n`, of type `ty`, in the mid-level IR: a type's name
    /// becomes a value of the struct it names, any other name a name of the
    /// mid-level IR; mangled unless its declaration is annotated to keep it.
    pub fn name(&self, n: &TypedName, ty: &Option<TypedType>) -> (r: MLExpr)
        requires
            self.arena_view().wf(),
            ty is Some,
            lowerable_name(*n, ty->0),
        ensures
            lowered_name(self.arena_view().decls(), self.build_type_view(), *n, ty->0, r),
    {
        let t = match ty {
            Some(t) => t,
            None => {
                return MLExpr::Literal(MLLiteral::Null { type_: MLValueType::Primitive(MLPrimitiveType::Noting) });
            },
        };
        match t {
            TypedType::Type(st) => {
                let package = resolved_package(&st.package);
                let no_mangle = self.has_no_mangle(&package.names, st.name.as_str());
                let mut mangled = if no_mangle {
                    st.name.clone()
                } else {
                    self.package_name_mangling_(package, st.name.as_str())
                };
                let suffix = type_args_suffix_text(&n.type_arguments);
                append_str(&mut mangled, suffix.as_str());
                MLExpr::Literal(MLLiteral::Struct { fields: Vec::new(), type_: MLValueType::Struct(mangled) })
            },
            _ => {
                let package = resolved_package(&n.package);
                let no_mangle = self.has_no_mangle(&package.names, n.name.as_str());
                let mut mangled = if no_mangle {
                    n.name.clone()
                } else {
                    self.package_name_mangling_(package, n.name.as_str())
                };
                let suffix = type_args_suffix_text(&n.type_arguments);
                append_str(&mut mangled, suffix.as_str());
                let ghost before = mangled@;
                if !no_mangle {
                    if let TypedType::Function(fun_type) = t {
                        if fun_type.arguments.len() > 0 {
                            append_str(&mut mangled, "##");
                            let args = fun_arg_label_type_name_mangling(&fun_type.arguments);
                            append_str(&mut mangled, args.as_str());
                        }
                    }
                }
                assert(mangled@ =~= before + fun_suffix(no_mangle, *t));
                MLExpr::Name(MLName { name: mangled, type_: lower_type(t) })
            },
        }
    }
}

/// `r` is the literal `l` of type `ty` in the mid-level IR: the same kind of
/// literal, written the same way, with the type lowered.
pub open spec fn lowered_literal(l: TypedLiteralKind, ty: TypedType, r: MLLiteral) -> bool {
    match (l, r) {
        (TypedLiteralKind::Integer(v), MLLiteral::Integer { value, type_ }) => value@ == v@ && lowered_value(ty, type_),
        (TypedLiteralKind::FloatingPoint(v), MLLiteral::FloatingPoint { value, type_ }) => value@ == v@
            && lowered_value(ty, type_),
        (TypedLiteralKind::String(v), MLLiteral::String { value, type_ }) => value@ == v@ && lowered_value(ty, type_),
        (TypedLiteralKind::Boolean(v), MLLiteral::Boolean { value, type_ }) => value@ == v@ && lowered_value(ty, type_),
        (TypedLiteralKind::NullLiteral, MLLiteral::Null { type_ }) => lowered_value(ty, type_),
        _ => false,
    }
}

impl<'a> HLIR2MLIR<'a> {
    /// The literal `l`, of type `type_`, in the mid-level IR.
    pub fn literal(&self, l: &TypedLiteralKind, type_: &Option<TypedType>) -> (r: MLLiteral)
        requires
            type_ is Some,
            lowerable_value(type_->0),
        ensures
            lowered_literal(*l, type_->0, r),
    {
        let t = match type_ {
            Some(t) => value_type(t),
            None => MLValueType::Primitive(MLPrimitiveType::Noting),
        };
        match l {
            TypedLiteralKind::Integer(v) => MLLiteral::Integer { value: v.clone(), type_: t },
            TypedLiteralKind::FloatingPoint(v) => MLLiteral::FloatingPoint { value: v.clone(), type_: t },
            TypedLiteralKind::String(v) => MLLiteral::String { value: v.clone(), type_: t },
            TypedLiteralKind::Boolean(v) => MLLiteral::Boolean { value: v.clone(), type_: t },
            TypedLiteralKind::NullLiteral => MLLiteral::Null { type_: t },
        }
    }

    /// The argument declaration `e` in the mid-level IR: its name, and its
    /// type lowered.
    pub fn arg_def(&self, e: &TypedArgDef) -> (r: MLArgDef)
        requires
            lowerable_value(e.type_),
        ensures
            r.name@ == e.name@,
            lowered_value(e.type_, r.type_),
    {
        MLArgDef { name: e.name.clone(), type_: value_type(&e.type_) }
    }

    /// The name `name` of the resolved package `package`, mangled.
    pub fn package_name_mangling(&self, package: &TypedPackage, name: &str) -> (r: String)
        requires
            *package is Resolved,
        ensures
            r@ == mangled_spec(package->Resolved_0.names@, name@, self.build_type_view()),
    {
        self.package_name_mangling_(resolved_package(package), name)
    }
}

/// The name of the mid-level type the named type `v` becomes: a builtin
/// type's primitive name, or the struct's full name.
pub open spec fn named_text(v: TypedNamedValueType) -> Seq<char> {
    if resolved_names(v).len() == 0 && primitive_of(v.name@) is Some {
        primitive_name(primitive_of(v.name@)->0)
    } else {
        struct_name_of(v)
    }
}

/// The expression `e` can be lowered: a name, a literal or a call, each
/// with what its lowering needs.
pub open spec fn lowerable_expr(e: TypedExpr) -> bool
    decreases e,
{
    match e.kind {
        TypedExprKind::Name(n) => e.ty is Some && lowerable_name(n, e.ty->0),
        TypedExprKind::Literal(_) => e.ty is Some && lowerable_value(e.ty->0),
        TypedExprKind::Call(c) => lowerable_call(c, e.ty),
        _ => false,
    }
}

/// The function type `t` can be lowered, with argument types that can be
/// read, as a mangled name needs.
pub open spec fn callable_type(t: TypedType) -> bool {
    &&& t is Function
    &&& lowerable(t)
    &&& forall|i: int| 0 <= i < t->Function_0.arguments@.len() ==> readable_type(#[trigger] t->Function_0.arguments@[i].type_)
}

/// The call `c`, of type `ty`, can be lowered: its value's type can be
/// lowered, and so can its arguments; its callee is a method of a value of
/// a named type, a member of a type, or a name that does not name a type.
pub open spec fn lowerable_call(c: TypedCall, ty: Option<TypedType>) -> bool
    decreases c,
{
    &&& ty is Some
    &&& lowerable_value(ty->0)
    &&& forall|k: int| 0 <= k < c.args@.len() ==> lowerable_expr(*(#[trigger] c.args@[k]).arg)
    &&& match c.target.kind {
        TypedExprKind::Member(m) => {
            &&& c.target.ty is Some
            &&& m.target.ty is Some
            &&& match m.target.ty->0 {
                TypedType::Value(v) => {
                    &&& v.package is Resolved
                    &&& callable_type(c.target.ty->0)
                    &&& lowerable_expr(*m.target)
                },
                TypedType::Type(t) => t.package is Resolved && lowerable(c.target.ty->0),
                _ => false,
            }
        },
        TypedExprKind::Name(n) => {
            &&& c.target.ty is Some
            &&& lowerable_name(n, c.target.ty->0)
            &&& c.target.ty->0 is Type ==> forall|k: int| 0 <= k < c.args@.len() ==> (#[trigger] c.args@[k]).label is Some
        },
        _ => false,
    }
}

/// `r` is the expression `e` in the mid-level IR.
pub open spec fn lowered_expr(decls: Map<usize, DeclarationItem>, build_type: BuildType, e: TypedExpr, r: MLExpr) -> bool
    decreases e,
{
    match e.kind {
        TypedExprKind::Name(n) => lowered_name(decls, build_type, n, e.ty->0, r),
        TypedExprKind::Literal(l) => r is Literal && lowered_literal(l, e.ty->0, r->Literal_0),
        TypedExprKind::Call(c) => lowered_call(decls, build_type, c, e.ty, r),
        _ => false,
    }
}

/// `r` is the call `c`, of type `ty`, in the mid-level IR: a call of the
/// lowered callee on the lowered arguments, with the call's type lowered.
/// A method of a value is called by the name of the value's type, `::` and
/// the method's name, with the value as its first argument; a member of a
/// type is called by the type's mangled name, `::` and the member's name.
pub open spec fn lowered_call(
    decls: Map<usize, DeclarationItem>,
    build_type: BuildType,
    c: TypedCall,
    ty: Option<TypedType>,
    r: MLExpr,
) -> bool
    decreases c,
{
    match r {
        MLExpr::Call(mc) => {
            &&& lowered_value(ty->0, mc.type_)
            &&& match c.target.kind {
                TypedExprKind::Member(m) => {
                    &&& lowered_type(c.target.ty->0, mc.target.type_)
                    &&& match m.target.ty->0 {
                        TypedType::Value(v) => {
                            &&& mc.target.name@ == named_text(v) + "::"@ + m.name@ + fun_suffix(false, c.target.ty->0)
                            &&& mc.args@.len() == c.args@.len() + 1
                            &&& lowered_expr(decls, build_type, *m.target, mc.args@[0].arg)
                            &&& forall|k: int| 0 <= k < c.args@.len() ==> lowered_expr(
                                decls,
                                build_type,
                                *(#[trigger] c.args@[k]).arg,
                                mc.args@[k + 1].arg,
                            )
                        },
                        TypedType::Type(t) => {
                            &&& mc.target.name@ == mangled_spec(resolved_names(t), t.name@, build_type) + "::"@ + m.name@
                            &&& mc.args@.len() == c.args@.len()
                            &&& forall|k: int| 0 <= k < c.args@.len() ==> lowered_expr(
                                decls,
                                build_type,
                                *(#[trigger] c.args@[k]).arg,
                                mc.args@[k].arg,
                            )
                        },
                        _ => false,
                    }
                },
                TypedExprKind::Name(n) => {
                    &&& !(c.target.ty->0 is Type)
                    &&& lowered_name(decls, build_type, n, c.target.ty->0, MLExpr::Name(mc.target))
                    &&& mc.args@.len() == c.args@.len()
                    &&& forall|k: int| 0 <= k < c.args@.len() ==> lowered_expr(
                        decls,
                        build_type,
                        *(#[trigger] c.args@[k]).arg,
                        mc.args@[k].arg,
                    )
                },
                _ => false,
            }
        },
        MLExpr::Literal(MLLiteral::Struct { fields, type_ }) => match c.target.kind {
            TypedExprKind::Name(n) => {
                &&& c.target.ty->0 is Type
                &&& struct_type_named(decls, build_type, n, c.target.ty->0->Type_0, type_)
                &&& fields@.len() == c.args@.len()
                &&& forall|k: int| 0 <= k < c.args@.len() ==> {
                    &&& fields@[k].0@ == (#[trigger] c.args@[k]).label->0@
                    &&& lowered_expr(decls, build_type, *c.args@[k].arg, fields@[k].1)
                }
            },
            _ => false,
        },
        _ => false,
    }
}

impl<'a> HLIR2MLIR<'a> {
    /// The expression `e` in the mid-level IR.
    pub fn expr(&self, e: &TypedExpr) -> (r: MLExpr)
        requires
            self.arena_view().wf(),
            lowerable_expr(*e),
        ensures
            lowered_expr(self.arena_view().decls(), self.build_type_view(), *e, r),
        decreases *e,
    {
        match &e.kind {
            TypedExprKind::Name(n) => self.name(n, &e.ty),
            TypedExprKind::Literal(l) => MLExpr::Literal(self.literal(l, &e.ty)),
            TypedExprKind::Call(c) => self.call(c, &e.ty),
            _ => MLExpr::Literal(MLLiteral::Null { type_: MLValueType::Primitive(MLPrimitiveType::Noting) }),
        }
    }

    /// Lowers the arguments `args` onto the end of `out`.
    fn call_args(&self, args: &Vec<TypedCallArg>, out: &mut Vec<MLCallArg>)
        requires
            self.arena_view().wf(),
            forall|k: int| 0 <= k < args@.len() ==> lowerable_expr(*(#[trigger] args@[k]).arg),
        ensures
            final(out)@.len() == old(out)@.len() + args@.len(),
            forall|k: int| 0 <= k < old(out)@.len() ==> final(out)@[k] == old(out)@[k],
            forall|k: int| 0 <= k < args@.len() ==> lowered_expr(
                self.arena_view().decls(),
                self.build_type_view(),
                *(#[trigger] args@[k]).arg,
                final(out)@[old(out)@.len() + k].arg,
            ),
        decreases args@,
    {
        let ghost start = out@;
        let mut i: usize = 0;
        while i < args.len()
            invariant
                i <= args@.len(),
                self.arena_view().wf(),
                forall|k: int| 0 <= k < args@.len() ==> lowerable_expr(*(#[trigger] args@[k]).arg),
                out@.len() == start.len() + i,
                forall|k: int| 0 <= k < start.len() ==> out@[k] == start[k],
                forall|k: int| 0 <= k < i ==> lowered_expr(
                    self.arena_view().decls(),
                    self.build_type_view(),
                    *(#[trigger] args@[k]).arg,
                    out@[start.len() + k].arg,
                ),
            decreases args@.len() - i,
        {
            assert(decreases_to!(args@ => args@[i as int]));
            let a = self.expr(&args[i].arg);
            out.push(MLCallArg { arg: a });
            i = i + 1;
        }
    }

    /// The call `c`, of type `ty`, in the mid-level IR.
    pub fn call(&self, c: &TypedCall, ty: &Option<TypedType>) -> (r: MLExpr)
        requires
            self.arena_view().wf(),
            lowerable_call(*c, *ty),
        ensures
            lowered_call(self.arena_view().decls(), self.build_type_view(), *c, *ty, r),
        decreases *c,
    {
        let mut args: Vec<MLCallArg> = Vec::new();
        let target = match &c.target.kind {
            TypedExprKind::Member(m) => {
                let mty = match &c.target.ty {
                    Some(t) => t,
                    None => {
                        return MLExpr::Literal(MLLiteral::Null { type_: MLValueType::Primitive(MLPrimitiveType::Noting) });
                    },
                };
                match &m.target.ty {
                    Some(TypedType::Value(v)) => {
                        let receiver = named_value_type(v);
                        let mut name = receiver.to_text();
                        append_str(&mut name, "::");
                        append_str(&mut name, m.name.as_str());
                        let ghost before = name@;
                        if let TypedType::Function(fun_type) = mty {
                            if fun_type.arguments.len() > 0 {
                                append_str(&mut name, "##");
                                let a = fun_arg_label_type_name_mangling(&fun_type.arguments);
                                append_str(&mut name, a.as_str());
                            }
                        }
                        assert(name@ =~= before + fun_suffix(false, *mty));
                        let first = self.expr(&m.target);
                        args.push(MLCallArg { arg: first });
                        MLName { name, type_: lower_type(mty) }
                    },
                    Some(TypedType::Type(t)) => {
                        let mut name = self.package_name_mangling(&t.package, t.name.as_str());
                        append_str(&mut name, "::");
                        append_str(&mut name, m.name.as_str());
                        MLName { name, type_: lower_type(mty) }
                    },
                    _ => {
                        return MLExpr::Literal(MLLiteral::Null { type_: MLValueType::Primitive(MLPrimitiveType::Noting) });
                    },
                }
            },
            _ => match self.expr(&c.target) {
                MLExpr::Name(n) => n,
                MLExpr::Literal(MLLiteral::Struct { fields, type_ }) => {
                    let mut fields = fields;
                    let mut i: usize = 0;
                    while i < c.args.len()
                        invariant
                            i <= c.args@.len(),
                            self.arena_view().wf(),
                            fields@.len() == i,
                            forall|k: int| 0 <= k < c.args@.len() ==> lowerable_expr(*(#[trigger] c.args@[k]).arg),
                            forall|k: int| 0 <= k < c.args@.len() ==> (#[trigger] c.args@[k]).label is Some,
                            forall|k: int| 0 <= k < i ==> {
                                &&& fields@[k].0@ == (#[trigger] c.args@[k]).label->0@
                                &&& lowered_expr(self.arena_view().decls(), self.build_type_view(), *c.args@[k].arg, fields@[k].1)
                            },
                        decreases c.args@.len() - i,
                    {
                        assert(decreases_to!(*c => c.args));
                        assert(decreases_to!(c.args@ => c.args@[i as int]));
                        let label = match &c.args[i].label {
                            Some(l) => l.clone(),
                            None => String::new(),
                        };
                        let v = self.expr(&c.args[i].arg);
                        fields.push((label, v));
                        i = i + 1;
                    }
                    return MLExpr::Literal(MLLiteral::Struct { fields, type_ });
                },
                _ => {
                    return MLExpr::Literal(MLLiteral::Null { type_: MLValueType::Primitive(MLPrimitiveType::Noting) });
                },
            },
        };
        let ghost skip = args@.len();
        assert(decreases_to!(*c => c.args));
        self.call_args(&c.args, &mut args);
        let type_ = match ty {
            Some(t) => value_type(t),
            None => MLValueType::Primitive(MLPrimitiveType::Noting),
        };
        MLExpr::Call(MLCall { target, args, type_ })
    }
}

/// A builtin type lowers to the primitive that prints with the builtin's
/// own name: whenever a name is lowered to a primitive, that primitive's
/// printed name is the name.
pub proof fn law_lowered_primitive_keeps_its_name(name: Seq<char>)
    ensures
        primitive_of(name) matches Some(p) ==> primitive_name(p) == name,
{
}

/// A named type of the root package that names a builtin lowers to a type
/// printed as that name, and every other named type to a struct printed as
/// its full name.
pub proof fn law_lowered_named_prints_its_name(t: TypedNamedValueType, r: MLValueType)
    requires
        lowered_named(t, r),
    ensures
        crate::ml_type::value_type_text(r) == (if resolved_names(t).len() == 0 { t.name@ } else {
            joined_names(resolved_names(t)) + "::"@ + t.name@
        }),
{
    law_lowered_primitive_keeps_its_name(t.name@);
}

} // verus!
