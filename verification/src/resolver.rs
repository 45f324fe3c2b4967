use crate::arena::{names_of, resolve_spec, DeclarationItem, DeclarationItemKind, ResolverArena};
use crate::errors::ResolverError;
use crate::lowering::str_refs;
use crate::text::{append_str, push_char, string_of};
use crate::type_rules::typed_literal_type;
use crate::typed_type_eq::lemma_same_type_refl;
use crate::typed_debug::{
    named_debug_text, opt_type_debug, opt_type_debug_text, package_debug_text, str_debug, str_debug_text, strings_joined,
    type_debug_text,
};
use crate::typed_expr::{TypedCall, TypedCallArg, TypedExpr, TypedExprKind, TypedLiteralKind, TypedName};
use crate::typed_type::{
    is_builtin_named, is_builtin_value, same_named, same_type, TypedNamedValueType, TypedPackage, TypedType, BOOL, F64,
    INT64, STRING,
};
use vstd::prelude::*;

verus! {

/// The character of the decimal digit `d`.
pub open spec fn digit_char(d: int) -> char {
    if d == 0 {
        '0'
    } else if d == 1 {
        '1'
    } else if d == 2 {
        '2'
    } else if d == 3 {
        '3'
    } else if d == 4 {
        '4'
    } else if d == 5 {
        '5'
    } else if d == 6 {
        '6'
    } else if d == 7 {
        '7'
    } else if d == 8 {
        '8'
    } else {
        '9'
    }
}

/// The decimal digits of `n`.
pub open spec fn decimal(n: nat) -> Seq<char>
    decreases n,
{
    if n < 10 {
        seq![digit_char(n as int)]
    } else {
        decimal(n / 10) + seq![digit_char((n % 10) as int)]
    }
}

/// The character of the decimal digit `d`.
fn digit(d: usize) -> (r: char)
    requires
        d < 10,
    ensures
        r == digit_char(d as int),
{
    if d == 0 {
        '0'
    } else if d == 1 {
        '1'
    } else if d == 2 {
        '2'
    } else if d == 3 {
        '3'
    } else if d == 4 {
        '4'
    } else if d == 5 {
        '5'
    } else if d == 6 {
        '6'
    } else if d == 7 {
        '7'
    } else if d == 8 {
        '8'
    } else {
        '9'
    }
}

/// `n` written in decimal.
pub fn usize_text(n: usize) -> (r: String)
    ensures
        r@ == decimal(n as nat),
    decreases n,
{
    if n < 10 {
        let mut s = String::new();
        push_char(&mut s, digit(n));
        assert(s@ =~= seq![digit_char(n as int)]);
        s
    } else {
        let mut s = usize_text(n / 10);
        push_char(&mut s, digit(n % 10));
        s
    }
}

/// How `{:?}` writes the expression naming `n`, of type `ty`, without type
/// arguments.
pub open spec fn name_expr_debug_text(n: TypedName, ty: Option<TypedType>) -> Seq<char> {
    "TypedExpr { kind: Name(TypedName { package: "@ + package_debug_text(n.package) + ", name: "@ + str_debug_text(
        n.name@,
    ) + ", type_arguments: None }), ty: "@ + opt_type_debug_text(ty) + " }"@
}

/// How `{:?}` writes the builtin value type `name`.
pub open spec fn builtin_debug_text(name: Seq<char>) -> Seq<char> {
    "Value("@ + builtin_named_debug_text(name) + ")"@
}

/// How `{:?}` writes the builtin named type `name`.
pub open spec fn builtin_named_debug_text(name: Seq<char>) -> Seq<char> {
    "TypedNamedValueType { package: "@ + ("Resolved(Package { names: ["@ + Seq::<char>::empty() + "] })"@) + ", name: "@
        + str_debug_text(name) + ", type_args: "@ + "None"@ + " }"@
}

/// How `{:?}` writes the type that the literal `l`, typed `ty`, is given
/// with no annotation.
pub open spec fn literal_type_debug_text(l: TypedLiteralKind, ty: Option<TypedType>) -> Seq<char> {
    match l {
        TypedLiteralKind::Integer(_) => match ty {
            Some(t) => type_debug_text(t),
            None => builtin_debug_text(INT64@),
        },
        TypedLiteralKind::FloatingPoint(_) => match ty {
            Some(t) => type_debug_text(t),
            None => builtin_debug_text(F64@),
        },
        TypedLiteralKind::String(_) => "Reference("@ + builtin_named_debug_text(STRING@) + ")"@,
        TypedLiteralKind::Boolean(_) => builtin_debug_text(BOOL@),
        TypedLiteralKind::NullLiteral => "None"@,
    }
}

/// The expression `e` can be resolved as an argument or a callee: a name
/// whose package is resolved and whose type is known, without type
/// arguments, or a literal other than `null`.
pub open spec fn resolvable_arg(e: TypedExpr) -> bool {
    match e.kind {
        TypedExprKind::Name(n) => n.package is Resolved && e.ty is Some && n.type_arguments is None,
        TypedExprKind::Literal(l) => !(l is NullLiteral),
        _ => false,
    }
}

/// `r` is the expression `e` resolved against the expected type `p`: a
/// name stays as it is; a literal keeps its kind and takes its type, the
/// expected one for a number without a type, or its builtin type.
pub open spec fn expr_resolved(e: TypedExpr, p: Option<TypedType>, r: TypedExpr) -> bool {
    match e.kind {
        TypedExprKind::Name(_) => r == e,
        TypedExprKind::Literal(l) => {
            &&& r.kind == e.kind
            &&& (l is Integer || l is FloatingPoint) && e.ty is Some ==> r.ty == e.ty
            &&& (l is Integer || l is FloatingPoint) && e.ty is None && p is Some ==> (r.ty is Some && same_type(
                r.ty->0,
                p->0,
            ))
            &&& l is Integer && e.ty is None && p is None ==> (r.ty matches Some(t) && is_builtin_value(t, INT64@))
            &&& l is FloatingPoint && e.ty is None && p is None ==> (r.ty matches Some(t) && is_builtin_value(t, F64@))
            &&& l is String ==> (r.ty matches Some(t) && t is Reference && is_builtin_named(t->Reference_0, STRING@))
            &&& l is Boolean ==> (r.ty matches Some(t) && is_builtin_value(t, BOOL@))
        },
        _ => false,
    }
}

/// As `expr_resolved`, with the expected type taken as it is.
pub open spec fn expr_resolved_exact(e: TypedExpr, p: Option<TypedType>, r: TypedExpr) -> bool {
    &&& expr_resolved(e, p, r)
    &&& e.kind is Literal && (e.kind->Literal_0 is Integer || e.kind->Literal_0 is FloatingPoint) && e.ty is None
        && p is Some ==> r.ty == p
}

/// `out` is the arguments `args` resolved, in order, each against the
/// expected type `params[k]`.
pub open spec fn args_resolved(args: Seq<TypedCallArg>, params: Seq<Option<TypedType>>, out: Seq<TypedCallArg>) -> bool {
    &&& out.len() == args.len()
    &&& forall|k: int|
        0 <= k < args.len() ==> {
            &&& (#[trigger] out[k]).label == args[k].label
            &&& out[k].is_vararg == args[k].is_vararg
            &&& expr_resolved(*args[k].arg, params[k], *out[k].arg)
        }
}

/// The declaration of the type `t`, found from the root.
pub open spec fn type_declaration(decls: Map<usize, DeclarationItem>, t: TypedNamedValueType) -> Option<usize> {
    resolve_spec(decls, 0, names_of(t.package->Resolved_0.names@).push(t.name@), false)
}

/// The call `c` can be resolved: its arguments can, and its callee is such
/// a name, whose type, where it names a type, is declared as a type; or a
/// literal other than `null`.
pub open spec fn resolvable_typed_call(decls: Map<usize, DeclarationItem>, c: TypedCall) -> bool {
    &&& forall|k: int| 0 <= k < c.args@.len() ==> resolvable_arg(*(#[trigger] c.args@[k]).arg)
    &&& match c.target.kind {
        TypedExprKind::Name(_) => {
            &&& resolvable_arg(*c.target)
            &&& c.target.ty->0 is Type ==> {
                let t = c.target.ty->0->Type_0;
                &&& t.package is Resolved
                &&& type_declaration(decls, t) matches Some(i)
                &&& decls.contains_key(i)
                &&& decls[i].kind is Type
            }
        },
        TypedExprKind::Literal(l) => !(l is NullLiteral),
        _ => false,
    }
}

/// How many stored properties `rs` has.
pub open spec fn props_len(rs: &crate::arena::ResolverStruct) -> nat {
    rs.stored_properties@.len()
}

/// The message for a call given `given` arguments where `required` are.
pub open spec fn arity_msg(callee: Seq<char>, required: nat, given: nat) -> Seq<char> {
    callee + " required "@ + decimal(required) + " arguments, but "@ + decimal(given) + " were given."@
}

/// What resolving the call `c` gives.
///
/// - A function's name: with a different number of arguments than it has
///   parameters, an error; otherwise the call with its arguments resolved
///   in order against the parameter types, of the function's return type.
/// - A type's name: the same, against the types of the type's stored
///   properties, of the type itself.
/// - Any other name, or a literal: an error, for it is not callable.
pub open spec fn typed_call_result(
    decls: Map<usize, DeclarationItem>,
    c: TypedCall,
    r: Result<(TypedCall, Option<TypedType>), ResolverError>,
) -> bool {
    match c.target.kind {
        TypedExprKind::Name(n) => match c.target.ty->0 {
            TypedType::Function(f) => if f.arguments@.len() != c.args@.len() {
                r matches Err(e) && e.message@ == arity_msg(
                    name_expr_debug_text(n, c.target.ty),
                    f.arguments@.len(),
                    c.args@.len(),
                )
            } else {
                match r {
                    Ok((tc, ty)) => {
                        &&& *tc.target == *c.target
                        &&& args_resolved(c.args@, Seq::new(c.args@.len(), |k: int| Some(f.arguments@[k].type_)), tc.args@)
                        &&& ty is Some
                        &&& same_type(ty->0, f.return_type)
                    },
                    Err(_) => false,
                }
            },
            TypedType::Type(t) => {
                let props = decls[type_declaration(decls, t)->0].kind->Type_0.stored_properties@;
                if props.len() != c.args@.len() {
                    r matches Err(e) && e.message@ == arity_msg("`"@ + t.name@ + "`"@, props.len(), c.args@.len())
                } else {
                    match r {
                        Ok((tc, ty)) => {
                            &&& *tc.target == *c.target
                            &&& args_resolved(c.args@, Seq::new(c.args@.len(), |k: int| Some(props[k].1)), tc.args@)
                            &&& ty is Some
                            &&& ty->0 is Value
                            &&& same_named(ty->0->Value_0, t)
                        },
                        Err(_) => false,
                    }
                }
            },
            _ => r matches Err(e) && e.message@ == name_expr_debug_text(n, c.target.ty) + " is not callable."@,
        },
        TypedExprKind::Literal(l) => r matches Err(e) && e.message@ == literal_type_debug_text(l, c.target.ty)
            + " is not callable."@,
        _ => false,
    }
}

/// The expression `e` resolved against the expected type `ann`.
fn resolve_arg(e: TypedExpr, ann: Option<TypedType>) -> (r: TypedExpr)
    requires
        resolvable_arg(e),
    ensures
        expr_resolved_exact(e, ann, r),
{
    let ghost e0 = e;
    proof {
        if ann is Some {
            lemma_same_type_refl(ann->0);
        }
    }
    let TypedExpr { kind, ty } = e;
    match kind {
        TypedExprKind::Literal(l) => {
            let t = typed_literal_type(&l, ty, ann);
            TypedExpr::new(TypedExprKind::Literal(l), t)
        },
        k => TypedExpr::new(k, ty),
    }
}

/// Resolves the arguments `args`, in order, each against `params[k]`.
fn resolve_args(args: Vec<TypedCallArg>, params: Vec<Option<TypedType>>, Ghost(expected): Ghost<Seq<Option<TypedType>>>) -> (r: Vec<TypedCallArg>)
    requires
        params@.len() == args@.len(),
        expected.len() == args@.len(),
        forall|k: int| 0 <= k < args@.len() ==> resolvable_arg(*(#[trigger] args@[k]).arg),
        forall|k: int| 0 <= k < args@.len() ==> (#[trigger] params@[k] is Some) == (expected[k] is Some),
        forall|k: int| 0 <= k < args@.len() && #[trigger] params@[k] is Some ==> same_type(params@[k]->0, expected[k]->0),
    ensures
        args_resolved(args@, expected, r@),
{
    let ghost a0 = args@;
    let ghost p0 = params@;
    let mut out: Vec<TypedCallArg> = Vec::new();
    let mut ps = params;
    let mut rest = args;
    assert(rest@ =~= a0.skip(0));
    assert(ps@ =~= p0.skip(0));
    while rest.len() > 0
        invariant
            p0.len() == a0.len(),
            expected.len() == a0.len(),
            out@.len() + rest@.len() == a0.len(),
            rest@ == a0.skip(out@.len() as int),
            ps@ == p0.skip(out@.len() as int),
            forall|k: int| 0 <= k < a0.len() ==> resolvable_arg(*(#[trigger] a0[k]).arg),
            forall|k: int| 0 <= k < a0.len() ==> (#[trigger] p0[k] is Some) == (expected[k] is Some),
            forall|k: int| 0 <= k < a0.len() && #[trigger] p0[k] is Some ==> same_type(p0[k]->0, expected[k]->0),
            forall|k: int|
                0 <= k < out@.len() ==> {
                    &&& (#[trigger] out@[k]).label == a0[k].label
                    &&& out@[k].is_vararg == a0[k].is_vararg
                    &&& expr_resolved(*a0[k].arg, expected[k], *out@[k].arg)
                },
        decreases rest@.len(),
    {
        let ghost k = out@.len() as int;
        assert(rest@[0] == a0[k]);
        assert(ps@[0] == p0[k]);
        let a = rest.remove(0);
        let p = ps.remove(0);
        assert(rest@ =~= a0.skip(k + 1));
        assert(ps@ =~= p0.skip(k + 1));
        let TypedCallArg { label, arg, is_vararg } = a;
        let resolved = resolve_arg(*arg, p);
        proof {
            if p is Some && expected[k] is Some {
                assert(same_type(p->0, expected[k]->0));
            }
        }
        out.push(TypedCallArg { label, arg: Box::new(resolved), is_vararg });
    }
    assert(a0.skip(0) =~= a0);
    out
}

/// Resolves calls against the declarations of an arena.
pub struct TypeResolver<'a> {
    arena: &'a ResolverArena,
}

impl<'a> TypeResolver<'a> {
    /// The arena whose declarations are read.
    pub closed spec fn arena_view(&self) -> ResolverArena {
        *self.arena
    }

    /// A resolver reading `arena`.
    pub fn new(arena: &'a ResolverArena) -> (r: Self)
        ensures
            r.arena_view() == *arena,
    {
        TypeResolver { arena }
    }

    /// Resolves the call `c`: checks its callee is a function or a type
    /// taking as many arguments as it is given, resolves the arguments
    /// against the parameter types, and gives the call's type.
    pub fn typed_call(&self, c: TypedCall) -> (r: Result<(TypedCall, Option<TypedType>), ResolverError>)
        requires
            self.arena_view().wf(),
            resolvable_typed_call(self.arena_view().decls(), c),
        ensures
            typed_call_result(self.arena_view().decls(), c, r),
    {
        let ghost c0 = c;
        let TypedCall { target, args } = c;
        let n_args = args.len();
        match &target.kind {
            TypedExprKind::Name(n) => {
                let target_ty = match &target.ty {
                    Some(t) => t,
                    None => {
                        return Err(ResolverError::from_message(""));
                    },
                };
                match target_ty {
                    TypedType::Function(f) => {
                        if f.arguments.len() != n_args {
                            let mut m = self.name_debug(n, &target.ty);
                            append_str(&mut m, " required ");
                            append_str(&mut m, usize_text(f.arguments.len()).as_str());
                            append_str(&mut m, " arguments, but ");
                            append_str(&mut m, usize_text(n_args).as_str());
                            append_str(&mut m, " were given.");
                            return Err(ResolverError { message: m });
                        }
                        let ghost expected = Seq::new(args@.len(), |k: int| Some(f.arguments@[k].type_));
                        let mut params: Vec<Option<TypedType>> = Vec::new();
                        let mut j: usize = 0;
                        while j < f.arguments.len()
                            invariant
                                j <= f.arguments@.len(),
                                f.arguments@.len() == args@.len(),
                                expected == Seq::new(args@.len(), |k: int| Some(f.arguments@[k].type_)),
                                params@.len() == j,
                                forall|k: int| 0 <= k < j ==> (#[trigger] params@[k]) is Some && same_type(
                                    params@[k]->0,
                                    expected[k]->0,
                                ),
                            decreases f.arguments@.len() - j,
                        {
                            params.push(Some(f.arguments[j].type_.duplicate()));
                            j = j + 1;
                        }
                        let ret = f.return_type.duplicate();
                        let resolved = resolve_args(args, params, Ghost(expected));
                        Ok((TypedCall { target, args: resolved }, Some(ret)))
                    },
                    TypedType::Type(t) => {
                        let pkg = match &t.package {
                            TypedPackage::Resolved(p) => p,
                            TypedPackage::Raw(p) => p,
                        };
                        let ns = str_refs(&pkg.names);
                        let rs = match self.arena.get_type(ns.as_slice(), t.name.as_str()) {
                            Some(rs) => rs,
                            None => {
                                return Err(ResolverError::from_message(""));
                            },
                        };
                        let n_props = rs.stored_properties.len();
                        if n_props != n_args {
                            let mut m = string_of("`");
                            append_str(&mut m, t.name.as_str());
                            append_str(&mut m, "`");
                            append_str(&mut m, " required ");
                            append_str(&mut m, usize_text(n_props).as_str());
                            append_str(&mut m, " arguments, but ");
                            append_str(&mut m, usize_text(n_args).as_str());
                            append_str(&mut m, " were given.");
                            proof {
                                assert(m@ =~= arity_msg("`"@ + t.name@ + "`"@, props_len(rs), n_args as nat));
                            }
                            return Err(ResolverError { message: m });
                        }
                        let ghost props = rs.stored_properties@;
                        let ghost expected = Seq::new(args@.len(), |k: int| Some(props[k].1));
                        let mut params: Vec<Option<TypedType>> = Vec::new();
                        let mut j: usize = 0;
                        while j < n_props
                            invariant
                                j <= n_props,
                                n_props == props.len(),
                                props == rs.stored_properties@,
                                props.len() == args@.len(),
                                expected == Seq::new(args@.len(), |k: int| Some(props[k].1)),
                                params@.len() == j,
                                forall|k: int| 0 <= k < j ==> (#[trigger] params@[k]) is Some && same_type(
                                    params@[k]->0,
                                    expected[k]->0,
                                ),
                            decreases n_props - j,
                        {
                            params.push(Some(rs.stored_properties[j].1.duplicate()));
                            j = j + 1;
                        }
                        let self_type = TypedType::Value(t.duplicate());
                        let resolved = resolve_args(args, params, Ghost(expected));
                        Ok((TypedCall { target, args: resolved }, Some(self_type)))
                    },
                    _ => {
                        let mut m = self.name_debug(n, &target.ty);
                        append_str(&mut m, " is not callable.");
                        Err(ResolverError { message: m })
                    },
                }
            },
            TypedExprKind::Literal(l) => {
                let given = match l {
                    TypedLiteralKind::Integer(_) => &target.ty,
                    TypedLiteralKind::FloatingPoint(_) => &target.ty,
                    _ => &None,
                };
                let mut m = match given {
                    Some(g) => g.debug_text(),
                    None => {
                        let t = typed_literal_type(l, None, None);
                        match t {
                            Some(t) => {
                                proof {
                                    if t is Value {
                                        let nv = t->Value_0;
                                        assert(nv.package->Resolved_0.names@ =~= Seq::<String>::empty());
                                        assert(strings_joined(nv.package->Resolved_0.names@) =~= Seq::<char>::empty());
                                        assert(named_debug_text(nv) =~= builtin_named_debug_text(nv.name@));
                                    }
                                    if t is Reference {
                                        let nv = t->Reference_0;
                                        assert(nv.package->Resolved_0.names@ =~= Seq::<String>::empty());
                                        assert(strings_joined(nv.package->Resolved_0.names@) =~= Seq::<char>::empty());
                                        assert(named_debug_text(nv) =~= builtin_named_debug_text(nv.name@));
                                    }
                                }
                                t.debug_text()
                            },
                            None => String::new(),
                        }
                    },
                };
                append_str(&mut m, " is not callable.");
                Err(ResolverError { message: m })
            },
            _ => Err(ResolverError::from_message("")),
        }
    }

    /// The text `{:?}` writes for the expression naming `n`, of type `ty`.
    fn name_debug(&self, n: &TypedName, ty: &Option<TypedType>) -> (r: String)
        requires
            n.type_arguments is None,
        ensures
            r@ == name_expr_debug_text(*n, *ty),
    {
        let mut m = string_of("TypedExpr { kind: Name(TypedName { package: ");
        append_str(&mut m, n.package.debug_text().as_str());
        append_str(&mut m, ", name: ");
        append_str(&mut m, str_debug(n.name.as_str()).as_str());
        append_str(&mut m, ", type_arguments: None }), ty: ");
        append_str(&mut m, opt_type_debug(ty).as_str());
        append_str(&mut m, " }");
        m
    }
}

} // verus!
