use crate::arena::{names_of, path_of, resolve_spec, DeclarationItem, DeclarationItemKind, ResolverArena, StructKind};
use crate::errors::CheckerError;
use crate::text::{append_str, string_of};
use crate::typed_debug::{opt_type_debug, opt_type_debug_text, str_debug, str_debug_text};
use crate::typed_decl::{TypedDecl, TypedExtension, TypedFun, TypedFunBody, TypedMemberFunction, TypedStruct, TypedVar};
use crate::typed_expr::{
    same_opt_type, TypedArray, TypedCallArg, TypedExpr, TypedExprKind, TypedIf, TypedLiteralKind, TypedUnaryOp,
};
use crate::typed_file::{TypedFile, TypedSourceSet};
use crate::typed_stmt::{TypedAssignment, TypedAssignmentAndOperation, TypedAssignmentStmt, TypedBlock, TypedLoopStmt, TypedStmt};
use crate::typed_type::{
    floating_point_names, integer_names, is_builtin_named, is_builtin_value, is_one_of, TypedPackage, TypedType, BOOL,
    STRING,
};
use crate::typed_type_eq::same_opt_types;
use vstd::prelude::*;

verus! {

/// The message for a variable whose declared type differs from its value's.
pub open spec fn var_mismatch_msg(left: Option<TypedType>, right: Option<TypedType>) -> Seq<char> {
    "TypeMissMatchError: left -> "@ + opt_type_debug_text(left) + ", right -> "@ + opt_type_debug_text(right)
}

/// The message for a function whose body's type differs from its return type.
pub open spec fn return_mismatch_msg(name: Seq<char>, expected: Option<TypedType>, got: Option<TypedType>) -> Seq<char> {
    "TypeMissMatchError: "@ + str_debug_text(name) + " excepted return "@ + opt_type_debug_text(expected)
        + ", but return "@ + opt_type_debug_text(got)
}

/// The message for an assignment of a value of another type.
pub open spec fn assign_mismatch_msg(value: Option<TypedType>, target: Option<TypedType>) -> Seq<char> {
    "TypeMissMatchError: assignment "@ + opt_type_debug_text(value) + ", into "@ + opt_type_debug_text(target)
}

/// The message for a loop condition that is not boolean.
pub open spec fn while_msg(t: Option<TypedType>) -> Seq<char> {
    "while condition must be boolean, but "@ + opt_type_debug_text(t)
}

/// The message for a conditional's condition.
pub open spec fn if_msg(t: Option<TypedType>) -> Seq<char> {
    "if condition type must be boolean, but "@ + opt_type_debug_text(t) + " ware given"@
}

/// The message for an array element of another type than the array's.
pub open spec fn array_msg(expected: Option<TypedType>, got: Option<TypedType>) -> Seq<char> {
    "TypeMissMatchError: Array element excepted "@ + opt_type_debug_text(expected) + ", but "@
        + opt_type_debug_text(got) + " found"@
}

/// The message for a name whose type is not known.
pub open spec fn unresolved_name_msg(name: Seq<char>) -> Seq<char> {
    "Can not resolve name "@ + str_debug_text(name)
}

/// The message for a literal of a type it cannot have.
pub open spec fn invalid_literal_msg(value: Seq<char>) -> Seq<char> {
    "Invalid literal type of "@ + str_debug_text(value)
}

/// The message for a literal whose type is not known.
pub open spec fn unresolved_literal_msg(value: Seq<char>) -> Seq<char> {
    "Can not resolve literal type of "@ + str_debug_text(value)
}

/// The message for a struct the arena does not know.
pub open spec fn unknown_identifier_msg(name: Seq<char>) -> Seq<char> {
    "unknown identifier "@ + name
}

/// The path of a package.
pub open spec fn package_path(p: TypedPackage) -> Seq<Seq<char>> {
    match p {
        TypedPackage::Raw(k) => names_of(k.names@),
        TypedPackage::Resolved(k) => names_of(k.names@),
    }
}

/// A literal may have the type `ty`: an integer an integer type, a floating
/// point number a floating point type, a string a reference to a string,
/// a boolean the boolean type; null any type.
pub open spec fn literal_errors(l: TypedLiteralKind, ty: Option<TypedType>) -> Seq<Seq<char>> {
    match l {
        TypedLiteralKind::Integer(v) => match ty {
            Some(t) => if is_one_of(t, integer_names()) { seq![] } else { seq![invalid_literal_msg(v@)] },
            None => seq![unresolved_literal_msg(v@)],
        },
        TypedLiteralKind::FloatingPoint(v) => match ty {
            Some(t) => if is_one_of(t, floating_point_names()) { seq![] } else { seq![invalid_literal_msg(v@)] },
            None => seq![unresolved_literal_msg(v@)],
        },
        TypedLiteralKind::String(v) => match ty {
            Some(t) => if t is Reference && is_builtin_named(t->Reference_0, STRING@) {
                seq![]
            } else {
                seq![invalid_literal_msg(v@)]
            },
            None => seq![unresolved_literal_msg(v@)],
        },
        TypedLiteralKind::Boolean(v) => match ty {
            Some(t) => if is_builtin_value(t, BOOL@) { seq![] } else { seq![invalid_literal_msg(v@)] },
            None => seq![unresolved_literal_msg(v@)],
        },
        TypedLiteralKind::NullLiteral => if ty is None {
            seq!["Can not resolve literal type of null"@]
        } else {
            seq![]
        },
    }
}

/// What checking an assignment reports: a value of another type than its
/// target's.
pub open spec fn assignment_errors(a: TypedAssignmentStmt) -> Seq<Seq<char>> {
    let (target, value) = match a {
        TypedAssignmentStmt::Assignment(x) => (x.target.ty, x.value.ty),
        TypedAssignmentStmt::AssignmentAndOperation(x) => (x.target.ty, x.value.ty),
    };
    if same_opt_type(target, value) {
        seq![]
    } else {
        seq![assign_mismatch_msg(value, target)]
    }
}

/// What checking an expression reports, in order, against the declarations
/// `decls`.
pub open spec fn expr_errors(decls: Map<usize, DeclarationItem>, e: TypedExpr) -> Seq<Seq<char>>
    decreases e,
{
    match e.kind {
        TypedExprKind::Name(n) => if e.ty is None { seq![unresolved_name_msg(n.name@)] } else { seq![] },
        TypedExprKind::Literal(l) => literal_errors(l, e.ty),
        TypedExprKind::BinOp(b) => expr_errors(decls, *b.left) + expr_errors(decls, *b.right),
        TypedExprKind::UnaryOp(u) => match u {
            TypedUnaryOp::Prefix(p) => expr_errors(decls, *p.target),
            TypedUnaryOp::Postfix(p) => expr_errors(decls, *p.target),
        },
        TypedExprKind::Subscript(s) => expr_errors(decls, *s.target) + exprs_errors(decls, s.indexes@),
        TypedExprKind::Member(m) => expr_errors(decls, *m.target),
        TypedExprKind::Array(a) => array_errors(decls, a.type_, a.elements@),
        TypedExprKind::Call(c) => args_errors(decls, c.args@),
        TypedExprKind::If(i) => (if is_builtin_value(i.condition.ty->0, BOOL@) {
            seq![if_msg(i.condition.ty)]
        } else {
            seq![]
        }) + block_errors(decls, i.body) + match i.else_body {
            Some(b) => block_errors(decls, b),
            None => seq![],
        },
        TypedExprKind::Return(r) => match r.value {
            Some(v) => expr_errors(decls, *v),
            None => seq![],
        },
        TypedExprKind::TypeCast(t) => expr_errors(decls, *t.target),
    }
}

/// What checking the expressions `s` reports, one after the other.
pub open spec fn exprs_errors(decls: Map<usize, DeclarationItem>, s: Seq<TypedExpr>) -> Seq<Seq<char>>
    decreases s,
{
    if s.len() == 0 {
        seq![]
    } else {
        exprs_errors(decls, s.subrange(0, s.len() - 1)) + expr_errors(decls, s[s.len() - 1])
    }
}

/// What checking the elements `s` of an array of element type `ty` reports:
/// each element's own errors, then whether its type is another.
pub open spec fn array_errors(decls: Map<usize, DeclarationItem>, ty: Option<TypedType>, s: Seq<TypedExpr>) -> Seq<
    Seq<char>,
>
    decreases s,
{
    if s.len() == 0 {
        seq![]
    } else {
        let last = s[s.len() - 1];
        array_errors(decls, ty, s.subrange(0, s.len() - 1)) + expr_errors(decls, last) + if same_opt_type(
            ty,
            last.ty,
        ) {
            seq![]
        } else {
            seq![array_msg(ty, last.ty)]
        }
    }
}

/// What checking the arguments `s` of a call reports.
pub open spec fn args_errors(decls: Map<usize, DeclarationItem>, s: Seq<TypedCallArg>) -> Seq<Seq<char>>
    decreases s,
{
    if s.len() == 0 {
        seq![]
    } else {
        args_errors(decls, s.subrange(0, s.len() - 1)) + expr_errors(decls, *s[s.len() - 1].arg)
    }
}

/// What checking a block reports.
pub open spec fn block_errors(decls: Map<usize, DeclarationItem>, b: TypedBlock) -> Seq<Seq<char>>
    decreases b,
{
    stmts_errors(decls, b.body@)
}

/// What checking the statements `s` reports, one after the other.
pub open spec fn stmts_errors(decls: Map<usize, DeclarationItem>, s: Seq<TypedStmt>) -> Seq<Seq<char>>
    decreases s,
{
    if s.len() == 0 {
        seq![]
    } else {
        stmts_errors(decls, s.subrange(0, s.len() - 1)) + stmt_errors(decls, s[s.len() - 1])
    }
}

/// What checking a statement reports.
pub open spec fn stmt_errors(decls: Map<usize, DeclarationItem>, s: TypedStmt) -> Seq<Seq<char>>
    decreases s,
{
    match s {
        TypedStmt::Expr(e) => expr_errors(decls, e),
        TypedStmt::Decl(d) => decl_errors(decls, d),
        TypedStmt::Assignment(a) => assignment_errors(a),
        TypedStmt::Loop(l) => match l {
            TypedLoopStmt::While(w) => (if w.condition.ty matches Some(t) && is_builtin_value(t, BOOL@) {
                seq![]
            } else {
                seq![while_msg(w.condition.ty)]
            }) + block_errors(decls, w.block),
            TypedLoopStmt::For(f) => block_errors(decls, f.block),
        },
    }
}

/// What checking a declaration reports.
pub open spec fn decl_errors(decls: Map<usize, DeclarationItem>, d: TypedDecl) -> Seq<Seq<char>>
    decreases d,
{
    match d {
        TypedDecl::Var(v) => (if same_opt_type(v.type_, v.value.ty) {
            seq![]
        } else {
            seq![var_mismatch_msg(v.type_, v.value.ty)]
        }) + expr_errors(decls, v.value),
        TypedDecl::Fun(f) => match f.body {
            Some(TypedFunBody::Expr(e)) => expr_errors(decls, e) + if same_opt_type(f.return_type, e.ty) {
                seq![]
            } else {
                seq![return_mismatch_msg(f.name@, f.return_type, e.ty)]
            },
            Some(TypedFunBody::Block(b)) => block_errors(decls, b),
            None => seq![],
        },
        TypedDecl::Struct(s) => (if resolve_spec(decls, 0, package_path(s.package).push(s.name@), false) is None {
            seq![unknown_identifier_msg(s.name@)]
        } else {
            seq![]
        }) + members_errors(decls, s.member_functions@),
        TypedDecl::Extension(e) => members_errors(decls, e.member_functions@),
        _ => seq![],
    }
}

/// What checking the bodies of the member functions `s` reports.
pub open spec fn members_errors(decls: Map<usize, DeclarationItem>, s: Seq<TypedMemberFunction>) -> Seq<Seq<char>>
    decreases s,
{
    if s.len() == 0 {
        seq![]
    } else {
        members_errors(decls, s.subrange(0, s.len() - 1)) + match s[s.len() - 1].body {
            Some(TypedFunBody::Expr(e)) => expr_errors(decls, e),
            Some(TypedFunBody::Block(b)) => block_errors(decls, b),
            None => seq![],
        }
    }
}

/// An expression the checker can go through: every condition of a
/// conditional has a type, and every declaration in it is checkable.
pub open spec fn expr_checkable(decls: Map<usize, DeclarationItem>, e: TypedExpr) -> bool
    decreases e,
{
    match e.kind {
        TypedExprKind::Name(_) => true,
        TypedExprKind::Literal(_) => true,
        TypedExprKind::BinOp(b) => expr_checkable(decls, *b.left) && expr_checkable(decls, *b.right),
        TypedExprKind::UnaryOp(u) => match u {
            TypedUnaryOp::Prefix(p) => expr_checkable(decls, *p.target),
            TypedUnaryOp::Postfix(p) => expr_checkable(decls, *p.target),
        },
        TypedExprKind::Subscript(s) => expr_checkable(decls, *s.target) && exprs_checkable(decls, s.indexes@),
        TypedExprKind::Member(m) => expr_checkable(decls, *m.target),
        TypedExprKind::Array(a) => exprs_checkable(decls, a.elements@),
        TypedExprKind::Call(c) => args_checkable(decls, c.args@),
        TypedExprKind::If(i) => {
            &&& i.condition.ty is Some
            &&& block_checkable(decls, i.body)
            &&& match i.else_body {
                Some(b) => block_checkable(decls, b),
                None => true,
            }
        },
        TypedExprKind::Return(r) => match r.value {
            Some(v) => expr_checkable(decls, *v),
            None => true,
        },
        TypedExprKind::TypeCast(t) => expr_checkable(decls, *t.target),
    }
}

/// Every expression of `s` is checkable.
pub open spec fn exprs_checkable(decls: Map<usize, DeclarationItem>, s: Seq<TypedExpr>) -> bool
    decreases s,
{
    forall|i: int| 0 <= i < s.len() ==> expr_checkable(decls, #[trigger] s[i])
}

/// Every argument of `s` is checkable.
pub open spec fn args_checkable(decls: Map<usize, DeclarationItem>, s: Seq<TypedCallArg>) -> bool
    decreases s,
{
    forall|i: int| 0 <= i < s.len() ==> expr_checkable(decls, *(#[trigger] s[i]).arg)
}

/// Every statement of the block is checkable.
pub open spec fn block_checkable(decls: Map<usize, DeclarationItem>, b: TypedBlock) -> bool
    decreases b,
{
    stmts_checkable(decls, b.body@)
}

/// Every statement of `s` is checkable.
pub open spec fn stmts_checkable(decls: Map<usize, DeclarationItem>, s: Seq<TypedStmt>) -> bool
    decreases s,
{
    forall|i: int| 0 <= i < s.len() ==> stmt_checkable(decls, #[trigger] s[i])
}

/// A statement the checker can go through.
pub open spec fn stmt_checkable(decls: Map<usize, DeclarationItem>, s: TypedStmt) -> bool
    decreases s,
{
    match s {
        TypedStmt::Expr(e) => expr_checkable(decls, e),
        TypedStmt::Decl(d) => decl_checkable(decls, d),
        TypedStmt::Assignment(_) => true,
        TypedStmt::Loop(l) => match l {
            TypedLoopStmt::While(w) => block_checkable(decls, w.block),
            TypedLoopStmt::For(f) => block_checkable(decls, f.block),
        },
    }
}

/// A declaration the checker can go through: neither a class nor an enum,
/// and a struct the arena knows, if at all, as a struct.
pub open spec fn decl_checkable(decls: Map<usize, DeclarationItem>, d: TypedDecl) -> bool
    decreases d,
{
    match d {
        TypedDecl::Var(v) => expr_checkable(decls, v.value),
        TypedDecl::Fun(f) => match f.body {
            Some(TypedFunBody::Expr(e)) => expr_checkable(decls, e),
            Some(TypedFunBody::Block(b)) => block_checkable(decls, b),
            None => true,
        },
        TypedDecl::Struct(s) => {
            &&& match resolve_spec(decls, 0, package_path(s.package).push(s.name@), false) {
                Some(i) => decls[i].kind is Type && decls[i].kind->Type_0.kind == StructKind::Struct,
                None => true,
            }
            &&& members_checkable(decls, s.member_functions@)
        },
        TypedDecl::Extension(e) => members_checkable(decls, e.member_functions@),
        TypedDecl::Class => false,
        TypedDecl::Enum => false,
        _ => true,
    }
}

/// The bodies of the member functions `s` are checkable.
pub open spec fn members_checkable(decls: Map<usize, DeclarationItem>, s: Seq<TypedMemberFunction>) -> bool
    decreases s,
{
    forall|i: int| 0 <= i < s.len() ==> match (#[trigger] s[i]).body {
        Some(TypedFunBody::Expr(e)) => expr_checkable(decls, e),
        Some(TypedFunBody::Block(b)) => block_checkable(decls, b),
        None => true,
    }
}

/// What checking the declarations `s` reports, one after the other.
pub open spec fn decls_errors(decls: Map<usize, DeclarationItem>, s: Seq<TypedDecl>) -> Seq<Seq<char>>
    decreases s.len(),
{
    if s.len() == 0 {
        seq![]
    } else {
        decls_errors(decls, s.subrange(0, s.len() - 1)) + decl_errors(decls, s[s.len() - 1])
    }
}

/// What checking a source set reports: each declaration of a file, each
/// item of a directory, in order.
pub open spec fn source_set_errors(decls: Map<usize, DeclarationItem>, s: TypedSourceSet) -> Seq<Seq<char>>
    decreases s,
{
    match s {
        TypedSourceSet::File(f) => decls_errors(decls, f.body@),
        TypedSourceSet::Dir { items, .. } => source_sets_errors(decls, items@),
    }
}

/// What checking the source sets `s` reports, one after the other.
pub open spec fn source_sets_errors(decls: Map<usize, DeclarationItem>, s: Seq<TypedSourceSet>) -> Seq<Seq<char>>
    decreases s,
{
    if s.len() == 0 {
        seq![]
    } else {
        source_sets_errors(decls, s.subrange(0, s.len() - 1)) + source_set_errors(decls, s[s.len() - 1])
    }
}

/// A source set the checker can go through: all its declarations are
/// checkable.
pub open spec fn source_set_checkable(decls: Map<usize, DeclarationItem>, s: TypedSourceSet) -> bool
    decreases s,
{
    match s {
        TypedSourceSet::File(f) => forall|i: int| 0 <= i < f.body@.len() ==> decl_checkable(decls, #[trigger] f.body@[i]),
        TypedSourceSet::Dir { items, .. } => forall|i: int|
            0 <= i < items@.len() ==> source_set_checkable(decls, #[trigger] items@[i]),
    }
}

/// The messages of the errors `s`.
pub open spec fn messages(s: Seq<CheckerError>) -> Seq<Seq<char>> {
    s.map_values(|e: CheckerError| e.0@)
}

/// The path of a package, as string slices.
fn package_strs(p: &TypedPackage) -> (r: Vec<&str>)
    ensures
        path_of(r@) == package_path(*p),
{
    let names = match p {
        TypedPackage::Raw(k) => &k.names,
        TypedPackage::Resolved(k) => &k.names,
    };
    let mut r: Vec<&str> = Vec::new();
    let mut i: usize = 0;
    while i < names.len()
        invariant
            i <= names@.len(),
            r@.len() == i,
            forall|j: int| 0 <= j < i ==> #[trigger] r@[j]@ == names@[j]@,
            package_path(*p) == names_of(names@),
        decreases names@.len() - i,
    {
        r.push(names[i].as_str());
        i = i + 1;
    }
    assert(path_of(r@) =~= names_of(names@));
    r
}

/// Checks the types of a typed program against the declarations of an
/// arena, collecting what it finds wrong.
pub struct TypeChecker<'a> {
    errors: Vec<CheckerError>,
    arena: &'a ResolverArena,
}

impl<'a> TypeChecker<'a> {
    /// The messages of the errors found so far, in the order found.
    pub closed spec fn reported(&self) -> Seq<Seq<char>> {
        messages(self.errors@)
    }

    /// The arena the checker reads.
    pub closed spec fn arena_view(&self) -> ResolverArena {
        *self.arena
    }

    /// A checker that has found nothing yet.
    pub fn new(arena: &'a ResolverArena) -> (r: Self)
        ensures
            r.reported() == Seq::<Seq<char>>::empty(),
            r.arena_view() == *arena,
    {
        let r = TypeChecker { errors: Vec::new(), arena };
        assert(r.reported() =~= Seq::<Seq<char>>::empty());
        r
    }

    /// The errors found so far.
    pub fn errors(&self) -> (r: &Vec<CheckerError>)
        ensures
            messages(r@) == self.reported(),
    {
        &self.errors
    }

    /// Records an error with the message `message`.
    fn report(&mut self, message: String)
        ensures
            final(self).reported() == old(self).reported().push(message@),
            final(self).arena_view() == old(self).arena_view(),
    {
        self.errors.push(CheckerError(message));
        assert(messages(self.errors@) =~= messages(old(self).errors@).push(message@));
    }

    /// Checks a source set: each file's declarations, each directory's
    /// items.
    pub fn verify(&mut self, typed_source_set: &TypedSourceSet)
        requires
            old(self).arena_view().wf(),
            source_set_checkable(old(self).arena_view().decls(), *typed_source_set),
        ensures
            final(self).reported() == old(self).reported() + source_set_errors(
                old(self).arena_view().decls(),
                *typed_source_set,
            ),
            final(self).arena_view() == old(self).arena_view(),
        decreases *typed_source_set,
    {
        let ghost decls = self.arena_view().decls();
        match typed_source_set {
            TypedSourceSet::File(f) => self.file(f),
            TypedSourceSet::Dir { name: _, items } => {
                assert(decreases_to!(*typed_source_set => *items));
                self.source_sets(items);
            },
        }
    }

    fn source_sets(&mut self, items: &Vec<TypedSourceSet>)
        requires
            old(self).arena_view().wf(),
            forall|k: int| 0 <= k < items@.len() ==> source_set_checkable(old(self).arena_view().decls(), #[trigger] items@[k]),
        ensures
            final(self).reported() == old(self).reported() + source_sets_errors(old(self).arena_view().decls(), items@),
            final(self).arena_view() == old(self).arena_view(),
        decreases *items,
    {
        let ghost decls = self.arena_view().decls();
        let ghost start = self.reported();
        let mut i: usize = 0;
        while i < items.len()
            invariant
                i <= items@.len(),
                self.arena_view() == old(self).arena_view(),
                self.arena_view().wf(),
                decls == self.arena_view().decls(),
                forall|k: int| 0 <= k < items@.len() ==> source_set_checkable(decls, #[trigger] items@[k]),
                self.reported() == start + source_sets_errors(decls, items@.subrange(0, i as int)),
            decreases items@.len() - i,
        {
            proof {
                let next = items@.subrange(0, i + 1);
                assert(next.subrange(0, i as int) =~= items@.subrange(0, i as int));
                assert(next[i as int] == items@[i as int]);
                assert(decreases_to!(*items => items[i as int]));
            }
            self.verify(&items[i]);
            proof {
                let a = source_sets_errors(decls, items@.subrange(0, i as int));
                let b = source_set_errors(decls, items@[i as int]);
                assert(start + a + b =~= start + (a + b));
            }
            i = i + 1;
        }
        assert(items@.subrange(0, items@.len() as int) =~= items@);
    }

    fn file(&mut self, typed_file: &TypedFile)
        requires
            old(self).arena_view().wf(),
            forall|i: int| 0 <= i < typed_file.body@.len() ==> decl_checkable(old(self).arena_view().decls(), #[trigger] typed_file.body@[i]),
        ensures
            final(self).reported() == old(self).reported() + decls_errors(old(self).arena_view().decls(), typed_file.body@),
            final(self).arena_view() == old(self).arena_view(),
    {
        let ghost decls = self.arena_view().decls();
        let ghost start = self.reported();
        let body = &typed_file.body;
        let mut i: usize = 0;
        while i < body.len()
            invariant
                i <= body@.len(),
                self.arena_view() == old(self).arena_view(),
                self.arena_view().wf(),
                decls == self.arena_view().decls(),
                forall|k: int| 0 <= k < body@.len() ==> decl_checkable(decls, #[trigger] body@[k]),
                self.reported() == start + decls_errors(decls, body@.subrange(0, i as int)),
            decreases body@.len() - i,
        {
            proof {
                let next = body@.subrange(0, i + 1);
                assert(next.subrange(0, i as int) =~= body@.subrange(0, i as int));
                assert(next[i as int] == body@[i as int]);
            }
            self.decl(&body[i]);
            proof {
                let a = decls_errors(decls, body@.subrange(0, i as int));
                let b = decl_errors(decls, body@[i as int]);
                assert(start + a + b =~= start + (a + b));
            }
            i = i + 1;
        }
        assert(body@.subrange(0, body@.len() as int) =~= body@);
    }

    fn decl(&mut self, decl: &TypedDecl)
        requires
            old(self).arena_view().wf(),
            decl_checkable(old(self).arena_view().decls(), *decl),
        ensures
            final(self).reported() == old(self).reported() + decl_errors(old(self).arena_view().decls(), *decl),
            final(self).arena_view() == old(self).arena_view(),
        decreases *decl,
    {
        match decl {
            TypedDecl::Var(v) => self.variable(v),
            TypedDecl::Fun(f) => self.function(f),
            TypedDecl::Struct(s) => self.struct_(s),
            TypedDecl::Class => {},
            TypedDecl::Enum => {},
            TypedDecl::Protocol => {},
            TypedDecl::Extension(e) => self.extension(e),
        }
    }

    fn variable(&mut self, typed_variable: &TypedVar)
        requires
            old(self).arena_view().wf(),
            expr_checkable(old(self).arena_view().decls(), typed_variable.value),
        ensures
            final(self).reported() == old(self).reported() + (if same_opt_type(typed_variable.type_, typed_variable.value.ty) { seq![] } else { seq![var_mismatch_msg(typed_variable.type_, typed_variable.value.ty)] }) + expr_errors(old(self).arena_view().decls(), typed_variable.value),
            final(self).arena_view() == old(self).arena_view(),
        decreases *typed_variable,
    {
        let value_type = &typed_variable.value.ty;
        if !same_opt_types(&typed_variable.type_, value_type) {
            let mut m = string_of("TypeMissMatchError: left -> ");
            append_str(&mut m, opt_type_debug(&typed_variable.type_).as_str());
            append_str(&mut m, ", right -> ");
            append_str(&mut m, opt_type_debug(value_type).as_str());
            self.report(m);
        }
        let ghost mid = self.reported();
        self.expression(&typed_variable.value);
        assert(self.reported() =~= old(self).reported() + (if same_opt_type(typed_variable.type_, typed_variable.value.ty) {
            seq![]
        } else {
            seq![var_mismatch_msg(typed_variable.type_, typed_variable.value.ty)]
        }) + expr_errors(old(self).arena_view().decls(), typed_variable.value));
    }

    fn function(&mut self, typed_function: &TypedFun)
        requires
            old(self).arena_view().wf(),
            match typed_function.body {
                Some(TypedFunBody::Expr(e)) => expr_checkable(old(self).arena_view().decls(), e),
                Some(TypedFunBody::Block(b)) => block_checkable(old(self).arena_view().decls(), b),
                None => true,
            },
        ensures
            final(self).reported() == old(self).reported() + match typed_function.body {
                Some(TypedFunBody::Expr(e)) => expr_errors(old(self).arena_view().decls(), e) + if same_opt_type(typed_function.return_type, e.ty) {
                    seq![]
                } else {
                    seq![return_mismatch_msg(typed_function.name@, typed_function.return_type, e.ty)]
                },
                Some(TypedFunBody::Block(b)) => block_errors(old(self).arena_view().decls(), b),
                None => seq![],
            },
            final(self).arena_view() == old(self).arena_view(),
        decreases *typed_function,
    {
        if let Some(body) = &typed_function.body {
            match body {
                TypedFunBody::Expr(e) => {
                    self.expression(e);
                    let e_type = &e.ty;
                    if !same_opt_types(&typed_function.return_type, e_type) {
                        let mut m = string_of("TypeMissMatchError: ");
                        append_str(&mut m, str_debug(typed_function.name.as_str()).as_str());
                        append_str(&mut m, " excepted return ");
                        append_str(&mut m, opt_type_debug(&typed_function.return_type).as_str());
                        append_str(&mut m, ", but return ");
                        append_str(&mut m, opt_type_debug(e_type).as_str());
                        self.report(m);
                    }
                },
                TypedFunBody::Block(b) => self.block(b),
            }
        }
    }

    fn struct_(&mut self, typed_struct: &TypedStruct)
        requires
            old(self).arena_view().wf(),
            decl_checkable(old(self).arena_view().decls(), TypedDecl::Struct(*typed_struct)),
        ensures
            final(self).reported() == old(self).reported() + decl_errors(
                old(self).arena_view().decls(),
                TypedDecl::Struct(*typed_struct),
            ),
            final(self).arena_view() == old(self).arena_view(),
        decreases *typed_struct,
    {
        let ghost decls = self.arena_view().decls();
        let path = package_strs(&typed_struct.package);
        let found = self.arena.get_type(path.as_slice(), typed_struct.name.as_str());
        if found.is_none() {
            let mut m = string_of("unknown identifier ");
            append_str(&mut m, typed_struct.name.as_str());
            self.report(m);
        }
        assert(decreases_to!(*typed_struct => typed_struct.member_functions));
        self.member_bodies(&typed_struct.member_functions);
    }

    /// Checks the bodies of the member functions an extension adds.
    fn extension(&mut self, typed_extension: &TypedExtension)
        requires
            old(self).arena_view().wf(),
            members_checkable(old(self).arena_view().decls(), typed_extension.member_functions@),
        ensures
            final(self).reported() == old(self).reported() + members_errors(old(self).arena_view().decls(), typed_extension.member_functions@),
            final(self).arena_view() == old(self).arena_view(),
        decreases *typed_extension,
    {
        assert(decreases_to!(*typed_extension => typed_extension.member_functions));
        self.member_bodies(&typed_extension.member_functions);
    }

    fn member_bodies(&mut self, members: &Vec<TypedMemberFunction>)
        requires
            old(self).arena_view().wf(),
            members_checkable(old(self).arena_view().decls(), members@),
        ensures
            final(self).reported() == old(self).reported() + members_errors(old(self).arena_view().decls(), members@),
            final(self).arena_view() == old(self).arena_view(),
        decreases *members,
    {
        let ghost decls = self.arena_view().decls();
        let ghost start = self.reported();
        let mut i: usize = 0;
        while i < members.len()
            invariant
                i <= members@.len(),
                self.arena_view() == old(self).arena_view(),
                self.arena_view().wf(),
                decls == self.arena_view().decls(),
                members_checkable(decls, members@),
                self.reported() == start + members_errors(decls, members@.subrange(0, i as int)),
            decreases members@.len() - i,
        {
            proof {
                let next = members@.subrange(0, i + 1);
                assert(next.subrange(0, i as int) =~= members@.subrange(0, i as int));
                assert(next[i as int] == members@[i as int]);
                assert(decreases_to!(*members => members[i as int]));
            }
            match &members[i].body {
                Some(TypedFunBody::Expr(e)) => self.expression(e),
                Some(TypedFunBody::Block(b)) => self.block(b),
                None => {},
            }
            proof {
                let a = members_errors(decls, members@.subrange(0, i as int));
                let b = members_errors(decls, members@.subrange(0, i + 1));
                assert(self.reported() == start + b) by {
                    assert(b == a + (match members@[i as int].body {
                        Some(TypedFunBody::Expr(e)) => expr_errors(decls, e),
                        Some(TypedFunBody::Block(bl)) => block_errors(decls, bl),
                        None => seq![],
                    }));
                    assert(self.reported() =~= start + b);
                }
            }
            i = i + 1;
        }
        assert(members@.subrange(0, members@.len() as int) =~= members@);
    }

    fn statement(&mut self, typed_statement: &TypedStmt)
        requires
            old(self).arena_view().wf(),
            stmt_checkable(old(self).arena_view().decls(), *typed_statement),
        ensures
            final(self).reported() == old(self).reported() + stmt_errors(old(self).arena_view().decls(), *typed_statement),
            final(self).arena_view() == old(self).arena_view(),
        decreases *typed_statement,
    {
        match typed_statement {
            TypedStmt::Expr(e) => self.expression(e),
            TypedStmt::Decl(d) => self.decl(d),
            TypedStmt::Assignment(a) => self.assignment_statement(a),
            TypedStmt::Loop(l) => self.loop_statement(l),
        }
    }

    fn assignment_statement(&mut self, typed_assignment: &TypedAssignmentStmt)
        ensures
            final(self).reported() == old(self).reported() + assignment_errors(*typed_assignment),
            final(self).arena_view() == old(self).arena_view(),
    {
        let (target, value) = match typed_assignment {
            TypedAssignmentStmt::Assignment(a) => (&a.target, &a.value),
            TypedAssignmentStmt::AssignmentAndOperation(a) => (&a.target, &a.value),
        };
        let target_type = &target.ty;
        let value_type = &value.ty;
        if !same_opt_types(target_type, value_type) {
            let mut m = string_of("TypeMissMatchError: assignment ");
            append_str(&mut m, opt_type_debug(value_type).as_str());
            append_str(&mut m, ", into ");
            append_str(&mut m, opt_type_debug(target_type).as_str());
            self.report(m);
        } else {
            assert(old(self).reported() + assignment_errors(*typed_assignment) =~= old(self).reported());
        }
    }

    fn loop_statement(&mut self, typed_loop_statement: &TypedLoopStmt)
        requires
            old(self).arena_view().wf(),
            stmt_checkable(old(self).arena_view().decls(), TypedStmt::Loop(*typed_loop_statement)),
        ensures
            final(self).reported() == old(self).reported() + stmt_errors(
                old(self).arena_view().decls(),
                TypedStmt::Loop(*typed_loop_statement),
            ),
            final(self).arena_view() == old(self).arena_view(),
        decreases *typed_loop_statement,
    {
        match typed_loop_statement {
            TypedLoopStmt::While(w) => {
                let is_boolean = match &w.condition.ty {
                    Some(t) => t.is_boolean(),
                    None => false,
                };
                if !is_boolean {
                    let mut m = string_of("while condition must be boolean, but ");
                    append_str(&mut m, opt_type_debug(&w.condition.ty).as_str());
                    self.report(m);
                }
                self.block(&w.block);
            },
            TypedLoopStmt::For(f) => {
                self.block(&f.block);
            },
        }
    }

    fn block(&mut self, typed_block: &TypedBlock)
        requires
            old(self).arena_view().wf(),
            block_checkable(old(self).arena_view().decls(), *typed_block),
        ensures
            final(self).reported() == old(self).reported() + block_errors(old(self).arena_view().decls(), *typed_block),
            final(self).arena_view() == old(self).arena_view(),
        decreases *typed_block,
    {
        assert(decreases_to!(*typed_block => typed_block.body));
        self.statements(&typed_block.body);
    }

    fn statements(&mut self, body: &Vec<TypedStmt>)
        requires
            old(self).arena_view().wf(),
            stmts_checkable(old(self).arena_view().decls(), body@),
        ensures
            final(self).reported() == old(self).reported() + stmts_errors(old(self).arena_view().decls(), body@),
            final(self).arena_view() == old(self).arena_view(),
        decreases *body,
    {
        let ghost decls = self.arena_view().decls();
        let ghost start = self.reported();
        let mut i: usize = 0;
        while i < body.len()
            invariant
                i <= body@.len(),
                self.arena_view() == old(self).arena_view(),
                self.arena_view().wf(),
                decls == self.arena_view().decls(),
                stmts_checkable(decls, body@),
                self.reported() == start + stmts_errors(decls, body@.subrange(0, i as int)),
            decreases body@.len() - i,
        {
            proof {
                let next = body@.subrange(0, i + 1);
                assert(next.subrange(0, i as int) =~= body@.subrange(0, i as int));
                assert(next[i as int] == body@[i as int]);
                assert(decreases_to!(*body => body[i as int]));
            }
            self.statement(&body[i]);
            proof {
                let a = stmts_errors(decls, body@.subrange(0, i as int));
                let b = stmt_errors(decls, body@[i as int]);
                assert(start + a + b =~= start + (a + b));
            }
            i = i + 1;
        }
        assert(body@.subrange(0, body@.len() as int) =~= body@);
    }

    fn expression(&mut self, typed_expr: &TypedExpr)
        requires
            old(self).arena_view().wf(),
            expr_checkable(old(self).arena_view().decls(), *typed_expr),
        ensures
            final(self).reported() == old(self).reported() + expr_errors(old(self).arena_view().decls(), *typed_expr),
            final(self).arena_view() == old(self).arena_view(),
        decreases *typed_expr,
    {
        let ghost decls = self.arena_view().decls();
        match &typed_expr.kind {
            TypedExprKind::Name(n) => {
                if typed_expr.ty.is_none() {
                    let mut m = string_of("Can not resolve name ");
                    append_str(&mut m, str_debug(n.name.as_str()).as_str());
                    self.report(m);
                } else {
                    assert(old(self).reported() + expr_errors(decls, *typed_expr) =~= old(self).reported());
                }
            },
            TypedExprKind::Literal(l) => self.literal(l, &typed_expr.ty),
            TypedExprKind::BinOp(b) => {
                self.expression(&b.left);
                self.expression(&b.right);
                assert(self.reported() =~= old(self).reported() + expr_errors(decls, *typed_expr));
            },
            TypedExprKind::UnaryOp(u) => match u {
                TypedUnaryOp::Prefix(p) => self.expression(&p.target),
                TypedUnaryOp::Postfix(p) => self.expression(&p.target),
            },
            TypedExprKind::Subscript(sub) => {
                self.expression(&sub.target);
                assert(decreases_to!(*typed_expr => sub.indexes@));
                self.expressions(&sub.indexes);
                assert(self.reported() =~= old(self).reported() + expr_errors(decls, *typed_expr));
            },
            TypedExprKind::Member(m) => self.expression(&m.target),
            TypedExprKind::Array(a) => {
                assert(decreases_to!(*typed_expr => *a));
                self.array(a);
            },
            TypedExprKind::Call(c) => {
                assert(decreases_to!(*typed_expr => c.args@));
                self.call_args(&c.args);
            },
            TypedExprKind::If(i) => {
                assert(decreases_to!(*typed_expr => *i));
                self.if_(i);
            },
            TypedExprKind::Return(r) => match &r.value {
                Some(v) => self.expression(v),
                None => {
                    assert(old(self).reported() + expr_errors(decls, *typed_expr) =~= old(self).reported());
                },
            },
            TypedExprKind::TypeCast(c) => self.expression(&c.target),
        }
    }

    fn expressions(&mut self, exprs: &Vec<TypedExpr>)
        requires
            old(self).arena_view().wf(),
            exprs_checkable(old(self).arena_view().decls(), exprs@),
        ensures
            final(self).reported() == old(self).reported() + exprs_errors(old(self).arena_view().decls(), exprs@),
            final(self).arena_view() == old(self).arena_view(),
        decreases exprs@,
    {
        let ghost decls = self.arena_view().decls();
        let ghost start = self.reported();
        let mut i: usize = 0;
        while i < exprs.len()
            invariant
                i <= exprs@.len(),
                self.arena_view() == old(self).arena_view(),
                self.arena_view().wf(),
                decls == self.arena_view().decls(),
                exprs_checkable(decls, exprs@),
                self.reported() == start + exprs_errors(decls, exprs@.subrange(0, i as int)),
            decreases exprs@.len() - i,
        {
            proof {
                let next = exprs@.subrange(0, i + 1);
                assert(next.subrange(0, i as int) =~= exprs@.subrange(0, i as int));
                assert(next[i as int] == exprs@[i as int]);
                assert(decreases_to!(exprs@ => exprs@[i as int]));
            }
            self.expression(&exprs[i]);
            proof {
                let a = exprs_errors(decls, exprs@.subrange(0, i as int));
                let b = expr_errors(decls, exprs@[i as int]);
                assert(start + a + b =~= start + (a + b));
            }
            i = i + 1;
        }
        assert(exprs@.subrange(0, exprs@.len() as int) =~= exprs@);
    }

    fn call_args(&mut self, args: &Vec<TypedCallArg>)
        requires
            old(self).arena_view().wf(),
            args_checkable(old(self).arena_view().decls(), args@),
        ensures
            final(self).reported() == old(self).reported() + args_errors(old(self).arena_view().decls(), args@),
            final(self).arena_view() == old(self).arena_view(),
        decreases args@,
    {
        let ghost decls = self.arena_view().decls();
        let ghost start = self.reported();
        let mut i: usize = 0;
        while i < args.len()
            invariant
                i <= args@.len(),
                self.arena_view() == old(self).arena_view(),
                self.arena_view().wf(),
                decls == self.arena_view().decls(),
                args_checkable(decls, args@),
                self.reported() == start + args_errors(decls, args@.subrange(0, i as int)),
            decreases args@.len() - i,
        {
            proof {
                let next = args@.subrange(0, i + 1);
                assert(next.subrange(0, i as int) =~= args@.subrange(0, i as int));
                assert(next[i as int] == args@[i as int]);
                assert(decreases_to!(args@ => args@[i as int]));
            }
            self.expression(&args[i].arg);
            proof {
                let a = args_errors(decls, args@.subrange(0, i as int));
                let b = expr_errors(decls, *args@[i as int].arg);
                assert(start + a + b =~= start + (a + b));
            }
            i = i + 1;
        }
        assert(args@.subrange(0, args@.len() as int) =~= args@);
    }

    fn array(&mut self, typed_array: &TypedArray)
        requires
            old(self).arena_view().wf(),
            exprs_checkable(old(self).arena_view().decls(), typed_array.elements@),
        ensures
            final(self).reported() == old(self).reported() + array_errors(
                old(self).arena_view().decls(),
                typed_array.type_,
                typed_array.elements@,
            ),
            final(self).arena_view() == old(self).arena_view(),
        decreases *typed_array,
    {
        assert(decreases_to!(*typed_array => typed_array.elements));
        self.array_elements(&typed_array.type_, &typed_array.elements);
    }

    fn array_elements(&mut self, type_: &Option<TypedType>, elements: &Vec<TypedExpr>)
        requires
            old(self).arena_view().wf(),
            exprs_checkable(old(self).arena_view().decls(), elements@),
        ensures
            final(self).reported() == old(self).reported() + array_errors(
                old(self).arena_view().decls(),
                *type_,
                elements@,
            ),
            final(self).arena_view() == old(self).arena_view(),
        decreases *elements,
    {
        let ghost decls = self.arena_view().decls();
        let ghost start = self.reported();
        let mut i: usize = 0;
        while i < elements.len()
            invariant
                i <= elements@.len(),
                self.arena_view() == old(self).arena_view(),
                self.arena_view().wf(),
                decls == self.arena_view().decls(),
                exprs_checkable(decls, elements@),
                self.reported() == start + array_errors(decls, *type_, elements@.subrange(0, i as int)),
            decreases elements@.len() - i,
        {
            proof {
                let next = elements@.subrange(0, i + 1);
                assert(next.subrange(0, i as int) =~= elements@.subrange(0, i as int));
                assert(next[i as int] == elements@[i as int]);
                assert(decreases_to!(*elements => elements[i as int]));
            }
            let e = &elements[i];
            self.expression(e);
            let e_type = &e.ty;
            if !same_opt_types(type_, e_type) {
                let mut m = string_of("TypeMissMatchError: Array element excepted ");
                append_str(&mut m, opt_type_debug(type_).as_str());
                append_str(&mut m, ", but ");
                append_str(&mut m, opt_type_debug(e_type).as_str());
                append_str(&mut m, " found");
                self.report(m);
            }
            assert(self.reported() =~= start + array_errors(decls, *type_, elements@.subrange(0, i + 1)));
            i = i + 1;
        }
        assert(elements@.subrange(0, elements@.len() as int) =~= elements@);
    }

    fn if_(&mut self, typed_if: &TypedIf)
        requires
            old(self).arena_view().wf(),
            typed_if.condition.ty is Some,
            block_checkable(old(self).arena_view().decls(), typed_if.body),
            match typed_if.else_body {
                Some(b) => block_checkable(old(self).arena_view().decls(), b),
                None => true,
            },
        ensures
            final(self).reported() == old(self).reported() + (if is_builtin_value(typed_if.condition.ty->0, BOOL@) {
                seq![if_msg(typed_if.condition.ty)]
            } else {
                seq![]
            }) + block_errors(old(self).arena_view().decls(), typed_if.body) + match typed_if.else_body {
                Some(b) => block_errors(old(self).arena_view().decls(), b),
                None => seq![],
            },
            final(self).arena_view() == old(self).arena_view(),
        decreases *typed_if,
    {
        let ghost decls = self.arena_view().decls();
        let is_boolean = match &typed_if.condition.ty {
            Some(t) => t.is_boolean(),
            None => false,
        };
        if is_boolean {
            let mut m = string_of("if condition type must be boolean, but ");
            append_str(&mut m, opt_type_debug(&typed_if.condition.ty).as_str());
            append_str(&mut m, " ware given");
            self.report(m);
        }
        let ghost first = self.reported();
        self.block(&typed_if.body);
        match &typed_if.else_body {
            Some(b) => self.block(b),
            None => {},
        }
        assert(self.reported() =~= old(self).reported() + (if is_builtin_value(typed_if.condition.ty->0, BOOL@) {
            seq![if_msg(typed_if.condition.ty)]
        } else {
            seq![]
        }) + block_errors(decls, typed_if.body) + match typed_if.else_body {
            Some(b) => block_errors(decls, b),
            None => seq![],
        });
    }

    fn literal(&mut self, typed_literal: &TypedLiteralKind, type_: &Option<TypedType>)
        ensures
            final(self).reported() == old(self).reported() + literal_errors(*typed_literal, *type_),
            final(self).arena_view() == old(self).arena_view(),
    {
        let (value, fits) = match typed_literal {
            TypedLiteralKind::Integer(value) => (value, match type_ {
                Some(t) => Some(t.is_integer()),
                None => None,
            }),
            TypedLiteralKind::FloatingPoint(value) => (value, match type_ {
                Some(t) => Some(t.is_floating_point()),
                None => None,
            }),
            TypedLiteralKind::String(value) => (value, match type_ {
                Some(t) => Some(t.is_string_ref()),
                None => None,
            }),
            TypedLiteralKind::Boolean(value) => (value, match type_ {
                Some(t) => Some(t.is_boolean()),
                None => None,
            }),
            TypedLiteralKind::NullLiteral => {
                if type_.is_none() {
                    self.report(string_of("Can not resolve literal type of null"));
                } else {
                    assert(old(self).reported() + literal_errors(*typed_literal, *type_) =~= old(self).reported());
                }
                return;
            },
        };
        match fits {
            Some(true) => {
                assert(old(self).reported() + literal_errors(*typed_literal, *type_) =~= old(self).reported());
            },
            Some(false) => {
                let mut m = string_of("Invalid literal type of ");
                append_str(&mut m, str_debug(value.as_str()).as_str());
                self.report(m);
            },
            None => {
                let mut m = string_of("Can not resolve literal type of ");
                append_str(&mut m, str_debug(value.as_str()).as_str());
                self.report(m);
            },
        }
    }

    /// The errors found, in the order found.
    pub fn into_errors(self) -> (r: Vec<CheckerError>)
        ensures
            messages(r@) == self.reported(),
    {
        self.errors
    }
}

/// An assignment whose value's type differs from its target's is reported
/// as one mismatch, whether it is plain (`=`) or compound (`+=` and the
/// like); with equal types nothing is reported.
pub proof fn law_assignment_mismatch_whatever_the_form(a: TypedAssignmentStmt)
    ensures
        ({
            let (target, value) = match a {
                TypedAssignmentStmt::Assignment(x) => (x.target.ty, x.value.ty),
                TypedAssignmentStmt::AssignmentAndOperation(x) => (x.target.ty, x.value.ty),
            };
            &&& !same_opt_type(target, value) ==> assignment_errors(a) == seq![assign_mismatch_msg(value, target)]
            &&& same_opt_type(target, value) ==> assignment_errors(a) == Seq::<Seq<char>>::empty()
        }),
{
}

/// A plain and a compound assignment between expressions of the same types
/// are reported alike.
pub proof fn law_assignment_form_does_not_matter(x: TypedAssignment, y: TypedAssignmentAndOperation)
    requires
        x.target.ty == y.target.ty,
        x.value.ty == y.value.ty,
    ensures
        assignment_errors(TypedAssignmentStmt::Assignment(x)) == assignment_errors(
            TypedAssignmentStmt::AssignmentAndOperation(y),
        ),
        assignment_errors(TypedAssignmentStmt::AssignmentAndOperation(y)).len() == (if same_opt_type(
            y.target.ty,
            y.value.ty,
        ) {
            0int
        } else {
            1int
        }),
{
}

} // verus!
