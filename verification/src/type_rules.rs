use crate::errors::InferError;
use crate::text::{append_str, string_of};
use crate::typed_debug::type_debug_text;
use crate::typed_expr::{same_opt_type, TypedBinOp, TypedBinaryOperator, TypedExpr, TypedExprKind, TypedLiteralKind};
use crate::typed_stmt::{block_type_spec, TypedBlock};
use crate::typed_type_eq::lemma_same_type_refl;
use crate::typed_type::{
    builtin_names, floating_point_names, integer_names, is_builtin_named, signed_integer_names, unsigned_integer_names, is_builtin_value, is_one_of, same_type, TypedNamedValueType,
    TypedType, BOOL, F64, INT64, NOTING, STRING, UINT8, UNSAFE_POINTER,
};
use vstd::prelude::*;

verus! {

/// The operator compares its operands.
pub open spec fn is_comparison(k: TypedBinaryOperator) -> bool {
    ||| k is Equal
    ||| k is GrateThanEqual
    ||| k is GrateThan
    ||| k is LessThanEqual
    ||| k is LessThan
    ||| k is NotEqual
}

/// How `{:?}` writes an operator other than an infix function call.
pub open spec fn operator_debug_text(k: TypedBinaryOperator) -> Seq<char> {
    match k {
        TypedBinaryOperator::Equal => "Equal"@,
        TypedBinaryOperator::GrateThanEqual => "GrateThanEqual"@,
        TypedBinaryOperator::GrateThan => "GrateThan"@,
        TypedBinaryOperator::LessThanEqual => "LessThanEqual"@,
        TypedBinaryOperator::LessThan => "LessThan"@,
        TypedBinaryOperator::NotEqual => "NotEqual"@,
        TypedBinaryOperator::Add => "Add"@,
        TypedBinaryOperator::Sub => "Sub"@,
        TypedBinaryOperator::Mul => "Mul"@,
        TypedBinaryOperator::Div => "Div"@,
        TypedBinaryOperator::Mod => "Mod"@,
        TypedBinaryOperator::InfixFunctionCall(_) => "InfixFunctionCall"@,
    }
}

/// `t` is the builtin unsafe pointer type.
pub open spec fn is_pointer(t: TypedType) -> bool {
    &&& t is Value
    &&& t->Value_0.name@ == UNSAFE_POINTER@
    &&& t->Value_0.package is Resolved
    &&& t->Value_0.package->Resolved_0.names@.len() == 0
}

/// An arithmetic operator is defined on `left` and `right`: both are the
/// same integer or the same floating point type, or a pointer is offset by
/// an integer.
pub open spec fn arithmetic_defined(left: TypedType, right: TypedType) -> bool {
    ||| same_type(left, right) && ((is_one_of(left, integer_names()) && is_one_of(right, integer_names())) || (
    is_one_of(left, floating_point_names()) && is_one_of(right, floating_point_names())))
    ||| is_pointer(left) && is_one_of(right, integer_names())
}

/// The message for an operator not defined on its operand types.
pub open spec fn undefined_operator_msg(left: TypedType, k: TypedBinaryOperator, right: TypedType) -> Seq<char> {
    "("@ + operator_debug_text(k) + ", "@ + type_debug_text(left) + ", "@ + type_debug_text(right)
        + ") is not defined."@
}

impl TypedBinaryOperator {
    /// The text `{:?}` writes for this operator, which must not be an infix
    /// function call.
    pub fn debug_name(&self) -> (r: &'static str)
        ensures
            r@ == operator_debug_text(*self),
    {
        match self {
            TypedBinaryOperator::Equal => "Equal",
            TypedBinaryOperator::GrateThanEqual => "GrateThanEqual",
            TypedBinaryOperator::GrateThan => "GrateThan",
            TypedBinaryOperator::LessThanEqual => "LessThanEqual",
            TypedBinaryOperator::LessThan => "LessThan",
            TypedBinaryOperator::NotEqual => "NotEqual",
            TypedBinaryOperator::Add => "Add",
            TypedBinaryOperator::Sub => "Sub",
            TypedBinaryOperator::Mul => "Mul",
            TypedBinaryOperator::Div => "Div",
            TypedBinaryOperator::Mod => "Mod",
            TypedBinaryOperator::InfixFunctionCall(_) => "InfixFunctionCall",
        }
    }
}

/// The type of `left kind right`: a comparison is boolean; an arithmetic
/// operator keeps the type of its operands where it is defined on them, and
/// is an error otherwise. Infix function calls are not supported.
pub fn resolve_binop_type(left: &TypedType, kind: &TypedBinaryOperator, right: &TypedType) -> (r: Result<
    TypedType,
    InferError,
>)
    requires
        !(*kind is InfixFunctionCall),
    ensures
        is_comparison(*kind) ==> (r matches Ok(t) && is_builtin_value(t, BOOL@)),
        !is_comparison(*kind) && arithmetic_defined(*left, *right) ==> (r matches Ok(t) && same_type(t, *left)),
        !is_comparison(*kind) && !arithmetic_defined(*left, *right) ==> (r matches Err(e) && e.0@
            == undefined_operator_msg(*left, *kind, *right)),
{
    match kind {
        TypedBinaryOperator::Equal
        | TypedBinaryOperator::GrateThanEqual
        | TypedBinaryOperator::GrateThan
        | TypedBinaryOperator::LessThanEqual
        | TypedBinaryOperator::LessThan
        | TypedBinaryOperator::NotEqual => Ok(TypedType::bool()),
        _ => {
            let is_both_integer = left.is_integer() && right.is_integer();
            let is_both_float = left.is_floating_point() && right.is_floating_point();
            let is_both_same = left.same_as(right);
            let is_pointer_op = left.is_pointer_type() && right.is_integer();
            if (is_both_same && (is_both_integer || is_both_float)) || is_pointer_op {
                Ok(left.duplicate())
            } else {
                let mut m = string_of("(");
                append_str(&mut m, kind.debug_name());
                append_str(&mut m, ", ");
                append_str(&mut m, left.debug_text().as_str());
                append_str(&mut m, ", ");
                append_str(&mut m, right.debug_text().as_str());
                append_str(&mut m, ") is not defined.");
                Err(InferError(m))
            }
        },
    }
}

/// The type a literal takes: a number its own type, else the type expected
/// of it, else `Int64` or `Double`; a string a reference to `String`; a
/// boolean `Bool`; null the type expected of it.
pub fn typed_literal_type(l: &TypedLiteralKind, type_: Option<TypedType>, type_annotation: Option<TypedType>) -> (r:
    Option<TypedType>)
    ensures
        (l is Integer || l is FloatingPoint) && type_ is Some ==> r == type_,
        (l is Integer || l is FloatingPoint) && type_ is None && type_annotation is Some ==> r == type_annotation,
        l is Integer && type_ is None && type_annotation is None ==> (r matches Some(t) && is_builtin_value(t, INT64@)),
        l is FloatingPoint && type_ is None && type_annotation is None ==> (r matches Some(t) && is_builtin_value(t, F64@)),
        l is String ==> (r matches Some(t) && t is Reference && is_builtin_named(t->Reference_0, STRING@)),
        l is Boolean ==> (r matches Some(t) && is_builtin_value(t, BOOL@)),
        l is NullLiteral ==> r == type_annotation,
{
    match l {
        TypedLiteralKind::Integer(_) => {
            if type_.is_some() {
                type_
            } else if type_annotation.is_some() {
                type_annotation
            } else {
                Some(TypedType::int64())
            }
        },
        TypedLiteralKind::FloatingPoint(_) => {
            if type_.is_some() {
                type_
            } else if type_annotation.is_some() {
                type_annotation
            } else {
                Some(TypedType::double())
            }
        },
        TypedLiteralKind::String(_) => Some(TypedType::Reference(TypedNamedValueType::string())),
        TypedLiteralKind::Boolean(_) => Some(TypedType::bool()),
        TypedLiteralKind::NullLiteral => type_annotation,
    }
}

/// The expression is an integer literal.
pub open spec fn is_integer_literal(e: TypedExpr) -> bool {
    e.kind is Literal && e.kind->Literal_0 is Integer
}

/// The type the right operand of an operation takes: an integer literal
/// after an operand of integer type, that is not itself an integer literal,
/// takes that operand's type; any other right operand keeps its own.
pub open spec fn right_operand_type(left: TypedExpr, right: TypedExpr) -> Option<TypedType> {
    if is_integer_literal(right) && !is_integer_literal(left) && (left.ty matches Some(t) && is_one_of(
        t,
        integer_names(),
    )) {
        left.ty
    } else {
        right.ty
    }
}

/// Types an operation on operands whose own types are resolved: an integer
/// literal on the right takes the type of an integer operand on the left,
/// then the operator's type is resolved on the two operand types. Both must
/// then be known, and the operator must not be an infix function call.
pub fn typed_binop(left: TypedExpr, operator: TypedBinaryOperator, right: TypedExpr) -> (r: Result<
    (TypedBinOp, Option<TypedType>),
    InferError,
>)
    requires
        !(operator is InfixFunctionCall),
        left.ty is Some,
        right_operand_type(left, right) is Some,
    ensures
        match r {
            Ok((b, t)) => {
                &&& *b.left == left
                &&& b.operator == operator
                &&& b.right.kind == right.kind
                &&& same_opt_type(b.right.ty, right_operand_type(left, right))
                &&& is_comparison(operator) ==> (t matches Some(x) && is_builtin_value(x, BOOL@))
                &&& !is_comparison(operator) ==> arithmetic_defined(left.ty->0, right_operand_type(left, right)->0)
                &&& !is_comparison(operator) ==> (t matches Some(x) && same_type(x, left.ty->0))
            },
            Err(e) => !is_comparison(operator) && !arithmetic_defined(left.ty->0, right_operand_type(left, right)->0)
                && e.0@ == undefined_operator_msg(left.ty->0, operator, right_operand_type(left, right)->0),
        },
{
    let left_is_integer_literal = matches!(&left.kind, TypedExprKind::Literal(TypedLiteralKind::Integer(_)));
    let right_is_integer_literal = matches!(&right.kind, TypedExprKind::Literal(TypedLiteralKind::Integer(_)));
    let left_is_integer = match &left.ty {
        None => false,
        Some(t) => t.is_integer(),
    };
    let retype = right_is_integer_literal && !left_is_integer_literal && left_is_integer;
    let left_type = left.ty.as_ref().unwrap();
    let resolved = if retype {
        resolve_binop_type(left_type, &operator, left_type)
    } else {
        resolve_binop_type(left_type, &operator, right.ty.as_ref().unwrap())
    };
    let right = if retype {
        TypedExpr::new(right.kind, left.type_())
    } else {
        proof {
            if right.ty is Some {
                lemma_same_type_refl(right.ty->0);
            }
        }
        right
    };
    match resolved {
        Ok(t) => Ok((TypedBinOp { left: Box::new(left), operator, right: Box::new(right) }, Some(t))),
        Err(e) => Err(e),
    }
}

/// The type of an indexing of a value of type `target`: a byte of a string
/// or of a reference to a string, the element type of an unsafe pointer,
/// and otherwise the type `ty` already known of the indexing.
pub open spec fn subscript_type_spec(target: TypedType, ty: Option<TypedType>) -> Option<TypedType> {
    match target {
        TypedType::Value(v) => if is_builtin_named(v, STRING@) {
            None
        } else if v.name@ == UNSAFE_POINTER@ && v.package is Resolved && v.package->Resolved_0.names@.len() == 0 {
            match v.type_args {
                Some(args) => if args@.len() == 1 {
                    Some(args@[0])
                } else {
                    ty
                },
                None => ty,
            }
        } else {
            ty
        },
        TypedType::Reference(v) => if is_builtin_named(v, STRING@) {
            None
        } else {
            ty
        },
        _ => ty,
    }
}

/// The indexing of a value of type `target` yields bytes.
pub open spec fn subscript_yields_byte(target: TypedType) -> bool {
    match target {
        TypedType::Value(v) => is_builtin_named(v, STRING@),
        TypedType::Reference(v) => is_builtin_named(v, STRING@),
        _ => false,
    }
}

/// The type of an indexing of a value of type `target`; see
/// `subscript_type_spec`.
pub fn subscript_type(target: &TypedType, ty: Option<TypedType>) -> (r: Option<TypedType>)
    ensures
        subscript_yields_byte(*target) ==> (r matches Some(t) && is_builtin_value(t, UINT8@)),
        !subscript_yields_byte(*target) ==> same_opt_type(r, subscript_type_spec(*target, ty)),
{
    match target {
        TypedType::Value(v) => {
            if v.is_string() {
                return Some(TypedType::uint8());
            }
            if v.is_unsafe_pointer() {
                if let Some(args) = &v.type_args {
                    if args.len() == 1 {
                        return Some(args[0].duplicate());
                    }
                }
            }
            match ty {
                None => None,
                Some(t) => Some(t.duplicate()),
            }
        },
        TypedType::Reference(v) => {
            if v.is_string() {
                return Some(TypedType::uint8());
            }
            match ty {
                None => None,
                Some(t) => Some(t.duplicate()),
            }
        },
        _ => match ty {
            None => None,
            Some(t) => Some(t.duplicate()),
        },
    }
}

/// The type of a conditional: that of its else block where that has one,
/// `Noting` otherwise.
pub fn typed_if_type(else_body: &Option<TypedBlock>) -> (r: TypedType)
    ensures
        (match *else_body {
            Some(b) => match block_type_spec(b.body@) {
                Some(t) => same_type(r, t),
                None => is_builtin_value(r, NOTING@),
            },
            None => is_builtin_value(r, NOTING@),
        }),
{
    match else_body {
        Some(b) => match b.type_() {
            Some(t) => t,
            None => TypedType::noting(),
        },
        None => TypedType::noting(),
    }
}

/// The integer types are exactly the signed and the unsigned ones, no type
/// is both, and every integer type is a primitive type that is neither a
/// floating point type nor a pointer.
pub proof fn law_integer_classification(t: TypedType)
    ensures
        is_one_of(t, integer_names()) <==> is_one_of(t, signed_integer_names()) || is_one_of(t, unsigned_integer_names()),
        !(is_one_of(t, signed_integer_names()) && is_one_of(t, unsigned_integer_names())),
        is_one_of(t, integer_names()) ==> is_one_of(t, builtin_names()),
        is_one_of(t, integer_names()) ==> !is_one_of(t, floating_point_names()),
        is_one_of(t, integer_names()) ==> !is_pointer(t),
{
    lemma_reveal_builtin_names();
    if is_one_of(t, integer_names()) {
        let i = choose|i: int| 0 <= i < integer_names().len() && is_builtin_value(t, #[trigger] integer_names()[i]);
        assert(builtin_names()[i] == integer_names()[i]);
        if i < 4 {
            assert(signed_integer_names()[i] == integer_names()[i]);
        } else {
            assert(unsigned_integer_names()[i - 4] == integer_names()[i]);
        }
    }
    if is_one_of(t, signed_integer_names()) {
        let i = choose|i: int| 0 <= i < signed_integer_names().len() && is_builtin_value(t, #[trigger] signed_integer_names()[i]);
        assert(integer_names()[i] == signed_integer_names()[i]);
    }
    if is_one_of(t, unsigned_integer_names()) {
        let i = choose|i: int| 0 <= i < unsigned_integer_names().len() && is_builtin_value(t, #[trigger] unsigned_integer_names()[i]);
        assert(integer_names()[i + 4] == unsigned_integer_names()[i]);
    }
}

/// No builtin type is a pointer, and no function, metatype or reference
/// type is a builtin type.
pub proof fn law_builtins_are_plain_values(t: TypedType)
    ensures
        is_pointer(t) ==> !is_one_of(t, builtin_names()),
        !(t is Value) ==> !is_one_of(t, builtin_names()),
{
    lemma_reveal_builtin_names();
}

/// A pointer type made by `TypedType::unsafe_pointer` is a pointer and
/// carries its pointee, so it is not a builtin type.
pub proof fn law_unsafe_pointer_is_pointer(t: TypedType, pointee: TypedType)
    requires
        t is Value,
        t->Value_0.package is Resolved,
        t->Value_0.package->Resolved_0.names@.len() == 0,
        t->Value_0.name@ == UNSAFE_POINTER@,
        t->Value_0.type_args is Some,
        t->Value_0.type_args->0@ == seq![pointee],
    ensures
        is_pointer(t),
        !is_one_of(t, builtin_names()),
{
}

/// The builtin names, as characters, are pairwise different and differ
/// from the pointer's name.
proof fn lemma_reveal_builtin_names()
    ensures
        builtin_names().no_duplicates(),
        !builtin_names().contains(UNSAFE_POINTER@),
        integer_names() == builtin_names().subrange(0, 8),
        floating_point_names() == builtin_names().subrange(8, 10),
{
    reveal_strlit("Noting");
    reveal_strlit("Unit");
    reveal_strlit("Int8");
    reveal_strlit("Int16");
    reveal_strlit("Int32");
    reveal_strlit("Int64");
    reveal_strlit("UInt8");
    reveal_strlit("UInt16");
    reveal_strlit("UInt32");
    reveal_strlit("UInt64");
    reveal_strlit("Float");
    reveal_strlit("Double");
    reveal_strlit("Bool");
    reveal_strlit("String");
    reveal_strlit("UnsafePointer");
    let b = builtin_names();
    assert(b =~= seq!["Int8"@, "Int16"@, "Int32"@, "Int64"@, "UInt8"@, "UInt16"@, "UInt32"@, "UInt64"@,
        "Float"@, "Double"@, "Noting"@, "Unit"@, "Bool"@, "String"@]);
    assert forall|i: int, j: int| 0 <= i < b.len() && 0 <= j < b.len() && i != j implies b[i] != b[j] by {
        if b[i] == b[j] {
            assert(b[i].len() == b[j].len());
            assert(b[i][0] == b[j][0]);
            assert(b[i][b[i].len() - 1] == b[j][b[j].len() - 1]);
            assert(b[i].len() > 3 ==> b[i][3] == b[j][3]);
            assert(b[i].len() > 2 ==> b[i][2] == b[j][2]);
            assert(b[i].len() > 1 ==> b[i][1] == b[j][1]);
        }
    }
    assert forall|i: int| 0 <= i < b.len() implies b[i] != UNSAFE_POINTER@ by {
        assert(UNSAFE_POINTER@.len() == 13);
    }
    assert(integer_names() =~= builtin_names().subrange(0, 8));
    assert(floating_point_names() =~= builtin_names().subrange(8, 10));
}

} // verus!
