use wiz::random::ascii_string;
use wiz::type_rules::{resolve_binop_type, subscript_type, typed_binop, typed_if_type, typed_literal_type};
use wiz::typed_expr::{TypedBinaryOperator, TypedExpr, TypedExprKind, TypedLiteralKind, TypedName};
use wiz::typed_stmt::{TypedBlock, TypedStmt};
use wiz::typed_type::{Package, TypedNamedValueType, TypedPackage, TypedType};

fn int_lit(v: &str, ty: Option<TypedType>) -> TypedExpr {
    TypedExpr::new(TypedExprKind::Literal(TypedLiteralKind::Integer(v.to_string())), ty)
}

fn name(n: &str, ty: Option<TypedType>) -> TypedExpr {
    TypedExpr::new(
        TypedExprKind::Name(TypedName {
            package: TypedPackage::Resolved(Package { names: vec![] }),
            name: n.to_string(),
            type_arguments: None,
        }),
        ty,
    )
}

#[test]
fn comparisons_are_boolean() {
    let r = resolve_binop_type(&TypedType::string(), &TypedBinaryOperator::LessThan, &TypedType::int8());
    assert_eq!(r, Ok(TypedType::bool()));
}

#[test]
fn arithmetic_needs_matching_numbers() {
    assert_eq!(
        resolve_binop_type(&TypedType::int32(), &TypedBinaryOperator::Add, &TypedType::int32()),
        Ok(TypedType::int32())
    );
    assert_eq!(
        resolve_binop_type(&TypedType::double(), &TypedBinaryOperator::Mul, &TypedType::double()),
        Ok(TypedType::double())
    );
    let p = TypedType::unsafe_pointer(TypedType::uint8());
    assert_eq!(resolve_binop_type(&p, &TypedBinaryOperator::Add, &TypedType::int64()), Ok(p.duplicate()));
    let err = resolve_binop_type(&TypedType::int32(), &TypedBinaryOperator::Sub, &TypedType::int64()).unwrap_err();
    assert_eq!(
        err.message(),
        format!(
            "({:?}, {:?}, {:?}) is not defined.",
            TypedBinaryOperator::Sub,
            TypedType::int32(),
            TypedType::int64()
        )
    );
    assert!(resolve_binop_type(&TypedType::bool(), &TypedBinaryOperator::Add, &TypedType::bool()).is_err());
}

#[test]
fn literal_types_default() {
    let int = TypedLiteralKind::Integer("1".to_string());
    assert_eq!(typed_literal_type(&int, None, None), Some(TypedType::int64()));
    assert_eq!(typed_literal_type(&int, None, Some(TypedType::int8())), Some(TypedType::int8()));
    assert_eq!(typed_literal_type(&int, Some(TypedType::uint8()), Some(TypedType::int8())), Some(TypedType::uint8()));
    let float = TypedLiteralKind::FloatingPoint("1.0".to_string());
    assert_eq!(typed_literal_type(&float, None, None), Some(TypedType::double()));
    assert_eq!(
        typed_literal_type(&TypedLiteralKind::String("s".to_string()), None, None),
        Some(TypedType::Reference(TypedNamedValueType::string()))
    );
    assert_eq!(
        typed_literal_type(&TypedLiteralKind::Boolean("true".to_string()), None, None),
        Some(TypedType::bool())
    );
    assert_eq!(typed_literal_type(&TypedLiteralKind::NullLiteral, None, Some(TypedType::int8())), Some(TypedType::int8()));
    assert_eq!(typed_literal_type(&TypedLiteralKind::NullLiteral, None, None), None);
}

#[test]
fn integer_literal_takes_the_left_type() {
    let (b, t) = typed_binop(name("x", Some(TypedType::int8())), TypedBinaryOperator::Add, int_lit("1", None)).unwrap();
    assert_eq!(b.right.ty, Some(TypedType::int8()));
    assert_eq!(t, Some(TypedType::int8()));
    let (b, t) = typed_binop(
        int_lit("1", Some(TypedType::int64())),
        TypedBinaryOperator::Equal,
        int_lit("2", Some(TypedType::int64())),
    )
    .unwrap();
    assert_eq!(b.right.ty, Some(TypedType::int64()));
    assert_eq!(t, Some(TypedType::bool()));
    let err = typed_binop(
        name("s", Some(TypedType::string())),
        TypedBinaryOperator::Add,
        int_lit("1", Some(TypedType::int64())),
    );
    assert!(err.is_err());
}

#[test]
fn subscript_types() {
    assert_eq!(subscript_type(&TypedType::string(), None), Some(TypedType::uint8()));
    assert_eq!(
        subscript_type(&TypedType::Reference(TypedNamedValueType::string()), None),
        Some(TypedType::uint8())
    );
    assert_eq!(
        subscript_type(&TypedType::unsafe_pointer(TypedType::int32()), None),
        Some(TypedType::int32())
    );
    assert_eq!(subscript_type(&TypedType::int32(), Some(TypedType::bool())), Some(TypedType::bool()));
}

#[test]
fn if_type_is_the_else_type() {
    assert_eq!(typed_if_type(&None), TypedType::noting());
    let else_body = TypedBlock { body: vec![TypedStmt::Expr(int_lit("1", Some(TypedType::int16())))] };
    assert_eq!(typed_if_type(&Some(else_body)), TypedType::int16());
    assert_eq!(typed_if_type(&Some(TypedBlock { body: vec![] })), TypedType::noting());
}

#[test]
fn random_strings_are_distinct_letters_and_digits() {
    let s = ascii_string(12);
    assert_eq!(s.len(), 12);
    assert!(s.chars().all(|c| c.is_ascii_alphanumeric()));
    let mut chars: Vec<char> = s.chars().collect();
    chars.sort();
    chars.dedup();
    assert_eq!(chars.len(), 12);
    assert_eq!(ascii_string(100).len(), 62);
    assert_eq!(ascii_string(0), "");
}
