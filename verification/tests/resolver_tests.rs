use wiz::arena::ResolverArena;
use wiz::resolver::{usize_text, TypeResolver};
use wiz::typed_expr::{TypedCall, TypedCallArg, TypedExpr, TypedExprKind, TypedLiteralKind, TypedName};
use wiz::typed_type::{Package, TypedArgDef, TypedFunctionType, TypedNamedValueType, TypedPackage, TypedType};

fn root() -> TypedPackage {
    TypedPackage::Resolved(Package { names: vec![] })
}

fn name_expr(n: &str, ty: TypedType) -> TypedExpr {
    TypedExpr::new(TypedExprKind::Name(TypedName { package: root(), name: n.to_string(), type_arguments: None }), Some(ty))
}

fn int_arg(v: &str) -> TypedCallArg {
    TypedCallArg {
        label: None,
        arg: Box::new(TypedExpr::new(TypedExprKind::Literal(TypedLiteralKind::Integer(v.to_string())), None)),
        is_vararg: false,
    }
}

fn f_type() -> TypedType {
    TypedType::Function(Box::new(TypedFunctionType {
        arguments: vec![TypedArgDef { label: "a".to_string(), name: "a".to_string(), type_: TypedType::int32() }],
        return_type: TypedType::bool(),
    }))
}

fn point() -> TypedNamedValueType {
    TypedNamedValueType { package: root(), name: "Point".to_string(), type_args: None }
}

#[test]
fn numbers_are_written_in_decimal() {
    assert_eq!(usize_text(0), "0");
    assert_eq!(usize_text(7), "7");
    assert_eq!(usize_text(1234), "1234");
}

#[test]
fn function_call_resolves_arguments_against_parameters() {
    let arena = ResolverArena::default();
    let resolver = TypeResolver::new(&arena);
    let call = TypedCall { target: Box::new(name_expr("f", f_type())), args: vec![int_arg("1")] };
    let (resolved, ty) = resolver.typed_call(call).unwrap();
    assert_eq!(ty, Some(TypedType::bool()));
    assert_eq!(resolved.args[0].arg.ty, Some(TypedType::int32()));
    assert_eq!(*resolved.target, name_expr("f", f_type()));
}

#[test]
fn function_call_with_wrong_arity_is_refused() {
    let arena = ResolverArena::default();
    let resolver = TypeResolver::new(&arena);
    let call = TypedCall { target: Box::new(name_expr("f", f_type())), args: vec![int_arg("1"), int_arg("2")] };
    let err = resolver.typed_call(call).unwrap_err();
    assert_eq!(
        err.message,
        format!("{:?} required 1 arguments, but 2 were given.", name_expr("f", f_type()))
    );
}

#[test]
fn struct_call_resolves_against_stored_properties() {
    let mut arena = ResolverArena::default();
    let root_ns: [&str; 0] = [];
    arena.register_struct(&root_ns, "Point", Default::default()).unwrap();
    let p = arena.get_type_mut(&root_ns, "Point").unwrap();
    p.stored_properties.push(("x".to_string(), TypedType::int32()));
    p.stored_properties.push(("y".to_string(), TypedType::int64()));
    let resolver = TypeResolver::new(&arena);
    let call = TypedCall { target: Box::new(name_expr("Point", TypedType::Type(point()))), args: vec![int_arg("1"), int_arg("2")] };
    let (resolved, ty) = resolver.typed_call(call).unwrap();
    assert_eq!(ty, Some(TypedType::Value(point())));
    assert_eq!(resolved.args[0].arg.ty, Some(TypedType::int32()));
    assert_eq!(resolved.args[1].arg.ty, Some(TypedType::int64()));
    let short = TypedCall { target: Box::new(name_expr("Point", TypedType::Type(point()))), args: vec![int_arg("1")] };
    assert_eq!(
        resolver.typed_call(short).unwrap_err().message,
        "`Point` required 2 arguments, but 1 were given."
    );
}

#[test]
fn values_and_literals_are_not_callable() {
    let arena = ResolverArena::default();
    let resolver = TypeResolver::new(&arena);
    let call = TypedCall { target: Box::new(name_expr("x", TypedType::int32())), args: vec![] };
    assert_eq!(
        resolver.typed_call(call).unwrap_err().message,
        format!("{:?} is not callable.", name_expr("x", TypedType::int32()))
    );
    let lit = TypedCall { target: Box::new(TypedExpr::new(TypedExprKind::Literal(TypedLiteralKind::Integer("1".to_string())), None)), args: vec![] };
    assert_eq!(
        resolver.typed_call(lit).unwrap_err().message,
        format!("{:?} is not callable.", TypedType::int64())
    );
}
