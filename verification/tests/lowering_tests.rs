use wiz::arena::ResolverArena;
use wiz::cli::{BuildType, Config, ConfigBuilder};
use wiz::lowering::{fun_arg_label_type_name_mangling, lower_type, HLIR2MLIR};
use wiz::format::Formatter;
use wiz::ml_expr::{MLCall, MLCallArg, MLExpr, MLLiteral, MLName};
use wiz::ml_type::{MLFunctionType, MLPrimitiveType, MLType, MLValueType};
use wiz::typed_annotation::TypedAnnotations;
use wiz::typed_expr::{TypedCall, TypedCallArg, TypedExpr, TypedExprKind, TypedInstanceMember, TypedLiteralKind, TypedName};
use wiz::typed_type::{Package, TypedArgDef, TypedFunctionType, TypedNamedValueType, TypedPackage, TypedType};

fn resolved(names: &[&str]) -> TypedPackage {
    TypedPackage::Resolved(Package { names: names.iter().map(|n| n.to_string()).collect() })
}

fn typed_name(package: &[&str], name: &str) -> TypedName {
    TypedName { package: resolved(package), name: name.to_string(), type_arguments: None }
}

fn named(package: &[&str], name: &str) -> TypedNamedValueType {
    TypedNamedValueType { package: resolved(package), name: name.to_string(), type_args: None }
}

#[test]
fn builtin_types_become_primitives_and_others_structs() {
    assert_eq!(
        lower_type(&TypedType::int32()),
        MLType::Value(MLValueType::Primitive(MLPrimitiveType::Int32))
    );
    assert_eq!(
        lower_type(&TypedType::Value(named(&["geo"], "Point"))),
        MLType::Value(MLValueType::Struct("geo::Point".to_string()))
    );
    assert_eq!(
        lower_type(&TypedType::Reference(named(&[], "Point"))),
        MLType::Value(MLValueType::Reference(Box::new(MLType::Value(MLValueType::Struct(
            "Point".to_string()
        )))))
    );
}

#[test]
fn value_name_is_mangled_with_its_package() {
    let arena = ResolverArena::default();
    let config = Config::default();
    let lowering = HLIR2MLIR::new(&config, &arena);
    assert_eq!(
        lowering.name(&typed_name(&[], "x"), &Some(TypedType::int32())),
        MLExpr::Name(MLName {
            name: "x".to_string(),
            type_: MLType::Value(MLValueType::Primitive(MLPrimitiveType::Int32)),
        })
    );
    assert_eq!(
        lowering.name(&typed_name(&["std", "io"], "x"), &Some(TypedType::int32())),
        MLExpr::Name(MLName {
            name: "std::io::x".to_string(),
            type_: MLType::Value(MLValueType::Primitive(MLPrimitiveType::Int32)),
        })
    );
}

#[test]
fn function_name_carries_its_argument_labels_and_types() {
    let arena = ResolverArena::default();
    let config = Config::default();
    let lowering = HLIR2MLIR::new(&config, &arena);
    let ty = TypedType::Function(Box::new(TypedFunctionType {
        arguments: vec![
            TypedArgDef { label: "a".to_string(), name: "a".to_string(), type_: TypedType::int32() },
            TypedArgDef { label: "_".to_string(), name: "b".to_string(), type_: TypedType::bool() },
        ],
        return_type: TypedType::unit(),
    }));
    assert_eq!(
        lowering.name(&typed_name(&["std"], "f"), &Some(ty)),
        MLExpr::Name(MLName {
            name: "std::f##a#Int32##_#Bool".to_string(),
            type_: MLType::Function(MLFunctionType {
                arguments: vec![
                    MLValueType::Primitive(MLPrimitiveType::Int32),
                    MLValueType::Primitive(MLPrimitiveType::Bool),
                ],
                return_type: MLValueType::Primitive(MLPrimitiveType::Unit),
            }),
        })
    );
}

#[test]
fn main_keeps_its_name_only_in_a_binary() {
    let arena = ResolverArena::default();
    let binary = Config::default();
    let library = ConfigBuilder::type_(Config::default(), BuildType::Library);
    let ty = Some(TypedType::Function(Box::new(TypedFunctionType {
        arguments: vec![],
        return_type: TypedType::unit(),
    })));
    let main_name = typed_name(&["app"], "main");
    match HLIR2MLIR::new(&binary, &arena).name(&main_name, &ty) {
        MLExpr::Name(n) => assert_eq!(n.name, "main"),
        other => panic!("{:?}", other),
    }
    match HLIR2MLIR::new(&library, &arena).name(&main_name, &ty) {
        MLExpr::Name(n) => assert_eq!(n.name, "app::main"),
        other => panic!("{:?}", other),
    }
}

#[test]
fn annotated_declaration_keeps_its_name() {
    let mut arena = ResolverArena::default();
    let root: [&str; 0] = [];
    arena.register_namespace(&root, "libc", Default::default()).unwrap();
    let ty = TypedType::Function(Box::new(TypedFunctionType {
        arguments: vec![TypedArgDef { label: "_".to_string(), name: "s".to_string(), type_: TypedType::int32() }],
        return_type: TypedType::unit(),
    }));
    arena
        .register_value(&["libc"], "puts", TypedType::unit(), TypedAnnotations::from(vec!["no_mangle"]))
        .unwrap();
    let config = Config::default();
    let lowering = HLIR2MLIR::new(&config, &arena);
    match lowering.name(&typed_name(&["libc"], "puts"), &Some(ty)) {
        MLExpr::Name(n) => assert_eq!(n.name, "puts"),
        other => panic!("{:?}", other),
    }
}

#[test]
fn type_name_becomes_a_struct_value() {
    let arena = ResolverArena::default();
    let config = Config::default();
    let lowering = HLIR2MLIR::new(&config, &arena);
    let mut n = typed_name(&[], "Point");
    n.type_arguments = Some(vec![TypedType::int32()]);
    assert_eq!(
        lowering.name(&n, &Some(TypedType::Type(named(&["geo"], "Point")))),
        MLExpr::Literal(MLLiteral::Struct { fields: vec![], type_: MLValueType::Struct("geo::Point<Int32>".to_string()) })
    );
    assert_eq!(
        MLLiteral::Struct { fields: vec![], type_: MLValueType::Struct("geo::Point".to_string()) }.to_text(),
        "geo::Point{}"
    );
}

#[test]
fn literals_keep_their_text_and_lower_their_type() {
    let arena = ResolverArena::default();
    let config = Config::default();
    let lowering = HLIR2MLIR::new(&config, &arena);
    assert_eq!(
        lowering.literal(&TypedLiteralKind::Integer("42".to_string()), &Some(TypedType::int32())),
        MLLiteral::Integer { value: "42".to_string(), type_: MLValueType::Primitive(MLPrimitiveType::Int32) }
    );
    assert_eq!(
        lowering.literal(&TypedLiteralKind::NullLiteral, &Some(TypedType::Value(named(&["p"], "T")))),
        MLLiteral::Null { type_: MLValueType::Struct("p::T".to_string()) }
    );
    let arg = lowering.arg_def(&TypedArgDef {
        label: "_".to_string(),
        name: "v".to_string(),
        type_: TypedType::bool(),
    });
    assert_eq!(arg.name, "v");
    assert_eq!(arg.type_, MLValueType::Primitive(MLPrimitiveType::Bool));
    assert_eq!(lowering.package_name_mangling(&resolved(&["a", "b"]), "f"), "a::b::f");
    assert_eq!(
        fun_arg_label_type_name_mangling(&vec![
            TypedArgDef { label: "x".to_string(), name: "x".to_string(), type_: TypedType::int32() },
            TypedArgDef { label: "y".to_string(), name: "y".to_string(), type_: TypedType::Value(named(&["m"], "P")) },
        ]),
        "x#Int32##y#m::P"
    );
}

fn fun_type(args: Vec<(&str, TypedType)>, ret: TypedType) -> TypedType {
    TypedType::Function(Box::new(TypedFunctionType {
        arguments: args
            .into_iter()
            .map(|(l, t)| TypedArgDef { label: l.to_string(), name: l.to_string(), type_: t })
            .collect(),
        return_type: ret,
    }))
}

fn int_arg(v: &str) -> TypedCallArg {
    TypedCallArg {
        label: None,
        arg: Box::new(TypedExpr::new(
            TypedExprKind::Literal(TypedLiteralKind::Integer(v.to_string())),
            Some(TypedType::int32()),
        )),
        is_vararg: false,
    }
}

fn int32() -> MLValueType {
    MLValueType::Primitive(MLPrimitiveType::Int32)
}

#[test]
fn call_of_a_function_name_lowers_callee_and_arguments() {
    let arena = ResolverArena::default();
    let config = Config::default();
    let lowering = HLIR2MLIR::new(&config, &arena);
    let f_type = fun_type(vec![("a", TypedType::int32())], TypedType::unit());
    let call = TypedCall {
        target: Box::new(TypedExpr::new(TypedExprKind::Name(typed_name(&["std"], "f")), Some(f_type))),
        args: vec![int_arg("1")],
    };
    let lowered = lowering.call(&call, &Some(TypedType::unit()));
    assert_eq!(
        lowered,
        MLExpr::Call(MLCall {
            target: MLName {
                name: "std::f##a#Int32".to_string(),
                type_: MLType::Function(MLFunctionType {
                    arguments: vec![int32()],
                    return_type: MLValueType::Primitive(MLPrimitiveType::Unit),
                }),
            },
            args: vec![MLCallArg {
                arg: MLExpr::Literal(MLLiteral::Integer { value: "1".to_string(), type_: int32() }),
            }],
            type_: MLValueType::Primitive(MLPrimitiveType::Unit),
        })
    );
    let mut f = Formatter::new(String::new());
    lowered.fmt(&mut f);
    assert_eq!(f.into_string(), "std::f##a#Int32(1)");
}

#[test]
fn method_call_passes_its_receiver_first() {
    let arena = ResolverArena::default();
    let config = Config::default();
    let lowering = HLIR2MLIR::new(&config, &arena);
    let point = TypedType::Value(named(&["geo"], "Point"));
    let receiver = TypedExpr::new(TypedExprKind::Name(typed_name(&[], "p")), Some(TypedType::Value(named(&["geo"], "Point"))));
    let member = TypedExpr::new(
        TypedExprKind::Member(TypedInstanceMember { target: Box::new(receiver), name: "scale".to_string(), is_safe: false }),
        Some(fun_type(vec![("by", TypedType::int32())], point)),
    );
    let call = TypedCall { target: Box::new(member), args: vec![int_arg("2")] };
    let lowered = lowering.call(&call, &Some(TypedType::Value(named(&["geo"], "Point"))));
    match &lowered {
        MLExpr::Call(c) => {
            assert_eq!(c.target.name, "geo::Point::scale##by#Int32");
            assert_eq!(c.args.len(), 2);
            assert_eq!(
                c.args[0].arg,
                MLExpr::Name(MLName {
                    name: "p".to_string(),
                    type_: MLType::Value(MLValueType::Struct("geo::Point".to_string())),
                })
            );
            assert_eq!(c.type_, MLValueType::Struct("geo::Point".to_string()));
        },
        other => panic!("{:?}", other),
    }
    let mut f = Formatter::new(String::new());
    lowered.fmt(&mut f);
    assert_eq!(f.into_string(), "geo::Point::scale##by#Int32(p, 2)");
}

#[test]
fn member_of_a_type_is_called_by_its_mangled_name() {
    let arena = ResolverArena::default();
    let config = Config::default();
    let lowering = HLIR2MLIR::new(&config, &arena);
    let ty_expr = TypedExpr::new(TypedExprKind::Name(typed_name(&[], "Point")), Some(TypedType::Type(named(&["geo"], "Point"))));
    let member = TypedExpr::new(
        TypedExprKind::Member(TypedInstanceMember { target: Box::new(ty_expr), name: "origin".to_string(), is_safe: false }),
        Some(fun_type(vec![], TypedType::Value(named(&["geo"], "Point")))),
    );
    let call = TypedCall { target: Box::new(member), args: vec![] };
    match lowering.call(&call, &Some(TypedType::Value(named(&["geo"], "Point")))) {
        MLExpr::Call(c) => {
            assert_eq!(c.target.name, "geo::Point::origin");
            assert!(c.args.is_empty());
        },
        other => panic!("{:?}", other),
    }
}

#[test]
fn call_of_a_type_builds_a_struct_value_from_its_labelled_arguments() {
    let arena = ResolverArena::default();
    let config = Config::default();
    let lowering = HLIR2MLIR::new(&config, &arena);
    let callee = TypedExpr::new(TypedExprKind::Name(typed_name(&[], "Point")), Some(TypedType::Type(named(&["geo"], "Point"))));
    let mut x = int_arg("1");
    x.label = Some("x".to_string());
    let mut y = int_arg("2");
    y.label = Some("y".to_string());
    let call = TypedCall { target: Box::new(callee), args: vec![x, y] };
    let lowered = lowering.call(&call, &Some(TypedType::Value(named(&["geo"], "Point"))));
    assert_eq!(
        lowered,
        MLExpr::Literal(MLLiteral::Struct {
            fields: vec![
                ("x".to_string(), MLExpr::Literal(MLLiteral::Integer { value: "1".to_string(), type_: int32() })),
                ("y".to_string(), MLExpr::Literal(MLLiteral::Integer { value: "2".to_string(), type_: int32() })),
            ],
            type_: MLValueType::Struct("geo::Point".to_string()),
        })
    );
    let mut f = Formatter::new(String::new());
    lowered.fmt(&mut f);
    assert_eq!(f.into_string(), "geo::Point{x: 1, y: 2}");
}
