use wiz::arena::ResolverArena;
use wiz::errors::CheckerError;
use wiz::type_checker::TypeChecker;
use wiz::typed_annotation::TypedAnnotations;
use wiz::typed_debug::opt_type_debug;
use wiz::typed_decl::{TypedDecl, TypedFun, TypedFunBody, TypedMemberFunction, TypedStruct, TypedVar};
use wiz::typed_expr::{
    TypedArray, TypedBinOp, TypedBinaryOperator, TypedCall, TypedCallArg, TypedExpr, TypedExprKind, TypedIf,
    TypedLiteralKind, TypedName, TypedReturn,
};
use wiz::typed_file::{TypedFile, TypedSourceSet};
use wiz::typed_stmt::{
    TypedAssignment, TypedAssignmentStmt, TypedBlock, TypedLoopStmt, TypedStmt, TypedWhileLoopStmt,
};
use wiz::typed_type::{Package, TypedArgDef, TypedFunctionType, TypedNamedValueType, TypedPackage, TypedType};

fn global() -> TypedPackage {
    TypedPackage::Resolved(Package { names: vec![] })
}

fn int_lit(v: &str, ty: Option<TypedType>) -> TypedExpr {
    TypedExpr::new(TypedExprKind::Literal(TypedLiteralKind::Integer(v.to_string())), ty)
}

fn name(n: &str, ty: Option<TypedType>) -> TypedExpr {
    TypedExpr::new(
        TypedExprKind::Name(TypedName { package: global(), name: n.to_string(), type_arguments: None }),
        ty,
    )
}

fn string_ref() -> TypedType {
    TypedType::Reference(TypedNamedValueType::string())
}

fn messages(errors: &[CheckerError]) -> Vec<String> {
    errors.iter().map(|e| e.message().to_string()).collect()
}

fn check(decls: Vec<TypedDecl>) -> Vec<String> {
    let arena = ResolverArena::default();
    let mut checker = TypeChecker::new(&arena);
    let file = TypedSourceSet::File(TypedFile { name: "main".to_string(), uses: vec![], body: decls });
    checker.verify(&file);
    messages(checker.errors())
}

fn var(n: &str, ty: Option<TypedType>, value: TypedExpr) -> TypedDecl {
    TypedDecl::Var(TypedVar {
        annotations: TypedAnnotations::default(),
        package: global(),
        is_mut: false,
        name: n.to_string(),
        type_: ty,
        value,
    })
}

fn fun(n: &str, body: TypedFunBody, ret: Option<TypedType>) -> TypedDecl {
    TypedDecl::Fun(TypedFun {
        annotations: TypedAnnotations::default(),
        package: global(),
        modifiers: vec![],
        name: n.to_string(),
        type_params: None,
        arg_defs: vec![],
        body: Some(body),
        return_type: ret,
    })
}

#[test]
fn debug_text_matches_derived_debug() {
    let t = TypedType::Function(Box::new(TypedFunctionType {
        arguments: vec![TypedArgDef { label: "a\"b".to_string(), name: "x".to_string(), type_: TypedType::int8() }],
        return_type: TypedType::Value(TypedNamedValueType {
            package: TypedPackage::Raw(Package { names: vec!["p".to_string(), "q".to_string()] }),
            name: "T".to_string(),
            type_args: Some(vec![TypedType::bool(), string_ref()]),
        }),
    }));
    assert_eq!(t.debug_text(), format!("{:?}", t));
    let some = Some(TypedType::unit());
    assert_eq!(opt_type_debug(&some), format!("{:?}", some));
    assert_eq!(opt_type_debug(&None), "None");
}

#[test]
fn well_typed_literals_pass() {
    let errors = check(vec![
        var("a", Some(TypedType::int64()), int_lit("1", Some(TypedType::int64()))),
        var(
            "b",
            Some(TypedType::double()),
            TypedExpr::new(
                TypedExprKind::Literal(TypedLiteralKind::FloatingPoint("1.5".to_string())),
                Some(TypedType::double()),
            ),
        ),
        var(
            "c",
            Some(string_ref()),
            TypedExpr::new(TypedExprKind::Literal(TypedLiteralKind::String("s".to_string())), Some(string_ref())),
        ),
        var(
            "d",
            Some(TypedType::bool()),
            TypedExpr::new(
                TypedExprKind::Literal(TypedLiteralKind::Boolean("true".to_string())),
                Some(TypedType::bool()),
            ),
        ),
    ]);
    assert!(errors.is_empty(), "{:?}", errors);
}

#[test]
fn literal_errors_are_reported() {
    let errors = check(vec![
        var("a", Some(TypedType::bool()), int_lit("1", Some(TypedType::bool()))),
        var("b", None, int_lit("2", None)),
        var(
            "c",
            Some(TypedType::string()),
            TypedExpr::new(
                TypedExprKind::Literal(TypedLiteralKind::String("s".to_string())),
                Some(TypedType::string()),
            ),
        ),
        var("d", None, TypedExpr::new(TypedExprKind::Literal(TypedLiteralKind::NullLiteral), None)),
    ]);
    assert_eq!(
        errors,
        vec![
            "Invalid literal type of \"1\"".to_string(),
            "Can not resolve literal type of \"2\"".to_string(),
            "Invalid literal type of \"s\"".to_string(),
            "Can not resolve literal type of null".to_string(),
        ]
    );
}

#[test]
fn variable_type_mismatch() {
    let errors = check(vec![var("a", Some(TypedType::int8()), int_lit("1", Some(TypedType::int64())))]);
    assert_eq!(
        errors,
        vec![format!(
            "TypeMissMatchError: left -> {:?}, right -> {:?}",
            Some(TypedType::int8()),
            Some(TypedType::int64())
        )]
    );
}

#[test]
fn function_return_mismatch_and_unresolved_name() {
    let errors = check(vec![
        fun("f", TypedFunBody::Expr(name("x", None)), Some(TypedType::unit())),
        fun("g", TypedFunBody::Expr(int_lit("1", Some(TypedType::int64()))), Some(TypedType::int64())),
    ]);
    assert_eq!(
        errors,
        vec![
            "Can not resolve name \"x\"".to_string(),
            format!("TypeMissMatchError: \"f\" excepted return {:?}, but return None", Some(TypedType::unit())),
        ]
    );
}

#[test]
fn block_statements_are_checked() {
    let body = TypedBlock {
        body: vec![
            TypedStmt::Assignment(TypedAssignmentStmt::Assignment(TypedAssignment {
                target: name("x", Some(TypedType::int8())),
                value: int_lit("1", Some(TypedType::int16())),
            })),
            TypedStmt::Loop(TypedLoopStmt::While(TypedWhileLoopStmt {
                condition: name("c", Some(TypedType::int8())),
                block: TypedBlock { body: vec![TypedStmt::Expr(name("y", None))] },
            })),
            TypedStmt::Expr(TypedExpr::new(
                TypedExprKind::Return(TypedReturn { value: Some(Box::new(int_lit("3", None))) }),
                None,
            )),
        ],
    };
    let errors = check(vec![fun("main", TypedFunBody::Block(body), Some(TypedType::unit()))]);
    assert_eq!(
        errors,
        vec![
            format!(
                "TypeMissMatchError: assignment {:?}, into {:?}",
                Some(TypedType::int16()),
                Some(TypedType::int8())
            ),
            format!("while condition must be boolean, but {:?}", Some(TypedType::int8())),
            "Can not resolve name \"y\"".to_string(),
            "Can not resolve literal type of \"3\"".to_string(),
        ]
    );
}

#[test]
fn if_with_boolean_condition_is_reported() {
    let cond = name("c", Some(TypedType::bool()));
    let i = TypedExpr::new(
        TypedExprKind::If(TypedIf {
            condition: Box::new(cond),
            body: TypedBlock { body: vec![] },
            else_body: Some(TypedBlock { body: vec![TypedStmt::Expr(name("z", None))] }),
        }),
        None,
    );
    let errors = check(vec![fun("f", TypedFunBody::Block(TypedBlock { body: vec![TypedStmt::Expr(i)] }), None)]);
    assert_eq!(
        errors,
        vec![
            format!("if condition type must be boolean, but {:?} ware given", Some(TypedType::bool())),
            "Can not resolve name \"z\"".to_string(),
        ]
    );
}

#[test]
fn array_elements_and_call_arguments() {
    let array = TypedExpr::new(
        TypedExprKind::Array(TypedArray {
            elements: vec![int_lit("1", Some(TypedType::int64())), int_lit("2", Some(TypedType::int8()))],
            type_: Some(TypedType::int64()),
        }),
        None,
    );
    let call = TypedExpr::new(
        TypedExprKind::Call(TypedCall {
            target: Box::new(name("f", None)),
            args: vec![TypedCallArg { label: None, arg: Box::new(name("a", None)), is_vararg: false }],
        }),
        None,
    );
    let sum = TypedExpr::new(
        TypedExprKind::BinOp(TypedBinOp {
            left: Box::new(name("l", None)),
            operator: TypedBinaryOperator::Add,
            right: Box::new(int_lit("4", None)),
        }),
        None,
    );
    let errors = check(vec![
        var("a", None, array),
        var("b", None, call),
        var("c", None, sum),
    ]);
    assert_eq!(
        errors,
        vec![
            format!(
                "TypeMissMatchError: Array element excepted {:?}, but {:?} found",
                Some(TypedType::int64()),
                Some(TypedType::int8())
            ),
            "Can not resolve name \"a\"".to_string(),
            "Can not resolve name \"l\"".to_string(),
            "Can not resolve literal type of \"4\"".to_string(),
        ]
    );
}

#[test]
fn structs_are_looked_up_in_the_arena() {
    let st = |n: &str, members: Vec<TypedMemberFunction>| {
        TypedDecl::Struct(TypedStruct {
            annotations: TypedAnnotations::default(),
            package: global(),
            name: n.to_string(),
            type_params: None,
            initializers: vec![],
            stored_properties: vec![],
            computed_properties: vec![],
            member_functions: members,
        })
    };
    let member = TypedMemberFunction {
        name: "m".to_string(),
        type_params: None,
        arg_defs: vec![],
        body: Some(TypedFunBody::Expr(name("q", None))),
        return_type: None,
    };
    let errors = check(vec![st("Int64", vec![]), st("Foo", vec![member])]);
    assert_eq!(
        errors,
        vec!["unknown identifier Foo".to_string(), "Can not resolve name \"q\"".to_string()]
    );
}

#[test]
fn directories_are_checked_item_by_item() {
    let arena = ResolverArena::default();
    let mut checker = TypeChecker::new(&arena);
    let file = |n: &str, v: &str| {
        TypedSourceSet::File(TypedFile {
            name: n.to_string(),
            uses: vec![],
            body: vec![var("a", None, name(v, None))],
        })
    };
    let dir = TypedSourceSet::Dir { name: "d".to_string(), items: vec![file("x", "p"), file("y", "q")] };
    checker.verify(&dir);
    assert_eq!(
        messages(&checker.into_errors()),
        vec!["Can not resolve name \"p\"".to_string(), "Can not resolve name \"q\"".to_string()]
    );
}

fn named_file(name: &str) -> TypedFile {
    TypedFile { name: name.to_string(), uses: vec![], body: vec![] }
}

#[test]
fn source_sets_are_ordered_by_name() {
    let a = named_file("abc");
    let b = named_file("abd");
    let c = named_file("ab");
    assert_eq!(a.cmp(&b), std::cmp::Ordering::Less);
    assert_eq!(b.cmp(&a), std::cmp::Ordering::Greater);
    assert_eq!(c.cmp(&a), std::cmp::Ordering::Less);
    assert_eq!(a.cmp(&named_file("abc")), std::cmp::Ordering::Equal);
    assert_eq!(c.partial_cmp(&b), Some(std::cmp::Ordering::Less));
    let dir = TypedSourceSet::Dir { name: "zeta".to_string(), items: vec![] };
    let file = TypedSourceSet::File(named_file("alpha"));
    assert_eq!(file.cmp(&dir), std::cmp::Ordering::Less);
    assert_eq!(dir.partial_cmp(&file), Some(std::cmp::Ordering::Greater));
}

#[test]
fn extension_member_bodies_are_checked() {
    let member = TypedMemberFunction {
        name: "f".to_string(),
        type_params: None,
        arg_defs: vec![],
        body: Some(TypedFunBody::Expr(name("missing", None))),
        return_type: None,
    };
    let ext = TypedDecl::Extension(wiz::typed_decl::TypedExtension {
        name: TypedType::int32(),
        protocol: None,
        computed_properties: vec![],
        member_functions: vec![member],
    });
    assert_eq!(check(vec![ext]), vec!["Can not resolve name \"missing\"".to_string()]);
}
