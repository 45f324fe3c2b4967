use wiz::builder::{BuilderError, FunBuilder, MLIRModule};
use wiz::format::Formatter;
use wiz::ml_decl::{MLArgDef, MLDecl, MLField, MLFile, MLFun, MLFunBody, MLStruct};
use wiz::ml_expr::{
    MLAssignmentStmt, MLBlock, MLExpr, MLIf, MLLiteral, MLLoopStmt, MLName, MLReturn, MLStmt, MLVar,
};
use wiz::ml_type::{MLFunctionType, MLPrimitiveType, MLType, MLValueType};

fn int8() -> MLValueType {
    MLValueType::Primitive(MLPrimitiveType::Int8)
}

fn int_literal(v: &str) -> MLExpr {
    MLExpr::Literal(MLLiteral::Integer { value: v.to_string(), type_: int8() })
}

fn name(n: &str, t: MLValueType) -> MLExpr {
    MLExpr::Name(MLName { name: n.to_string(), type_: MLType::Value(t) })
}

fn render_with(width: usize, print: impl FnOnce(&mut Formatter)) -> String {
    let mut formatter = Formatter::new(String::new());
    formatter.indent_size(width);
    print(&mut formatter);
    formatter.into_string()
}

#[test]
fn test_format_indent_level() {
    let fun = MLFun {
        modifiers: vec![],
        name: "f".to_string(),
        arg_defs: vec![],
        return_type: MLValueType::Primitive(MLPrimitiveType::Noting),
        body: Some(MLFunBody {
            body: vec![MLStmt::Expr(MLExpr::Literal(MLLiteral::Integer {
                value: "0".to_string(),
                type_: MLValueType::Primitive(MLPrimitiveType::Int8),
            }))],
        }),
    };
    let mut formatter = Formatter::new(String::new());
    formatter.indent_size(2);
    fun.fmt(&mut formatter);
    assert_eq!(formatter.into_string(), String::from("fun f():Noting {\n  0;\n};"));
}

#[test]
fn formatter_indents_only_line_starts() {
    let out = render_with(3, |f| {
        f.write_str("a\n");
        f.indent_level_up();
        f.write_str("b\n\nc");
        f.indent_level_down();
        f.write_str("\nd");
    });
    assert_eq!(out, "a\n   b\n\n   c\nd");
}

#[test]
fn formatter_writes_after_initial_text() {
    let mut f = Formatter::new(String::from("x"));
    f.write_char('y');
    assert_eq!(f.as_str(), "xy");
}

#[test]
fn nested_blocks_indent_twice() {
    let inner = MLExpr::Block(MLBlock { body: vec![MLStmt::Expr(int_literal("1"))] });
    let outer = MLBlock { body: vec![MLStmt::Expr(inner)] };
    let out = render_with(2, |f| outer.fmt(f));
    assert_eq!(out, "{\n  {\n    1;\n  };\n}");
}

#[test]
fn if_else_and_loop_print() {
    let cond = name("c", MLValueType::Primitive(MLPrimitiveType::Bool));
    let i = MLIf {
        condition: Box::new(cond),
        body: MLBlock { body: vec![MLStmt::Expr(int_literal("1"))] },
        else_body: Some(MLBlock { body: vec![] }),
        type_: int8(),
    };
    assert_eq!(render_with(4, |f| i.fmt(f)), "if (c) {\n    1;\n} else {\n}");
    let l = MLLoopStmt {
        condition: name("c", MLValueType::Primitive(MLPrimitiveType::Bool)),
        block: MLBlock {
            body: vec![MLStmt::Assignment(MLAssignmentStmt {
                target: name("x", int8()),
                value: int_literal("2"),
            })],
        },
    };
    assert_eq!(render_with(1, |f| l.fmt(f)), "while (c) {\n x = 2;\n}");
}

#[test]
fn var_and_return_print() {
    let v = MLVar {
        is_mute: true,
        name: "x".to_string(),
        type_: MLType::Value(MLValueType::Pointer(Box::new(MLType::Value(int8())))),
        value: int_literal("3"),
    };
    assert_eq!(render_with(4, |f| v.fmt(f)), "var x:*Int8 = 3");
    let r = MLReturn::new(MLExpr::Literal(MLLiteral::String {
        value: "hi".to_string(),
        type_: MLValueType::Primitive(MLPrimitiveType::String),
    }));
    assert_eq!(render_with(4, |f| r.fmt(f)), "return \"hi\"");
    assert_eq!(r.type_(), MLValueType::Primitive(MLPrimitiveType::Noting));
    let empty = MLReturn { value: None };
    assert_eq!(render_with(4, |f| empty.fmt(f)), "return ");
}

#[test]
fn function_type_text() {
    let t = MLType::Function(MLFunctionType {
        arguments: vec![int8(), MLValueType::Struct("P".to_string())],
        return_type: MLValueType::Primitive(MLPrimitiveType::Unit),
    });
    assert_eq!(t.to_text(), "(Int8, P)->Unit");
}

#[test]
fn block_type_is_last_expression_type() {
    let b = MLBlock { body: vec![MLStmt::Expr(int_literal("1"))] };
    assert_eq!(b.type_(), MLType::Value(int8()));
    let empty = MLBlock { body: vec![] };
    assert_eq!(empty.type_(), MLType::Value(MLValueType::Primitive(MLPrimitiveType::Unit)));
    let ends_in_var = MLBlock {
        body: vec![MLStmt::Var(MLVar {
            is_mute: false,
            name: "v".to_string(),
            type_: MLType::Value(int8()),
            value: int_literal("1"),
        })],
    };
    assert_eq!(ends_in_var.type_(), MLType::Value(MLValueType::Primitive(MLPrimitiveType::Unit)));
}

#[test]
fn fun_builder_round_trip() {
    let f = MLFun {
        modifiers: vec!["extern".to_string()],
        name: "g".to_string(),
        arg_defs: vec![MLArgDef { name: "a".to_string(), type_: int8() }],
        return_type: int8(),
        body: Some(MLFunBody { body: vec![MLStmt::Expr(int_literal("5"))] }),
    };
    let expected = MLFun {
        modifiers: vec!["extern".to_string()],
        name: "g".to_string(),
        arg_defs: vec![MLArgDef { name: "a".to_string(), type_: int8() }],
        return_type: int8(),
        body: Some(MLFunBody { body: vec![MLStmt::Expr(int_literal("5"))] }),
    };
    let b = FunBuilder::from_fun(f);
    assert_eq!(b.name(), "g");
    assert_eq!(b.build(), expected);
    let d = FunBuilder::new("h".to_string(), vec![], int8()).build();
    assert_eq!(d.body, None);
    assert!(d.modifiers.is_empty());
}

#[test]
fn create_function_hands_back_only_replacements() {
    let mut m = MLIRModule::new();
    assert!(m.create_function("f".to_string(), vec![], int8()).is_none());
    assert!(m.get_function(&"f".to_string()).is_some());
    let again = m.create_function("f".to_string(), vec![], MLValueType::Primitive(MLPrimitiveType::Unit));
    assert_eq!(again.map(|b| b.name().clone()), Some("f".to_string()));
    assert!(m.get_function(&"g".to_string()).is_none());
    let file = m.to_mlir_file("m".to_string());
    assert_eq!(file.body.len(), 1);
    match &file.body[0] {
        MLDecl::Fun(f) => assert_eq!(f.return_type, MLValueType::Primitive(MLPrimitiveType::Unit)),
        _ => panic!("expected a function"),
    }
}

#[test]
fn structs_and_globals() {
    let mut m = MLIRModule::new();
    assert!(m
        .create_struct("S".to_string(), vec![MLField { name: "a".to_string(), type_: int8() }])
        .is_none());
    assert_eq!(m.get_struct(&"S".to_string()).map(|s| s.fields.len()), Some(1));
    assert!(m.create_global_var("g".to_string(), int_literal("7")).is_none());
    let v = m.get_global_var(&"g".to_string()).unwrap();
    assert!(!v.is_mute);
    assert_eq!(v.type_, MLType::Value(int8()));
    m.add_function("main".to_string(), vec![], int8());
    let file = m.to_mlir_file("m".to_string());
    assert_eq!(file.name, "m");
    assert_eq!(file.body.len(), 3);
    assert!(matches!(file.body[0], MLDecl::Struct(_)));
    assert!(matches!(file.body[1], MLDecl::Var(_)));
    assert!(matches!(file.body[2], MLDecl::Fun(_)));
    let out = render_with(2, |f| file.fmt(f));
    assert_eq!(out, "struct S {\n  a:Int8;\n};\nval g:Int8 = 7;\nfun main():Int8;\n");
}

#[test]
fn build_return_needs_a_current_function() {
    let mut m = MLIRModule::new();
    assert_eq!(m.build_return(None), Err(BuilderError("Build target not set".to_string())));
    m.add_function("main".to_string(), vec![], int8());
    assert_eq!(m.build_return(None), Ok(()));
}

#[test]
fn file_prints_each_declaration_on_a_line() {
    let file = MLFile {
        name: "f".to_string(),
        body: vec![MLDecl::Struct(MLStruct { name: "E".to_string(), fields: vec![] })],
    };
    assert_eq!(render_with(4, |f| file.fmt(f)), "struct E {\n};\n");
}

#[test]
fn level_up_indents_the_next_line_start_only() {
    let mut formatter = Formatter::new(String::from("a"));
    formatter.indent_level_up();
    formatter.write_str("\n\nx");
    assert_eq!(formatter.into_string(), String::from("a\n\n    x"));
}

#[test]
fn a_name_is_held_once_and_added_function_is_the_build_target() {
    let mut module = MLIRModule::new();
    assert!(module.build_return(None).is_err());
    module.add_function("f".to_string(), vec![], int8());
    module.add_function("f".to_string(), vec![], MLValueType::Primitive(MLPrimitiveType::Bool));
    assert!(module.get_function(&"f".to_string()).is_some());
    assert!(module.build_return(None).is_ok());
    let file = module.to_mlir_file("m".to_string());
    assert_eq!(file.body.len(), 1);
    match &file.body[0] {
        MLDecl::Fun(f) => assert_eq!(f.return_type, MLValueType::Primitive(MLPrimitiveType::Bool)),
        other => panic!("{:?}", other),
    }
}
