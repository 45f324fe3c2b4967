use wiz::cli::{BuildType, Config, ConfigBuilder, ConfigExt, Emit, MessageFormat};
use wiz::driver_config;
use wiz::errors::{ArenaError, CheckerError, ResolverError};
use wiz::node_id::{ModuleId, NodeId, NodeIdGenerator};
use wiz::type_id::{TypeId, TypeIdGenerator};
use wiz::utils::{get_builtin_find_path, get_find_paths, path_string_to_page_name, push_component};

#[test]
fn test_path_string_to_page_name() {
    assert_eq!(path_string_to_page_name("../main.wiz"), "main");
    assert_eq!(path_string_to_page_name("main.wiz"), "main");
    assert_eq!(path_string_to_page_name("main"), "main");
    assert_eq!(path_string_to_page_name(""), "");
}

#[test]
fn page_name_of_nested_path() {
    assert_eq!(path_string_to_page_name("src/lib/io.wiz"), "io");
    assert_eq!(path_string_to_page_name("/"), "");
}

#[test]
fn builtin_find_path_is_below_home() {
    assert_eq!(get_builtin_find_path("/home/u"), "/home/u/.wiz/lib/src");
    assert_eq!(get_builtin_find_path("/home/u/"), "/home/u/.wiz/lib/src");
    assert_eq!(get_find_paths("/r"), vec![String::from("/r/.wiz/lib/src")]);
}

#[test]
fn push_component_adds_one_separator() {
    let mut p = String::new();
    push_component(&mut p, "a");
    assert_eq!(p, "a");
    push_component(&mut p, "b");
    assert_eq!(p, "a/b");
}

#[test]
fn build_type_names_round_trip() {
    assert_eq!(BuildType::all_str(), vec!["bin", "lib", "test"]);
    for name in BuildType::all_str() {
        assert_eq!(BuildType::from_name(name).as_str(), name);
    }
    assert_eq!(BuildType::from_name("lib"), BuildType::Library);
}

#[test]
fn emit_names() {
    assert_eq!(Emit::all_str(), vec!["llvm-ir", "object", "asm", "bin"]);
    assert_eq!(Emit::from_name("llvm-ir"), Emit::LlvmIr);
    assert_eq!(Emit::from_name("asm"), Emit::Assembly);
    assert_eq!(Emit::from_name("object"), Emit::Object);
    assert_eq!(Emit::from_name("exe"), Emit::Binary);
    assert_eq!(Emit::Object.as_str(), "object");
}

#[test]
fn message_format_names() {
    assert_eq!(MessageFormat::default(), MessageFormat::Normal);
    assert_eq!(MessageFormat::from_name("json"), MessageFormat::Json);
    assert_eq!(MessageFormat::from_name("text"), MessageFormat::Normal);
    assert_eq!(MessageFormat::Json.as_str(), "json");
}

#[test]
fn config_defaults() {
    let c = Config::default();
    assert_eq!(ConfigExt::input(&c), "");
    assert_eq!(ConfigExt::type_(&c), BuildType::Binary);
    assert_eq!(ConfigExt::message_format(&c), MessageFormat::Normal);
    assert_eq!(ConfigExt::name(&c), None);
    assert!(ConfigExt::paths(&c).is_empty());
}

#[test]
fn config_builder_sets_fields() {
    let c = Config::default()
        .input("main.wiz")
        .name("app")
        .type_(BuildType::Library)
        .output("out")
        .out_dir("target")
        .path("p1")
        .paths(&["p2", "p3"])
        .target_triple("x86_64")
        .library("std")
        .libraries(&["core"])
        .emit("asm")
        .message_format(MessageFormat::Json);
    assert_eq!(ConfigExt::input(&c), "main.wiz");
    assert_eq!(ConfigExt::name(&c), Some("app"));
    assert_eq!(ConfigExt::type_(&c), BuildType::Library);
    assert_eq!(ConfigExt::output(&c), Some(String::from("out")));
    assert_eq!(ConfigExt::out_dir(&c), Some(String::from("target")));
    assert_eq!(ConfigExt::paths(&c), vec!["p1", "p2", "p3"]);
    assert_eq!(ConfigExt::target_triple(&c), Some(String::from("x86_64")));
    assert_eq!(ConfigExt::libraries(&c), vec!["std", "core"]);
    assert_eq!(ConfigExt::emit(&c), Some(String::from("asm")));
    assert_eq!(ConfigExt::message_format(&c), MessageFormat::Json);
}

#[test]
fn config_as_args() {
    let c = Config::default()
        .input("main.wiz")
        .out_dir("target")
        .name("app")
        .type_(BuildType::Test)
        .libraries(&["std", "core"])
        .target_triple("wasm")
        .message_format(MessageFormat::Json);
    assert_eq!(
        c.as_args(),
        vec![
            "main.wiz",
            "--out-dir",
            "target",
            "--name",
            "app",
            "--type",
            "test",
            "--library",
            "std",
            "--library",
            "core",
            "--target-triple",
            "wasm",
            "--message-format",
            "json"
        ]
    );
    assert_eq!(Config::default().input("a").as_args(), vec!["a"]);
}

#[test]
fn driver_config_accessors() {
    let c = driver_config::Config {
        input: "main.wiz",
        name: None,
        type_: Some("bin"),
        output: Some("a.out"),
        out_dir: None,
        paths: vec![String::from("lib")],
        l: None,
    };
    assert_eq!(c.input(), "main.wiz");
    assert_eq!(c.output(), Some("a.out"));
    assert_eq!(c.out_dir(), None);
    assert_eq!(c.paths(), vec![String::from("lib")]);
}

#[test]
fn node_ids_count_up() {
    let mut g = NodeIdGenerator::new(ModuleId::new(3));
    assert_eq!(g.generate(), NodeId::new(ModuleId(3), 0));
    assert_eq!(g.generate(), NodeId::new(ModuleId(3), 1));
    let a = g.generate();
    let b = g.generate();
    assert_ne!(a, b);
}

#[test]
fn type_ids_increase() {
    let mut g = TypeIdGenerator::new(0);
    assert_eq!(g.next(), TypeId::new(1));
    assert_eq!(g.next(), TypeId(2));
    assert_eq!(g.latest, 2);
}

#[test]
fn error_texts() {
    assert_eq!(CheckerError::new("bad literal").message(), "bad literal");
    assert_eq!(
        ResolverError::from_message("x is not defined").display_text(),
        "ResolverError: x is not defined\n"
    );
    assert_eq!(ArenaError(String::from("dup")).message(), "dup");
}

#[test]
fn page_name_follows_the_file_stem_rule() {
    assert_eq!(path_string_to_page_name("a/b.tar.gz"), "b.tar");
    assert_eq!(path_string_to_page_name(".bashrc"), ".bashrc");
    assert_eq!(path_string_to_page_name("a."), "a");
    assert_eq!(path_string_to_page_name("dir/"), "dir");
    assert_eq!(path_string_to_page_name("a/./"), "a");
    assert_eq!(path_string_to_page_name("a/.."), "");
    assert_eq!(path_string_to_page_name("./"), "");
    assert_eq!(path_string_to_page_name("/"), "");
    assert_eq!(path_string_to_page_name("..."), "..");
}
