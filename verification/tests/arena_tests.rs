use wiz::arena::{DeclarationId, DeclarationItem, DeclarationItemKind, ResolverArena};
use wiz::typed_type::{TypedArgDef, TypedFunctionType, TypedType};

#[test]
fn resolve_root_namespace() {
    let arena = ResolverArena::default();

    let namespace_name: [&str; 0] = [];

    let ns_id = arena.resolve_namespace_from_root(&namespace_name);
    assert_eq!(DeclarationId::root(), ns_id.unwrap())
}

#[test]
fn resolve_child_namespace() {
    let mut arena = ResolverArena::default();
    let root_namespace: [&str; 0] = [];
    let std_namespace_name = "std";

    let std_namespace_id =
        arena.register_namespace(&root_namespace, std_namespace_name, Default::default());

    let ns_id = arena.resolve_namespace_from_root(&[std_namespace_name]);

    assert_eq!(std_namespace_id.unwrap(), ns_id.unwrap());
}

#[test]
fn resolve_grandchildren_namespace() {
    let mut arena = ResolverArena::default();
    let root_namespace: [&str; 0] = [];
    let child_namespace_name = "std";
    let grandchildren_namespace_name = "collections";

    arena
        .register_namespace(&root_namespace, child_namespace_name, Default::default())
        .unwrap();
    let std_collections_id = arena.register_namespace(
        &[child_namespace_name],
        grandchildren_namespace_name,
        Default::default(),
    );

    let ns_id =
        arena.resolve_namespace_from_root(&[child_namespace_name, grandchildren_namespace_name]);

    assert_eq!(std_collections_id, ns_id);
}

#[test]
fn register() {
    let mut arena = ResolverArena::default();
    let root_namespace: [&str; 0] = [];
    let child_namespace_name = "std";
    let grandchildren_namespace_name = "collections";
    let struct_name = "Type";
    let member_function_name = "member_function";

    arena.register_namespace(&root_namespace, child_namespace_name, Default::default());
    arena.register_namespace(
        &[child_namespace_name],
        grandchildren_namespace_name,
        Default::default(),
    );
    let type_id = arena.register_struct(
        &[child_namespace_name, grandchildren_namespace_name],
        struct_name,
        Default::default(),
    );

    let member_function_id = arena.register_value(
        &[
            child_namespace_name,
            grandchildren_namespace_name,
            struct_name,
        ],
        member_function_name,
        TypedType::Function(Box::new(TypedFunctionType {
            arguments: vec![TypedArgDef {
                label: "self".to_string(),
                name: "self".to_string(),
                type_: TypedType::unit(),
            }],
            return_type: TypedType::unit(),
        })),
        Default::default(),
    );

    assert_eq!(
        type_id.unwrap(),
        arena
            .resolve_declaration_id_from_root(&[
                child_namespace_name,
                grandchildren_namespace_name,
                struct_name
            ])
            .unwrap()
    );

    assert_eq!(
        member_function_id.unwrap(),
        arena
            .resolve_declaration_id_from_root(&[
                child_namespace_name,
                grandchildren_namespace_name,
                struct_name,
                member_function_name
            ])
            .unwrap()
    );
}

#[test]
fn register_duplicate_namespace() {
    let mut arena = ResolverArena::default();
    let root_namespace: [&str; 0] = [];
    let child_namespace_name = "std";
    let grandchildren_namespace_name = "collections";
    let struct_name = "Type";

    arena.register_namespace(&root_namespace, child_namespace_name, Default::default());
    arena.register_namespace(
        &[child_namespace_name],
        grandchildren_namespace_name,
        Default::default(),
    );
    arena.register_struct(
        &[child_namespace_name, grandchildren_namespace_name],
        struct_name,
        Default::default(),
    );
    let none = arena.register_namespace(&root_namespace, child_namespace_name, Default::default());

    assert_eq!(none, None);
}

#[test]
fn get() {
    let mut arena = ResolverArena::default();
    let root_namespace: [&str; 0] = [];
    let std_namespace_name = "std";

    arena
        .register_namespace(&root_namespace, std_namespace_name, Default::default())
        .unwrap();

    let std_namespace = arena.get(&root_namespace, std_namespace_name);

    assert_eq!(
        DeclarationItem::new(
            Default::default(),
            std_namespace_name,
            DeclarationItemKind::Namespace,
            Some(DeclarationId::root()),
        ),
        *std_namespace.unwrap()
    )
}

#[test]
fn resolve_fully_qualified_name() {
    let mut arena = ResolverArena::default();
    let root_namespace: [&str; 0] = [];
    let child_namespace_name = "std";
    let grandchildren_namespace_name = "collections";

    arena.register_namespace(&root_namespace, child_namespace_name, Default::default());
    arena.register_namespace(
        &[child_namespace_name],
        grandchildren_namespace_name,
        Default::default(),
    );

    let ns_id =
        arena.resolve_namespace_from_root(&[child_namespace_name, grandchildren_namespace_name]);

    assert_eq!(
        arena.resolve_fully_qualified_name(&ns_id.unwrap()),
        ["std", "collections"]
    )
}

#[test]
fn builtin_types_are_registered_at_the_root() {
    let arena = ResolverArena::default();
    let root: [&str; 0] = [];
    let int32 = arena.get_type(&root, "Int32").unwrap();
    assert!(int32.kind.is_struct());
    assert_eq!(int32.self_, TypedType::int32());
    assert!(arena.get(&root, "NoSuchType").is_none());
}

#[test]
fn struct_can_share_a_name_a_namespace_cannot() {
    let mut arena = ResolverArena::default();
    let root: [&str; 0] = [];
    let first = arena.register_struct(&root, "S", Default::default()).unwrap();
    let second = arena.register_struct(&root, "S", Default::default()).unwrap();
    assert_ne!(first, second);
    // the first registration under a name is the one that resolves
    assert_eq!(arena.resolve_declaration_id_from_root(&["S"]), Some(first));
    assert_eq!(arena.register_namespace(&root, "S", Default::default()), None);
    // namespaces cannot be resolved through a struct
    assert_eq!(arena.register_namespace(&["S"], "inner", Default::default()).is_some(), true);
    assert_eq!(arena.resolve_namespace_from_root(&["S", "inner"]), None);
    assert_eq!(arena.register_namespace(&["missing"], "x", Default::default()), None);
}

#[test]
fn fully_qualified_name_of_registered_value() {
    let mut arena = ResolverArena::default();
    let root: [&str; 0] = [];
    arena.register_namespace(&root, "std", Default::default()).unwrap();
    let v = arena
        .register_value(&["std"], "x", TypedType::bool(), Default::default())
        .unwrap();
    assert_eq!(arena.resolve_fully_qualified_name(&v), ["std", "x"]);
    let item = arena.get_by_id(&v).unwrap();
    assert!(item.is_value());
    assert_eq!(item.parent(), arena.resolve_namespace_from_root(&["std"]));
}

#[test]
fn type_changed_in_place_is_read_back() {
    let mut arena = ResolverArena::default();
    let root: [&str; 0] = [];
    arena.register_namespace(&root, "std", Default::default()).unwrap();
    arena.register_struct(&["std"], "Point", Default::default()).unwrap();

    let point = arena.get_type_mut(&["std"], "Point").unwrap();
    point
        .stored_properties
        .push((String::from("x"), TypedType::int32()));

    let point = arena.get_type(&["std"], "Point").unwrap();
    assert_eq!(point.stored_properties, vec![(String::from("x"), TypedType::int32())]);
    assert!(arena.get_type_mut(&["std"], "Missing").is_none());
    assert_eq!(
        arena.resolve_declaration_id_from_root(&["std", "Point"]).is_some(),
        true
    );
}

#[test]
fn declaration_changed_in_place_is_read_back() {
    let mut arena = ResolverArena::default();
    let root: [&str; 0] = [];
    arena.register_namespace(&root, "std", Default::default()).unwrap();

    let std = arena.get_mut(&root, "std").unwrap();
    std.annotations = wiz::typed_annotation::TypedAnnotations::from(vec!["builtin"]);

    assert!(arena.get(&root, "std").unwrap().has_annotation("builtin"));
    assert!(arena.get_mut(&["std"], "nothing").is_none());
}
