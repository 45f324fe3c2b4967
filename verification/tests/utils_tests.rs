use std::collections::{HashMap, HashSet};
use wiz::stacked_hash_map::StackedHashMap;
use wiz::topological_sort::{topological_sort, CircularDependencyError};

#[test]
fn it_works() {
    let result = 2 + 2;
    assert_eq!(result, 4);
}

#[test]
fn test_into_map() {
    let mut smap = StackedHashMap::new();
    smap.push(HashMap::new());
    smap.insert("1", 1);
    smap.insert("2", 2);
    smap.push(HashMap::new());
    smap.insert("2", 4);

    let mut map = HashMap::new();
    map.insert("1", 1);
    map.insert("2", 4);
    assert_eq!(smap.into_map(), map);
}

#[test]
fn test_stack_is_empty() {
    let mut smap: StackedHashMap<&str, &str> = StackedHashMap::new();
    assert!(smap.stack_is_empty());
    smap.push(HashMap::new());
    assert!(!smap.stack_is_empty());
}

#[test]
fn stacked_get_prefers_innermost_map() {
    let mut smap = StackedHashMap::from(HashMap::from([(1u64, "outer"), (2u64, "only outer")]));
    smap.push(HashMap::from([(1u64, "inner")]));
    assert_eq!(smap.get(&1), Some(&"inner"));
    assert_eq!(smap.get(&2), Some(&"only outer"));
    assert_eq!(smap.get(&3), None);
    let popped = smap.pop().unwrap();
    assert_eq!(popped.get(&1), Some(&"inner"));
    assert_eq!(smap.get(&1), Some(&"outer"));
}

#[test]
fn stacked_insert_returns_replaced_value() {
    let mut smap = StackedHashMap::from(HashMap::from([(7u64, 1)]));
    assert_eq!(smap.insert(7, 2), Some(1));
    assert_eq!(smap.insert(8, 3), None);
    assert_eq!(smap.get(&7), Some(&2));
    assert!(smap.pop().is_some());
    assert!(smap.pop().is_none());
}

#[test]
fn empty() {
    assert_eq!(topological_sort(HashMap::<&str, _>::new()), Ok(vec![]))
}

#[test]
fn no_dependencies() {
    let data = HashMap::from([("a", HashSet::new())]);
    assert_eq!(topological_sort(data), Ok(vec![HashSet::from(["a"])]))
}

#[test]
fn one_dependencies() {
    let data = HashMap::from([("a", HashSet::from(["b"])), ("b", HashSet::new())]);
    assert_eq!(
        topological_sort(data),
        Ok(vec![HashSet::from(["b"]), HashSet::from(["a"])])
    )
}

#[test]
fn two_dependencies() {
    let data = HashMap::from([
        ("a", HashSet::from(["b", "c"])),
        ("b", HashSet::new()),
        ("c", HashSet::new()),
    ]);
    assert_eq!(
        topological_sort(data),
        Ok(vec![HashSet::from(["b", "c"]), HashSet::from(["a"])])
    )
}

#[test]
fn many_dependencies() {
    let data = HashMap::from([
        (2, HashSet::from([11])),
        (9, HashSet::from([11, 8, 10])),
        (10, HashSet::from([11, 3])),
        (11, HashSet::from([7, 5])),
        (8, HashSet::from([7, 3])),
    ]);
    assert_eq!(
        topological_sort(data),
        Ok(vec![
            HashSet::from([3, 5, 7]),
            HashSet::from([8, 11]),
            HashSet::from([2, 10]),
            HashSet::from([9])
        ])
    );
}

#[test]
fn circular_dependency_each() {
    let data = HashMap::from([("a", HashSet::from(["b"])), ("b", HashSet::from(["a"]))]);
    assert_eq!(topological_sort(data), Err(CircularDependencyError::new()))
}

#[test]
fn circular_dependency_triple() {
    let data = HashMap::from([
        ("a", HashSet::from(["b"])),
        ("b", HashSet::from(["c"])),
        ("c", HashSet::from(["a"])),
    ]);
    assert_eq!(topological_sort(data), Err(CircularDependencyError::new()))
}

#[test]
fn self_dependency_is_ignored() {
    let data = HashMap::from([(1u64, HashSet::from([1u64, 2u64]))]);
    assert_eq!(
        topological_sort(data),
        Ok(vec![HashSet::from([2u64]), HashSet::from([1u64])])
    );
}

#[test]
fn cycle_after_ready_items_still_fails() {
    let data = HashMap::from([
        (1u64, HashSet::from([2u64])),
        (2u64, HashSet::from([1u64, 3u64])),
        (3u64, HashSet::new()),
    ]);
    assert_eq!(topological_sort(data), Err(CircularDependencyError::new()));
}

#[test]
fn self_dependency_alone_never_fails() {
    let data = HashMap::from([("a", HashSet::from(["a"]))]);
    assert_eq!(topological_sort(data), Ok(vec![HashSet::from(["a"])]));
    let data = HashMap::from([("a", HashSet::from(["a", "b"])), ("b", HashSet::from(["b"]))]);
    assert_eq!(
        topological_sort(data),
        Ok(vec![HashSet::from(["b"]), HashSet::from(["a"])])
    );
}

#[test]
fn merged_map_holds_the_keys_of_every_layer() {
    let mut map = StackedHashMap::new();
    map.push(HashMap::from([("a", 1), ("b", 2)]));
    map.push(HashMap::from([("b", 3), ("c", 4)]));
    let merged = map.into_map();
    assert_eq!(merged, HashMap::from([("a", 1), ("b", 3), ("c", 4)]));
}
