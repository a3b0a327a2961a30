use soul_hash::find_soul_siblings;
use soul_hash::SoulRegistry;

#[test]
fn registry_round_trip_keeps_registration_order() {
    let mut registry = SoulRegistry::new();
    registry.register("pABC".to_string(), "x.ts".to_string());
    assert_eq!(registry.find_by_soul("pABC"), vec!["x.ts".to_string()]);

    registry.register("pABC".to_string(), "y.ts".to_string());
    assert_eq!(
        registry.find_by_soul("pABC"),
        vec!["x.ts".to_string(), "y.ts".to_string()]
    );

    assert!(registry.find_by_soul("unknown").is_empty());
}

#[test]
fn registry_keeps_duplicates_and_separate_keys() {
    let mut registry = SoulRegistry::new();
    registry.register("p1".to_string(), "a.ts".to_string());
    registry.register("p2".to_string(), "b.ts".to_string());
    registry.register("p1".to_string(), "a.ts".to_string());

    assert_eq!(
        registry.find_by_soul("p1"),
        vec!["a.ts".to_string(), "a.ts".to_string()]
    );
    assert_eq!(registry.find_by_soul("p2"), vec!["b.ts".to_string()]);
}

#[test]
fn find_soul_siblings_reads_the_registry() {
    let mut registry = SoulRegistry::new();
    registry.register("pDEF".to_string(), "one.rs".to_string());
    registry.register("pDEF".to_string(), "two.rs".to_string());

    assert_eq!(
        find_soul_siblings("pDEF", &registry),
        vec!["one.rs".to_string(), "two.rs".to_string()]
    );
    assert!(find_soul_siblings("pXYZ", &registry).is_empty());
}
