use netcode_auth::registry::Registry;

#[test]
fn new_registry_is_empty() {
    let registry = Registry::new();
    assert!(!registry.is_allocated(0));
    assert!(!registry.is_allocated(u64::MAX));
    assert!(registry.lookup_secret(0).is_none());
}

#[test]
fn try_allocate_takes_a_free_identity_once() {
    let mut registry = Registry::new();
    assert!(registry.try_allocate(7));
    assert!(registry.is_allocated(7));
    assert!(!registry.is_allocated(8));
    assert!(!registry.try_allocate(7));
    assert!(registry.is_allocated(7));
}

#[test]
fn allocate_identity_returns_an_allocated_identity() {
    let mut registry = Registry::new();
    let id = registry.allocate_identity().expect("an identity");
    assert!(registry.is_allocated(id));
    assert!(!registry.try_allocate(id));
}

#[test]
fn allocated_identities_are_pairwise_distinct() {
    let mut registry = Registry::new();
    let mut taken: Vec<u64> = Vec::new();
    for _ in 0..500 {
        let id = registry.allocate_identity().expect("an identity");
        assert!(!taken.contains(&id));
        taken.push(id);
    }
    for id in &taken {
        assert!(registry.is_allocated(*id));
    }
}

#[test]
fn allocate_identity_leaves_secrets_alone() {
    let mut registry = Registry::new();
    registry.record_secret(3, "three".to_string());
    let id = registry.allocate_identity().expect("an identity");
    assert_eq!(registry.lookup_secret(3), Some("three".to_string()));
    if id != 3 {
        assert!(registry.lookup_secret(id).is_none());
    }
}

#[test]
fn record_secret_overwrites_the_previous_secret() {
    let mut registry = Registry::new();
    registry.record_secret(11, "first".to_string());
    assert_eq!(registry.lookup_secret(11), Some("first".to_string()));
    registry.record_secret(11, "second".to_string());
    assert_eq!(registry.lookup_secret(11), Some("second".to_string()));
    assert!(registry.lookup_secret(12).is_none());
}

#[test]
fn record_secret_does_not_allocate() {
    let mut registry = Registry::new();
    registry.record_secret(11, "s".to_string());
    assert!(!registry.is_allocated(11));
}

#[test]
fn lookup_secret_is_a_pure_read() {
    let mut registry = Registry::new();
    registry.record_secret(1, "".to_string());
    assert_eq!(registry.lookup_secret(1), Some(String::new()));
    assert_eq!(registry.lookup_secret(1), Some(String::new()));
    assert!(registry.lookup_secret(2).is_none());
    assert!(registry.lookup_secret(2).is_none());
}

#[test]
fn allocation_from_an_empty_registry_always_succeeds() {
    for _ in 0..200 {
        let mut registry = Registry::new();
        let id = registry.allocate_identity();
        assert!(id.is_some());
        assert!(registry.is_allocated(id.unwrap()));
    }
}
