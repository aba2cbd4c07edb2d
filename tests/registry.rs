use signaling::registry::{PeerRegistry, RegistryError};

fn registry_with(names: &[(&str, u64)]) -> PeerRegistry {
    let mut reg = PeerRegistry::new();
    for (name, conn) in names {
        assert_eq!(reg.register(name, *conn), Ok(()));
    }
    reg
}

fn assert_symmetric(reg: &PeerRegistry, names: &[&str]) {
    for name in names {
        if let Some(p) = reg.lookup_partner(name) {
            assert_eq!(reg.lookup_partner(&p).as_deref(), Some(*name));
        }
    }
}

#[test]
fn duplicate_identity_rejected() {
    let mut reg = PeerRegistry::new();
    assert_eq!(reg.register("alice", 1), Ok(()));
    assert_eq!(reg.register("alice", 2), Err(RegistryError::DuplicateIdentity));
    assert_eq!(reg.connection_of("alice"), Some(1));
}

#[test]
fn register_again_by_same_connection_is_accepted() {
    let mut reg = PeerRegistry::new();
    assert_eq!(reg.register("alice", 1), Ok(()));
    assert_eq!(reg.register("alice", 1), Ok(()));
    assert_eq!(reg.connection_of("alice"), Some(1));
}

#[test]
fn unknown_identity_is_unregistered() {
    let reg = registry_with(&[("alice", 1)]);
    assert_eq!(reg.connection_of("bob"), None);
    assert_eq!(reg.lookup_partner("alice"), None);
}

#[test]
fn pair_is_symmetric() {
    let mut reg = registry_with(&[("alice", 1), ("bob", 2)]);
    assert_eq!(reg.pair("alice", "bob"), Ok(()));
    assert_eq!(reg.lookup_partner("alice").as_deref(), Some("bob"));
    assert_eq!(reg.lookup_partner("bob").as_deref(), Some("alice"));
}

#[test]
fn pair_with_unknown_identity_fails() {
    let mut reg = registry_with(&[("alice", 1)]);
    assert_eq!(reg.pair("alice", "bob"), Err(RegistryError::UnknownIdentity));
    assert_eq!(reg.pair("bob", "alice"), Err(RegistryError::UnknownIdentity));
    assert_eq!(reg.lookup_partner("alice"), None);
}

#[test]
fn pair_when_already_paired_fails() {
    let mut reg = registry_with(&[("alice", 1), ("bob", 2), ("carol", 3)]);
    assert_eq!(reg.pair("alice", "bob"), Ok(()));
    assert_eq!(reg.pair("carol", "bob"), Err(RegistryError::AlreadyPaired));
    assert_eq!(reg.pair("alice", "carol"), Err(RegistryError::AlreadyPaired));
    assert_eq!(reg.lookup_partner("carol"), None);
    assert_eq!(reg.lookup_partner("bob").as_deref(), Some("alice"));
}

#[test]
fn unpair_removes_both_sides() {
    let mut reg = registry_with(&[("alice", 1), ("bob", 2)]);
    assert_eq!(reg.pair("alice", "bob"), Ok(()));
    reg.unpair("bob");
    assert_eq!(reg.lookup_partner("alice"), None);
    assert_eq!(reg.lookup_partner("bob"), None);
    assert_eq!(reg.connection_of("bob"), Some(2));
    reg.unpair("bob");
    assert_eq!(reg.connection_of("alice"), Some(1));
}

#[test]
fn deregister_leaves_no_dangling_partner() {
    let mut reg = registry_with(&[("alice", 1), ("bob", 2)]);
    assert_eq!(reg.pair("alice", "bob"), Ok(()));
    reg.deregister("alice");
    assert_eq!(reg.lookup_partner("bob"), None);
    assert_eq!(reg.connection_of("alice"), None);
    assert_eq!(reg.connection_of("bob"), Some(2));
    reg.deregister("alice");
    assert_eq!(reg.connection_of("bob"), Some(2));
}

#[test]
fn deregistered_identity_can_register_again() {
    let mut reg = registry_with(&[("alice", 1), ("bob", 2)]);
    reg.deregister("alice");
    assert_eq!(reg.register("alice", 7), Ok(()));
    assert_eq!(reg.connection_of("alice"), Some(7));
    assert_eq!(reg.pair("bob", "alice"), Ok(()));
    assert_eq!(reg.route("bob"), Ok(7));
}

#[test]
fn route_goes_to_the_partner_connection() {
    let mut reg = registry_with(&[("alice", 10), ("bob", 20)]);
    assert_eq!(reg.route("alice"), Err(RegistryError::NotPaired));
    assert_eq!(reg.pair("alice", "bob"), Ok(()));
    assert_eq!(reg.route("alice"), Ok(20));
    assert_eq!(reg.route("bob"), Ok(10));
    assert_eq!(reg.route("nobody"), Err(RegistryError::NotPaired));
}

#[test]
fn pairing_stays_symmetric_over_a_sequence() {
    let names = ["a", "b", "c", "d", "e"];
    let mut reg = registry_with(&[("a", 1), ("b", 2), ("c", 3), ("d", 4), ("e", 5)]);
    assert_eq!(reg.pair("a", "b"), Ok(()));
    assert_symmetric(&reg, &names);
    assert_eq!(reg.pair("c", "d"), Ok(()));
    assert_symmetric(&reg, &names);
    reg.unpair("a");
    assert_symmetric(&reg, &names);
    assert_eq!(reg.pair("b", "e"), Ok(()));
    assert_symmetric(&reg, &names);
    reg.deregister("d");
    assert_symmetric(&reg, &names);
    assert_eq!(reg.pair("a", "c"), Ok(()));
    assert_symmetric(&reg, &names);
    reg.deregister("b");
    assert_symmetric(&reg, &names);
    assert_eq!(reg.lookup_partner("e"), None);
    assert_eq!(reg.lookup_partner("a").as_deref(), Some("c"));
}
