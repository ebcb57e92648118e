use kernel::capability::{Capability, CapabilitySet};
use kernel::kind::Kind;

fn cap(data: &[u8], kind: Kind) -> Capability {
    Capability::new(data.to_vec(), kind)
}

#[test]
fn test_poset() {
    assert!(Kind::Static < Kind::Inherit);
    assert!(Kind::Static < Kind::Send);
    assert!(Kind::Inherit < Kind::Send);
}

#[test]
fn kind_order_is_strict() {
    let kinds = [Kind::Static, Kind::Inherit, Kind::Send];
    for (i, a) in kinds.iter().enumerate() {
        for (j, b) in kinds.iter().enumerate() {
            assert_eq!(a < b, i < j);
            assert_eq!(a <= b, i <= j);
            assert_eq!(a > b, i > j);
            assert_eq!(a >= b, i >= j);
            assert_eq!(a == b, i == j);
        }
    }
    assert_eq!(Kind::Static.level(), 0);
    assert_eq!(Kind::Inherit.level(), 1);
    assert_eq!(Kind::Send.level(), 2);
}

#[test]
fn inheritable_and_sendable_follow_the_kind() {
    assert!(!cap(b"x", Kind::Static).is_inheritable());
    assert!(cap(b"x", Kind::Inherit).is_inheritable());
    assert!(cap(b"x", Kind::Send).is_inheritable());
    assert!(!cap(b"x", Kind::Static).is_sendable());
    assert!(!cap(b"x", Kind::Inherit).is_sendable());
    assert!(cap(b"x", Kind::Send).is_sendable());
}

#[test]
fn set_data_replaces_the_payload_only() {
    let mut c = cap(b"r/home", Kind::Inherit);
    assert_eq!(c.data().as_slice(), b"r/home");
    c.set_data(b"w/tmp".to_vec());
    assert_eq!(c.data().as_slice(), b"w/tmp");
    assert_eq!(c.kind(), Kind::Inherit);
}

#[test]
fn sendable_entry_satisfies_every_kind() {
    let mut set = CapabilitySet::new();
    set.insert(cap(b"d", Kind::Send));
    assert!(set.contains(&cap(b"d", Kind::Static)));
    assert!(set.contains(&cap(b"d", Kind::Inherit)));
    assert!(set.contains(&cap(b"d", Kind::Send)));
    assert!(!set.contains(&cap(b"d2", Kind::Static)));
    assert!(!set.contains(&cap(b"", Kind::Static)));
}

#[test]
fn held_kind_bounds_what_is_contained() {
    let mut set = CapabilitySet::new();
    set.insert(cap(b"a", Kind::Static)).insert(cap(b"b", Kind::Inherit));
    assert!(set.contains(&cap(b"a", Kind::Static)));
    assert!(!set.contains(&cap(b"a", Kind::Inherit)));
    assert!(!set.contains(&cap(b"a", Kind::Send)));
    assert!(set.contains(&cap(b"b", Kind::Static)));
    assert!(set.contains(&cap(b"b", Kind::Inherit)));
    assert!(!set.contains(&cap(b"b", Kind::Send)));
    assert!(set.contains_imp(b"b", Kind::Inherit));
    assert!(!set.contains_imp(b"b", Kind::Send));
    assert!(!set.contains_imp(b"c", Kind::Static));
}

#[test]
fn insert_replaces_the_kind_of_a_payload() {
    let mut set = CapabilitySet::new();
    assert_eq!(set.len(), 0);
    assert_eq!(set.get(b"a"), None);
    set.insert(cap(b"a", Kind::Send));
    assert_eq!(set.len(), 1);
    assert_eq!(set.get(b"a"), Some(Kind::Send));
    set.insert(cap(b"a", Kind::Static));
    assert_eq!(set.len(), 1);
    assert_eq!(set.get(b"a"), Some(Kind::Static));
    assert!(!set.contains(&cap(b"a", Kind::Send)));
    set.insert(cap(b"b", Kind::Inherit)).insert(cap(b"c", Kind::Send));
    assert_eq!(set.len(), 3);
    assert_eq!(set.get(b"a"), Some(Kind::Static));
    assert_eq!(set.get(b"b"), Some(Kind::Inherit));
    assert_eq!(set.get(b"c"), Some(Kind::Send));
}

#[test]
fn subset_of_compares_entry_by_entry() {
    let mut a = CapabilitySet::new();
    a.insert(cap(b"x", Kind::Inherit)).insert(cap(b"y", Kind::Static));
    let mut b = CapabilitySet::new();
    b.insert(cap(b"x", Kind::Send)).insert(cap(b"y", Kind::Static)).insert(cap(b"z", Kind::Static));
    assert!(a.subset_of(&b));
    assert!(!b.subset_of(&a));

    let mut weaker = CapabilitySet::new();
    weaker.insert(cap(b"x", Kind::Static)).insert(cap(b"y", Kind::Static));
    assert!(!a.subset_of(&weaker));
    assert!(weaker.subset_of(&a));

    let mut other = CapabilitySet::new();
    other.insert(cap(b"x", Kind::Send));
    assert!(!a.subset_of(&other));
}

#[test]
fn subset_of_itself_and_of_the_empty_set() {
    let empty = CapabilitySet::new();
    let mut a = CapabilitySet::new();
    a.insert(cap(b"x", Kind::Static));
    assert!(a.subset_of(&a));
    assert!(empty.subset_of(&empty));
    assert!(empty.subset_of(&a));
    assert!(!a.subset_of(&empty));
}
