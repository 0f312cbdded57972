use gdext::class::{ClassDb, Domain};

fn db() -> ClassDb {
    let mut db = ClassDb::new();
    db.register_class("Object".to_string(), None, Domain::Engine, false, 0).unwrap();
    db.register_class("RefCounted".to_string(), Some(0), Domain::Engine, true, 0).unwrap();
    db.register_class("Node".to_string(), Some(0), Domain::Engine, false, 0).unwrap();
    db.register_class("Node3D".to_string(), Some(2), Domain::Engine, false, 0).unwrap();
    db.register_class("Payload".to_string(), Some(1), Domain::User, false, 7).unwrap();
    db
}

#[test]
fn class_is_a_walks_bases() {
    let db = db();
    assert!(db.is_a(3, 3));
    assert!(db.is_a(3, 2));
    assert!(db.is_a(3, 0));
    assert!(!db.is_a(3, 1));
    assert!(!db.is_a(2, 3));
    assert!(db.is_a(4, 1));
    assert!(!db.is_a(4, 2));
    assert!(!db.is_a(1, 4));
    assert!(!db.is_a(3, 9));
}

#[test]
fn class_names_and_bases() {
    let db = db();
    assert_eq!(db.class_name(3), "Node3D");
    assert_eq!(db.direct_base(3), Some(2));
    assert_eq!(db.direct_base(0), None);
    assert_eq!(db.classes[4].domain, Domain::User);
    assert_eq!(db.classes[4].default_payload, 7);
}

#[test]
fn class_refcounting_is_inherited() {
    let db = db();
    assert!(db.classes[1].refcounted);
    assert!(db.classes[4].refcounted);
    assert!(!db.classes[3].refcounted);
}

#[test]
fn class_register_refuses_bad_bases() {
    let mut db = db();
    assert_eq!(db.register_class("Orphan".to_string(), None, Domain::User, false, 0), None);
    assert_eq!(db.register_class("Dangling".to_string(), Some(5), Domain::User, false, 0), None);
    assert_eq!(db.classes.len(), 5);

    let mut empty = ClassDb::new();
    assert_eq!(empty.register_class("Child".to_string(), Some(0), Domain::User, false, 0), None);
    assert_eq!(empty.register_class("Root".to_string(), None, Domain::Engine, false, 0), Some(0));
}
