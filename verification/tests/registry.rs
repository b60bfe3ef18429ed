use messages::codec::User;
use messages::registry::Registry;

fn user(name: &str) -> User {
    User::new(String::from(name))
}

#[test]
fn register_then_lookup() {
    let mut reg = Registry::new();
    assert!(reg.register(user("alice"), 7).is_ok());
    assert_eq!(reg.lookup(&user("alice")), Some(7));
}

#[test]
fn lookup_unknown_is_none() {
    let reg = Registry::new();
    assert_eq!(reg.lookup(&user("alice")), None);
}

#[test]
fn register_twice_fails_and_keeps_first_handle() {
    let mut reg = Registry::new();
    assert!(reg.register(user("alice"), 1).is_ok());
    assert!(reg.register(user("alice"), 2).is_err());
    assert_eq!(reg.lookup(&user("alice")), Some(1));
}

#[test]
fn distinct_names_coexist() {
    let mut reg = Registry::new();
    assert!(reg.register(user("alice"), 1).is_ok());
    assert!(reg.register(user("bob"), 2).is_ok());
    assert_eq!(reg.lookup(&user("alice")), Some(1));
    assert_eq!(reg.lookup(&user("bob")), Some(2));
}

#[test]
fn unregister_removes_binding() {
    let mut reg = Registry::new();
    assert!(reg.register(user("alice"), 1).is_ok());
    reg.unregister(&user("alice"));
    assert_eq!(reg.lookup(&user("alice")), None);
}

#[test]
fn unregister_leaves_others_alone() {
    let mut reg = Registry::new();
    assert!(reg.register(user("alice"), 1).is_ok());
    assert!(reg.register(user("bob"), 2).is_ok());
    reg.unregister(&user("alice"));
    assert_eq!(reg.lookup(&user("bob")), Some(2));
}

#[test]
fn name_free_after_unregister() {
    let mut reg = Registry::new();
    assert!(reg.register(user("alice"), 1).is_ok());
    reg.unregister(&user("alice"));
    assert!(reg.register(user("alice"), 3).is_ok());
    assert_eq!(reg.lookup(&user("alice")), Some(3));
}
