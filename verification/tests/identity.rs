use midas::identity::{is_admin, resolve, Role};

#[test]
fn admin_username_mixed_case_resolves_to_admin() {
    let actor = resolve("Admin", "secret").unwrap();
    assert_eq!(actor.role, Role::Admin);
    assert_eq!(actor.username, "Admin");
}

#[test]
fn regular_username_resolves_to_regular() {
    let actor = resolve("alice", "pw").unwrap();
    assert_eq!(actor.role, Role::Regular);
    assert_eq!(actor.username, "alice");
}

#[test]
fn empty_username_is_rejected() {
    assert!(resolve("", "pw").is_err());
}

#[test]
fn empty_password_is_rejected() {
    assert!(resolve("bob", "").is_err());
}

#[test]
fn is_admin_ignores_ascii_case() {
    assert!(is_admin("admin"));
    assert!(is_admin("ADMIN"));
    assert!(is_admin("aDmIn"));
}

#[test]
fn is_admin_rejects_other_names() {
    assert!(!is_admin("alice"));
    assert!(!is_admin("admin "));
    assert!(!is_admin("administrator"));
    assert!(!is_admin(""));
}
