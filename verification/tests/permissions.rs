use borrowbot::types::PermissionLevel::{Moderator, Superuser, User};
use borrowbot::types::{CommandResponse, PermissionLevel, UserContext};

#[test]
fn satisfies_matches_total_order() {
    // Superuser satisfies everything.
    assert!(Superuser.satisfies(User));
    assert!(Superuser.satisfies(Moderator));
    assert!(Superuser.satisfies(Superuser));
    // Moderator satisfies Moderator and User.
    assert!(Moderator.satisfies(User));
    assert!(Moderator.satisfies(Moderator));
    assert!(!Moderator.satisfies(Superuser));
    // User satisfies only User.
    assert!(User.satisfies(User));
    assert!(!User.satisfies(Moderator));
    assert!(!User.satisfies(Superuser));
}

#[test]
fn permission_level_from_number() {
    assert_eq!(PermissionLevel::new(0), PermissionLevel::User);
    assert_eq!(PermissionLevel::new(1), PermissionLevel::Moderator);
    assert_eq!(PermissionLevel::new(2), PermissionLevel::Superuser);
    // Unknown numbers fall back to the least privileged level.
    assert_eq!(PermissionLevel::new(3), PermissionLevel::User);
    assert_eq!(PermissionLevel::new(-1), PermissionLevel::User);
}

#[test]
fn permission_level_names() {
    assert_eq!(PermissionLevel::User.name_text(), "user");
    assert_eq!(PermissionLevel::Moderator.name_text(), "moderator");
    assert_eq!(PermissionLevel::Superuser.name_text(), "superuser");
}

#[test]
fn user_context_carries_fields() {
    let user = UserContext::new(123, String::from("alice"), 2);
    assert_eq!(user.uid, 123);
    assert_eq!(user.login, "alice");
    assert_eq!(user.permissions, PermissionLevel::Superuser);
}

#[test]
fn command_response_carries_fields() {
    let r = CommandResponse::new(String::from("hi"), true);
    assert_eq!(r.response, "hi");
    assert!(r.questionable_output);
}
