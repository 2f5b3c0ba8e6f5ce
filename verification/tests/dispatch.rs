use borrowbot::commandhandler::{CommandHandler, DispatchDecision};
use borrowbot::commands::Command;
use borrowbot::types::{PermissionLevel, UserContext};

fn handler_with(entries: Vec<(&str, PermissionLevel, u64)>) -> CommandHandler {
    let list = entries
        .into_iter()
        .map(|(name, level, cooldown)| {
            (
                String::from(name),
                Command::new(format!("about {}", name), level, cooldown),
            )
        })
        .collect();
    CommandHandler::new(list)
}

fn plain_user(uid: i32) -> UserContext {
    UserContext::new(uid, String::from("alice"), 0)
}

fn superuser(uid: i32) -> UserContext {
    UserContext::new(uid, String::from("root"), 2)
}

#[test]
fn message_without_prefix_is_ignored() {
    let handler = handler_with(vec![("ping", PermissionLevel::User, 5)]);
    let user = plain_user(1);
    assert!(matches!(
        handler.execute(&user, "ping"),
        DispatchDecision::Ignored
    ));
    assert!(matches!(handler.execute(&user, ""), DispatchDecision::Ignored));
}

#[test]
fn unknown_command_emits_nothing() {
    let handler = handler_with(vec![("ping", PermissionLevel::User, 5)]);
    let user = plain_user(1);
    assert!(matches!(
        handler.execute(&user, "&pong"),
        DispatchDecision::Unknown
    ));
    // Lookup is exact-match and case-preserving: no case folding.
    assert!(matches!(
        handler.execute(&user, "&Ping"),
        DispatchDecision::Unknown
    ));
    // The bare prefix names the empty command, which is not registered.
    assert!(matches!(handler.execute(&user, "&"), DispatchDecision::Unknown));
}

#[test]
fn invoke_carries_name_and_params() {
    let handler = handler_with(vec![("say", PermissionLevel::User, 5)]);
    let user = plain_user(1);
    match handler.execute(&user, "&say hello  world") {
        DispatchDecision::Invoke {
            name,
            params,
            user_cooldown,
        } => {
            assert_eq!(name, "say");
            // Splitting is on every single space; empty pieces are kept.
            assert_eq!(params, vec!["hello", "", "world"]);
            assert_eq!(user_cooldown, 5);
        }
        _ => panic!("expected an invocation"),
    }
}

#[test]
fn forbidden_yields_fixed_denial_text() {
    let handler = handler_with(vec![("setpermissions", PermissionLevel::Superuser, 5)]);
    let user = plain_user(1);
    match handler.execute(&user, "&setpermissions bob 2") {
        DispatchDecision::Forbidden { response } => {
            assert_eq!(
                response,
                "Sorry, only superusers have access to the setpermissions command"
            );
        }
        _ => panic!("expected a denial"),
    }
}

#[test]
fn forbidden_does_not_start_cooldown() {
    let handler = handler_with(vec![("setpermissions", PermissionLevel::Superuser, 60)]);
    let low = plain_user(1);
    assert!(matches!(
        handler.execute(&low, "&setpermissions bob 2"),
        DispatchDecision::Forbidden { .. }
    ));
    // The denial started no cooldown: the same pair is still free.
    assert!(!handler.is_on_cooldown(1, &String::from("setpermissions")));
}

#[test]
fn cooldown_window_blocks_second_invocation() {
    let mut handler = handler_with(vec![("ping", PermissionLevel::User, 60)]);
    let user = plain_user(7);
    // First invocation is dispatched.
    assert!(matches!(
        handler.execute(&user, "&ping"),
        DispatchDecision::Invoke { .. }
    ));
    handler.start_user_cooldown(&user, String::from("ping"));
    assert!(handler.is_on_cooldown(7, &String::from("ping")));
    // Within the window the same pair is suppressed, silently.
    assert!(matches!(
        handler.execute(&user, "&ping"),
        DispatchDecision::OnCooldown
    ));
    // Another identity is not affected.
    let other = plain_user(8);
    assert!(matches!(
        handler.execute(&other, "&ping"),
        DispatchDecision::Invoke { .. }
    ));
    // Once the entry is removed, a third invocation is dispatched again.
    handler.end_user_cooldown(7, &String::from("ping"));
    assert!(!handler.is_on_cooldown(7, &String::from("ping")));
    assert!(matches!(
        handler.execute(&user, "&ping"),
        DispatchDecision::Invoke { .. }
    ));
}

#[test]
fn superuser_is_never_blocked_by_cooldown() {
    let mut handler = handler_with(vec![("ping", PermissionLevel::User, 60)]);
    let root = superuser(9);
    for _ in 0..3 {
        assert!(matches!(
            handler.execute(&root, "&ping"),
            DispatchDecision::Invoke { .. }
        ));
        // The dispatch loop starts a cooldown after every invocation; for
        // a Superuser no entry is ever created.
        handler.start_user_cooldown(&root, String::from("ping"));
        assert!(!handler.is_on_cooldown(9, &String::from("ping")));
    }
}

#[test]
fn cooldown_is_scoped_per_identity_and_command() {
    let mut handler = handler_with(vec![
        ("ping", PermissionLevel::User, 60),
        ("say", PermissionLevel::User, 60),
    ]);
    let user = plain_user(1);
    handler.start_user_cooldown(&user, String::from("ping"));
    // The same identity may still invoke a different command.
    assert!(matches!(
        handler.execute(&user, "&say hi"),
        DispatchDecision::Invoke { .. }
    ));
}
