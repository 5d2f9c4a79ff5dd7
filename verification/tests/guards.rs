use wh_core::commands::{choose_target, ensure_outcome, list, needs_administrator};
use wh_core::commands::{parse_request, require_administrator, update_outcome, view};
use wh_core::commands::{Change, Subject};
use wh_core::error::{Error, Reason, StoreError};
use wh_core::guard::{check_permission, check_permission_manage_or_admin};
use wh_core::registry::{add_permission, PermissionRegistry};

fn registry_of(names: &[&'static str]) -> PermissionRegistry {
    let mut registry = PermissionRegistry::new();
    add_permission(&mut registry, names);
    registry
}

fn message_of(error: Error) -> String {
    match error {
        Error::Message(text) => text,
        other => panic!("expected a message, got {:?}", other),
    }
}

#[test]
fn guard_lets_a_grant_through() {
    assert!(check_permission(Ok(true), "music.manage").is_ok());
}

#[test]
fn guard_names_the_missing_permission() {
    match check_permission(Ok(false), "music.manage") {
        Err(Reason::User(text)) => assert_eq!(
            text,
            "\u{274c}You don't have the permission `music.manage` required to use this command"
        ),
        _ => panic!("expected a denial"),
    }
}

#[test]
fn guard_keeps_the_reason_of_a_broken_check() {
    let reason = Reason::UserAndLog { user: "Internal Error".to_string(), log: "cause".to_string() };
    match check_permission(Err(reason), "music.manage") {
        Err(Reason::UserAndLog { user, log }) => {
            assert_eq!(user, "Internal Error");
            assert_eq!(log, "cause");
        },
        _ => panic!("expected the reason to pass through"),
    }
    match check_permission(Err(Reason::Log("cause".to_string())), "music.manage") {
        Err(Reason::Log(log)) => assert_eq!(log, "cause"),
        _ => panic!("expected the reason to pass through"),
    }
}

#[test]
fn manage_guard_takes_a_grant_or_an_administrator() {
    assert!(check_permission_manage_or_admin(true, Ok(false), "permission.manage").is_ok());
    assert!(check_permission_manage_or_admin(false, Ok(true), "permission.manage").is_ok());
    assert!(check_permission_manage_or_admin(true, Ok(true), "permission.manage").is_ok());
}

#[test]
fn manage_guard_denies_without_grant_or_administrator() {
    match check_permission_manage_or_admin(false, Ok(false), "permission.manage") {
        Err(Reason::User(text)) => {
            assert_eq!(text, "\u{274c}You don't have the permission `permission.manage`")
        },
        _ => panic!("expected a denial"),
    }
}

#[test]
fn manage_guard_reports_a_silent_platform_even_with_a_grant() {
    for granted in [true, false] {
        let answer = Err("member not cached".to_string());
        match check_permission_manage_or_admin(granted, answer, "permission.manage") {
            Err(Reason::UserAndLog { user, log }) => {
                assert_eq!(user, "\u{274c}Internal Error");
                assert_eq!(log, "Internal Error: member not cached");
            },
            _ => panic!("expected a reason for user and log"),
        }
    }
}

#[test]
fn request_needs_a_mention() {
    let registry = registry_of(&["x"]);
    let refused = parse_request(&registry, Subject::User, Change::Grant, None, Some("x"));
    assert_eq!(message_of(refused.unwrap_err()), "You need to mention someone");
    let refused = parse_request(&registry, Subject::User, Change::Remove, None, None);
    assert_eq!(message_of(refused.unwrap_err()), "You need to mention someone");
    let refused = parse_request(&registry, Subject::Role, Change::Grant, None, Some("x"));
    assert_eq!(message_of(refused.unwrap_err()), "You need to mention a role");
    let refused = parse_request(&registry, Subject::Role, Change::Remove, None, Some("x"));
    assert_eq!(message_of(refused.unwrap_err()), "You need to mention a role");
}

#[test]
fn request_needs_a_permission() {
    let registry = registry_of(&["x"]);
    let refused = parse_request(&registry, Subject::User, Change::Grant, Some(42), None);
    assert_eq!(message_of(refused.unwrap_err()), "You need to provide a permission to give!");
    let refused = parse_request(&registry, Subject::User, Change::Remove, Some(42), None);
    assert_eq!(message_of(refused.unwrap_err()), "You need to provide a permission to remove!");
    let refused = parse_request(&registry, Subject::Role, Change::Grant, Some(7), None);
    assert_eq!(message_of(refused.unwrap_err()), "You need to provide a permission to give!");
    let refused = parse_request(&registry, Subject::Role, Change::Remove, Some(7), None);
    assert_eq!(message_of(refused.unwrap_err()), "You need to provide a permission to remove!");
}

#[test]
fn request_needs_a_registered_permission() {
    let registry = registry_of(&["x"]);
    let refused = parse_request(&registry, Subject::User, Change::Grant, Some(42), Some("y"));
    assert_eq!(message_of(refused.unwrap_err()), "This permission does't exist!");
    let refused = parse_request(&registry, Subject::Role, Change::Remove, Some(7), Some(""));
    assert_eq!(message_of(refused.unwrap_err()), "This permission does't exist!");
}

#[test]
fn request_yields_subject_and_permission() {
    let registry = registry_of(&["x", "y"]);
    let parsed = parse_request(&registry, Subject::User, Change::Grant, Some(42), Some("y"));
    assert_eq!(parsed.unwrap(), (42, "y"));
    let parsed = parse_request(&registry, Subject::Role, Change::Remove, Some(7), Some("x"));
    assert_eq!(parsed.unwrap(), (7, "x"));
}

#[test]
fn only_the_management_permission_needs_an_administrator() {
    assert!(needs_administrator("permission.manage"));
    assert!(!needs_administrator("permission.manag"));
    assert!(!needs_administrator("permission.manage."));
    assert!(!needs_administrator("music.manage"));
    assert!(!needs_administrator(""));
}

#[test]
fn only_administrators_pass() {
    assert!(require_administrator(Ok(true)).is_ok());
    assert_eq!(
        message_of(require_administrator(Ok(false)).unwrap_err()),
        "This permission can only be managed by having the ADMINISTRATOR discord permission"
    );
    match require_administrator(Err("no guild".to_string())) {
        Err(Error::Both { msg, err }) => {
            assert_eq!(msg, "Internal Error");
            assert_eq!(err, "Internal Error: no guild");
        },
        _ => panic!("expected an error for user and log"),
    }
}

#[test]
fn store_failure_on_the_row_is_told_and_logged() {
    assert!(ensure_outcome(Ok(())).is_ok());
    match ensure_outcome(Err(StoreError { message: "pool closed".to_string() })) {
        Err(Error::Both { msg, err }) => {
            assert_eq!(msg, "Internal Error");
            assert_eq!(err, "pool closed");
        },
        _ => panic!("expected an error for user and log"),
    }
}

#[test]
fn update_replies_by_change() {
    assert_eq!(update_outcome(Change::Grant, Ok(())).unwrap(), "The permission has been granted");
    assert_eq!(update_outcome(Change::Remove, Ok(())).unwrap(), "The permission has been removed");
}

#[test]
fn update_failure_is_told_and_logged() {
    let cases = [
        (Change::Grant, "Error when granting permission: deadlock"),
        (Change::Remove, "Error when removing permission: deadlock"),
    ];
    for (change, logged) in cases {
        let failure = Err(StoreError { message: "deadlock".to_string() });
        match update_outcome(change, failure) {
            Err(Error::Both { msg, err }) => {
                assert_eq!(msg, "An error occured with the database");
                assert_eq!(err, logged);
            },
            _ => panic!("expected an error for user and log"),
        }
    }
}

#[test]
fn view_shows_the_mention_or_the_author() {
    assert_eq!(choose_target(Subject::User, Some(5), 42).unwrap(), 5);
    assert_eq!(choose_target(Subject::User, None, 42).unwrap(), 42);
    assert_eq!(choose_target(Subject::Role, Some(7), 42).unwrap(), 7);
    let refused = choose_target(Subject::Role, None, 42).unwrap_err();
    assert_eq!(message_of(refused), "You need to mention a role!");
}

#[test]
fn list_reply_quotes_every_name() {
    assert_eq!(list(&registry_of(&[])), "Valid permissions are: ");
    assert_eq!(list(&registry_of(&["x"])), "Valid permissions are: `x` ");
    assert_eq!(
        list(&registry_of(&["permission.manage", "music.manage"])),
        "Valid permissions are: `permission.manage` `music.manage` "
    );
}

#[test]
fn view_reply_quotes_every_name() {
    assert_eq!(view("<@42>", &Vec::new()), "<@42> permissions are: ");
    let ids = vec!["music.manage".to_string(), "points.manage".to_string()];
    assert_eq!(view("<@&7>", &ids), "<@&7> permissions are: `music.manage` `points.manage` ");
}
