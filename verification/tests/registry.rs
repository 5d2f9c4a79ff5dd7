use wh_core::error::{joined, Error, Reason};
use wh_core::registry::{add_permission, static_get_permission, static_set_permission};
use wh_core::registry::{register_init, PermissionRegistry, MUSIC_MANAGE, PERMISSION_MANAGE};
use wh_core::registry::POINTS_MANAGE;
use wh_core::response::{RspData, RspErr};

#[test]
fn new_registry_knows_nothing() {
    let registry = PermissionRegistry::new();
    assert!(static_get_permission(&registry).is_empty());
    assert!(!registry.is_registered("permission.manage"));
    assert!(!registry.is_registered(""));
}

#[test]
fn add_permission_appends_in_order() {
    let mut registry = PermissionRegistry::new();
    add_permission(&mut registry, &["permission.manage"]);
    add_permission(&mut registry, &["music.manage", "points.manage"]);
    assert_eq!(
        static_get_permission(&registry),
        &vec!["permission.manage", "music.manage", "points.manage"]
    );
    assert!(registry.is_registered("music.manage"));
    assert!(registry.is_registered("points.manage"));
    assert!(!registry.is_registered("music"));
    assert!(!registry.is_registered("music.manage "));
}

#[test]
fn add_permission_of_nothing_changes_nothing() {
    let mut registry = PermissionRegistry::new();
    static_set_permission(&mut registry, "a");
    add_permission(&mut registry, &[]);
    assert_eq!(static_get_permission(&registry), &vec!["a"]);
}

#[test]
fn static_set_permission_adds_a_name_once() {
    let mut registry = PermissionRegistry::new();
    static_set_permission(&mut registry, "a");
    static_set_permission(&mut registry, "b");
    static_set_permission(&mut registry, "a");
    assert_eq!(static_get_permission(&registry), &vec!["a", "b"]);
    assert!(registry.is_registered("a"));
}

#[test]
fn add_permission_of_known_names_changes_nothing() {
    let mut registry = PermissionRegistry::new();
    add_permission(&mut registry, &["a", "b", "c"]);
    add_permission(&mut registry, &["c", "a"]);
    add_permission(&mut registry, &["b"]);
    assert_eq!(static_get_permission(&registry), &vec!["a", "b", "c"]);
}

#[test]
fn add_permission_takes_a_repeated_name_once() {
    let mut registry = PermissionRegistry::new();
    add_permission(&mut registry, &["a", "b", "a", "c", "b"]);
    assert_eq!(static_get_permission(&registry), &vec!["a", "b", "c"]);
    add_permission(&mut registry, &["d", "a", "d"]);
    assert_eq!(static_get_permission(&registry), &vec!["a", "b", "c", "d"]);
    assert_eq!(wh_core::commands::list(&registry), "Valid permissions are: `a` `b` `c` `d` ");
}

#[test]
fn each_module_announces_its_own_permission() {
    let mut registry = PermissionRegistry::new();
    wh_core::modules::config::register_init(&mut registry);
    assert!(static_get_permission(&registry).is_empty());
    wh_core::modules::permission::register_init(&mut registry);
    assert_eq!(static_get_permission(&registry), &vec!["permission.manage"]);
    wh_core::modules::music::register_init(&mut registry);
    assert_eq!(static_get_permission(&registry), &vec!["permission.manage", "music.manage"]);
    wh_core::modules::points::register_init(&mut registry);
    wh_core::modules::music::register_init(&mut registry);
    assert_eq!(
        static_get_permission(&registry),
        &vec!["permission.manage", "music.manage", "points.manage"]
    );
}

#[test]
fn register_init_twice_is_register_init_once() {
    let mut registry = PermissionRegistry::new();
    register_init(&mut registry);
    register_init(&mut registry);
    assert_eq!(
        static_get_permission(&registry),
        &vec!["music.manage", "points.manage", "permission.manage"]
    );
}

#[test]
fn module_permissions_have_their_names() {
    assert_eq!(PERMISSION_MANAGE, "permission.manage");
    assert_eq!(MUSIC_MANAGE, "music.manage");
    assert_eq!(POINTS_MANAGE, "points.manage");
}

#[test]
fn register_init_announces_the_module_permissions() {
    let mut registry = PermissionRegistry::new();
    register_init(&mut registry);
    assert_eq!(
        static_get_permission(&registry),
        &vec!["music.manage", "points.manage", "permission.manage"]
    );
    assert!(registry.is_registered("permission.manage"));
    assert!(!registry.is_registered("config.manage"));
}

#[test]
fn error_renders_only_what_goes_to_the_log() {
    assert_eq!(Error::Message("shown".to_string()).to_string(), "");
    assert_eq!(Error::Error("logged".to_string()).to_string(), "logged");
    let both = Error::Both { msg: "shown".to_string(), err: "logged".to_string() };
    assert_eq!(both.to_string(), "logged");
}

#[test]
fn error_hands_out_the_user_message() {
    assert_eq!(Error::Message("shown".to_string()).user_message(), Some("shown".to_string()));
    assert_eq!(Error::Error("logged".to_string()).user_message(), None);
    let both = Error::Both { msg: "shown".to_string(), err: "logged".to_string() };
    assert_eq!(both.user_message(), Some("shown".to_string()));
}

#[test]
fn response_errors_compare_by_code() {
    let a = RspErr { code: 404, description: "not found".to_string() };
    let b = RspErr { code: 404, description: "no such user".to_string() };
    let c = RspErr { code: 500, description: "not found".to_string() };
    assert!(a == b);
    assert!(a != c);
    assert!(b != c);
}

#[test]
fn response_data_holds_data_or_error() {
    let data: RspData<u32> = RspData::Data(7);
    let error: RspData<u32> = RspData::Error(RspErr { code: 1, description: String::new() });
    assert!(matches!(data, RspData::Data(7)));
    assert!(matches!(error, RspData::Error(e) if e.code == 1));
}

#[test]
fn error_writes_its_log_entry_under_the_command() {
    assert_eq!(Error::Message("shown".to_string()).log_entry("grant"), None);
    assert_eq!(
        Error::Error("logged".to_string()).log_entry("grant"),
        Some("[grant]logged".to_string())
    );
    let both = Error::Both { msg: "shown".to_string(), err: "logged".to_string() };
    assert_eq!(both.log_entry("remove"), Some("[remove]logged".to_string()));
    assert_eq!(Error::Error(String::new()).log_entry(""), Some("[]".to_string()));
}

#[test]
fn reason_hands_out_the_user_message() {
    assert_eq!(Reason::User("shown".to_string()).user_message(), Some("shown".to_string()));
    assert_eq!(Reason::Log("logged".to_string()).user_message(), None);
    let both = Reason::UserAndLog { user: "shown".to_string(), log: "logged".to_string() };
    assert_eq!(both.user_message(), Some("shown".to_string()));
}

#[test]
fn reason_writes_its_log_entry_under_the_guard() {
    assert_eq!(Reason::User("shown".to_string()).log_entry("permission.manage"), None);
    assert_eq!(
        Reason::Log("logged".to_string()).log_entry("permission.manage"),
        Some("Check permission.manage failed: logged".to_string())
    );
    let both = Reason::UserAndLog { user: "shown".to_string(), log: "logged".to_string() };
    assert_eq!(both.log_entry("x"), Some("Check x failed: logged".to_string()));
}

#[test]
fn joined_puts_the_tail_after_the_prefix() {
    assert_eq!(joined("Database error: ", "timeout"), "Database error: timeout");
    assert_eq!(joined("", "b"), "b");
    assert_eq!(joined("a", ""), "a");
}
