use wh_core::cache::{RoleCache, CACHE_SIZE, MAX_CACHE_SIZE};
use wh_core::database::Id;
use wh_core::index::{any_role_in_index, build_role_index, index_lookup};
use wh_core::rows::RolePermission;

fn role_row(uid: i64, roleid: u64, ids: &[&str]) -> RolePermission {
    RolePermission {
        uid,
        guildid: Id(1),
        roleid: Id(roleid),
        ids: ids.iter().map(|s| s.to_string()).collect(),
    }
}

#[test]
fn index_of_no_rows_knows_nothing() {
    let index = build_role_index(&Vec::new());
    assert_eq!(index_lookup(&index, 7, "x"), None);
    assert!(!any_role_in_index(&index, &[7, 8], "x"));
}

#[test]
fn index_inverts_the_rows() {
    let rows = vec![
        role_row(1, 7, &["x", "y"]),
        role_row(2, 8, &["y"]),
        role_row(3, 9, &[]),
    ];
    let index = build_role_index(&rows);
    assert_eq!(index_lookup(&index, 7, "x"), Some(true));
    assert_eq!(index_lookup(&index, 8, "x"), Some(false));
    assert_eq!(index_lookup(&index, 9, "x"), Some(false));
    assert_eq!(index_lookup(&index, 7, "y"), Some(true));
    assert_eq!(index_lookup(&index, 8, "y"), Some(true));
    assert_eq!(index_lookup(&index, 9, "y"), Some(false));
    assert_eq!(index_lookup(&index, 7, "z"), None);
    assert_eq!(index_lookup(&index, 9, "z"), None);
}

#[test]
fn index_takes_repeated_names_and_roles() {
    let rows = vec![role_row(1, 7, &["x", "x"]), role_row(2, 7, &["x", "y"])];
    let index = build_role_index(&rows);
    assert_eq!(index_lookup(&index, 7, "x"), Some(true));
    assert_eq!(index_lookup(&index, 7, "y"), Some(true));
    assert_eq!(index_lookup(&index, 8, "x"), Some(false));
}

#[test]
fn any_role_asks_every_role() {
    let rows = vec![role_row(1, 7, &["x"]), role_row(2, 8, &["y"])];
    let index = build_role_index(&rows);
    assert!(any_role_in_index(&index, &[7], "x"));
    assert!(any_role_in_index(&index, &[5, 6, 7], "x"));
    assert!(any_role_in_index(&index, &[7, 5, 6], "x"));
    assert!(!any_role_in_index(&index, &[8, 9], "x"));
    assert!(!any_role_in_index(&index, &[], "x"));
    assert!(!any_role_in_index(&index, &[7, 8], "z"));
}

#[test]
fn cache_sizes_are_as_documented() {
    assert_eq!(CACHE_SIZE, 100);
    assert_eq!(MAX_CACHE_SIZE, 65536);
    assert!(RoleCache::with_capacity(0).is_none());
    assert!(RoleCache::with_capacity(1).is_some());
    assert!(RoleCache::with_capacity(MAX_CACHE_SIZE).is_some());
    assert!(RoleCache::with_capacity(MAX_CACHE_SIZE + 1).is_none());
}

#[test]
fn empty_cache_answers_nothing() {
    let mut cache = RoleCache::new();
    assert_eq!(cache.check_role_permission_in_cache(1, 7, "x"), None);
    assert_eq!(cache.lookup_role(1, 7, "x"), None);
    assert_eq!(cache.check_roles_in_cache(1, &[7], "x"), None);
}

#[test]
fn cache_answers_from_the_installed_index() {
    let mut cache = RoleCache::new();
    cache.install(1, build_role_index(&vec![role_row(1, 7, &["x"]), role_row(2, 8, &[])]));
    assert_eq!(cache.check_role_permission_in_cache(1, 7, "x"), Some(true));
    assert_eq!(cache.check_role_permission_in_cache(1, 8, "x"), Some(false));
    assert_eq!(cache.check_role_permission_in_cache(1, 7, "y"), None);
    assert_eq!(cache.check_role_permission_in_cache(2, 7, "x"), None);
    assert_eq!(cache.lookup_role(1, 7, "y"), Some(None));
    assert_eq!(cache.lookup_role(1, 8, "x"), Some(Some(false)));
    assert_eq!(cache.lookup_role(2, 7, "x"), None);
    assert_eq!(cache.check_roles_in_cache(1, &[8, 7], "x"), Some(true));
    assert_eq!(cache.check_roles_in_cache(1, &[8], "x"), Some(false));
    assert_eq!(cache.check_roles_in_cache(1, &[], "x"), Some(false));
    assert_eq!(cache.check_roles_in_cache(2, &[7], "x"), None);
}

#[test]
fn install_replaces_the_index_of_a_guild() {
    let mut cache = RoleCache::new();
    cache.install(1, build_role_index(&vec![role_row(1, 7, &["x"])]));
    cache.install(1, build_role_index(&vec![role_row(1, 8, &["y"])]));
    assert_eq!(cache.check_role_permission_in_cache(1, 7, "x"), None);
    assert_eq!(cache.check_role_permission_in_cache(1, 8, "y"), Some(true));
}

#[test]
fn full_cache_drops_the_least_recently_installed() {
    let mut cache = RoleCache::with_capacity(2).unwrap();
    cache.install(1, build_role_index(&vec![role_row(1, 7, &["x"])]));
    cache.install(2, build_role_index(&vec![role_row(2, 7, &["x"])]));
    cache.install(3, build_role_index(&vec![role_row(3, 7, &["x"])]));
    assert_eq!(cache.lookup_role(1, 7, "x"), None);
    assert_eq!(cache.lookup_role(2, 7, "x"), Some(Some(true)));
    assert_eq!(cache.lookup_role(3, 7, "x"), Some(Some(true)));
}

#[test]
fn lookup_counts_as_use() {
    let mut cache = RoleCache::with_capacity(2).unwrap();
    cache.install(1, build_role_index(&vec![role_row(1, 7, &["x"])]));
    cache.install(2, build_role_index(&vec![role_row(2, 7, &["x"])]));
    assert_eq!(cache.check_role_permission_in_cache(1, 7, "x"), Some(true));
    cache.install(3, build_role_index(&vec![role_row(3, 7, &["x"])]));
    assert_eq!(cache.lookup_role(2, 7, "x"), None);
    assert_eq!(cache.lookup_role(1, 7, "x"), Some(Some(true)));
    assert_eq!(cache.lookup_role(3, 7, "x"), Some(Some(true)));
}

#[test]
fn lookup_of_an_absent_guild_moves_nothing() {
    let mut cache = RoleCache::with_capacity(2).unwrap();
    cache.install(1, build_role_index(&vec![role_row(1, 7, &["x"])]));
    cache.install(2, build_role_index(&vec![role_row(2, 7, &["x"])]));
    assert_eq!(cache.lookup_role(9, 7, "x"), None);
    cache.install(3, build_role_index(&vec![role_row(3, 7, &["x"])]));
    assert_eq!(cache.lookup_role(1, 7, "x"), None);
    assert_eq!(cache.lookup_role(2, 7, "x"), Some(Some(true)));
}

#[test]
fn replacing_an_index_in_a_full_cache_drops_nothing() {
    let mut cache = RoleCache::with_capacity(2).unwrap();
    cache.install(1, build_role_index(&vec![role_row(1, 7, &["x"])]));
    cache.install(2, build_role_index(&vec![role_row(2, 7, &["x"])]));
    cache.install(1, build_role_index(&vec![role_row(1, 7, &["y"])]));
    assert_eq!(cache.lookup_role(2, 7, "x"), Some(Some(true)));
    assert_eq!(cache.lookup_role(1, 7, "y"), Some(Some(true)));
    assert_eq!(cache.lookup_role(1, 7, "x"), Some(None));
}

#[test]
fn cache_of_one_keeps_the_last_guild() {
    let mut cache = RoleCache::with_capacity(1).unwrap();
    cache.install(1, build_role_index(&vec![role_row(1, 7, &["x"])]));
    assert_eq!(cache.lookup_role(1, 7, "x"), Some(Some(true)));
    cache.install(2, build_role_index(&vec![role_row(2, 8, &["x"])]));
    assert_eq!(cache.lookup_role(1, 7, "x"), None);
    assert_eq!(cache.lookup_role(2, 8, "x"), Some(Some(true)));
}
