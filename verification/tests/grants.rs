use wh_core::grants::{add_name, copy_names, holds, remove_name};

fn grant_list(list: &[&str]) -> Vec<String> {
    list.iter().map(|s| s.to_string()).collect()
}

#[test]
fn holds_finds_exact_names_only() {
    let ids = grant_list(&["music.manage", "points.manage"]);
    assert!(holds(&ids, "music.manage"));
    assert!(holds(&ids, "points.manage"));
    assert!(!holds(&ids, "music"));
    assert!(!holds(&ids, "MUSIC.MANAGE"));
    assert!(!holds(&Vec::new(), "music.manage"));
}

#[test]
fn add_name_appends_a_new_name() {
    let mut ids = grant_list(&["a"]);
    add_name(&mut ids, "b");
    assert_eq!(ids, grant_list(&["a", "b"]));
}

#[test]
fn add_name_of_a_held_name_changes_nothing() {
    let mut ids = grant_list(&["a", "b"]);
    add_name(&mut ids, "a");
    assert_eq!(ids, grant_list(&["a", "b"]));
    add_name(&mut ids, "b");
    assert_eq!(ids, grant_list(&["a", "b"]));
}

#[test]
fn remove_name_keeps_the_order_of_the_rest() {
    let mut ids = grant_list(&["a", "b", "c"]);
    remove_name(&mut ids, "b");
    assert_eq!(ids, grant_list(&["a", "c"]));
}

#[test]
fn remove_name_takes_every_occurrence() {
    let mut ids = grant_list(&["x", "a", "x", "b", "x"]);
    remove_name(&mut ids, "x");
    assert_eq!(ids, grant_list(&["a", "b"]));
}

#[test]
fn remove_name_of_an_absent_name_changes_nothing() {
    let mut ids = grant_list(&["a", "b"]);
    remove_name(&mut ids, "c");
    assert_eq!(ids, grant_list(&["a", "b"]));
    let mut empty: Vec<String> = Vec::new();
    remove_name(&mut empty, "c");
    assert!(empty.is_empty());
}

#[test]
fn copy_names_copies_name_for_name() {
    let ids = grant_list(&["a", "b", "a"]);
    assert_eq!(copy_names(&ids), ids);
    assert!(copy_names(&Vec::new()).is_empty());
}
