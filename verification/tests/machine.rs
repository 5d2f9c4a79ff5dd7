use wh_core::cache::RoleCache;
use wh_core::check::{step, warning_text, Action, Event, Phase, Question};
use wh_core::database::Id;
use wh_core::error::{Reason, StoreError};
use wh_core::guard::check_permission;
use wh_core::index::build_role_index;
use wh_core::registry::{add_permission, PermissionRegistry};
use wh_core::rows::RolePermission;

fn known(names: &[&'static str]) -> PermissionRegistry {
    let mut registry = PermissionRegistry::new();
    add_permission(&mut registry, names);
    registry
}

fn broken(message: &str) -> StoreError {
    StoreError { message: message.to_string() }
}

fn guild_row(uid: i64, roleid: u64, ids: &[&str]) -> RolePermission {
    RolePermission {
        uid,
        guildid: Id(1),
        roleid: Id(roleid),
        ids: ids.iter().map(|s| s.to_string()).collect(),
    }
}

const ASK: Question<'static> =
    Question { userid: 42, guildid: 1, roles: &[7, 8], permission: "music.manage" };

const ASK_ALONE: Question<'static> =
    Question { userid: 42, guildid: 1, roles: &[], permission: "music.manage" };

#[test]
fn registered_permission_starts_with_the_row() {
    let registry = known(&["music.manage"]);
    let mut cache = RoleCache::new();
    let (phase, action) = step(&ASK, &registry, Phase::Start, Event::Begin, &mut cache);
    assert_eq!(phase, Phase::EnsuringRow);
    assert!(matches!(action, Action::EnsureRow));
}

#[test]
fn unregistered_permission_starts_with_a_warning() {
    let registry = known(&["points.manage"]);
    let mut cache = RoleCache::new();
    let (phase, action) = step(&ASK, &registry, Phase::Start, Event::Begin, &mut cache);
    assert_eq!(phase, Phase::Warning);
    match action {
        Action::Log(text) => assert_eq!(
            text,
            "You need to register the permission `music.manage` with the wh_core::registry::add_permission function"
        ),
        _ => panic!("expected a log entry"),
    }
    let (phase, action) = step(&ASK, &registry, phase, Event::Logged, &mut cache);
    assert_eq!(phase, Phase::EnsuringRow);
    assert!(matches!(action, Action::EnsureRow));
}

#[test]
fn unregistered_permission_ends_with_no_after_the_row() {
    let registry = known(&["points.manage"]);
    let mut cache = RoleCache::new();
    cache.install(1, build_role_index(&vec![guild_row(1, 7, &["music.manage"])]));
    let (phase, action) =
        step(&ASK, &registry, Phase::EnsuringRow, Event::RowEnsured(Ok(())), &mut cache);
    assert_eq!(phase, Phase::Finished);
    assert!(matches!(action, Action::Return(Ok(false))));
    assert_eq!(cache.lookup_role(1, 7, "music.manage"), Some(Some(true)));
}

#[test]
fn unregistered_permission_still_reports_a_row_that_cannot_be_made() {
    let registry = known(&["points.manage"]);
    let mut cache = RoleCache::new();
    let event = Event::RowEnsured(Err(broken("connection lost")));
    let (phase, action) = step(&ASK, &registry, Phase::EnsuringRow, event, &mut cache);
    assert_eq!(phase, Phase::Finished);
    match action {
        Action::Return(Err(Reason::UserAndLog { user, log })) => {
            assert_eq!(user, "Internal Error");
            assert_eq!(log, "Database Error when fetching permission: connection lost");
        },
        _ => panic!("expected a reason for user and log"),
    }
}

#[test]
fn warning_names_the_permission() {
    assert_eq!(
        warning_text("x"),
        "You need to register the permission `x` with the wh_core::registry::add_permission function"
    );
    assert_eq!(
        warning_text(""),
        "You need to register the permission `` with the wh_core::registry::add_permission function"
    );
}

#[test]
fn ensured_row_leads_to_the_direct_match() {
    let registry = known(&["music.manage"]);
    let mut cache = RoleCache::new();
    let (phase, action) =
        step(&ASK, &registry, Phase::EnsuringRow, Event::RowEnsured(Ok(())), &mut cache);
    assert_eq!(phase, Phase::MatchingDirect);
    assert!(matches!(action, Action::MatchDirect));
}

#[test]
fn unsure_row_ends_with_an_internal_error() {
    let registry = known(&["music.manage"]);
    let mut cache = RoleCache::new();
    let event = Event::RowEnsured(Err(broken("connection lost")));
    let (phase, action) = step(&ASK, &registry, Phase::EnsuringRow, event, &mut cache);
    assert_eq!(phase, Phase::Finished);
    match action {
        Action::Return(Err(Reason::UserAndLog { user, log })) => {
            assert_eq!(user, "Internal Error");
            assert_eq!(log, "Database Error when fetching permission: connection lost");
        },
        _ => panic!("expected a reason for user and log"),
    }
}

#[test]
fn direct_grant_ends_with_yes() {
    let registry = known(&["music.manage"]);
    let mut cache = RoleCache::new();
    let event = Event::ExactMatch(Ok(true));
    let (phase, action) = step(&ASK, &registry, Phase::MatchingDirect, event, &mut cache);
    assert_eq!(phase, Phase::Finished);
    assert!(matches!(action, Action::Return(Ok(true))));
    assert_eq!(cache.lookup_role(1, 7, "music.manage"), None);
}

#[test]
fn no_grant_and_no_roles_ends_with_no() {
    let registry = known(&["music.manage"]);
    let mut cache = RoleCache::new();
    let event = Event::ExactMatch(Ok(false));
    let (phase, action) = step(&ASK_ALONE, &registry, Phase::MatchingDirect, event, &mut cache);
    assert_eq!(phase, Phase::Finished);
    assert!(matches!(action, Action::Return(Ok(false))));
}

#[test]
fn broken_match_ends_with_an_internal_error() {
    let registry = known(&["music.manage"]);
    let mut cache = RoleCache::new();
    let event = Event::ExactMatch(Err(broken("timeout")));
    let (phase, action) = step(&ASK, &registry, Phase::MatchingDirect, event, &mut cache);
    assert_eq!(phase, Phase::Finished);
    match action {
        Action::Return(Err(Reason::UserAndLog { user, log })) => {
            assert_eq!(user, "Internal Error");
            assert_eq!(log, "Database error: timeout");
        },
        _ => panic!("expected a reason for user and log"),
    }
}

#[test]
fn store_failure_reaches_the_user_without_its_cause() {
    let registry = known(&["music.manage"]);
    let turns: Vec<(Phase, Event)> = vec![
        (Phase::EnsuringRow, Event::RowEnsured(Err(broken("secret cause")))),
        (Phase::MatchingDirect, Event::ExactMatch(Err(broken("secret cause")))),
        (Phase::LoadingRoles, Event::RoleRows(Err(broken("secret cause")))),
    ];
    for (phase, event) in turns {
        let mut cache = RoleCache::new();
        let (_, action) = step(&ASK, &registry, phase, event, &mut cache);
        let verdict = match action {
            Action::Return(verdict) => verdict,
            _ => panic!("expected the end of the check"),
        };
        match check_permission(verdict, "music.manage") {
            Err(Reason::UserAndLog { user, log }) => {
                assert_eq!(user, "Internal Error");
                assert!(log.ends_with("secret cause"));
            },
            _ => panic!("expected a reason for user and log"),
        }
    }
}

#[test]
fn roles_without_cached_index_ask_for_the_rows() {
    let registry = known(&["music.manage"]);
    let mut cache = RoleCache::new();
    let event = Event::ExactMatch(Ok(false));
    let (phase, action) = step(&ASK, &registry, Phase::MatchingDirect, event, &mut cache);
    assert_eq!(phase, Phase::LoadingRoles);
    assert!(matches!(action, Action::ListRoles));
}

#[test]
fn roles_with_cached_index_are_answered_at_once() {
    let registry = known(&["music.manage"]);
    let mut cache = RoleCache::new();
    cache.install(1, build_role_index(&vec![guild_row(1, 8, &["music.manage"])]));
    let event = Event::ExactMatch(Ok(false));
    let (phase, action) = step(&ASK, &registry, Phase::MatchingDirect, event, &mut cache);
    assert_eq!(phase, Phase::Finished);
    assert!(matches!(action, Action::Return(Ok(true))));

    let mut other = RoleCache::new();
    other.install(1, build_role_index(&vec![guild_row(1, 9, &["music.manage"])]));
    let event = Event::ExactMatch(Ok(false));
    let (phase, action) = step(&ASK, &registry, Phase::MatchingDirect, event, &mut other);
    assert_eq!(phase, Phase::Finished);
    assert!(matches!(action, Action::Return(Ok(false))));
}

#[test]
fn listed_rows_answer_and_are_cached() {
    let registry = known(&["music.manage"]);
    let mut cache = RoleCache::new();
    let rows = vec![guild_row(1, 7, &["music.manage"]), guild_row(2, 9, &["points.manage"])];
    let event = Event::RoleRows(Ok(rows));
    let (phase, action) = step(&ASK, &registry, Phase::LoadingRoles, event, &mut cache);
    assert_eq!(phase, Phase::Finished);
    assert!(matches!(action, Action::Return(Ok(true))));
    assert_eq!(cache.lookup_role(1, 7, "music.manage"), Some(Some(true)));
    assert_eq!(cache.lookup_role(1, 9, "points.manage"), Some(Some(true)));
    assert_eq!(cache.lookup_role(1, 9, "music.manage"), Some(Some(false)));
}

#[test]
fn listed_rows_without_a_grant_answer_no() {
    let registry = known(&["music.manage"]);
    let mut cache = RoleCache::new();
    let rows = vec![guild_row(1, 9, &["music.manage"]), guild_row(2, 7, &["points.manage"])];
    let event = Event::RoleRows(Ok(rows));
    let (phase, action) = step(&ASK, &registry, Phase::LoadingRoles, event, &mut cache);
    assert_eq!(phase, Phase::Finished);
    assert!(matches!(action, Action::Return(Ok(false))));
    assert_eq!(cache.lookup_role(1, 9, "music.manage"), Some(Some(true)));
}

#[test]
fn broken_listing_leaves_the_guild_uncached() {
    let registry = known(&["music.manage"]);
    let mut cache = RoleCache::new();
    let event = Event::RoleRows(Err(broken("stream closed")));
    let (phase, action) = step(&ASK, &registry, Phase::LoadingRoles, event, &mut cache);
    assert_eq!(phase, Phase::Finished);
    match action {
        Action::Return(Err(Reason::UserAndLog { user, log })) => {
            assert_eq!(user, "Internal Error");
            assert_eq!(log, "Database error: stream closed");
        },
        _ => panic!("expected a reason for user and log"),
    }
    assert_eq!(cache.lookup_role(1, 7, "music.manage"), None);
}

#[test]
fn event_out_of_turn_ends_the_check() {
    let registry = known(&["music.manage"]);
    let mut cache = RoleCache::new();
    let turns: Vec<(Phase, Event)> = vec![
        (Phase::Start, Event::Logged),
        (Phase::Start, Event::ExactMatch(Ok(true))),
        (Phase::Warning, Event::Begin),
        (Phase::EnsuringRow, Event::ExactMatch(Ok(true))),
        (Phase::MatchingDirect, Event::RowEnsured(Ok(()))),
        (Phase::LoadingRoles, Event::ExactMatch(Ok(true))),
        (Phase::Finished, Event::Begin),
        (Phase::Finished, Event::RoleRows(Ok(Vec::new()))),
    ];
    for (phase, event) in turns {
        let (next, action) = step(&ASK, &registry, phase, event, &mut cache);
        assert_eq!(next, Phase::Finished);
        match action {
            Action::Return(Err(Reason::UserAndLog { user, log })) => {
                assert_eq!(user, "Internal Error");
                assert_eq!(log, "Unexpected store event");
            },
            _ => panic!("expected a reason for user and log"),
        }
    }
    assert_eq!(cache.lookup_role(1, 7, "music.manage"), None);
}

#[test]
fn of_two_checks_that_list_the_rows_the_later_one_is_cached() {
    let registry = known(&["music.manage"]);
    let mut cache = RoleCache::with_capacity(1).unwrap();
    let (first, _) =
        step(&ASK, &registry, Phase::MatchingDirect, Event::ExactMatch(Ok(false)), &mut cache);
    let (second, _) =
        step(&ASK, &registry, Phase::MatchingDirect, Event::ExactMatch(Ok(false)), &mut cache);
    assert_eq!(first, Phase::LoadingRoles);
    assert_eq!(second, Phase::LoadingRoles);
    let early = vec![guild_row(1, 7, &["music.manage"])];
    let late = vec![guild_row(1, 7, &[]), guild_row(2, 8, &["music.manage"])];
    let (_, action) = step(&ASK, &registry, first, Event::RoleRows(Ok(early)), &mut cache);
    assert!(matches!(action, Action::Return(Ok(true))));
    assert_eq!(cache.lookup_role(1, 7, "music.manage"), Some(Some(true)));
    let (_, action) = step(&ASK, &registry, second, Event::RoleRows(Ok(late)), &mut cache);
    assert!(matches!(action, Action::Return(Ok(true))));
    assert_eq!(cache.lookup_role(1, 7, "music.manage"), Some(Some(false)));
    assert_eq!(cache.lookup_role(1, 8, "music.manage"), Some(Some(true)));
}

#[test]
fn unregistered_permission_is_never_answered_from_the_store() {
    let registry = known(&["points.manage"]);
    let mut cache = RoleCache::new();
    cache.install(1, build_role_index(&vec![guild_row(1, 7, &["music.manage"])]));
    let turns: Vec<(Phase, Event)> = vec![
        (Phase::MatchingDirect, Event::ExactMatch(Ok(true))),
        (Phase::MatchingDirect, Event::ExactMatch(Ok(false))),
        (Phase::MatchingDirect, Event::ExactMatch(Err(broken("timeout")))),
        (Phase::LoadingRoles, Event::RoleRows(Ok(vec![guild_row(1, 8, &["music.manage"])]))),
        (Phase::LoadingRoles, Event::RoleRows(Err(broken("timeout")))),
    ];
    for (phase, event) in turns {
        let (next, action) = step(&ASK, &registry, phase, event, &mut cache);
        assert_eq!(next, Phase::Finished);
        match action {
            Action::Return(Err(Reason::UserAndLog { user, log })) => {
                assert_eq!(user, "Internal Error");
                assert_eq!(log, "Unexpected store event");
            },
            _ => panic!("expected a reason for user and log"),
        }
    }
    assert_eq!(cache.lookup_role(1, 8, "music.manage"), Some(Some(false)));
    assert_eq!(cache.lookup_role(1, 7, "music.manage"), Some(Some(true)));
}
