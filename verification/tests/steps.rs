use wh_core::commands::{Change, Subject};
use wh_core::error::{Error, StoreError};
use wh_core::registry::{add_permission, PermissionRegistry};
use wh_core::steps::{change_step, view_step, Order, Report, Request, Stage, ViewRequest};

fn names_known(names: &[&'static str]) -> PermissionRegistry {
    let mut registry = PermissionRegistry::new();
    add_permission(&mut registry, names);
    registry
}

fn store_broke(message: &str) -> StoreError {
    StoreError { message: message.to_string() }
}

fn both_of(order: Order) -> (String, String) {
    match order {
        Order::Reply(Err(Error::Both { msg, err })) => (msg, err),
        _ => panic!("expected an error for user and log"),
    }
}

fn grant_x_to_42() -> Request<'static> {
    Request { subject: Subject::User, change: Change::Grant, mention: Some(42), permission: Some("x") }
}

fn remove_manage_from_role_7() -> Request<'static> {
    Request {
        subject: Subject::Role,
        change: Change::Remove,
        mention: Some(7),
        permission: Some("permission.manage"),
    }
}

#[test]
fn change_of_a_plain_permission_goes_to_the_row_at_once() {
    let registry = names_known(&["x", "permission.manage"]);
    let (stage, order) = change_step(&registry, &grant_x_to_42(), Stage::Start, Report::Begin);
    assert_eq!(stage, Stage::EnsuringRow);
    assert!(matches!(order, Order::EnsureRow { target: 42 }));
}

#[test]
fn change_of_the_management_permission_asks_the_platform_first() {
    let registry = names_known(&["x", "permission.manage"]);
    let request = remove_manage_from_role_7();
    let (stage, order) = change_step(&registry, &request, Stage::Start, Report::Begin);
    assert_eq!(stage, Stage::AskingPlatform);
    assert!(matches!(order, Order::AskAdministrator));
    let (stage, order) = change_step(&registry, &request, stage, Report::Administrator(Ok(true)));
    assert_eq!(stage, Stage::EnsuringRow);
    assert!(matches!(order, Order::EnsureRow { target: 7 }));
}

#[test]
fn change_is_turned_down_for_those_who_are_no_administrators() {
    let registry = names_known(&["permission.manage"]);
    let request = remove_manage_from_role_7();
    let report = Report::Administrator(Ok(false));
    let (stage, order) = change_step(&registry, &request, Stage::AskingPlatform, report);
    assert_eq!(stage, Stage::Finished);
    match order {
        Order::Reply(Err(Error::Message(text))) => assert_eq!(
            text,
            "This permission can only be managed by having the ADMINISTRATOR discord permission"
        ),
        _ => panic!("expected a message"),
    }
    let report = Report::Administrator(Err("no guild".to_string()));
    let (stage, order) = change_step(&registry, &request, Stage::AskingPlatform, report);
    assert_eq!(stage, Stage::Finished);
    let (msg, err) = both_of(order);
    assert_eq!(msg, "Internal Error");
    assert_eq!(err, "Internal Error: no guild");
}

#[test]
fn change_is_turned_down_at_the_start_for_a_bad_request() {
    let registry = names_known(&["x"]);
    let bad = [
        (Request { mention: None, ..grant_x_to_42() }, "You need to mention someone"),
        (
            Request { permission: None, ..grant_x_to_42() },
            "You need to provide a permission to give!",
        ),
        (Request { permission: Some("y"), ..grant_x_to_42() }, "This permission does't exist!"),
        (remove_manage_from_role_7(), "This permission does't exist!"),
    ];
    for (request, told) in bad {
        let (stage, order) = change_step(&registry, &request, Stage::Start, Report::Begin);
        assert_eq!(stage, Stage::Finished);
        match order {
            Order::Reply(Err(Error::Message(text))) => assert_eq!(text, told),
            _ => panic!("expected a message"),
        }
        let (stage, order) =
            change_step(&registry, &request, Stage::EnsuringRow, Report::RowEnsured(Ok(())));
        assert_eq!(stage, Stage::Finished);
        assert_eq!(both_of(order).1, "Unexpected store event");
    }
}

#[test]
fn change_updates_after_the_row_and_replies_after_the_update() {
    let registry = names_known(&["x"]);
    let request = grant_x_to_42();
    let (stage, order) =
        change_step(&registry, &request, Stage::EnsuringRow, Report::RowEnsured(Ok(())));
    assert_eq!(stage, Stage::Updating);
    match order {
        Order::Update { target, permission } => {
            assert_eq!(target, 42);
            assert_eq!(permission, "x");
        },
        _ => panic!("expected an update"),
    }
    let (stage, order) = change_step(&registry, &request, stage, Report::Updated(Ok(())));
    assert_eq!(stage, Stage::Finished);
    match order {
        Order::Reply(Ok(text)) => assert_eq!(text, "The permission has been granted"),
        _ => panic!("expected a reply"),
    }
    let removal = Request { change: Change::Remove, ..grant_x_to_42() };
    let (_, order) = change_step(&registry, &removal, Stage::Updating, Report::Updated(Ok(())));
    match order {
        Order::Reply(Ok(text)) => assert_eq!(text, "The permission has been removed"),
        _ => panic!("expected a reply"),
    }
}

#[test]
fn change_tells_the_user_of_every_store_failure() {
    let registry = names_known(&["x"]);
    let request = grant_x_to_42();
    let report = Report::RowEnsured(Err(store_broke("pool closed")));
    let (stage, order) = change_step(&registry, &request, Stage::EnsuringRow, report);
    assert_eq!(stage, Stage::Finished);
    assert_eq!(both_of(order), ("Internal Error".to_string(), "pool closed".to_string()));
    let report = Report::Updated(Err(store_broke("deadlock")));
    let (stage, order) = change_step(&registry, &request, Stage::Updating, report);
    assert_eq!(stage, Stage::Finished);
    assert_eq!(
        both_of(order),
        (
            "An error occured with the database".to_string(),
            "Error when granting permission: deadlock".to_string()
        )
    );
}

#[test]
fn change_refuses_reports_out_of_turn() {
    let registry = names_known(&["x"]);
    let request = grant_x_to_42();
    let turns: Vec<(Stage, Report)> = vec![
        (Stage::Start, Report::RowEnsured(Ok(()))),
        (Stage::AskingPlatform, Report::Begin),
        (Stage::EnsuringRow, Report::Updated(Ok(()))),
        (Stage::Updating, Report::RowEnsured(Ok(()))),
        (Stage::Updating, Report::Row(Ok(Some(Vec::new())))),
        (Stage::Reading, Report::Row(Ok(Some(Vec::new())))),
        (Stage::Finished, Report::Begin),
    ];
    for (stage, report) in turns {
        let (next, order) = change_step(&registry, &request, stage, report);
        assert_eq!(next, Stage::Finished);
        assert_eq!(
            both_of(order),
            ("Internal Error".to_string(), "Unexpected store event".to_string())
        );
    }
}

#[test]
fn view_makes_sure_of_the_row_reads_it_and_shows_it() {
    let request =
        ViewRequest { subject: Subject::User, mention: None, author: 42, rendered: "<@42>" };
    let (stage, order) = view_step(&request, Stage::Start, Report::Begin);
    assert_eq!(stage, Stage::EnsuringRow);
    assert!(matches!(order, Order::EnsureRow { target: 42 }));
    let (stage, order) = view_step(&request, stage, Report::RowEnsured(Ok(())));
    assert_eq!(stage, Stage::Reading);
    assert!(matches!(order, Order::ReadRow { target: 42 }));
    let ids = vec!["x".to_string(), "y".to_string()];
    let (stage, order) = view_step(&request, stage, Report::Row(Ok(Some(ids))));
    assert_eq!(stage, Stage::Finished);
    match order {
        Order::Reply(Ok(text)) => assert_eq!(text, "<@42> permissions are: `x` `y` "),
        _ => panic!("expected a reply"),
    }
}

#[test]
fn view_of_a_role_needs_a_mention() {
    let request = ViewRequest { subject: Subject::Role, mention: None, author: 42, rendered: "" };
    let (stage, order) = view_step(&request, Stage::Start, Report::Begin);
    assert_eq!(stage, Stage::Finished);
    match order {
        Order::Reply(Err(Error::Message(text))) => assert_eq!(text, "You need to mention a role!"),
        _ => panic!("expected a message"),
    }
    let request =
        ViewRequest { subject: Subject::Role, mention: Some(7), author: 42, rendered: "<@&7>" };
    let (stage, order) = view_step(&request, Stage::Start, Report::Begin);
    assert_eq!(stage, Stage::EnsuringRow);
    assert!(matches!(order, Order::EnsureRow { target: 7 }));
}

#[test]
fn view_tells_the_user_of_every_store_failure() {
    let request =
        ViewRequest { subject: Subject::User, mention: Some(5), author: 42, rendered: "<@5>" };
    let report = Report::RowEnsured(Err(store_broke("pool closed")));
    let (stage, order) = view_step(&request, Stage::EnsuringRow, report);
    assert_eq!(stage, Stage::Finished);
    assert_eq!(both_of(order), ("Internal Error".to_string(), "pool closed".to_string()));
    let report = Report::Row(Err(store_broke("timeout")));
    let (stage, order) = view_step(&request, Stage::Reading, report);
    assert_eq!(stage, Stage::Finished);
    assert_eq!(both_of(order), ("Internal Error".to_string(), "timeout".to_string()));
}

#[test]
fn view_refuses_a_missing_row_and_reports_out_of_turn() {
    let request =
        ViewRequest { subject: Subject::User, mention: Some(5), author: 42, rendered: "<@5>" };
    let turns: Vec<(Stage, Report)> = vec![
        (Stage::Reading, Report::Row(Ok(None))),
        (Stage::Start, Report::Row(Ok(Some(Vec::new())))),
        (Stage::EnsuringRow, Report::Begin),
        (Stage::Updating, Report::Updated(Ok(()))),
        (Stage::AskingPlatform, Report::Administrator(Ok(true))),
        (Stage::Finished, Report::Begin),
    ];
    for (stage, report) in turns {
        let (next, order) = view_step(&request, stage, report);
        assert_eq!(next, Stage::Finished);
        assert_eq!(
            both_of(order),
            ("Internal Error".to_string(), "Unexpected store event".to_string())
        );
    }
}
