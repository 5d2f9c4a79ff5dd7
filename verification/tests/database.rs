use wh_core::database::Id;
use wh_core::rows::{PlaylistRaw, RolePermissionRaw, RolePointsRaw, UserPermissionRaw, UserPointRaw};

#[test]
fn id_reads_small_values_unchanged() {
    assert_eq!(Id::from_stored(0), Id(0));
    assert_eq!(Id::from_stored(42), Id(42));
    assert_eq!(Id::from_stored(i64::MAX), Id(9_223_372_036_854_775_807));
}

#[test]
fn id_reads_negative_values_as_high_snowflakes() {
    assert_eq!(Id::from_stored(-1), Id(u64::MAX));
    assert_eq!(Id::from_stored(i64::MIN), Id(9_223_372_036_854_775_808));
    assert_eq!(Id::from_stored(-2), Id(18_446_744_073_709_551_614));
}

#[test]
fn id_stores_high_snowflakes_as_negative_values() {
    assert_eq!(Id(0).to_stored(), 0);
    assert_eq!(Id(9_223_372_036_854_775_807).to_stored(), i64::MAX);
    assert_eq!(Id(9_223_372_036_854_775_808).to_stored(), i64::MIN);
    assert_eq!(Id(u64::MAX).to_stored(), -1);
}

#[test]
fn id_round_trips_through_the_store() {
    for raw in [i64::MIN, -77, -1, 0, 1, 684_000_000_000_000_000, i64::MAX] {
        assert_eq!(Id::from_stored(raw).to_stored(), raw);
    }
    for id in [0u64, 1, 1 << 63, (1 << 63) - 1, u64::MAX, 684_000_000_000_000_000] {
        assert_eq!(Id::from_stored(Id(id).to_stored()), Id(id));
    }
}

#[test]
fn id_from_agrees_with_from_stored() {
    let id: Id = (-5i64).into();
    assert_eq!(id, Id(u64::MAX - 4));
    assert_eq!(Id::from(17i64), Id(17));
}

#[test]
fn user_permission_row_is_processed() {
    let raw = UserPermissionRaw {
        uid: 3,
        guildid: -1,
        userid: 42,
        ids: vec!["music.manage".to_string(), "points.manage".to_string()],
    };
    let row = raw.into_processed();
    assert_eq!(row.uid, 3);
    assert_eq!(row.guildid, Id(u64::MAX));
    assert_eq!(row.userid, Id(42));
    assert_eq!(row.ids, vec!["music.manage".to_string(), "points.manage".to_string()]);
}

#[test]
fn role_permission_row_is_processed() {
    let raw = RolePermissionRaw { uid: -9, guildid: 1, roleid: i64::MIN, ids: Vec::new() };
    let row = raw.into_processed();
    assert_eq!(row.uid, -9);
    assert_eq!(row.guildid, Id(1));
    assert_eq!(row.roleid, Id(1 << 63));
    assert!(row.ids.is_empty());
}

#[test]
fn user_point_row_is_processed() {
    let row = UserPointRaw { uid: 1, userid: -3, guildid: 8, points: -250 }.into_processed();
    assert_eq!(row.uid, 1);
    assert_eq!(row.userid, Id(u64::MAX - 2));
    assert_eq!(row.guildid, Id(8));
    assert_eq!(row.points, -250);
}

#[test]
fn role_points_row_is_processed() {
    let row = RolePointsRaw { uid: 2, roleid: 77, guildid: -8, points: 1000 }.into_processed();
    assert_eq!(row.uid, 2);
    assert_eq!(row.roleid, Id(77));
    assert_eq!(row.guildid, Id(u64::MAX - 7));
    assert_eq!(row.points, 1000);
}

#[test]
fn playlist_row_is_processed() {
    let raw = PlaylistRaw {
        uid: 5,
        userid: 6,
        guildid: 7,
        name: "ROAD".to_string(),
        items: vec!["https://youtube.com/watch?v=a".to_string()],
    };
    let row = raw.into_processed();
    assert_eq!(row.uid, 5);
    assert_eq!(row.userid, Id(6));
    assert_eq!(row.guildid, Id(7));
    assert_eq!(row.name, "ROAD");
    assert_eq!(row.items, vec!["https://youtube.com/watch?v=a".to_string()]);
}
