//! The rows of the bot's tables, as the store yields them and as the bot
//! uses them.
//!
//! The store keeps identifiers as signed integers. A row read from it is a
//! `...Raw` value; `into_processed` turns the identifiers into [`Id`]s and
//! leaves the rest alone.

use crate::database::{unsigned_bits, Id};
use vstd::prelude::*;

verus! {

/// A row of `user_permission` as stored.
pub struct UserPermissionRaw {
    pub uid: i64,
    pub guildid: i64,
    pub userid: i64,
    pub ids: Vec<String>,
}

/// The permissions that one user holds directly in one guild.
pub struct UserPermission {
    pub uid: i64,
    pub guildid: Id,
    pub userid: Id,
    pub ids: Vec<String>,
}

impl UserPermissionRaw {
    /// Reads the identifiers; the row id and the grant list pass through.
    pub fn into_processed(self) -> (row: UserPermission)
        ensures
            row.uid == self.uid,
            row.ids == self.ids,
            row.guildid.0 == unsigned_bits(self.guildid),
            row.userid.0 == unsigned_bits(self.userid),
    {
        UserPermission {
            uid: self.uid,
            ids: self.ids,
            guildid: Id::from_stored(self.guildid),
            userid: Id::from_stored(self.userid),
        }
    }
}

/// A row of `role_permission` as stored.
#[derive(Debug, Clone)]
pub struct RolePermissionRaw {
    pub uid: i64,
    pub guildid: i64,
    pub roleid: i64,
    pub ids: Vec<String>,
}

/// The permissions that every holder of one role has in one guild.
#[derive(Debug, Clone)]
pub struct RolePermission {
    pub uid: i64,
    pub guildid: Id,
    pub roleid: Id,
    pub ids: Vec<String>,
}

impl RolePermissionRaw {
    /// Reads the identifiers; the row id and the grant list pass through.
    pub fn into_processed(self) -> (row: RolePermission)
        ensures
            row.uid == self.uid,
            row.ids == self.ids,
            row.guildid.0 == unsigned_bits(self.guildid),
            row.roleid.0 == unsigned_bits(self.roleid),
    {
        RolePermission {
            uid: self.uid,
            ids: self.ids,
            guildid: Id::from_stored(self.guildid),
            roleid: Id::from_stored(self.roleid),
        }
    }
}

/// A row of `user_points` as stored.
pub struct UserPointRaw {
    pub uid: i64,
    pub userid: i64,
    pub guildid: i64,
    pub points: i64,
}

/// The points that one user has gathered in one guild.
pub struct UserPoint {
    pub uid: i64,
    pub userid: Id,
    pub guildid: Id,
    pub points: i64,
}

impl UserPointRaw {
    /// Reads the identifiers; the row id and the points pass through.
    pub fn into_processed(self) -> (row: UserPoint)
        ensures
            row.uid == self.uid,
            row.points == self.points,
            row.userid.0 == unsigned_bits(self.userid),
            row.guildid.0 == unsigned_bits(self.guildid),
    {
        UserPoint {
            uid: self.uid,
            userid: Id::from_stored(self.userid),
            guildid: Id::from_stored(self.guildid),
            points: self.points,
        }
    }
}

/// A row of `role_points` as stored.
pub struct RolePointsRaw {
    pub uid: i64,
    pub roleid: i64,
    pub guildid: i64,
    pub points: i64,
}

/// The points from which on a guild hands out one role.
pub struct RolePoints {
    pub uid: i64,
    pub roleid: Id,
    pub guildid: Id,
    pub points: i64,
}

impl RolePointsRaw {
    /// Reads the identifiers; the row id and the points pass through.
    pub fn into_processed(self) -> (row: RolePoints)
        ensures
            row.uid == self.uid,
            row.points == self.points,
            row.roleid.0 == unsigned_bits(self.roleid),
            row.guildid.0 == unsigned_bits(self.guildid),
    {
        RolePoints {
            uid: self.uid,
            roleid: Id::from_stored(self.roleid),
            guildid: Id::from_stored(self.guildid),
            points: self.points,
        }
    }
}

/// A row of `user_playlist` as stored.
#[derive(Debug, Clone)]
pub struct PlaylistRaw {
    pub uid: i64,
    pub userid: i64,
    pub guildid: i64,
    pub name: String,
    pub items: Vec<String>,
}

/// A named list of songs that a user keeps in a guild.
pub struct Playlist {
    pub uid: i64,
    pub userid: Id,
    pub guildid: Id,
    pub name: String,
    pub items: Vec<String>,
}

impl PlaylistRaw {
    /// Reads the identifiers; row id, name and songs pass through.
    pub fn into_processed(self) -> (row: Playlist)
        ensures
            row.uid == self.uid,
            row.name == self.name,
            row.items == self.items,
            row.userid.0 == unsigned_bits(self.userid),
            row.guildid.0 == unsigned_bits(self.guildid),
    {
        Playlist {
            uid: self.uid,
            userid: Id::from_stored(self.userid),
            guildid: Id::from_stored(self.guildid),
            name: self.name,
            items: self.items,
        }
    }
}

} // verus!
