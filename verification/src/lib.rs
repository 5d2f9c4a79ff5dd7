//! The verified core of the bot: the guild-scoped permission engine, and the
//! identifiers, errors and rows that the bot's modules share.
//!
//! The engine decides whether a user may use a permission in a guild. A
//! permission is held directly, by a row of the user, or through a role, by
//! a row of a role that the user holds. Role grants are answered from an
//! index per guild, which is kept in a cache of bounded size.
//!
//! - [`registry`]: the permission names that the modules have announced;
//!   [`modules`]: what each module announces.
//! - [`grants`], [`table`], [`store`]: grant lists, the table that holds
//!   them, and the two tables of the store, in memory.
//! - [`index`], [`cache`]: the index of a guild's role grants and the cache
//!   of indexes.
//! - [`check`]: one permission check, as a machine that asks the store and
//!   decides; [`guard`]: what a command guard makes of the answer.
//! - [`commands`]: what the `permission` commands decide; [`steps`]: the
//!   commands as machines that ask the platform and the store.
//! - [`engine`]: registry, store, cache and log in one value.
//! - [`laws`]: what holds of all of it.
//! - [`database`], [`error`], [`rows`], [`response`]: what the bot's
//!   modules share.
//!
//! Everything is proved but for what a proof cannot reach: the behaviour of
//! `lru::LruCache` (`new`, `get`, `put`), which [`cache`] states, and of two
//! functions of the standard library, the equality of `str` and the `clone`
//! of `HashSet`, which [`text`] and [`index`] state.

pub mod cache;
pub mod check;
pub mod commands;
pub mod database;
pub mod engine;
pub mod error;
pub mod grants;
pub mod guard;
pub mod index;
pub mod laws;
pub mod modules;
pub mod registry;
pub mod response;
pub mod rows;
pub mod steps;
pub mod store;
pub mod table;
pub mod text;
