//! The start of the music module.

use crate::registry::{registered, static_set_permission, PermissionRegistry, MUSIC_MANAGE};
use vstd::prelude::*;

verus! {

/// Registers the permission that guards the music player's commands.
pub fn register_init(registry: &mut PermissionRegistry)
    ensures
        final(registry)@ == registered(old(registry)@, "music.manage"@),
        old(registry)@.no_duplicates() ==> final(registry)@.no_duplicates(),
{
    static_set_permission(registry, MUSIC_MANAGE);
}

} // verus!
