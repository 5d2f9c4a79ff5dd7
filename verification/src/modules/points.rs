//! The start of the points module.

use crate::registry::{registered, static_set_permission, PermissionRegistry, POINTS_MANAGE};
use vstd::prelude::*;

verus! {

/// Registers the permission that guards the management of points.
pub fn register_init(registry: &mut PermissionRegistry)
    ensures
        final(registry)@ == registered(old(registry)@, "points.manage"@),
        old(registry)@.no_duplicates() ==> final(registry)@.no_duplicates(),
{
    static_set_permission(registry, POINTS_MANAGE);
}

} // verus!
