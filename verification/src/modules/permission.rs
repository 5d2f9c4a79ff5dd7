//! The start of the permission module.

use crate::registry::{registered, static_set_permission, PermissionRegistry, PERMISSION_MANAGE};
use vstd::prelude::*;

verus! {

/// Registers the permission that guards the management of permissions.
pub fn register_init(registry: &mut PermissionRegistry)
    ensures
        final(registry)@ == registered(old(registry)@, "permission.manage"@),
        old(registry)@.no_duplicates() ==> final(registry)@.no_duplicates(),
{
    static_set_permission(registry, PERMISSION_MANAGE);
}

} // verus!
