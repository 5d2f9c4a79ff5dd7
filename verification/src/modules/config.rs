//! The start of the configuration module.

use crate::registry::PermissionRegistry;
use vstd::prelude::*;

verus! {

/// The configuration module guards nothing of its own: it registers no
/// permission.
pub fn register_init(registry: &mut PermissionRegistry)
    ensures
        final(registry)@ == old(registry)@,
{
}

} // verus!
