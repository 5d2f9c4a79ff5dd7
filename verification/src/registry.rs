//! The registry of permission names.
//!
//! Every feature module announces the permissions it guards, while the bot
//! starts. The registry is a set that only grows: a name that was
//! registered stays registered, and registering it again changes nothing.

use crate::grants::{lemma_with_name, with_name};
use crate::text::same_text;
use vstd::prelude::*;

verus! {

/// The permission that guards the management of permissions itself.
pub const PERMISSION_MANAGE: &'static str = "permission.manage";

/// The permission that guards the music player's commands.
pub const MUSIC_MANAGE: &'static str = "music.manage";

/// The permission that guards the management of points.
pub const POINTS_MANAGE: &'static str = "points.manage";

/// The permission names known to the bot, in the order of first
/// registration.
pub struct PermissionRegistry {
    names: Vec<&'static str>,
}

impl View for PermissionRegistry {
    type V = Seq<Seq<char>>;

    closed spec fn view(&self) -> Seq<Seq<char>> {
        self.names@.map_values(|s: &'static str| s@)
    }
}

impl PermissionRegistry {
    /// Whether `name` has been registered.
    pub open spec fn registered(&self, name: Seq<char>) -> bool {
        self@.contains(name)
    }

    /// A registry without any name.
    pub fn new() -> (registry: PermissionRegistry)
        ensures
            registry@ == Seq::<Seq<char>>::empty(),
    {
        let registry = PermissionRegistry { names: Vec::new() };
        assert(registry@ =~= Seq::<Seq<char>>::empty());
        registry
    }

    /// Whether `name` has been registered.
    pub fn is_registered(&self, name: &str) -> (known: bool)
        ensures
            known == self.registered(name@),
    {
        let mut i: usize = 0;
        while i < self.names.len()
            invariant
                i <= self.names.len(),
                forall|j: int| 0 <= j < i ==> self@[j] != name@,
            decreases self.names.len() - i,
        {
            if same_text(self.names[i], name) {
                assert(self@[i as int] == name@);
                return true;
            }
            i += 1;
        }
        false
    }
}

/// The view of a slice of names.
pub open spec fn slice_names(perms: Seq<&'static str>) -> Seq<Seq<char>> {
    perms.map_values(|s: &'static str| s@)
}

/// The registry after `perm` was registered: a name that is registered
/// already is not added, a new name goes to the end.
pub open spec fn registered(registry: Seq<Seq<char>>, perm: Seq<char>) -> Seq<Seq<char>> {
    with_name(registry, perm)
}

/// The registry after every name of `perms` was registered, in order.
pub open spec fn registered_all(registry: Seq<Seq<char>>, perms: Seq<Seq<char>>) -> Seq<Seq<char>>
    decreases perms.len(),
{
    if perms.len() == 0 {
        registry
    } else {
        registered(registered_all(registry, perms.drop_last()), perms.last())
    }
}

/// The registry is a set that remembers the order of first registration:
/// registering keeps every name where it was, adds no name twice, and makes
/// each of the names registered; registering names that are all registered
/// already changes nothing.
pub proof fn law_registry_is_a_set(registry: Seq<Seq<char>>, perms: Seq<Seq<char>>)
    ensures
        registry.is_prefix_of(registered_all(registry, perms)),
        registry.no_duplicates() ==> registered_all(registry, perms).no_duplicates(),
        forall|name: Seq<char>| #[trigger]
            registered_all(registry, perms).contains(name) <==> registry.contains(name)
                || perms.contains(name),
        (forall|i: int| 0 <= i < perms.len() ==> registry.contains(#[trigger] perms[i]))
            ==> registered_all(registry, perms) == registry,
    decreases perms.len(),
{
    if perms.len() > 0 {
        let front = perms.drop_last();
        let last = perms.last();
        let before = registered_all(registry, front);
        law_registry_is_a_set(registry, front);
        lemma_with_name(before, last);
        let after = registered_all(registry, perms);
        assert(after == with_name(before, last));
        assert(perms[perms.len() - 1] == last);
        assert forall|name: Seq<char>| #[trigger]
            after.contains(name) <==> registry.contains(name) || perms.contains(name) by {
            assert(before.contains(name) <==> registry.contains(name) || front.contains(name));
            if name == last {
                assert(after.contains(name));
                assert(perms.contains(name));
            } else {
                assert(after.contains(name) <==> before.contains(name));
                if perms.contains(name) {
                    let i = choose|i: int| 0 <= i < perms.len() && perms[i] == name;
                    assert(front[i] == name);
                }
                if front.contains(name) {
                    let i = choose|i: int| 0 <= i < front.len() && front[i] == name;
                    assert(perms[i] == name);
                }
            }
        }
        if forall|i: int| 0 <= i < perms.len() ==> registry.contains(#[trigger] perms[i]) {
            assert forall|i: int| 0 <= i < front.len() implies registry.contains(
                #[trigger] front[i],
            ) by {
                assert(front[i] == perms[i]);
            }
            assert(registry.contains(perms[perms.len() - 1]));
        }
    }
}

/// Registers one permission name, unless it is registered already.
pub fn static_set_permission(registry: &mut PermissionRegistry, perm: &'static str)
    ensures
        final(registry)@ == registered(old(registry)@, perm@),
        old(registry)@.no_duplicates() ==> final(registry)@.no_duplicates(),
{
    proof {
        lemma_with_name(registry@, perm@);
    }
    if !registry.is_registered(perm) {
        registry.names.push(perm);
        assert(registry@ =~= old(registry)@.push(perm@));
    }
}

/// Registers every name of `perms`, in order. A name that is registered
/// already, or that `perms` holds more than once, is registered once.
pub fn add_permission(registry: &mut PermissionRegistry, perms: &[&'static str])
    ensures
        final(registry)@ == registered_all(old(registry)@, slice_names(perms@)),
        old(registry)@.no_duplicates() ==> final(registry)@.no_duplicates(),
{
    let mut i: usize = 0;
    assert(slice_names(perms@.take(0)) =~= Seq::<Seq<char>>::empty());
    while i < perms.len()
        invariant
            i <= perms.len(),
            registry@ == registered_all(old(registry)@, slice_names(perms@.take(i as int))),
            old(registry)@.no_duplicates() ==> registry@.no_duplicates(),
        decreases perms.len() - i,
    {
        proof {
            let more = slice_names(perms@.take(i + 1));
            assert(more.drop_last() =~= slice_names(perms@.take(i as int)));
            assert(more.last() == perms@[i as int]@);
        }
        static_set_permission(registry, perms[i]);
        i += 1;
    }
    assert(perms@.take(perms.len() as int) =~= perms@);
}

/// The registered names, each once, in the order of first registration.
pub fn static_get_permission(registry: &PermissionRegistry) -> (names: &Vec<&'static str>)
    ensures
        slice_names(names@) == registry@,
{
    &registry.names
}

/// The permissions of the bot's own modules, in the order in which the
/// modules are loaded.
pub open spec fn module_permissions() -> Seq<Seq<char>> {
    seq!["music.manage"@, "points.manage"@, "permission.manage"@]
}

/// Registers the permissions of the bot's own modules, module by module in
/// the order in which they are loaded. To be called while the bot starts.
pub fn register_init(registry: &mut PermissionRegistry)
    ensures
        final(registry)@ == registered_all(old(registry)@, module_permissions()),
        old(registry)@.no_duplicates() ==> final(registry)@.no_duplicates(),
{
    crate::modules::config::register_init(registry);
    crate::modules::music::register_init(registry);
    crate::modules::points::register_init(registry);
    crate::modules::permission::register_init(registry);
    proof {
        let all = module_permissions();
        let two = all.drop_last();
        let one = two.drop_last();
        assert(one.drop_last() =~= Seq::<Seq<char>>::empty());
        assert(one.last() == "music.manage"@);
        assert(two.last() == "points.manage"@);
        assert(all.last() == "permission.manage"@);
        let start = registered_all(old(registry)@, one.drop_last());
        assert(start == old(registry)@);
        assert(registered_all(old(registry)@, one) == registered(start, one.last()));
        assert(registered_all(old(registry)@, two) == registered(
            registered_all(old(registry)@, one),
            two.last(),
        ));
        assert(registered_all(old(registry)@, all) == registered(
            registered_all(old(registry)@, two),
            all.last(),
        ));
    }
}

} // verus!
