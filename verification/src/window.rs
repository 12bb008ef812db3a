//! Window identity.
//!
//! A window is known by the entity that stands for it. The registries tell windows
//! apart by the entity's 64 bits, which is how entities compare and hash.

use bevy_ecs::entity::Entity;
use vstd::prelude::*;

verus! {

/// `bevy_ecs::entity::Entity`, the identity of a native window. Its index and
/// generation are private to `bevy_ecs`; the verifier sees an opaque value.
#[verifier::external_type_specification]
#[verifier::external_body]
pub struct ExEntity(Entity);

/// The bits of an entity, as `Entity::to_bits` packs them from its index and
/// generation. `Entity`'s `PartialEq` and `Hash` both go through `to_bits`, so two
/// entities are one key of an entity hash map exactly when these bits agree.
pub uninterp spec fn entity_bits(entity: Entity) -> u64;

/// `Entity::to_bits`: the index and the generation of the entity, packed into one
/// `u64`.
pub assume_specification[ Entity::to_bits ](entity: Entity) -> (bits: u64)
    ensures
        bits == entity_bits(entity),
;

/// Whether two entities are the same window.
pub fn same_window(first: Entity, second: Entity) -> (same: bool)
    ensures
        same == (entity_bits(first) == entity_bits(second)),
{
    first.to_bits() == second.to_bits()
}

/// Whether `window` is the identity of one of the entities in `list`.
pub open spec fn names_window(list: Seq<Entity>, window: u64) -> bool {
    exists|i: int| 0 <= i < list.len() && #[trigger] entity_bits(list[i]) == window
}

/// The identities of the entities in `list`, as a set.
pub open spec fn windows_named(list: Seq<Entity>) -> Set<u64> {
    Set::new(|window: u64| names_window(list, window))
}

/// Whether no two entries of `list` are the same window.
pub open spec fn distinct_windows(list: Seq<Entity>) -> bool {
    forall|i: int, j: int|
        0 <= i < j < list.len() ==> #[trigger] entity_bits(list[i]) != #[trigger] entity_bits(list[j])
}

/// The windows among the first `i + 1` entries of a list are those among the first
/// `i` and the one after them.
pub proof fn names_one_more(list: Seq<Entity>, i: int)
    requires
        0 <= i < list.len(),
    ensures
        forall|window: u64|
            names_window(list.take(i + 1), window) <==> (names_window(list.take(i), window) || window
                == entity_bits(list[i])),
{
    let shorter = list.take(i);
    let longer = list.take(i + 1);
    assert forall|window: u64| names_window(longer, window) <==> (names_window(shorter, window) || window
        == entity_bits(list[i])) by {
        if names_window(longer, window) {
            let k = choose|k: int| 0 <= k < longer.len() && entity_bits(longer[k]) == window;
            if k < i {
                assert(entity_bits(shorter[k]) == window);
            }
        }
        if names_window(shorter, window) {
            let k = choose|k: int| 0 <= k < shorter.len() && entity_bits(shorter[k]) == window;
            assert(entity_bits(longer[k]) == window);
        }
        if window == entity_bits(list[i]) {
            assert(entity_bits(longer[i]) == window);
        }
    }
}

/// A list of distinct windows names as many windows as it is long.
pub proof fn distinct_list_counts_windows(list: Seq<Entity>)
    requires
        distinct_windows(list),
    ensures
        windows_named(list).finite(),
        windows_named(list).len() == list.len(),
    decreases list.len(),
{
    if list.len() == 0 {
        assert(windows_named(list) =~= Set::<u64>::empty());
    } else {
        let earlier = list.drop_last();
        let last = entity_bits(list.last());
        distinct_list_counts_windows(earlier);
        assert(list.take(list.len() - 1) =~= earlier);
        assert(list.take(list.len() as int) =~= list);
        names_one_more(list, list.len() - 1);
        assert(windows_named(list) =~= windows_named(earlier).insert(last));
        assert(!windows_named(earlier).contains(last)) by {
            if windows_named(earlier).contains(last) {
                let i = choose|i: int| 0 <= i < earlier.len() && entity_bits(earlier[i]) == last;
                assert(entity_bits(list[i]) != entity_bits(list[list.len() - 1]));
            }
        }
    }
}

} // verus!
