//! Slot storage with generational keys.
//!
//! The arenas are those of the `generational_arena` crate. What an arena
//! holds is modelled as a map from keys to entries; the functions below are
//! the only places where an arena is touched, and their contracts are taken
//! on trust from the crate's source.

use vstd::prelude::*;
use generational_arena::Arena;
use generational_arena::Index;
use crate::record::Entry;

verus! {

/// The key of an arena slot: the slot's position and the generation in which
/// it was filled.
#[derive(Clone, Copy, Debug, PartialEq, Eq, Structural, Hash)]
pub struct Key {
    pub index: usize,
    pub generation: u64,
}

/// The arena of the `generational_arena` crate, which the verifier takes as
/// it is and does not look into.
#[verifier::external_type_specification]
#[verifier::external_body]
#[verifier::reject_recursive_types(T)]
pub struct ExArena<T>(Arena<T>);

/// The entries that an arena holds, by their keys.
pub uninterp spec fn arena_view(arena: Arena<Entry>) -> Map<Key, Entry>;

/// The keys of the entries that the arena held once and holds no more.
pub uninterp spec fn arena_spent(arena: Arena<Entry>) -> Set<Key>;

/// Calls `Arena::new`, which makes an arena with no occupied slot, in its
/// first generation.
#[verifier::external_body]
pub(crate) fn arena_new() -> (arena: Arena<Entry>)
    ensures
        arena_view(arena).dom() == Set::<Key>::empty(),
        arena_spent(arena) == Set::<Key>::empty(),
{
    Arena::new()
}

/// Calls `Arena::insert`. The arena puts the entry into a free slot, growing
/// if it has none, and returns the slot's position with the arena's current
/// generation; no other slot changes. No occupied slot has that key, and no
/// entry that was removed had it: every removal moves the arena to its next
/// generation. (The arena counts its generations in 64 bits; the claim is
/// made of an arena that has not used them up.)
#[verifier::external_body]
pub(crate) fn arena_insert(arena: &mut Arena<Entry>, entry: Entry) -> (key: Key)
    ensures
        !arena_view(*old(arena)).dom().contains(key),
        !arena_spent(*old(arena)).contains(key),
        arena_view(*final(arena)) == arena_view(*old(arena)).insert(key, entry),
        arena_spent(*final(arena)) == arena_spent(*old(arena)),
{
    let (index, generation) = arena.insert(entry).into_raw_parts();
    Key { index, generation }
}

/// Calls `Arena::get`, which returns the entry of the slot at the key's
/// position if that slot is occupied in the key's generation.
#[verifier::external_body]
pub(crate) fn arena_get(arena: &Arena<Entry>, key: Key) -> (entry: Option<&Entry>)
    ensures
        entry is Some <==> arena_view(*arena).dom().contains(key),
        entry is Some ==> *entry->Some_0 == arena_view(*arena)[key],
{
    arena.get(Index::from_raw_parts(key.index, key.generation))
}

/// Indexes the arena mutably (`IndexMut`), which is `Arena::get_mut` on a key
/// that is present. The caller may change the entry through the reference;
/// no other slot changes.
#[verifier::external_body]
pub(crate) fn arena_get_mut(arena: &mut Arena<Entry>, key: Key) -> (entry: &mut Entry)
    requires
        arena_view(*old(arena)).dom().contains(key),
    ensures
        *entry == arena_view(*old(arena))[key],
        arena_view(*final(arena)) == arena_view(*old(arena)).insert(key, *final(entry)),
        arena_spent(*final(arena)) == arena_spent(*old(arena)),
{
    &mut arena[Index::from_raw_parts(key.index, key.generation)]
}

/// Calls `Arena::remove`, which frees the slot if it is occupied in the key's
/// generation and returns what it held; no other slot changes. The key of
/// what was removed is spent from then on. (The arena counts its generations
/// in 64 bits; the claim is made of an arena that has not used them up.)
#[verifier::external_body]
pub(crate) fn arena_remove(arena: &mut Arena<Entry>, key: Key) -> (entry: Option<Entry>)
    ensures
        entry is Some <==> arena_view(*old(arena)).dom().contains(key),
        entry is Some ==> entry->Some_0 == arena_view(*old(arena))[key],
        arena_view(*final(arena)) == arena_view(*old(arena)).remove(key),
        arena_spent(*final(arena)) == if entry is Some {
            arena_spent(*old(arena)).insert(key)
        } else {
            arena_spent(*old(arena))
        },
{
    arena.remove(Index::from_raw_parts(key.index, key.generation))
}

} // verus!
