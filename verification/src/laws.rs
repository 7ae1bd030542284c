//! Laws of the registry, stated over its view and proved from the meaning of
//! its operations.

use vstd::prelude::*;
use crate::lifeform::{Address, LifeformView, Position};
use crate::model::{reports_address, room_addresses, RegistryView};

verus! {

/// No two of `lifeforms` share an identifier.
pub open spec fn unique_ids(lifeforms: Seq<LifeformView>) -> bool {
    forall|i: int, j: int|
        0 <= i < j < lifeforms.len() ==> (#[trigger] lifeforms[i]).id != (
        #[trigger] lifeforms[j]).id
}

/// No two of `lifeforms` share an address.
pub open spec fn unique_addresses(lifeforms: Seq<LifeformView>) -> bool {
    forall|i: int, j: int|
        0 <= i < j < lifeforms.len() && lifeforms[i].ip.is_some() ==> (
        #[trigger] lifeforms[i]).ip != (#[trigger] lifeforms[j]).ip
}

/// A lifeform that was just added is found under its identifier, and under
/// its address if it has one, exactly as it was added.
pub proof fn lemma_added_is_found(registry: RegistryView, lifeform: LifeformView)
    ensures
        registry.add(lifeform).get_from_id(lifeform.id) == Some(lifeform),
        lifeform.ip.is_some() ==> registry.add(lifeform).get_from_ip(lifeform.ip.unwrap())
            == Some(lifeform),
{
}

/// Adding a lifeform changes nothing that is found under another identifier
/// or another address.
pub proof fn lemma_add_keeps_others(registry: RegistryView, lifeform: LifeformView)
    ensures
        forall|id: u64|
            id != lifeform.id && registry.get_from_id(id).is_some() ==> #[trigger] registry.add(
                lifeform,
            ).get_from_id(id) == registry.get_from_id(id),
        forall|address: Address|
            Some(address) != lifeform.ip && registry.get_from_ip(address).is_some()
                ==> #[trigger] registry.add(lifeform).get_from_ip(address) == registry.get_from_ip(
                address,
            ),
{
}

/// After lifeforms with distinct identifiers and distinct addresses were
/// added to a registry, one after the other, each of them is found under its
/// identifier, and under its address if it has one, exactly as it was added.
/// This holds whatever the registry held before.
pub proof fn lemma_each_added_is_found(
    registry: RegistryView,
    lifeforms: Seq<LifeformView>,
    i: int,
)
    requires
        unique_ids(lifeforms),
        unique_addresses(lifeforms),
        0 <= i < lifeforms.len(),
    ensures
        registry.add_all(lifeforms).get_from_id(lifeforms[i].id) == Some(lifeforms[i]),
        lifeforms[i].ip.is_some() ==> registry.add_all(lifeforms).get_from_ip(
            lifeforms[i].ip.unwrap(),
        ) == Some(lifeforms[i]),
    decreases lifeforms.len(),
{
    let earlier = lifeforms.drop_last();
    let last = lifeforms.last();
    let before = registry.add_all(earlier);
    if i == lifeforms.len() - 1 {
        lemma_added_is_found(before, last);
    } else {
        assert(unique_ids(earlier)) by {
            assert forall|a: int, b: int| 0 <= a < b < earlier.len() implies (
            #[trigger] earlier[a]).id != (#[trigger] earlier[b]).id by {
                assert(lifeforms[a].id != lifeforms[b].id);
            }
        }
        assert(unique_addresses(earlier)) by {
            assert forall|a: int, b: int|
                0 <= a < b < earlier.len() && earlier[a].ip.is_some() implies (
            #[trigger] earlier[a]).ip != (#[trigger] earlier[b]).ip by {
                assert(lifeforms[a].ip != lifeforms[b].ip);
            }
        }
        lemma_each_added_is_found(registry, earlier, i);
        assert(earlier[i] == lifeforms[i]);
        assert(lifeforms[i].id != last.id);
        assert(lifeforms[i].ip.is_some() ==> lifeforms[i].ip != last.ip);
        lemma_add_keeps_others(before, last);
    }
}

/// Once the lifeform under an identifier was removed, nothing is found under
/// that identifier.
pub proof fn lemma_removed_id_is_not_found(registry: RegistryView, id: u64)
    requires
        registry.indexes_in_range(),
        registry.by_id.contains_key(id),
    ensures
        registry.remove_with_id(id).get_from_id(id).is_none(),
{
}

/// Once the lifeform under an address was removed, nothing is found under
/// that address.
pub proof fn lemma_removed_ip_is_not_found(registry: RegistryView, address: Address)
    requires
        registry.indexes_in_range(),
        registry.by_address.contains_key(address),
    ensures
        registry.remove_with_ip(address).get_from_ip(address).is_none(),
{
}

/// A slot that was emptied is not the one found at a position, whatever
/// position the lifeform in it had.
pub proof fn lemma_emptied_slot_is_not_found(registry: RegistryView, slot: nat, position: Position)
    requires
        slot < registry.slots.len(),
    ensures
        !registry.with_slot(slot, None).first_at(position, slot as int),
{
}

/// The addresses reported for a room are those of the slots that hold a
/// player of that room with an address, and of no others.
pub proof fn lemma_room_addresses_members(
    slots: Seq<Option<LifeformView>>,
    room: Seq<char>,
    address: Address,
)
    ensures
        room_addresses(slots, room).contains(address) <==> exists|slot: int|
            0 <= slot < slots.len() && reports_address(#[trigger] slots[slot], room)
                && slots[slot].unwrap().ip == Some(address),
    decreases slots.len(),
{
    if slots.len() > 0 {
        let earlier = slots.drop_last();
        let last = slots.len() - 1;
        let reported = room_addresses(earlier, room);
        let all = room_addresses(slots, room);
        lemma_room_addresses_members(earlier, room, address);
        if all.contains(address) && !reported.contains(address) {
            let at = choose|at: int| 0 <= at < all.len() && all[at] == address;
            assert(at < reported.len() ==> reported[at] == address);
            assert(reports_address(slots[last], room));
        }
        if reported.contains(address) {
            let slot = choose|slot: int|
                0 <= slot < earlier.len() && reports_address(#[trigger] earlier[slot], room)
                    && earlier[slot].unwrap().ip == Some(address);
            assert(slots[slot] == earlier[slot]);
            let at = choose|at: int| 0 <= at < reported.len() && reported[at] == address;
            assert(all[at] == address);
        }
        if exists|slot: int|
            0 <= slot < slots.len() && reports_address(#[trigger] slots[slot], room)
                && slots[slot].unwrap().ip == Some(address) {
            let slot = choose|slot: int|
                0 <= slot < slots.len() && reports_address(#[trigger] slots[slot], room)
                    && slots[slot].unwrap().ip == Some(address);
            if slot < last {
                assert(earlier[slot] == slots[slot]);
            } else {
                assert(all[reported.len() as int] == address);
            }
        }
    }
}

} // verus!
