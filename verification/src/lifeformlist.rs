//! The registry itself: slots, indexes and room lists, kept in step.

use std::collections::HashMap;
use vstd::prelude::*;
use crate::address_index::AddressIndex;
use crate::lifeform::{slot_view, Address, LifeformComponent, LifeformType, Position};
use crate::model::{room_addresses, stands_at, RegistryView};
use crate::room_index::{members_view, RoomIndex};

verus! {

broadcast use vstd::std_specs::hash::group_hash_axioms;

/// The live lifeforms of a game, indexed by address, identifier and room.
///
/// Slots are only ever appended. Removing a lifeform empties its slot and
/// leaves the indexes and the room lists as they are.
pub struct LifeformList {
    list: Vec<Option<LifeformComponent>>,
    ips: AddressIndex,
    ids: HashMap<u64, usize>,
    players: RoomIndex,
    monsters: RoomIndex,
}

impl View for LifeformList {
    type V = RegistryView;

    closed spec fn view(&self) -> RegistryView {
        RegistryView {
            slots: self.list@.map_values(|slot: Option<LifeformComponent>| slot_view(slot)),
            by_address: self.ips@,
            by_id: self.ids@.map_values(|slot: usize| slot as nat),
            players: self.players@,
            monsters: self.monsters@,
        }
    }
}

impl Default for LifeformList {
    fn default() -> (registry: Self)
        ensures
            registry.wf(),
            registry@ == RegistryView::empty(),
    {
        LifeformList::new()
    }
}

impl LifeformList {
    /// The invariant of the registry: its address index and its room lists
    /// are sound, and every slot number in an index names a slot.
    pub closed spec fn wf(&self) -> bool {
        &&& self.ips.wf()
        &&& self.players.wf()
        &&& self.monsters.wf()
        &&& self@.indexes_in_range()
    }

    /// In a well-formed registry every indexed slot number names a slot.
    pub proof fn lemma_indexes_in_range(&self)
        requires
            self.wf(),
        ensures
            self@.indexes_in_range(),
    {
    }

    /// A registry that holds nothing.
    pub fn new() -> (registry: Self)
        ensures
            registry.wf(),
            registry@ == RegistryView::empty(),
    {
        let registry = LifeformList {
            list: Vec::new(),
            ips: AddressIndex::new(),
            ids: HashMap::new(),
            players: RoomIndex::new(),
            monsters: RoomIndex::new(),
        };
        proof {
            let view = registry@;
            let empty = RegistryView::empty();
            assert(view.slots =~= empty.slots);
            assert(view.by_id =~= empty.by_id);
            assert(view.players =~= empty.players);
            assert(view.monsters =~= empty.monsters);
        }
        registry
    }

    /// Adds `lifeform` in a new last slot and enters it in the indexes and,
    /// if it is a player or a monster, in the list of its room.
    pub fn add(&mut self, lifeform: LifeformComponent)
        requires
            old(self).wf(),
        ensures
            final(self).wf(),
            final(self)@ == old(self)@.add(lifeform@),
    {
        let slot = self.list.len();
        match lifeform.ip {
            Some(ip) => self.ips.insert(ip, slot),
            None => {},
        }
        match lifeform.kind {
            LifeformType::Player => self.players.join(&lifeform.room, lifeform.id),
            LifeformType::Monster => self.monsters.join(&lifeform.room, lifeform.id),
            LifeformType::Other => {},
        }
        self.ids.insert(lifeform.id, slot);
        self.list.push(Some(lifeform));
        proof {
            let after = self@;
            let expected = old(self)@.add(lifeform@);
            assert(after.slots =~= expected.slots);
            assert(after.by_address =~= expected.by_address);
            assert(after.by_id =~= expected.by_id);
            assert(after.players =~= expected.players);
            assert(after.monsters =~= expected.monsters);
        }
    }

    /// Empties slot `slice`.
    fn remove(&mut self, slice: usize)
        requires
            old(self).wf(),
            slice < old(self)@.slots.len(),
        ensures
            final(self).wf(),
            final(self)@ == old(self)@.with_slot(slice as nat, None),
    {
        self.list[slice] = None;
        proof {
            assert(self@.slots =~= old(self)@.with_slot(slice as nat, None).slots);
        }
    }

    /// Whether `ip` is mapped to a slot, so that it can be looked up and
    /// removed.
    pub fn has_ip(&self, ip: Address) -> (known: bool)
        requires
            self.wf(),
        ensures
            known == self@.by_address.contains_key(ip),
    {
        self.ips.get(ip).is_some()
    }

    /// Whether `id` is mapped to a slot, so that it can be looked up, removed
    /// and replaced.
    pub fn has_id(&self, id: u64) -> (known: bool)
        requires
            self.wf(),
        ensures
            known == self@.by_id.contains_key(id),
    {
        self.ids.contains_key(&id)
    }

    /// The slot that `ip` is mapped to.
    fn slot_of_ip(&self, ip: Address) -> (slot: usize)
        requires
            self.wf(),
            self@.by_address.contains_key(ip),
        ensures
            slot as nat == self@.by_address[ip],
            slot < self@.slots.len(),
    {
        self.ips.get(ip).unwrap()
    }

    /// The slot that `id` is mapped to.
    fn slot_of_id(&self, id: u64) -> (slot: usize)
        requires
            self.wf(),
            self@.by_id.contains_key(id),
        ensures
            slot as nat == self@.by_id[id],
            slot < self@.slots.len(),
    {
        *self.ids.get(&id).unwrap()
    }

    /// Empties the slot that `ip` is mapped to. The address stays mapped.
    pub fn remove_with_ip(&mut self, ip: Address)
        requires
            old(self).wf(),
            old(self)@.by_address.contains_key(ip),
        ensures
            final(self).wf(),
            final(self)@ == old(self)@.remove_with_ip(ip),
    {
        let slot = self.slot_of_ip(ip);
        self.remove(slot);
    }

    /// Empties the slot that `id` is mapped to. The identifier stays mapped.
    pub fn remove_with_id(&mut self, id: u64)
        requires
            old(self).wf(),
            old(self)@.by_id.contains_key(id),
        ensures
            final(self).wf(),
            final(self)@ == old(self)@.remove_with_id(id),
    {
        let slot = self.slot_of_id(id);
        self.remove(slot);
    }

    /// A copy of what slot `slot` holds.
    fn copy_of_slot(&self, slot: usize) -> (content: Option<LifeformComponent>)
        requires
            slot < self@.slots.len(),
        ensures
            slot_view(content) == self@.slots[slot as int],
    {
        match &self.list[slot] {
            Some(lifeform) => Some(lifeform.clone()),
            None => None,
        }
    }

    /// A copy of the lifeform in the slot that `ip` is mapped to; `None` if
    /// that slot was emptied.
    pub fn get_from_ip(&self, ip: Address) -> (found: Option<LifeformComponent>)
        requires
            self.wf(),
            self@.by_address.contains_key(ip),
        ensures
            slot_view(found) == self@.get_from_ip(ip),
    {
        let slot = self.slot_of_ip(ip);
        self.copy_of_slot(slot)
    }

    /// A copy of the lifeform in the slot that `id` is mapped to; `None` if
    /// that slot was emptied.
    pub fn get_from_id(&self, id: u64) -> (found: Option<LifeformComponent>)
        requires
            self.wf(),
            self@.by_id.contains_key(id),
        ensures
            slot_view(found) == self@.get_from_id(id),
    {
        let slot = self.slot_of_id(id);
        self.copy_of_slot(slot)
    }

    /// The addresses of the players that are present in `room`, in slot
    /// order. Players without an address and monsters are left out.
    pub fn ip_in_room(&self, room: &String) -> (ip: Vec<Address>)
        ensures
            ip@ == room_addresses(self@.slots, room@),
    {
        let mut ip: Vec<Address> = Vec::new();
        let mut i: usize = 0;
        while i < self.list.len()
            invariant
                i <= self.list.len(),
                self.list.len() == self@.slots.len(),
                ip@ == room_addresses(self@.slots.take(i as int), room@),
            decreases self.list.len() - i,
        {
            proof {
                let upto = self@.slots.take(i + 1);
                assert(upto.drop_last() =~= self@.slots.take(i as int));
                assert(upto.last() == self@.slots[i as int]);
            }
            match &self.list[i] {
                Some(lifeform) => {
                    if lifeform.room == *room && lifeform.kind == LifeformType::Player {
                        match lifeform.ip {
                            Some(address) => ip.push(address),
                            None => {},
                        }
                    }
                },
                None => {},
            }
            i += 1;
        }
        assert(self@.slots.take(i as int) =~= self@.slots);
        ip
    }

    /// The identifiers that were added to `room` in the category `kind`, in
    /// the order in which they were added; `None` if none was, and for a
    /// category other than players and monsters.
    pub fn in_room(&self, room: &String, kind: LifeformType) -> (members: Option<&Vec<u64>>)
        requires
            self.wf(),
        ensures
            members_view(members) == self@.in_room(room@, kind),
    {
        match kind {
            LifeformType::Player => self.players.get(room),
            LifeformType::Monster => self.monsters.get(room),
            LifeformType::Other => None,
        }
    }

    /// Puts `player` in the slot that its identifier is mapped to. The
    /// indexes and the room lists stay as they are.
    pub fn replace(&mut self, player: LifeformComponent)
        requires
            old(self).wf(),
            old(self)@.by_id.contains_key(player.id),
        ensures
            final(self).wf(),
            final(self)@ == old(self)@.replace(player@),
    {
        let slot = self.slot_of_id(player.id);
        let ghost content = Some(player@);
        self.list[slot] = Some(player);
        proof {
            assert(self@.slots =~= old(self)@.with_slot(slot as nat, content).slots);
        }
    }

    /// A copy of the lifeform in the first slot that holds one standing
    /// exactly at `tr`; `None` if no slot does.
    pub fn get_from_transform(&self, tr: Position) -> (found: Option<LifeformComponent>)
        ensures
            match found {
                Some(lifeform) => exists|slot: int|
                    self@.first_at(tr, slot) && self@.slots[slot] == Some(lifeform@),
                None => forall|slot: int|
                    0 <= slot < self@.slots.len() ==> !stands_at(#[trigger] self@.slots[slot], tr),
            },
    {
        let mut i: usize = 0;
        while i < self.list.len()
            invariant
                i <= self.list.len(),
                self.list.len() == self@.slots.len(),
                forall|slot: int| 0 <= slot < i ==> !stands_at(#[trigger] self@.slots[slot], tr),
            decreases self.list.len() - i,
        {
            match &self.list[i] {
                Some(lifeform) => {
                    if lifeform.position == tr {
                        let found = lifeform.clone();
                        assert(self@.first_at(tr, i as int));
                        return Some(found);
                    }
                },
                None => {},
            }
            i += 1;
        }
        None
    }

    /// The first filled slot at or after `start`, with a copy of the lifeform
    /// in it; `None` if every slot from `start` on is empty. Calling it again
    /// with the slot after the one returned walks the present lifeforms once,
    /// in slot order.
    pub fn next_from(&self, start: usize) -> (found: Option<(usize, LifeformComponent)>)
        ensures
            match found {
                Some((slot, lifeform)) => self@.first_filled_from(start as int, slot as int)
                    && self@.slots[slot as int] == Some(lifeform@),
                None => forall|slot: int|
                    start <= slot < self@.slots.len() ==> (#[trigger] self@.slots[slot]).is_none(),
            },
    {
        let mut i: usize = start;
        while i < self.list.len()
            invariant
                start <= i,
                self.list.len() == self@.slots.len(),
                forall|slot: int| start <= slot < i ==> (#[trigger] self@.slots[slot]).is_none(),
            decreases self.list.len() - i,
        {
            match &self.list[i] {
                Some(lifeform) => {
                    let found = lifeform.clone();
                    assert(self@.first_filled_from(start as int, i as int));
                    return Some((i, found));
                },
                None => {},
            }
            i += 1;
        }
        None
    }
}

} // verus!
