//! The mathematical model of the registry: its view, and what each operation
//! does to it.

use vstd::prelude::*;
use crate::lifeform::{Address, LifeformType, LifeformView, Position};

verus! {

/// The room lists of one category after `id` joined `room`: the identifier is
/// appended to the room's list, which starts empty.
pub open spec fn room_joined(
    rooms: Map<Seq<char>, Seq<u64>>,
    room: Seq<char>,
    id: u64,
) -> Map<Seq<char>, Seq<u64>> {
    if rooms.contains_key(room) {
        rooms.insert(room, rooms[room].push(id))
    } else {
        rooms.insert(room, seq![id])
    }
}

/// Whether `slot` holds a lifeform whose address is reported for
/// `room`: a player of that room that has an address.
pub open spec fn reports_address(slot: Option<LifeformView>, room: Seq<char>) -> bool {
    match slot {
        Some(lifeform) => lifeform.kind == LifeformType::Player && lifeform.room == room
            && lifeform.ip.is_some(),
        None => false,
    }
}

/// The addresses of the players of `room` among `slots`, in slot order.
pub open spec fn room_addresses(slots: Seq<Option<LifeformView>>, room: Seq<char>) -> Seq<
    Address,
>
    decreases slots.len(),
{
    if slots.len() == 0 {
        Seq::empty()
    } else {
        let earlier = room_addresses(slots.drop_last(), room);
        if reports_address(slots.last(), room) {
            earlier.push(slots.last().unwrap().ip.unwrap())
        } else {
            earlier
        }
    }
}

/// Whether `slot` holds a lifeform that stands at `position`.
pub open spec fn stands_at(slot: Option<LifeformView>, position: Position) -> bool {
    match slot {
        Some(lifeform) => lifeform.position == position,
        None => false,
    }
}

/// The state of a registry.
pub struct RegistryView {
    /// The slots in the order in which they were filled; `None` is a slot
    /// whose lifeform was removed.
    pub slots: Seq<Option<LifeformView>>,
    /// The slot that each address was last added with.
    pub by_address: Map<Address, nat>,
    /// The slot that each identifier was last added with.
    pub by_id: Map<u64, nat>,
    /// For each room, the identifiers of the players added to it, in order.
    pub players: Map<Seq<char>, Seq<u64>>,
    /// For each room, the identifiers of the monsters added to it, in order.
    pub monsters: Map<Seq<char>, Seq<u64>>,
}

impl RegistryView {
    /// The registry that holds nothing.
    pub open spec fn empty() -> RegistryView {
        RegistryView {
            slots: Seq::empty(),
            by_address: Map::empty(),
            by_id: Map::empty(),
            players: Map::empty(),
            monsters: Map::empty(),
        }
    }

    /// Every indexed slot number names a slot.
    pub open spec fn indexes_in_range(self) -> bool {
        &&& forall|address: Address| #[trigger]
            self.by_address.contains_key(address) ==> self.by_address[address] < self.slots.len()
        &&& forall|id: u64| #[trigger]
            self.by_id.contains_key(id) ==> self.by_id[id] < self.slots.len()
    }

    /// The state after `lifeform` was added: it fills a new last slot, its
    /// address (if it has one) and its identifier are mapped to that slot, and
    /// a player or a monster joins the list of its room.
    pub open spec fn add(self, lifeform: LifeformView) -> RegistryView {
        RegistryView {
            slots: self.slots.push(Some(lifeform)),
            by_address: match lifeform.ip {
                Some(address) => self.by_address.insert(address, self.slots.len()),
                None => self.by_address,
            },
            by_id: self.by_id.insert(lifeform.id, self.slots.len()),
            players: if lifeform.kind == LifeformType::Player {
                room_joined(self.players, lifeform.room, lifeform.id)
            } else {
                self.players
            },
            monsters: if lifeform.kind == LifeformType::Monster {
                room_joined(self.monsters, lifeform.room, lifeform.id)
            } else {
                self.monsters
            },
        }
    }

    /// The state after all of `lifeforms` were added, first to last.
    pub open spec fn add_all(self, lifeforms: Seq<LifeformView>) -> RegistryView
        decreases lifeforms.len(),
    {
        if lifeforms.len() == 0 {
            self
        } else {
            self.add_all(lifeforms.drop_last()).add(lifeforms.last())
        }
    }

    /// The state with slot `slot` set to `content`; the indexes and the room
    /// lists stay as they are.
    pub open spec fn with_slot(self, slot: nat, content: Option<LifeformView>) -> RegistryView {
        RegistryView { slots: self.slots.update(slot as int, content), ..self }
    }

    /// The state after the lifeform that `address` is mapped to was removed.
    pub open spec fn remove_with_ip(self, address: Address) -> RegistryView {
        self.with_slot(self.by_address[address], None)
    }

    /// The state after the lifeform that `id` is mapped to was removed.
    pub open spec fn remove_with_id(self, id: u64) -> RegistryView {
        self.with_slot(self.by_id[id], None)
    }

    /// The state after `lifeform` took the slot that its identifier is mapped to.
    pub open spec fn replace(self, lifeform: LifeformView) -> RegistryView {
        self.with_slot(self.by_id[lifeform.id], Some(lifeform))
    }

    /// What the slot holds that `address` is mapped to; `None` for an unmapped
    /// address too.
    pub open spec fn get_from_ip(self, address: Address) -> Option<LifeformView> {
        if self.by_address.contains_key(address) && self.by_address[address] < self.slots.len() {
            self.slots[self.by_address[address] as int]
        } else {
            None
        }
    }

    /// What the slot holds that `id` is mapped to; `None` for an unmapped
    /// identifier too.
    pub open spec fn get_from_id(self, id: u64) -> Option<LifeformView> {
        if self.by_id.contains_key(id) && self.by_id[id] < self.slots.len() {
            self.slots[self.by_id[id] as int]
        } else {
            None
        }
    }

    /// The identifiers listed for `room` in the category `kind`.
    pub open spec fn in_room(self, room: Seq<char>, kind: LifeformType) -> Option<Seq<u64>> {
        match kind {
            LifeformType::Player => if self.players.contains_key(room) {
                Some(self.players[room])
            } else {
                None
            },
            LifeformType::Monster => if self.monsters.contains_key(room) {
                Some(self.monsters[room])
            } else {
                None
            },
            LifeformType::Other => None,
        }
    }

    /// Whether `slot` is the first slot that holds a lifeform at `position`.
    pub open spec fn first_at(self, position: Position, slot: int) -> bool {
        &&& 0 <= slot < self.slots.len()
        &&& stands_at(self.slots[slot], position)
        &&& forall|earlier: int| 0 <= earlier < slot ==> !stands_at(#[trigger] self.slots[earlier], position)
    }

    /// Whether `slot` is the first filled slot at or after `start`.
    pub open spec fn first_filled_from(self, start: int, slot: int) -> bool {
        &&& start <= slot < self.slots.len()
        &&& self.slots[slot].is_some()
        &&& forall|earlier: int| start <= earlier < slot ==> (#[trigger] self.slots[earlier]).is_none()
    }
}

} // verus!
