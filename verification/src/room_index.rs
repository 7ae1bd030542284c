//! The room lists of one category of lifeforms.
//!
//! Each room that was ever joined has a number, and the list with that number
//! holds the identifiers that joined the room, in order. A list is extended
//! in place.

use vstd::hash_map::StringHashMap;
use vstd::prelude::*;
use crate::model::room_joined;

verus! {

/// For each room, the identifiers that joined it.
pub struct RoomIndex {
    numbers: StringHashMap<usize>,
    lists: Vec<Vec<u64>>,
}

impl View for RoomIndex {
    type V = Map<Seq<char>, Seq<u64>>;

    closed spec fn view(&self) -> Map<Seq<char>, Seq<u64>> {
        Map::new(
            |room: Seq<char>| self.numbers@.contains_key(room),
            |room: Seq<char>| self.lists@[self.numbers@[room] as int]@,
        )
    }
}

/// The view of a list of identifiers, if there is one.
pub open spec fn members_view(members: Option<&Vec<u64>>) -> Option<Seq<u64>> {
    match members {
        Some(list) => Some(list@),
        None => None,
    }
}

impl RoomIndex {
    /// The invariant of the index: every room has a list, and no two rooms
    /// share one.
    pub closed spec fn wf(&self) -> bool {
        &&& forall|room: Seq<char>| #[trigger]
            self.numbers@.contains_key(room) ==> self.numbers@[room] < self.lists@.len()
        &&& forall|one: Seq<char>, other: Seq<char>|
            #[trigger] self.numbers@.contains_key(one) && #[trigger] self.numbers@.contains_key(
                other,
            ) && one != other ==> self.numbers@[one] != self.numbers@[other]
    }

    /// An index in which no room was joined.
    pub fn new() -> (index: Self)
        ensures
            index.wf(),
            index@ == Map::<Seq<char>, Seq<u64>>::empty(),
    {
        let index = RoomIndex { numbers: StringHashMap::new(), lists: Vec::new() };
        assert(index@ =~= Map::<Seq<char>, Seq<u64>>::empty());
        index
    }

    /// Appends `id` to the list of `room`, which starts empty.
    pub fn join(&mut self, room: &String, id: u64)
        requires
            old(self).wf(),
        ensures
            final(self).wf(),
            final(self)@ == room_joined(old(self)@, room@, id),
    {
        match self.numbers.get(room.as_str()) {
            Some(number) => {
                let number = *number;
                self.lists[number].push(id);
            },
            None => {
                let number = self.lists.len();
                let mut list: Vec<u64> = Vec::new();
                list.push(id);
                self.lists.push(list);
                self.numbers.insert(room.clone(), number);
            },
        }
        assert(self@ =~= room_joined(old(self)@, room@, id));
    }

    /// The list of `room`, if the room was ever joined.
    pub fn get(&self, room: &String) -> (members: Option<&Vec<u64>>)
        requires
            self.wf(),
        ensures
            members_view(members) == (if self@.contains_key(room@) {
                Some(self@[room@])
            } else {
                None
            }),
    {
        match self.numbers.get(room.as_str()) {
            Some(number) => Some(&self.lists[*number]),
            None => None,
        }
    }
}

} // verus!
