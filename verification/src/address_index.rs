//! An index from network addresses to slot numbers.
//!
//! The entries are kept in a vector in which no address occurs twice, so the
//! index reads as a map from addresses to slot numbers.

use vstd::prelude::*;
use crate::lifeform::Address;

verus! {

/// One entry of the index: an address and the slot it is mapped to.
#[derive(Clone, Copy, Debug)]
pub struct AddressEntry {
    pub address: Address,
    pub slot: usize,
}

/// Whether `entries[i]` is an entry for `address`.
pub open spec fn entry_at(entries: Seq<AddressEntry>, address: Address, i: int) -> bool {
    0 <= i < entries.len() && entries[i].address == address
}

/// No address occurs in two entries.
pub open spec fn distinct_addresses(entries: Seq<AddressEntry>) -> bool {
    forall|i: int, j: int|
        0 <= i < j < entries.len() ==> (#[trigger] entries[i]).address != (
        #[trigger] entries[j]).address
}

/// The map that a sequence of entries stands for.
pub open spec fn entries_map(entries: Seq<AddressEntry>) -> Map<Address, nat> {
    Map::new(
        |address: Address| exists|i: int| entry_at(entries, address, i),
        |address: Address| entries[choose|i: int| entry_at(entries, address, i)].slot as nat,
    )
}

/// A map from addresses to slot numbers.
pub struct AddressIndex {
    entries: Vec<AddressEntry>,
}

impl View for AddressIndex {
    type V = Map<Address, nat>;

    closed spec fn view(&self) -> Map<Address, nat> {
        entries_map(self.entries@)
    }
}

impl AddressIndex {
    /// The invariant of the index: no address occurs twice.
    pub closed spec fn wf(&self) -> bool {
        distinct_addresses(self.entries@)
    }

    /// An index that maps no address.
    pub fn new() -> (index: Self)
        ensures
            index.wf(),
            index@ == Map::<Address, nat>::empty(),
    {
        let index = AddressIndex { entries: Vec::new() };
        assert(index@ =~= Map::<Address, nat>::empty());
        index
    }

    /// Where `address` stands among the entries, if it does.
    fn position(&self, address: Address) -> (found: Option<usize>)
        ensures
            match found {
                Some(i) => entry_at(self.entries@, address, i as int),
                None => forall|i: int| !entry_at(self.entries@, address, i),
            },
    {
        let mut i: usize = 0;
        while i < self.entries.len()
            invariant
                i <= self.entries.len(),
                forall|j: int| 0 <= j < i ==> !entry_at(self.entries@, address, j),
            decreases self.entries.len() - i,
        {
            if self.entries[i].address == address {
                return Some(i);
            }
            i += 1;
        }
        None
    }

    /// The slot that `address` is mapped to, if it is mapped.
    pub fn get(&self, address: Address) -> (slot: Option<usize>)
        requires
            self.wf(),
        ensures
            slot.is_some() == self@.contains_key(address),
            slot.is_some() ==> slot.unwrap() as nat == self@[address],
    {
        match self.position(address) {
            Some(i) => Some(self.entries[i].slot),
            None => None,
        }
    }

    /// Maps `address` to `slot`, in place of what it was mapped to before.
    pub fn insert(&mut self, address: Address, slot: usize)
        requires
            old(self).wf(),
        ensures
            final(self).wf(),
            final(self)@ == old(self)@.insert(address, slot as nat),
    {
        let entry = AddressEntry { address, slot };
        let ghost before = self.entries@;
        let ghost changed: int;
        match self.position(address) {
            Some(i) => {
                self.entries[i] = entry;
                proof {
                    changed = i as int;
                }
            },
            None => {
                self.entries.push(entry);
                proof {
                    changed = before.len() as int;
                    assert forall|j: int| 0 <= j < before.len() implies (#[trigger] before[j]).address
                        != address by {
                        assert(!entry_at(before, address, j));
                    }
                }
            },
        }
        proof {
            let after = self.entries@;
            let expected = entries_map(before).insert(address, slot as nat);
            assert(entry_at(after, address, changed));
            assert forall|j: int| 0 <= j < after.len() && j != changed implies #[trigger] after[j]
                == before[j] && before[j].address != address by {
                if changed < before.len() {
                    assert(entry_at(before, address, changed));
                }
            }
            assert forall|b: Address| expected.contains_key(b) implies #[trigger] entries_map(
                after,
            ).contains_key(b) by {
                if b != address {
                    let j = choose|j: int| entry_at(before, b, j);
                    assert(entry_at(after, b, j));
                }
            }
            assert forall|b: Address| #[trigger]
                entries_map(after).contains_key(b) implies expected.contains_key(b)
                && entries_map(after)[b] == expected[b] by {
                let j = choose|j: int| entry_at(after, b, j);
                if b != address {
                    assert(entry_at(before, b, j));
                }
            }
            assert(entries_map(after) =~= expected);
        }
    }
}

} // verus!
