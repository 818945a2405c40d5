//! The record store: one slot per address, created at most once.

use crate::identity::Address;
use crate::record::{RecordView, RegistrationRecord};
use vstd::prelude::*;

verus! {

/// Returned by `Storage::try_create` when the slot is already occupied.
#[derive(Clone, Copy, Debug, PartialEq, Eq, Structural)]
pub struct AlreadyExists {}

/// One occupied slot.
#[derive(Debug)]
struct Slot {
    address: Address,
    record: RegistrationRecord,
}

/// The occupied slots of the ledger, keyed by address.
#[derive(Debug)]
pub struct Storage {
    slots: Vec<Slot>,
}

/// `i` is an index of `slots` whose slot lies at `address`.
spec fn slot_at(slots: Seq<Slot>, address: Seq<u8>, i: int) -> bool {
    0 <= i < slots.len() && slots[i].address@ == address
}

/// No address occurs in two slots.
spec fn distinct_addresses(slots: Seq<Slot>) -> bool {
    forall|i: int, j: int|
        0 <= i < j < slots.len() ==> #[trigger] slots[i].address@ != #[trigger] slots[j].address@
}

/// The map from occupied addresses to the records stored there.
spec fn slots_map(slots: Seq<Slot>) -> Map<Seq<u8>, RecordView> {
    Map::new(
        |a: Seq<u8>| exists|i: int| slot_at(slots, a, i),
        |a: Seq<u8>| slots[choose|i: int| slot_at(slots, a, i)].record@,
    )
}

/// In a store without repeated addresses, each slot is found under its address.
proof fn lemma_slots_map_at(slots: Seq<Slot>, i: int)
    requires
        distinct_addresses(slots),
        0 <= i < slots.len(),
    ensures
        slots_map(slots).contains_key(slots[i].address@),
        slots_map(slots)[slots[i].address@] == slots[i].record@,
{
    let a = slots[i].address@;
    assert(slot_at(slots, a, i));
    let j = choose|j: int| slot_at(slots, a, j);
    assert(slot_at(slots, a, j));
    assert(i == j);
}

/// A slot at a free address adds exactly its own entry to the map.
proof fn lemma_slots_map_push(slots: Seq<Slot>, slot: Slot)
    requires
        distinct_addresses(slots),
        !slots_map(slots).contains_key(slot.address@),
    ensures
        distinct_addresses(slots.push(slot)),
        slots_map(slots.push(slot)) == slots_map(slots).insert(slot.address@, slot.record@),
{
    let next = slots.push(slot);
    assert forall|i: int, j: int| 0 <= i < j < next.len() implies #[trigger] next[i].address@
        != #[trigger] next[j].address@ by {
        if j == slots.len() {
            assert(slot_at(slots, slots[i].address@, i));
        }
    }
    let m1 = slots_map(next);
    let m2 = slots_map(slots).insert(slot.address@, slot.record@);
    assert forall|a: Seq<u8>| m1.contains_key(a) <==> m2.contains_key(a) by {
        if m1.contains_key(a) {
            let i = choose|i: int| slot_at(next, a, i);
            if i < slots.len() {
                assert(slot_at(slots, a, i));
            }
        }
        if m2.contains_key(a) {
            if a == slot.address@ {
                assert(slot_at(next, a, slots.len() as int));
            } else {
                let i = choose|i: int| slot_at(slots, a, i);
                assert(slot_at(next, a, i));
            }
        }
    }
    assert forall|a: Seq<u8>| m1.contains_key(a) implies m1[a] == m2[a] by {
        let i = choose|i: int| slot_at(next, a, i);
        lemma_slots_map_at(next, i);
        if i < slots.len() {
            lemma_slots_map_at(slots, i);
        }
    }
    assert(m1 =~= m2);
}

/// Without repeated addresses there are as many occupied addresses as slots.
proof fn lemma_slots_map_len(slots: Seq<Slot>)
    requires
        distinct_addresses(slots),
    ensures
        slots_map(slots).dom().finite(),
        slots_map(slots).dom().len() == slots.len(),
    decreases slots.len(),
{
    if slots.len() == 0 {
        assert(slots_map(slots).dom() =~= Set::empty());
    } else {
        let front = slots.drop_last();
        let last = slots.last();
        assert(distinct_addresses(front));
        lemma_slots_map_len(front);
        if slots_map(front).contains_key(last.address@) {
            let i = choose|i: int| slot_at(front, last.address@, i);
            assert(slots[i].address@ == slots[slots.len() - 1].address@);
        }
        lemma_slots_map_push(front, last);
        assert(front.push(last) =~= slots);
        assert(slots_map(slots).dom() =~= slots_map(front).dom().insert(last.address@));
    }
}

impl View for Storage {
    type V = Map<Seq<u8>, RecordView>;

    closed spec fn view(&self) -> Map<Seq<u8>, RecordView> {
        slots_map(self.slots@)
    }
}

impl Storage {
    #[verifier::type_invariant]
    closed spec fn well_formed(self) -> bool {
        distinct_addresses(self.slots@)
    }

    /// A store with no occupied slot.
    pub fn new() -> (r: Self)
        ensures
            r@ == Map::<Seq<u8>, RecordView>::empty(),
    {
        let r = Storage { slots: Vec::new() };
        assert(r@ =~= Map::<Seq<u8>, RecordView>::empty());
        r
    }

    /// The index of the slot at `address`, if it is occupied.
    fn find(&self, address: &Address) -> (r: Option<usize>)
        ensures
            match r {
                Some(i) => slot_at(self.slots@, address@, i as int),
                None => !self@.contains_key(address@),
            },
    {
        let mut i: usize = 0;
        while i < self.slots.len()
            invariant
                i <= self.slots.len(),
                forall|j: int| 0 <= j < i ==> !slot_at(self.slots@, address@, j),
            decreases self.slots.len() - i,
        {
            if self.slots[i].address == *address {
                return Some(i);
            }
            i += 1;
        }
        None
    }

    /// The number of occupied slots.
    pub fn len(&self) -> (r: usize)
        ensures
            self@.dom().finite(),
            r == self@.dom().len(),
    {
        proof {
            use_type_invariant(self);
            lemma_slots_map_len(self.slots@);
        }
        self.slots.len()
    }

    /// Whether the slot at `address` is occupied.
    pub fn is_occupied(&self, address: &Address) -> (r: bool)
        ensures
            r == self@.contains_key(address@),
    {
        match self.find(address) {
            Some(_) => true,
            None => false,
        }
    }

    /// The record stored at `address`, if the slot is occupied.
    pub fn get(&self, address: &Address) -> (r: Option<&RegistrationRecord>)
        ensures
            match r {
                Some(record) => self@.contains_key(address@) && self@[address@] == record@,
                None => !self@.contains_key(address@),
            },
    {
        match self.find(address) {
            Some(i) => {
                proof {
                    use_type_invariant(self);
                    lemma_slots_map_at(self.slots@, i as int);
                }
                Some(&self.slots[i].record)
            },
            None => None,
        }
    }

    /// Creates the slot at `address` with `record` in it, unless the slot is
    /// already occupied; an occupied slot is left as it is.
    pub fn try_create(&mut self, address: Address, record: RegistrationRecord) -> (r: Result<
        (),
        AlreadyExists,
    >)
        ensures
            match r {
                Ok(_) => !old(self)@.contains_key(address@) && final(self)@ == old(self)@.insert(
                    address@,
                    record@,
                ),
                Err(_) => old(self)@.contains_key(address@) && *final(self) == *old(self),
            },
    {
        match self.find(&address) {
            Some(i) => {
                proof {
                    use_type_invariant(&*self);
                    lemma_slots_map_at(self.slots@, i as int);
                }
                Err(AlreadyExists {  })
            },
            None => {
                let slot = Slot { address, record };
                proof {
                    use_type_invariant(&*self);
                    lemma_slots_map_push(self.slots@, slot);
                }
                // The slots are taken out, extended and put back, so that the
                // store is well formed at every step.
                let mut slots: Vec<Slot> = Vec::new();
                core::mem::swap(&mut self.slots, &mut slots);
                slots.push(slot);
                core::mem::swap(&mut self.slots, &mut slots);
                Ok(())
            },
        }
    }
}

} // verus!
