//! A small demonstration contract: a handful of stored values with plain
//! accessors, an account table filled once at construction, and a transfer
//! event record handed back to the caller instead of an ambient event sink.

use vstd::prelude::*;

use crate::counts::CountTable;

verus! {

/// A transfer event: where value moved from, where it moved to, and how much.
pub struct Transferred {
    pub from: Option<u64>,
    pub to: Option<u64>,
    pub value: u128,
}

/// The demonstration contract's stored values. The account table holds one
/// entry, written at construction for the constructing account.
pub struct Hellocontract {
    value: bool,
    a: i32,
    b: Vec<i32>,
    map: CountTable,
    total_supply: u128,
    description: String,
    statement: u64,
}

impl Hellocontract {
    /// The account table is well formed.
    pub closed spec fn wf(self) -> bool {
        self.map.wf()
    }

    /// The stored flag.
    pub closed spec fn spec_value(self) -> bool {
        self.value
    }

    /// The stored number.
    pub closed spec fn spec_number(self) -> int {
        self.a as int
    }

    /// The stored vector.
    pub closed spec fn spec_vector(self) -> Seq<i32> {
        self.b@
    }

    /// The table entry of an account, or none where no entry stands.
    pub closed spec fn spec_map_entry(self, id: u64) -> Option<u32> {
        if self.map.contains(id) {
            Some(self.map.value_of(id))
        } else {
            None
        }
    }

    /// The stored supply.
    pub closed spec fn spec_supply(self) -> u128 {
        self.total_supply
    }

    /// The stored description.
    pub closed spec fn spec_description(self) -> Seq<char> {
        self.description@
    }

    /// The stored statement digest, an opaque value to this contract.
    pub closed spec fn spec_hash(self) -> u64 {
        self.statement
    }

    /// Creates the contract from the given values, records the given count
    /// for the constructing account, and hands back the transfer event that
    /// announces the initial supply to that account.
    pub fn new(
        init_value: bool,
        init_a: i32,
        init_b: Vec<i32>,
        count: u32,
        initial_supply: u128,
        description: String,
        statement: u64,
        caller: u64,
    ) -> (r: (Hellocontract, Transferred))
        ensures
            r.0.wf(),
            r.0.spec_value() == init_value,
            r.0.spec_number() == init_a,
            r.0.spec_vector() == init_b@,
            r.0.spec_map_entry(caller) == Some(count),
            forall|id: u64| id != caller ==> r.0.spec_map_entry(id) is None,
            r.0.spec_supply() == initial_supply,
            r.0.spec_description() == description@,
            r.0.spec_hash() == statement,
            r.1.from is None,
            r.1.to == Some(caller),
            r.1.value == initial_supply,
    {
        let mut map = CountTable::new();
        map.store(caller, count);
        let contract = Hellocontract {
            value: init_value,
            a: init_a,
            b: init_b,
            map,
            total_supply: initial_supply,
            description,
            statement,
        };
        let event = Transferred { from: None, to: Some(caller), value: initial_supply };
        (contract, event)
    }

    /// Creates the contract with its fixed sample values, the constructing
    /// account's entry at ten, and the construction transfer event.
    pub fn default(caller: u64) -> (r: (Hellocontract, Transferred))
        ensures
            r.0.wf(),
            r.0.spec_value() == true,
            r.0.spec_number() == -2,
            r.0.spec_vector() == Seq::<i32>::empty(),
            r.0.spec_map_entry(caller) == Some(10u32),
            forall|id: u64| id != caller ==> r.0.spec_map_entry(id) is None,
            r.0.spec_supply() == 1000,
            r.0.spec_description() == "Test it"@,
            r.0.spec_hash() == 0x9999_9999_9999_9999u64,
            r.1.from is None,
            r.1.to == Some(caller),
            r.1.value == 1000,
    {
        Hellocontract::new(
            true,
            -2,
            Vec::new(),
            10u32,
            1000,
            String::from_str("Test it"),
            0x9999_9999_9999_9999u64,
            caller,
        )
    }

    /// Flips the stored flag; nothing else changes.
    pub fn flip(&mut self)
        requires
            old(self).wf(),
        ensures
            final(self).wf(),
            final(self).spec_value() == !old(self).spec_value(),
            final(self).spec_number() == old(self).spec_number(),
            final(self).spec_vector() == old(self).spec_vector(),
            forall|id: u64| final(self).spec_map_entry(id) == old(self).spec_map_entry(id),
            final(self).spec_supply() == old(self).spec_supply(),
            final(self).spec_description() == old(self).spec_description(),
            final(self).spec_hash() == old(self).spec_hash(),
    {
        self.value = !self.value;
    }

    /// The stored flag.
    pub fn get(&self) -> (r: bool)
        ensures
            r == self.spec_value(),
    {
        self.value
    }

    /// Stores a number; nothing else changes.
    pub fn set_number(&mut self, number: i32)
        requires
            old(self).wf(),
        ensures
            final(self).wf(),
            final(self).spec_number() == number,
            final(self).spec_value() == old(self).spec_value(),
            final(self).spec_vector() == old(self).spec_vector(),
            forall|id: u64| final(self).spec_map_entry(id) == old(self).spec_map_entry(id),
            final(self).spec_supply() == old(self).spec_supply(),
            final(self).spec_description() == old(self).spec_description(),
            final(self).spec_hash() == old(self).spec_hash(),
    {
        self.a = number;
    }

    /// The stored number, together with the transfer event that announces the
    /// read to the calling account.
    pub fn get_number(&self, caller: u64) -> (r: (i32, Transferred))
        ensures
            r.0 == self.spec_number(),
            r.1.from == Some(caller),
            r.1.to is None,
            r.1.value == 10,
    {
        let event = Transferred { from: Some(caller), to: None, value: 10 };
        (self.a, event)
    }

    /// The vector's element at the given index, or minus one where the index
    /// lies beyond the vector.
    pub fn get_vector_item(&self, index: u32) -> (r: i32)
        ensures
            r == (if index < self.spec_vector().len() {
                self.spec_vector()[index as int]
            } else {
                -1i32
            }),
    {
        if (index as usize) >= self.b.len() {
            return -1;
        }
        self.b[index as usize]
    }

    /// The calling account's table entry, or the largest counter value where
    /// no entry stands.
    pub fn get_map_item(&self, caller: u64) -> (r: u32)
        requires
            self.wf(),
        ensures
            r == (match self.spec_map_entry(caller) {
                Some(v) => v,
                None => u32::MAX,
            }),
    {
        match self.map.lookup(caller) {
            Some(v) => v,
            None => u32::MAX,
        }
    }

    /// The stored description.
    pub fn get_string(&self) -> (r: String)
        ensures
            r@ == self.spec_description(),
    {
        self.description.clone()
    }

    /// The stored statement digest.
    pub fn get_hash(&self) -> (r: u64)
        ensures
            r == self.spec_hash(),
    {
        self.statement
    }
}

} // verus!
