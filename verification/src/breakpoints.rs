//! The breakpoint table: for each patched address, the instruction byte that
//! stood there before the first trap was written.

use std::collections::HashMap;
use vstd::prelude::*;

verus! {

broadcast use vstd::std_specs::hash::group_hash_axioms;

/// Maps the address of each breakpoint to its original instruction byte.
pub struct BreakpointTable {
    originals: HashMap<usize, u8>,
}

impl View for BreakpointTable {
    type V = Map<usize, u8>;

    closed spec fn view(&self) -> Map<usize, u8> {
        self.originals@
    }
}

/// The table after `record(addr, byte)`: a first entry for `addr` is kept,
/// a later one is ignored.
pub open spec fn recorded(table: Map<usize, u8>, addr: usize, byte: u8) -> Map<usize, u8> {
    if table.contains_key(addr) {
        table
    } else {
        table.insert(addr, byte)
    }
}

impl BreakpointTable {
    /// An empty table.
    pub fn new() -> (table: BreakpointTable)
        ensures
            table@ == Map::<usize, u8>::empty(),
    {
        BreakpointTable { originals: HashMap::new() }
    }

    /// Whether `addr` carries a breakpoint.
    pub fn contains(&self, addr: usize) -> (found: bool)
        ensures
            found == self@.contains_key(addr),
    {
        self.originals.contains_key(&addr)
    }

    /// The original byte at `addr`, if a breakpoint was recorded there.
    pub fn original(&self, addr: usize) -> (byte: Option<u8>)
        ensures
            byte == if self@.contains_key(addr) {
                Some(self@[addr])
            } else {
                None
            },
    {
        match self.originals.get(&addr) {
            Some(b) => Some(*b),
            None => None,
        }
    }

    /// Remembers `byte` as the original byte at `addr`, unless one is
    /// remembered already: a recorded byte is never overwritten.
    pub fn record(&mut self, addr: usize, byte: u8)
        ensures
            final(self)@ == recorded(old(self)@, addr, byte),
    {
        if !self.originals.contains_key(&addr) {
            self.originals.insert(addr, byte);
        }
    }

    /// How many breakpoints are recorded.
    pub fn len(&self) -> (n: usize)
        ensures
            n == self@.len(),
            self@.dom().finite(),
    {
        self.originals.len()
    }
}

/// Recording twice at one address keeps the byte of the first call.
pub proof fn lemma_record_is_idempotent(table: Map<usize, u8>, addr: usize, first: u8, second: u8)
    ensures
        recorded(recorded(table, addr, first), addr, second) == recorded(table, addr, first),
        recorded(table, addr, first).contains_key(addr),
        !table.contains_key(addr) ==> recorded(table, addr, first)[addr] == first,
        table.contains_key(addr) ==> recorded(table, addr, first)[addr] == table[addr],
{
}

} // verus!
