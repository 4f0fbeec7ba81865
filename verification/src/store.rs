//! Store of each peer's latest proposed value.
//!
//! The store maps an address to the value that peer most recently offered
//! for broadcast. The protocol consults it when deriving the value a node
//! proposes at a round, and when the sender re-derives its own value
//! while aggregating echoes. It is injected into the state machines as an
//! explicit dependency rather than held as process-wide state.

use crate::table::KeyTable;
use vstd::prelude::*;

verus! {

/// Maps an address to the latest value that peer proposed.
#[derive(Clone)]
pub struct MessageStore {
    pub table: KeyTable<Vec<u8>>,
}

impl View for MessageStore {
    type V = Map<u64, Seq<u8>>;

    open spec fn view(&self) -> Map<u64, Seq<u8>> {
        self.table@
    }
}

impl MessageStore {
    /// An empty store: no peer has proposed anything yet.
    pub fn new() -> (s: Self)
        ensures
            s@ == Map::<u64, Seq<u8>>::empty(),
    {
        MessageStore { table: KeyTable::new() }
    }

    /// Records `value` as the latest value proposed by `addr`,
    /// replacing any earlier one.
    pub fn set_value(&mut self, addr: u64, value: Vec<u8>)
        ensures
            final(self)@ == old(self)@.insert(addr, value@),
    {
        self.table.insert(addr, value);
    }

    /// The latest value proposed by `addr`, if any.
    pub fn get_value(&self, addr: u64) -> (r: Option<&Vec<u8>>)
        ensures
            match r {
                Some(v) => self@.contains_key(addr) && v@ == self@[addr],
                None => !self@.contains_key(addr),
            },
    {
        self.table.get(addr)
    }
}

} // verus!
