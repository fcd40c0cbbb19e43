//! Inputs that the emitters derive from the analysed program: where code
//! starts and ends, which addresses start a block, and which absorbed block
//! addresses were merged into another block.

use vstd::prelude::*;

use std::collections::{HashMap, HashSet};

verus! {

broadcast use vstd::std_specs::hash::group_hash_axioms;

/// Program facts shared by the code emitters.
pub struct EmitInputs {
    /// Entry point address (where execution starts).
    pub entry_point: u64,
    /// Text section start (lowest code address, the dispatch table base).
    pub text_start: u64,
    /// End of the code range (exclusive).
    pub pc_end: u64,
    /// Addresses at which a block starts.
    pub valid_addresses: HashSet<u64>,
    /// Address of a block absorbed into another -> start of the merged block.
    pub absorbed_to_merged: HashMap<u64, u64>,
    /// Initial program break.
    pub initial_brk: u64,
}

impl EmitInputs {
    /// Inputs for the code range `[entry_point, pc_end)`, with no block
    /// addresses yet; the text section starts at the entry point.
    pub fn new(entry_point: u64, pc_end: u64) -> (r: Self)
        ensures
            r.entry_point == entry_point,
            r.text_start == entry_point,
            r.pc_end == pc_end,
            r.valid_addresses@ == Set::<u64>::empty(),
            r.absorbed_to_merged@ == Map::<u64, u64>::empty(),
            r.initial_brk == 0,
    {
        EmitInputs {
            entry_point,
            text_start: entry_point,
            pc_end,
            valid_addresses: HashSet::new(),
            absorbed_to_merged: HashMap::new(),
            initial_brk: 0,
        }
    }

    /// The same inputs with the given initial program break.
    pub fn with_initial_brk(self, initial_brk: u64) -> (r: Self)
        ensures
            r.initial_brk == initial_brk,
            r.entry_point == self.entry_point,
            r.text_start == self.text_start,
            r.pc_end == self.pc_end,
            r.valid_addresses@ == self.valid_addresses@,
            r.absorbed_to_merged@ == self.absorbed_to_merged@,
    {
        EmitInputs { initial_brk, ..self }
    }

    /// Whether a block starts at `addr`.
    pub fn is_valid_address(&self, addr: u64) -> (r: bool)
        ensures
            r == self.valid_addresses@.contains(addr),
    {
        self.valid_addresses.contains(&addr)
    }

    /// The block that holds `addr`: the merged block of an absorbed address,
    /// `addr` itself otherwise.
    pub fn resolve_address(&self, addr: u64) -> (r: u64)
        ensures
            r == resolved(self.absorbed_to_merged@, addr),
    {
        match self.absorbed_to_merged.get(&addr) {
            Some(merged) => *merged,
            None => addr,
        }
    }
}

/// The merged block of an absorbed address, the address itself otherwise.
pub open spec fn resolved(absorbed: Map<u64, u64>, addr: u64) -> u64 {
    if absorbed.contains_key(addr) {
        absorbed[addr]
    } else {
        addr
    }
}

} // verus!
