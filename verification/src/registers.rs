//! ARM64 register mapping for RISC-V emulation.
//!
//! Hot RISC-V registers live in ARM64 general-purpose registers; cold ones
//! are accessed through the state structure in memory.

use vstd::prelude::*;

verus! {

/// ARM64 assembly backend: number of GPRs available for hot registers.
///
/// Reserved: x19 (state pointer), x20 (memory pointer), x0-x2 (temporaries),
/// x18 (instret cache), x29/x30/sp. Available: x3-x17 and x21-x28.
pub const HOT_REG_SLOTS: usize = 23;

/// RvState pointer register (callee-saved).
pub const STATE_PTR: &'static str = "x19";

/// Memory base pointer register (callee-saved).
pub const MEMORY_PTR: &'static str = "x20";

/// Instret cache register.
pub const INSTRET: &'static str = "x18";

/// Cold-register cache: holds the last cold RISC-V register loaded from state.
pub const COLD_CACHE: &'static str = "x17";

/// Available ARM64 registers for hot RISC-V registers, callee-saved first.
pub const AVAILABLE_REGS: [&'static str; 23] = [
    "x21", "x22", "x23", "x24", "x25", "x26", "x27", "x28",
    "x3", "x4", "x5", "x6", "x7", "x8", "x9", "x10", "x11", "x12", "x13", "x14", "x15", "x16",
    "x17",
];

/// 32-bit names of the available registers (w-registers for RV32).
pub const AVAILABLE_REGS_32: [&'static str; 23] = [
    "w21", "w22", "w23", "w24", "w25", "w26", "w27", "w28", "w3", "w4", "w5", "w6", "w7", "w8",
    "w9", "w10", "w11", "w12", "w13", "w14", "w15", "w16", "w17",
];

/// Index of the last occurrence of `rv` among the first `n` entries of `hot`.
pub open spec fn last_index(hot: Seq<u8>, rv: int, n: int) -> Option<int>
    decreases n,
{
    if n <= 0 {
        None
    } else if hot[n - 1] as int == rv {
        Some(n - 1)
    } else {
        last_index(hot, rv, n - 1)
    }
}

/// The ARM64 slot a RISC-V register is given by a hot-register list: registers
/// are assigned slots in list order (only the first `HOT_REG_SLOTS` entries
/// count, a repeated register keeps its last slot); x0 and numbers of 32 and
/// above get none.
pub open spec fn hot_slot(hot: Seq<u8>, rv: int) -> Option<int> {
    if rv <= 0 || rv >= 32 {
        None
    } else {
        last_index(
            hot,
            rv,
            if hot.len() < HOT_REG_SLOTS {
                hot.len() as int
            } else {
                HOT_REG_SLOTS as int
            },
        )
    }
}

/// Name of an ARM64 slot, 32-bit (`w`) or 64-bit (`x`).
pub open spec fn slot_name(slot: Option<int>, narrow: bool) -> Option<&'static str> {
    match slot {
        Some(i) => Some(
            if narrow {
                AVAILABLE_REGS_32@[i]
            } else {
                AVAILABLE_REGS@[i]
            },
        ),
        None => None,
    }
}

/// The hot registers among `0..n` in increasing order, each with its ARM64
/// name.
pub open spec fn hot_pairs(hot: Seq<u8>, narrow: bool, n: int) -> Seq<(u8, &'static str)>
    decreases n,
{
    if n <= 0 {
        seq![]
    } else {
        hot_pairs(hot, narrow, n - 1) + match slot_name(hot_slot(hot, n - 1), narrow) {
            Some(name) => seq![((n - 1) as u8, name)],
            None => seq![],
        }
    }
}


/// The 64-bit names of the available registers all start with `x`.
pub proof fn lemma_available_wide(i: int)
    requires
        0 <= i < HOT_REG_SLOTS,
    ensures
        AVAILABLE_REGS@[i]@.len() > 0,
        AVAILABLE_REGS@[i]@[0] == 'x',
{
    reveal_strlit("x21");
    reveal_strlit("x22");
    reveal_strlit("x23");
    reveal_strlit("x24");
    reveal_strlit("x25");
    reveal_strlit("x26");
    reveal_strlit("x27");
    reveal_strlit("x28");
    reveal_strlit("x3");
    reveal_strlit("x4");
    reveal_strlit("x5");
    reveal_strlit("x6");
    reveal_strlit("x7");
    reveal_strlit("x8");
    reveal_strlit("x9");
    reveal_strlit("x10");
    reveal_strlit("x11");
    reveal_strlit("x12");
    reveal_strlit("x13");
    reveal_strlit("x14");
    reveal_strlit("x15");
    reveal_strlit("x16");
    reveal_strlit("x17");
}

pub proof fn lemma_last_index_bound(hot: Seq<u8>, rv: int, n: int)
    ensures
        last_index(hot, rv, n) matches Some(i) ==> 0 <= i < n && hot[i] as int == rv,
    decreases n,
{
    if n > 0 {
        lemma_last_index_bound(hot, rv, n - 1);
    }
}

/// Register mapping from RISC-V registers to ARM64 registers.
pub struct RegMap {
    /// RISC-V register -> ARM64 register name (or None if in memory).
    mapping: Vec<Option<&'static str>>,
    /// 32-bit names for RV32.
    mapping_32: Vec<Option<&'static str>>,
    /// Whether we're in RV32 mode.
    is_rv32: bool,
    /// The hot-register list the map was made from.
    hot: Ghost<Seq<u8>>,
}

impl RegMap {
    #[verifier::type_invariant]
    spec fn inv(&self) -> bool {
        &&& self.mapping.len() == 32
        &&& self.mapping_32.len() == 32
        &&& forall|rv: int|
            0 <= rv < 32 ==> #[trigger] self.mapping@[rv] == slot_name(hot_slot(self.hot@, rv), false)
        &&& forall|rv: int|
            0 <= rv < 32 ==> #[trigger] self.mapping_32@[rv] == slot_name(
                hot_slot(self.hot@, rv),
                true,
            )
    }

    /// The hot-register list this map was made from.
    pub closed spec fn hot_list(&self) -> Seq<u8> {
        self.hot@
    }

    /// Whether the map names 32-bit registers.
    pub closed spec fn narrow(&self) -> bool {
        self.is_rv32
    }

    /// Create the register mapping from a hot-register list.
    pub fn new(hot_regs: &[u8], is_rv32: bool) -> (r: Self)
        ensures
            r.hot_list() == hot_regs@,
            r.narrow() == is_rv32,
    {
        let mut mapping: Vec<Option<&'static str>> = Vec::new();
        let mut mapping_32: Vec<Option<&'static str>> = Vec::new();
        let mut k: usize = 0;
        while k < 32
            invariant
                k <= 32,
                mapping.len() == k,
                mapping_32.len() == k,
                forall|t: int| 0 <= t < k ==> #[trigger] mapping@[t] == None::<&'static str>,
                forall|t: int| 0 <= t < k ==> #[trigger] mapping_32@[t] == None::<&'static str>,
            decreases 32 - k,
        {
            mapping.push(None);
            mapping_32.push(None);
            k += 1;
        }
        let limit = if hot_regs.len() < HOT_REG_SLOTS {
            hot_regs.len()
        } else {
            HOT_REG_SLOTS
        };
        let mut i: usize = 0;
        while i < limit
            invariant
                i <= limit,
                limit <= hot_regs@.len(),
                limit == if hot_regs@.len() < HOT_REG_SLOTS {
                    hot_regs@.len() as int
                } else {
                    HOT_REG_SLOTS as int
                },
                mapping.len() == 32,
                mapping_32.len() == 32,
                forall|rv: int|
                    0 <= rv < 32 ==> #[trigger] mapping@[rv] == (if rv == 0 {
                        None
                    } else {
                        slot_name(last_index(hot_regs@, rv, i as int), false)
                    }),
                forall|rv: int|
                    0 <= rv < 32 ==> #[trigger] mapping_32@[rv] == (if rv == 0 {
                        None
                    } else {
                        slot_name(last_index(hot_regs@, rv, i as int), true)
                    }),
            decreases limit - i,
        {
            let rv_reg = hot_regs[i];
            if rv_reg < 32 && rv_reg != 0 {
                mapping.set(rv_reg as usize, Some(AVAILABLE_REGS[i]));
                mapping_32.set(rv_reg as usize, Some(AVAILABLE_REGS_32[i]));
            }
            i += 1;
        }
        RegMap { mapping, mapping_32, is_rv32, hot: Ghost(hot_regs@) }
    }

    /// ARM64 register holding a RISC-V register, or `None` if it lives in memory.
    pub fn get(&self, rv_reg: u8) -> (r: Option<&'static str>)
        ensures
            r == slot_name(hot_slot(self.hot_list(), rv_reg as int), self.narrow()),
    {
        proof {
            use_type_invariant(self);
        }
        if rv_reg == 0 || rv_reg >= 32 {
            return None;
        }
        if self.is_rv32 {
            self.mapping_32[rv_reg as usize]
        } else {
            self.mapping[rv_reg as usize]
        }
    }

    /// 64-bit ARM64 register holding a RISC-V register.
    pub fn get_64(&self, rv_reg: u8) -> (r: Option<&'static str>)
        ensures
            r == slot_name(hot_slot(self.hot_list(), rv_reg as int), false),
    {
        proof {
            use_type_invariant(self);
        }
        if rv_reg == 0 || rv_reg >= 32 {
            return None;
        }
        self.mapping[rv_reg as usize]
    }

    /// Whether a RISC-V register lives in an ARM64 register.
    pub fn is_hot(&self, rv_reg: u8) -> (r: bool)
        ensures
            r == hot_slot(self.hot_list(), rv_reg as int).is_some(),
    {
        proof {
            use_type_invariant(self);
        }
        if rv_reg == 0 || rv_reg >= 32 {
            return false;
        }
        self.mapping[rv_reg as usize].is_some()
    }

    /// The hot registers in increasing RISC-V order, with their ARM64 names
    /// (32-bit names in RV32 mode).
    pub fn hot_regs(&self) -> (r: Vec<(u8, &'static str)>)
        ensures
            r@ == hot_pairs(self.hot_list(), self.narrow(), 32),
            forall|a: int, b: int| 0 <= a < b < r@.len() ==> r@[a].0 < r@[b].0,
            forall|k: int|
                0 <= k < r@.len() ==> slot_name(hot_slot(self.hot_list(), r@[k].0 as int), self.narrow())
                    == Some(#[trigger] r@[k].1),
            forall|rv: int|
                #![trigger hot_slot(self.hot_list(), rv)]
                hot_slot(self.hot_list(), rv).is_some() ==> exists|k: int|
                    0 <= k < r@.len() && r@[k].0 as int == rv,
    {
        self.collect_hot(self.is_rv32)
    }

    /// The hot registers in increasing RISC-V order, always with 64-bit names.
    pub fn hot_regs_64(&self) -> (r: Vec<(u8, &'static str)>)
        ensures
            r@ == hot_pairs(self.hot_list(), false, 32),
            forall|a: int, b: int| 0 <= a < b < r@.len() ==> r@[a].0 < r@[b].0,
            forall|k: int|
                0 <= k < r@.len() ==> slot_name(hot_slot(self.hot_list(), r@[k].0 as int), false)
                    == Some(#[trigger] r@[k].1),
            forall|rv: int|
                #![trigger hot_slot(self.hot_list(), rv)]
                hot_slot(self.hot_list(), rv).is_some() ==> exists|k: int|
                    0 <= k < r@.len() && r@[k].0 as int == rv,
    {
        self.collect_hot(false)
    }

    fn collect_hot(&self, narrow: bool) -> (r: Vec<(u8, &'static str)>)
        ensures
            r@ == hot_pairs(self.hot_list(), narrow, 32),
            forall|a: int, b: int| 0 <= a < b < r@.len() ==> r@[a].0 < r@[b].0,
            forall|k: int|
                0 <= k < r@.len() ==> slot_name(hot_slot(self.hot_list(), r@[k].0 as int), narrow)
                    == Some(#[trigger] r@[k].1),
            forall|rv: int|
                #![trigger hot_slot(self.hot_list(), rv)]
                hot_slot(self.hot_list(), rv).is_some() ==> exists|k: int|
                    0 <= k < r@.len() && r@[k].0 as int == rv,
    {
        proof {
            use_type_invariant(self);
        }
        let mut out: Vec<(u8, &'static str)> = Vec::new();
        let mut i: usize = 0;
        while i < 32
            invariant
                i <= 32,
                self.mapping.len() == 32,
                self.mapping_32.len() == 32,
                forall|rv: int|
                    0 <= rv < 32 ==> #[trigger] self.mapping@[rv] == slot_name(
                        hot_slot(self.hot@, rv),
                        false,
                    ),
                forall|rv: int|
                    0 <= rv < 32 ==> #[trigger] self.mapping_32@[rv] == slot_name(
                        hot_slot(self.hot@, rv),
                        true,
                    ),
                out@ == hot_pairs(self.hot@, narrow, i as int),
                forall|a: int, b: int| 0 <= a < b < out@.len() ==> out@[a].0 < out@[b].0,
                forall|k: int| 0 <= k < out@.len() ==> out@[k].0 < i,
                forall|k: int|
                    0 <= k < out@.len() ==> slot_name(hot_slot(self.hot@, out@[k].0 as int), narrow)
                        == Some(#[trigger] out@[k].1),
                forall|rv: int|
                    0 <= rv < i && #[trigger] hot_slot(self.hot@, rv).is_some() ==> exists|k: int|
                        0 <= k < out@.len() && out@[k].0 as int == rv,
            decreases 32 - i,
        {
            let entry = if narrow {
                self.mapping_32[i]
            } else {
                self.mapping[i]
            };
            let ghost before = out@;
            if let Some(name) = entry {
                out.push((i as u8, name));
                assert(out@[out@.len() - 1].0 as int == i);
            }
            assert(out@ =~= hot_pairs(self.hot@, narrow, i + 1));
            proof {
                assert forall|rv: int|
                    0 <= rv < i + 1 && #[trigger] hot_slot(self.hot@, rv).is_some() implies exists|
                    k: int,
                | 0 <= k < out@.len() && out@[k].0 as int == rv by {
                    if rv < i {
                        let k = choose|k: int| 0 <= k < before.len() && before[k].0 as int == rv;
                        assert(out@[k] == before[k]);
                    } else {
                        assert(out@[out@.len() - 1].0 as int == i);
                    }
                }
            }
            i += 1;
        }
        proof {
            assert forall|rv: int| #[trigger] hot_slot(self.hot@, rv).is_some() implies exists|k: int|
                0 <= k < out@.len() && out@[k].0 as int == rv by {
                assert(0 <= rv < 32);
            }
        }
        out
    }
}

} // verus!
