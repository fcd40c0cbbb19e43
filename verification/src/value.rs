//! Register value tracking for control-flow analysis.

use vstd::prelude::*;
use vstd::set_lib::lemma_len_subset;
use crate::sorted::{strictly_sorted, lemma_strictly_sorted_card, lemma_strictly_sorted_unique, search_sorted};

verus! {

broadcast use vstd::seq_lib::group_seq_properties, vstd::set::group_set_axioms;

/// Largest number of distinct constants a register may track before it becomes unknown.
pub const MAX_VALUES: usize = 16;

/// Tracked register value: unknown, or one of a small set of constants.
///
/// The constants of a `Constant` are kept strictly increasing (sorted and
/// without duplicates); there are between 1 and `MAX_VALUES` of them.
#[derive(Debug)]
pub enum RegisterValue {
    /// Value is unknown (too many possibilities or computed from unknown).
    Unknown,
    /// Value is one of these constant values (sorted, deduplicated).
    Constant(Vec<u64>),
}

impl View for RegisterValue {
    type V = Option<Seq<u64>>;

    open spec fn view(&self) -> Option<Seq<u64>> {
        match self {
            RegisterValue::Unknown => None,
            RegisterValue::Constant(v) => Some(v@),
        }
    }
}

/// The set of possible values a tracked value stands for (`None`: any value).
pub open spec fn possible(v: Option<Seq<u64>>) -> Option<Set<u64>> {
    match v {
        None => None,
        Some(s) => Some(s.to_set()),
    }
}

/// Join of two value sets: their union while it has at most `MAX_VALUES` elements.
pub open spec fn join(a: Option<Set<u64>>, b: Option<Set<u64>>) -> Option<Set<u64>> {
    match (a, b) {
        (Some(x), Some(y)) => if x.union(y).len() <= MAX_VALUES {
            Some(x.union(y))
        } else {
            None
        },
        _ => None,
    }
}

/// A tracked value whose constants, if known, are sorted and without
/// duplicates.
pub open spec fn value_sorted(v: Option<Seq<u64>>) -> bool {
    match v {
        None => true,
        Some(s) => strictly_sorted(s),
    }
}

/// A well-formed tracked value as a sequence view.
pub open spec fn value_wf(v: Option<Seq<u64>>) -> bool {
    match v {
        None => true,
        Some(s) => strictly_sorted(s) && 1 <= s.len() <= MAX_VALUES,
    }
}

impl RegisterValue {
    /// The documented invariant of the constant list.
    pub open spec fn wf(&self) -> bool {
        value_wf(self@)
    }

    /// An unknown value.
    pub fn unknown() -> (r: Self)
        ensures
            r@ == None::<Seq<u64>>,
    {
        RegisterValue::Unknown
    }

    /// A single known constant.
    pub fn constant(val: u64) -> (r: Self)
        ensures
            r@ == Some(seq![val]),
            r.wf(),
    {
        RegisterValue::Constant(vec![val])
    }

    /// Whether the value is a known constant set.
    pub fn is_constant(&self) -> (r: bool)
        ensures
            r == self@.is_some(),
    {
        match self {
            RegisterValue::Constant(_) => true,
            RegisterValue::Unknown => false,
        }
    }

    /// The possible constants, if known.
    pub fn values(&self) -> (r: Option<&[u64]>)
        ensures
            match r {
                Some(s) => self@ == Some(s@),
                None => self@.is_none(),
            },
    {
        match self {
            RegisterValue::Constant(v) => Some(v.as_slice()),
            RegisterValue::Unknown => None,
        }
    }

    /// Add a possible value; becomes unknown once more than `MAX_VALUES` values are possible.
    pub fn add_value(&mut self, val: u64)
        requires
            value_sorted(old(self)@),
        ensures
            value_sorted(final(self)@),
            old(self)@ is None ==> final(self)@ is None,
            old(self)@ matches Some(s) ==> possible(final(self)@) == if s.contains(val) {
                Some(s.to_set())
            } else if s.len() >= MAX_VALUES {
                None
            } else {
                Some(s.to_set().insert(val))
            },
            old(self).wf() ==> final(self).wf(),
            old(self).wf() ==> possible(final(self)@) == join(possible(old(self)@), Some(set![val])),
    {
        proof {
            lemma_wf_possible(self@);
        }
        let mut became_unknown = false;
        match self {
            RegisterValue::Constant(values) => {
                let ghost old_vals = values@;
                proof {
                    lemma_strictly_sorted_card(old_vals);
                }
                match search_sorted(values.as_slice(), val) {
                    Ok(i) => {
                        assert(old_vals.to_set().union(set![val]) =~= old_vals.to_set());
                    },
                    Err(pos) => {
                        assert(!old_vals.to_set().contains(val));
                        assert(old_vals.to_set().union(set![val]) =~= old_vals.to_set().insert(
                            val,
                        ));
                        if values.len() >= MAX_VALUES {
                            became_unknown = true;
                        } else {
                            values.insert(pos, val);
                            proof {
                                let nv = values@;
                                assert(nv =~= old_vals.insert(pos as int, val));
                                assert forall|i: int, j: int| 0 <= i < j < nv.len() implies nv[i]
                                    < nv[j] by {
                                    if j < pos {
                                    } else if j == pos {
                                    } else if i < pos {
                                    } else if i == pos {
                                    } else {
                                    }
                                }
                                assert(nv.to_set() =~= old_vals.to_set().insert(val)) by {
                                    assert forall|x: u64| nv.to_set().contains(x) implies
                                        old_vals.to_set().insert(val).contains(x) by {
                                        let k = choose|k: int| 0 <= k < nv.len() && nv[k] == x;
                                        if k < pos {
                                            assert(old_vals[k] == x);
                                        } else if k > pos {
                                            assert(old_vals[k - 1] == x);
                                        }
                                    }
                                    assert forall|x: u64|
                                        old_vals.to_set().insert(val).contains(x) implies nv.to_set().contains(
                                        x,
                                    ) by {
                                        if x == val {
                                            assert(nv[pos as int] == val);
                                        } else {
                                            let k = choose|k: int|
                                                0 <= k < old_vals.len() && old_vals[k] == x;
                                            if k < pos {
                                                assert(nv[k] == x);
                                            } else {
                                                assert(nv[k + 1] == x);
                                            }
                                        }
                                    }
                                }
                                lemma_strictly_sorted_card(nv);
                            }
                        }
                    },
                }
            },
            RegisterValue::Unknown => {},
        }
        if became_unknown {
            *self = RegisterValue::Unknown;
        }
    }

    /// Union of two tracked values; unknown if either is unknown or the union is too large.
    pub fn merge(&self, other: &Self) -> (r: Self)
        requires
            value_sorted(self@),
            value_sorted(other@),
        ensures
            value_sorted(r@),
            possible(r@) == join(possible(self@), possible(other@)),
            self.wf() && other.wf() ==> r.wf(),
    {
        proof {
            lemma_wf_possible(self@);
            lemma_wf_possible(other@);
        }
        match (self, other) {
            (RegisterValue::Constant(a), RegisterValue::Constant(b)) => {
                let ghost sa = a@.to_set();
                let ghost sb = b@.to_set();
                let mut merged: Vec<u64> = Vec::new();
                let mut i: usize = 0;
                let mut j: usize = 0;
                while i < a.len() && j < b.len()
                    invariant
                        i <= a.len(),
                        j <= b.len(),
                        self@ == Some(a@),
                        other@ == Some(b@),
                        strictly_sorted(a@),
                        strictly_sorted(b@),
                        strictly_sorted(merged@),
                        merged.len() <= MAX_VALUES,
                        merged@.to_set() == a@.take(i as int).to_set().union(
                            b@.take(j as int).to_set(),
                        ),
                        merged.len() > 0 ==> (i < a.len() ==> merged@.last() < a@[i as int]),
                        merged.len() > 0 ==> (j < b.len() ==> merged@.last() < b@[j as int]),
                    decreases a.len() + b.len() - i - j,
                {
                    let ghost before = merged@;
                    let ghost (i0, j0) = (i, j);
                    let ai = a[i];
                    let bj = b[j];
                    let x;
                    if ai < bj {
                        x = ai;
                        i += 1;
                    } else if ai > bj {
                        x = bj;
                        j += 1;
                    } else {
                        x = ai;
                        i += 1;
                        j += 1;
                    }
                    merged.push(x);
                    proof {
                        lemma_step_sets(before, merged@, x, a@, b@, i0 as int, j0 as int, i as int, j as int);
                    }
                    if merged.len() > MAX_VALUES {
                        proof {
                            lemma_too_many(merged@, a@, b@, i as int, j as int);
                        }
                        return RegisterValue::Unknown;
                    }
                }
                while i < a.len()
                    invariant
                        i <= a.len(),
                        j <= b.len(),
                        self@ == Some(a@),
                        other@ == Some(b@),
                        strictly_sorted(a@),
                        strictly_sorted(b@),
                        strictly_sorted(merged@),
                        merged.len() <= MAX_VALUES,
                        merged@.to_set() == a@.take(i as int).to_set().union(
                            b@.take(j as int).to_set(),
                        ),
                        merged.len() > 0 ==> (i < a.len() ==> merged@.last() < a@[i as int]),
                        merged.len() > 0 ==> (j < b.len() ==> merged@.last() < b@[j as int]),
                        i < a.len() ==> j == b.len(),
                    decreases a.len() - i,
                {
                    let ghost before = merged@;
                    let x = a[i];
                    merged.push(x);
                    i += 1;
                    proof {
                        lemma_step_sets(before, merged@, x, a@, b@, i - 1, j as int, i as int, j as int);
                    }
                    if merged.len() > MAX_VALUES {
                        proof {
                            lemma_too_many(merged@, a@, b@, i as int, j as int);
                        }
                        return RegisterValue::Unknown;
                    }
                }
                while j < b.len()
                    invariant
                        i == a.len(),
                        j <= b.len(),
                        self@ == Some(a@),
                        other@ == Some(b@),
                        strictly_sorted(a@),
                        strictly_sorted(b@),
                        strictly_sorted(merged@),
                        merged.len() <= MAX_VALUES,
                        merged@.to_set() == a@.take(i as int).to_set().union(
                            b@.take(j as int).to_set(),
                        ),
                        merged.len() > 0 ==> (j < b.len() ==> merged@.last() < b@[j as int]),
                    decreases b.len() - j,
                {
                    let ghost before = merged@;
                    let x = b[j];
                    merged.push(x);
                    j += 1;
                    proof {
                        lemma_step_sets(before, merged@, x, a@, b@, i as int, j - 1, i as int, j as int);
                    }
                    if merged.len() > MAX_VALUES {
                        proof {
                            lemma_too_many(merged@, a@, b@, i as int, j as int);
                        }
                        return RegisterValue::Unknown;
                    }
                }
                proof {
                    assert(a@.take(i as int) =~= a@);
                    assert(b@.take(j as int) =~= b@);
                    lemma_strictly_sorted_card(merged@);
                    if a@.len() > 0 {
                        assert(a@.to_set().contains(a@[0]));
                        assert(merged@.to_set().contains(a@[0]));
                    }
                }
                RegisterValue::Constant(merged)
            },
            _ => RegisterValue::Unknown,
        }
    }
}

impl PartialEq for RegisterValue {
    fn eq(&self, other: &Self) -> (r: bool) {
        match (self, other) {
            (RegisterValue::Unknown, RegisterValue::Unknown) => true,
            (RegisterValue::Constant(a), RegisterValue::Constant(b)) => {
                if a.len() != b.len() {
                    assert(a@.len() != b@.len());
                    return false;
                }
                let mut k: usize = 0;
                while k < a.len()
                    invariant
                        self@ == Some(a@),
                        other@ == Some(b@),
                        a.len() == b.len(),
                        k <= a.len(),
                        forall|t: int| 0 <= t < k ==> a@[t] == b@[t],
                    decreases a.len() - k,
                {
                    if a[k] != b[k] {
                        assert(a@[k as int] != b@[k as int]);
                        return false;
                    }
                    k += 1;
                }
                assert(a@ =~= b@);
                true
            },
            _ => false,
        }
    }
}

impl vstd::std_specs::cmp::PartialEqSpecImpl for RegisterValue {
    open spec fn obeys_eq_spec() -> bool {
        true
    }

    open spec fn eq_spec(&self, other: &Self) -> bool {
        self@ == other@
    }
}

impl Default for RegisterValue {
    fn default() -> (r: Self)
        ensures
            r@ == None::<Seq<u64>>,
    {
        RegisterValue::Unknown
    }
}

impl Clone for RegisterValue {
    fn clone(&self) -> (r: Self)
        ensures
            r@ == self@,
    {
        match self {
            RegisterValue::Unknown => RegisterValue::Unknown,
            RegisterValue::Constant(v) => {
                let c = v.clone();
                assert(c@ =~= v@);
                RegisterValue::Constant(c)
            },
        }
    }
}

impl Clone for RegisterState {
    fn clone(&self) -> (r: Self)
        ensures
            self.wf() ==> r.wf(),
            self.wf() ==> forall|i: int| #[trigger] r.reg(i) == self.reg(i),
    {
        let mut regs: Vec<RegisterValue> = Vec::new();
        let mut k: usize = 0;
        while k < self.regs.len()
            invariant
                k <= self.regs.len(),
                regs.len() == k,
                forall|t: int| 0 <= t < k ==> #[trigger] regs@[t]@ == self.regs@[t]@,
            decreases self.regs.len() - k,
        {
            regs.push(self.regs[k].clone());
            k += 1;
        }
        let r = RegisterState { regs };
        proof {
            if self.wf() {
                assert forall|i: int| #[trigger] r.reg(i) == self.reg(i) by {
                    if 0 <= i < 32 {
                        assert(r.regs@[i]@ == self.regs@[i]@);
                    }
                }
                assert forall|i: int| 0 <= i < 33 implies #[trigger] r.regs@[i].wf() by {
                    assert(r.regs@[i]@ == self.regs@[i]@);
                    assert(self.regs@[i].wf());
                }
            }
        }
        r
    }
}

/// Abstract state of the 32 integer registers: one tracked value per register.
pub struct RegisterState {
    /// Slots 0..32 hold the registers; slot 32 always holds `Unknown` and
    /// stands for every out-of-range register number.
    regs: Vec<RegisterValue>,
}

impl RegisterState {
    /// Internal invariant: 33 well-formed slots, x0 the constant zero, slot 32 unknown.
    pub closed spec fn wf(&self) -> bool {
        &&& self.regs.len() == 33
        &&& forall|i: int| 0 <= i < 33 ==> #[trigger] self.regs@[i].wf()
        &&& self.regs@[0]@ == Some(seq![0u64])
        &&& self.regs@[32]@ == None::<Seq<u64>>
    }

    /// The tracked value of register `i` (unknown outside 0..32).
    pub closed spec fn reg(&self, i: int) -> Option<Seq<u64>> {
        if 0 <= i < 32 {
            self.regs@[i]@
        } else {
            None
        }
    }

    /// State with x0 = 0 and every other register unknown.
    pub fn new() -> (r: Self)
        ensures
            r.wf(),
            r.reg(0) == Some(seq![0u64]),
            forall|i: int| i != 0 ==> r.reg(i) == None::<Seq<u64>>,
    {
        let mut regs: Vec<RegisterValue> = Vec::new();
        regs.push(RegisterValue::constant(0));
        let mut k: usize = 1;
        while k < 33
            invariant
                1 <= k <= 33,
                regs.len() == k,
                regs@[0]@ == Some(seq![0u64]),
                regs@[0].wf(),
                forall|i: int| 1 <= i < k ==> #[trigger] regs@[i]@ == None::<Seq<u64>>,
            decreases 33 - k,
        {
            regs.push(RegisterValue::Unknown);
            k += 1;
        }
        let r = RegisterState { regs };
        assert forall|i: int| 0 <= i < 33 implies #[trigger] r.regs@[i].wf() by {
            if i > 0 {
                assert(r.regs@[i]@ == None::<Seq<u64>>);
            }
        }
        r
    }

    /// The tracked value of a register (unknown for numbers of 32 and above).
    pub fn get(&self, reg: usize) -> (r: &RegisterValue)
        requires
            self.wf(),
        ensures
            r@ == self.reg(reg as int),
            r.wf(),
    {
        if reg >= 32 {
            return &self.regs[32];
        }
        &self.regs[reg]
    }

    /// Set a register; writes to x0 and to numbers of 32 and above are ignored.
    pub fn set(&mut self, reg: usize, value: RegisterValue)
        requires
            old(self).wf(),
            value.wf(),
        ensures
            final(self).wf(),
            forall|i: int|
                #![trigger final(self).reg(i)]
                final(self).reg(i) == if 0 < reg < 32 && i == reg {
                    value@
                } else {
                    old(self).reg(i)
                },
    {
        if reg > 0 && reg < 32 {
            let ghost before = self.regs@;
            self.regs.set(reg, value);
            assert forall|i: int| 0 <= i < 33 implies #[trigger] self.regs@[i].wf() by {
                if i != reg {
                    assert(self.regs@[i] == before[i]);
                }
            }
        }
    }

    /// Set a register to a single constant.
    pub fn set_constant(&mut self, reg: usize, val: u64)
        requires
            old(self).wf(),
        ensures
            final(self).wf(),
            forall|i: int|
                #![trigger final(self).reg(i)]
                final(self).reg(i) == if 0 < reg < 32 && i == reg {
                    Some(seq![val])
                } else {
                    old(self).reg(i)
                },
    {
        self.set(reg, RegisterValue::constant(val));
    }

    /// Forget what is known of a register.
    pub fn set_unknown(&mut self, reg: usize)
        requires
            old(self).wf(),
        ensures
            final(self).wf(),
            forall|i: int|
                #![trigger final(self).reg(i)]
                final(self).reg(i) == if 0 < reg < 32 && i == reg {
                    None::<Seq<u64>>
                } else {
                    old(self).reg(i)
                },
    {
        self.set(reg, RegisterValue::Unknown);
    }

    /// Merge another state into this one register by register (x0 excepted).
    /// Returns whether any register changed.
    pub fn merge(&mut self, other: &Self) -> (changed: bool)
        requires
            old(self).wf(),
            other.wf(),
        ensures
            final(self).wf(),
            final(self).reg(0) == old(self).reg(0),
            forall|i: int|
                1 <= i < 32 ==> possible(#[trigger] final(self).reg(i)) == join(
                    possible(old(self).reg(i)),
                    possible(other.reg(i)),
                ),
            forall|i: int| (i < 0 || i >= 32) ==> #[trigger] final(self).reg(i) == old(self).reg(i),
            changed == exists|i: int| 0 <= i < 32 && #[trigger] final(self).reg(i) != old(self).reg(i),
    {
        let ghost start = self.regs@;
        let mut changed = false;
        let mut i: usize = 1;
        while i < 32
            invariant
                1 <= i <= 32,
                self.regs.len() == 33,
                forall|k: int| 0 <= k < 33 ==> #[trigger] self.regs@[k].wf(),
                self.regs@[0] == start[0],
                self.regs@[32] == start[32],
                other.regs.len() == 33,
                forall|k: int| 0 <= k < 33 ==> #[trigger] other.regs@[k].wf(),
                forall|k: int|
                    1 <= k < i ==> possible(#[trigger] self.regs@[k]@) == join(
                        possible(start[k]@),
                        possible(other.regs@[k]@),
                    ),
                forall|k: int| i <= k < 33 ==> #[trigger] self.regs@[k] == start[k],
                changed == exists|k: int| 1 <= k < i && #[trigger] self.regs@[k]@ != start[k]@,
            decreases 32 - i,
        {
            proof {
                assert(self.regs@[i as int].wf());
                assert(other.regs@[i as int].wf());
            }
            let merged = self.regs[i].merge(&other.regs[i]);
            if merged != self.regs[i] {
                self.regs.set(i, merged);
                changed = true;
                assert(self.regs@[i as int]@ != start[i as int]@);
            }
            proof {
                if !changed {
                    assert forall|k: int| 1 <= k < i + 1 implies #[trigger] self.regs@[k]@
                        == start[k]@ by {
                        if k < i {
                        }
                    }
                }
            }
            i += 1;
        }
        proof {
            assert(self.regs@[0]@ == Some(seq![0u64]));
            if changed {
                let k = choose|k: int| 1 <= k < 32 && #[trigger] self.regs@[k]@ != start[k]@;
                assert(self.reg(k) != old(self).reg(k));
            } else {
                assert forall|k: int| 0 <= k < 32 implies #[trigger] self.reg(k) == old(self).reg(k) by {
                    if k >= 1 {
                        assert(self.regs@[k]@ == start[k]@);
                    }
                }
            }
        }
        changed
    }
}

/// `a` covers `b`: merging `b` into `a` leaves every register but x0 as it is.
pub open spec fn covers(a: RegisterState, b: RegisterState) -> bool {
    forall|i: int|
        1 <= i < 32 ==> #[trigger] join(possible(a.reg(i)), possible(b.reg(i))) == possible(a.reg(i))
}

/// Every register of a well-formed state holds a well-formed value.
pub proof fn lemma_reg_wf(s: RegisterState)
    requires
        s.wf(),
    ensures
        forall|i: int| #[trigger] value_wf(s.reg(i)),
{
    assert forall|i: int| #[trigger] value_wf(s.reg(i)) by {
        if 0 <= i < 32 {
            assert(s.regs@[i].wf());
        }
    }
}

/// A value set that absorbs a second one absorbs whatever the second absorbs.
pub proof fn lemma_join_absorbs_trans(a: Option<Set<u64>>, b: Option<Set<u64>>, c: Option<Set<u64>>)
    requires
        join(b, a) == b,
        join(c, b) == c,
    ensures
        join(c, a) == c,
{
    if let (Some(x), Some(y), Some(z)) = (a, b, c) {
        assert(z.union(y) =~= z);
        assert(y.union(x) =~= y);
        assert(z.union(x) =~= z);
    }
}

/// The join of two value sets absorbs both of them.
pub proof fn lemma_join_absorbs_inputs(a: Option<Set<u64>>, b: Option<Set<u64>>)
    ensures
        join(join(a, b), a) == join(a, b),
        join(join(a, b), b) == join(a, b),
{
    if let (Some(x), Some(y)) = (a, b) {
        if x.union(y).len() <= MAX_VALUES {
            assert(x.union(y).union(x) =~= x.union(y));
            assert(x.union(y).union(y) =~= x.union(y));
        }
    }
}

/// A well-formed state covers itself.
pub proof fn lemma_covers_refl(a: RegisterState)
    requires
        a.wf(),
    ensures
        covers(a, a),
{
    lemma_reg_wf(a);
    assert forall|i: int| 1 <= i < 32 implies #[trigger] join(possible(a.reg(i)), possible(a.reg(i)))
        == possible(a.reg(i)) by {
        law_merge_idempotent(a.reg(i));
    }
}

/// Covering is transitive.
pub proof fn lemma_covers_trans(a: RegisterState, b: RegisterState, c: RegisterState)
    requires
        covers(b, a),
        covers(c, b),
    ensures
        covers(c, a),
{
    assert forall|i: int| 1 <= i < 32 implies #[trigger] join(possible(c.reg(i)), possible(a.reg(i)))
        == possible(c.reg(i)) by {
        assert(join(possible(b.reg(i)), possible(a.reg(i))) == possible(b.reg(i)));
        assert(join(possible(c.reg(i)), possible(b.reg(i))) == possible(c.reg(i)));
        lemma_join_absorbs_trans(possible(a.reg(i)), possible(b.reg(i)), possible(c.reg(i)));
    }
}

/// A merge result covers both states merged.
pub proof fn lemma_merge_covers(a: RegisterState, b: RegisterState, m: RegisterState)
    requires
        forall|i: int|
            1 <= i < 32 ==> possible(#[trigger] m.reg(i)) == join(possible(a.reg(i)), possible(b.reg(i))),
    ensures
        covers(m, a),
        covers(m, b),
{
    assert forall|i: int| 1 <= i < 32 implies #[trigger] join(possible(m.reg(i)), possible(a.reg(i)))
        == possible(m.reg(i)) by {
        lemma_join_absorbs_inputs(possible(a.reg(i)), possible(b.reg(i)));
    }
    assert forall|i: int| 1 <= i < 32 implies #[trigger] join(possible(m.reg(i)), possible(b.reg(i)))
        == possible(m.reg(i)) by {
        lemma_join_absorbs_inputs(possible(a.reg(i)), possible(b.reg(i)));
    }
}

// ---------------------------------------------------------------------------
// Laws of value tracking
// ---------------------------------------------------------------------------

/// Two well-formed tracked values that stand for the same possibilities are identical.
pub proof fn lemma_value_determined(a: Option<Seq<u64>>, b: Option<Seq<u64>>)
    requires
        value_wf(a),
        value_wf(b),
        possible(a) == possible(b),
    ensures
        a == b,
{
    match (a, b) {
        (Some(x), Some(y)) => {
            lemma_strictly_sorted_unique(x, y);
        },
        _ => {},
    }
}

/// Merging two tracked values does not depend on their order.
pub proof fn law_merge_commutative(a: Option<Seq<u64>>, b: Option<Seq<u64>>)
    requires
        value_wf(a),
        value_wf(b),
    ensures
        join(possible(a), possible(b)) == join(possible(b), possible(a)),
{
    match (a, b) {
        (Some(x), Some(y)) => {
            assert(x.to_set().union(y.to_set()) =~= y.to_set().union(x.to_set()));
        },
        _ => {},
    }
}

/// Merging a tracked value with itself leaves it unchanged.
pub proof fn law_merge_idempotent(a: Option<Seq<u64>>)
    requires
        value_wf(a),
    ensures
        join(possible(a), possible(a)) == possible(a),
{
    if let Some(x) = a {
        lemma_wf_possible(a);
        assert(x.to_set().union(x.to_set()) =~= x.to_set());
    }
}

/// An unknown value absorbs every other value in a merge.
pub proof fn law_merge_unknown_absorbs(a: Option<Seq<u64>>)
    ensures
        join(possible(a), None) == None::<Set<u64>>,
        join(None, possible(a)) == None::<Set<u64>>,
{
}

/// A known merge result covers every possibility of both inputs.
pub proof fn law_merge_covers_inputs(a: Option<Seq<u64>>, b: Option<Seq<u64>>)
    requires
        value_wf(a),
        value_wf(b),
    ensures
        join(possible(a), possible(b)) matches Some(u) ==> (possible(a) matches Some(x)
            && x.subset_of(u)),
        join(possible(a), possible(b)) matches Some(u) ==> (possible(b) matches Some(y)
            && y.subset_of(u)),
{
}

/// Merging is associative: the grouping of three merges does not matter.
pub proof fn law_merge_associative(a: Option<Seq<u64>>, b: Option<Seq<u64>>, c: Option<Seq<u64>>)
    requires
        value_wf(a),
        value_wf(b),
        value_wf(c),
    ensures
        join(join(possible(a), possible(b)), possible(c)) == join(
            possible(a),
            join(possible(b), possible(c)),
        ),
{
    match (a, b, c) {
        (Some(x), Some(y), Some(z)) => {
            lemma_wf_possible(a);
            lemma_wf_possible(b);
            lemma_wf_possible(c);
            let (sx, sy, sz) = (x.to_set(), y.to_set(), z.to_set());
            let all = sx.union(sy).union(sz);
            assert(sx.union(sy.union(sz)) =~= all);
            lemma_len_subset(sx.union(sy), all);
            lemma_len_subset(sy.union(sz), all);
        },
        _ => {},
    }
}

/// Merging the same value in twice changes nothing the second time.
pub proof fn law_merge_settles(a: Option<Seq<u64>>, b: Option<Seq<u64>>)
    requires
        value_wf(a),
        value_wf(b),
    ensures
        join(join(possible(a), possible(b)), possible(b)) == join(possible(a), possible(b)),
{
    match (a, b) {
        (Some(x), Some(y)) => {
            assert(x.to_set().union(y.to_set()).union(y.to_set()) =~= x.to_set().union(
                y.to_set(),
            ));
        },
        _ => {},
    }
}

/// One merge step: pushing the next element keeps the merged set equal to the
/// union of the consumed prefixes.
proof fn lemma_step_sets(
    before: Seq<u64>,
    after: Seq<u64>,
    x: u64,
    a: Seq<u64>,
    b: Seq<u64>,
    i0: int,
    j0: int,
    i: int,
    j: int,
)
    requires
        after == before.push(x),
        0 <= i0 <= i <= a.len(),
        0 <= j0 <= j <= b.len(),
        i == i0 || i == i0 + 1,
        j == j0 || j == j0 + 1,
        i == i0 + 1 ==> a[i0] == x,
        j == j0 + 1 ==> b[j0] == x,
        i == i0 ==> j == j0 + 1,
        before.to_set() == a.take(i0).to_set().union(b.take(j0).to_set()),
    ensures
        after.to_set() == a.take(i).to_set().union(b.take(j).to_set()),
{
    if i == i0 + 1 {
        assert(a.take(i) =~= a.take(i0).push(x));
    } else {
        assert(a.take(i) =~= a.take(i0));
    }
    if j == j0 + 1 {
        assert(b.take(j) =~= b.take(j0).push(x));
    } else {
        assert(b.take(j) =~= b.take(j0));
    }
    assert(after.to_set() =~= before.to_set().insert(x));
    assert(after.to_set() =~= a.take(i).to_set().union(b.take(j).to_set()));
}

/// Once the merged prefix has more than `MAX_VALUES` distinct elements, so has the union.
proof fn lemma_too_many(m: Seq<u64>, a: Seq<u64>, b: Seq<u64>, i: int, j: int)
    requires
        strictly_sorted(m),
        m.len() > MAX_VALUES,
        0 <= i <= a.len(),
        0 <= j <= b.len(),
        m.to_set() == a.take(i).to_set().union(b.take(j).to_set()),
    ensures
        a.to_set().union(b.to_set()).len() > MAX_VALUES,
{
    lemma_strictly_sorted_card(m);
    vstd::seq_lib::seq_to_set_is_finite(a);
    vstd::seq_lib::seq_to_set_is_finite(b);
    assert(m.to_set().subset_of(a.to_set().union(b.to_set()))) by {
        assert forall|x: u64| m.to_set().contains(x) implies a.to_set().union(b.to_set()).contains(
            x,
        ) by {
            if a.take(i).to_set().contains(x) {
                let k = choose|k: int| 0 <= k < a.take(i).len() && a.take(i)[k] == x;
                assert(a[k] == x);
            } else {
                let k = choose|k: int| 0 <= k < b.take(j).len() && b.take(j)[k] == x;
                assert(b[k] == x);
            }
        }
    }
    lemma_len_subset(m.to_set(), a.to_set().union(b.to_set()));
}

/// Well-formed values stand for finite sets of the matching size.
proof fn lemma_wf_possible(v: Option<Seq<u64>>)
    requires
        value_sorted(v),
    ensures
        match v {
            Some(s) => s.to_set().finite() && s.to_set().len() == s.len(),
            None => true,
        },
{
    if let Some(s) = v {
        lemma_strictly_sorted_card(s);
    }
}

} // verus!
