use vstd::prelude::*;

verus! {

use vstd::arithmetic::div_mod::lemma_fundamental_div_mod;

/// A window of memory-mapped 32-bit registers, held as plain data.
///
/// The window covers `words.len()` registers starting at byte address `lo`.
/// Reads return the stored value of a register and writes replace it, with
/// two pieces of device behaviour layered on top:
///
/// * registers listed in `ro` ignore writes entirely (capability registers
///   that firmware has already programmed and that have become read-only);
/// * a register with an entry `(addr, mask)` in `sc` has the bits of `mask`
///   cleared by the device itself once it has acted on a write that set any
///   of them (global reset requests, command-issue bits, the MDIO busy bit);
/// * a register with an entry `(addr, mask)` in `stuck` never takes the bits
///   of `mask`: they read back as zero whatever is written, which models a
///   device that ignores a request — a spin-up that never asserts, for one.
///
/// The device acknowledges at most `sc_fuel` self-clearing writes; once the
/// budget is exhausted such bits stay set, which models a device that has
/// stopped responding and lets the bounded polls of the drivers time out.
pub struct MmioBus {
    pub lo: u64,
    pub words: Vec<u32>,
    pub ro: Vec<u64>,
    pub sc: Vec<(u64, u32)>,
    pub stuck: Vec<(u64, u32)>,
    pub sc_fuel: u32,
}

/// Whether `addr` occurs in `list`.
pub open spec fn addr_listed(list: Seq<u64>, addr: u64) -> bool
    decreases list.len(),
{
    if list.len() == 0 {
        false
    } else if list[0] == addr {
        true
    } else {
        addr_listed(list.drop_first(), addr)
    }
}

/// The mask of the first rule for `addr`, or 0 if there is none.
pub open spec fn sc_lookup(rules: Seq<(u64, u32)>, addr: u64) -> u32
    decreases rules.len(),
{
    if rules.len() == 0 {
        0u32
    } else if rules[0].0 == addr {
        rules[0].1
    } else {
        sc_lookup(rules.drop_first(), addr)
    }
}

fn addr_find(list: &Vec<u64>, i: usize, addr: u64) -> (r: bool)
    requires
        i <= list@.len(),
    ensures
        r == addr_listed(list@.skip(i as int), addr),
    decreases list@.len() - i,
{
    if i == list.len() {
        false
    } else if list[i] == addr {
        proof {
            assert(list@.skip(i as int)[0] == list@[i as int]);
        }
        true
    } else {
        let r = addr_find(list, i + 1, addr);
        proof {
            assert(list@.skip(i as int)[0] == list@[i as int]);
            assert(list@.skip(i as int).drop_first() =~= list@.skip(i + 1));
        }
        r
    }
}

fn sc_find(rules: &Vec<(u64, u32)>, i: usize, addr: u64) -> (r: u32)
    requires
        i <= rules@.len(),
    ensures
        r == sc_lookup(rules@.skip(i as int), addr),
    decreases rules@.len() - i,
{
    if i == rules.len() {
        0
    } else {
        let (a, m) = rules[i];
        proof {
            assert(rules@.skip(i as int)[0] == rules@[i as int]);
        }
        if a == addr {
            m
        } else {
            let r = sc_find(rules, i + 1, addr);
            proof {
                assert(rules@.skip(i as int).drop_first() =~= rules@.skip(i + 1));
            }
            r
        }
    }
}

impl MmioBus {
    /// `addr` names a register of the window: in range and word-aligned.
    pub open spec fn in_window(self, addr: u64) -> bool {
        &&& self.lo <= addr
        &&& addr + 4 <= self.lo + 4 * self.words@.len()
        &&& (addr - self.lo) % 4 == 0
    }

    pub open spec fn word_idx(self, addr: u64) -> int {
        (addr - self.lo) / 4
    }

    /// The current value of the register at byte address `addr`.
    pub open spec fn reg(self, addr: u64) -> u32 {
        self.words@[self.word_idx(addr)]
    }

    pub open spec fn is_ro(self, addr: u64) -> bool {
        addr_listed(self.ro@, addr)
    }

    pub open spec fn sc_mask_of(self, addr: u64) -> u32 {
        sc_lookup(self.sc@, addr)
    }

    pub open spec fn stuck_mask_of(self, addr: u64) -> u32 {
        sc_lookup(self.stuck@, addr)
    }

    /// What writing `data` to `addr` leaves in the register.
    pub open spec fn stored_of(self, data: u32, addr: u64) -> u32 {
        if self.is_ro(addr) {
            self.reg(addr)
        } else {
            let d = if self.sc_mask_of(addr) & data != 0 && self.sc_fuel > 0 {
                data & !self.sc_mask_of(addr)
            } else {
                data
            };
            if self.stuck_mask_of(addr) != 0 {
                d & !self.stuck_mask_of(addr)
            } else {
                d
            }
        }
    }

    /// The acknowledgment budget left after writing `data` to `addr`.
    pub open spec fn fuel_of(self, data: u32, addr: u64) -> u32 {
        if !self.is_ro(addr) && self.sc_mask_of(addr) & data != 0 && self.sc_fuel > 0 {
            (self.sc_fuel - 1) as u32
        } else {
            self.sc_fuel
        }
    }

    /// Window bounds and behaviour rules agree (only register contents and
    /// the acknowledgment budget may differ).
    pub open spec fn same_rules(self, other: MmioBus) -> bool {
        &&& self.lo == other.lo
        &&& self.words@.len() == other.words@.len()
        &&& self.ro@ == other.ro@
        &&& self.sc@ == other.sc@
        &&& self.stuck@ == other.stuck@
    }

    /// A fresh window of `n_words` zeroed registers with no behaviour rules.
    pub fn new(lo: u64, n_words: usize) -> (r: MmioBus)
        requires
            lo % 4 == 0,
            lo + 4 * n_words <= u64::MAX,
        ensures
            r.lo == lo,
            r.words@.len() == n_words,
            forall|i: int| 0 <= i < n_words ==> r.words@[i] == 0,
            r.ro@ =~= Seq::<u64>::empty(),
            r.sc@ =~= Seq::<(u64, u32)>::empty(),
            r.stuck@ =~= Seq::<(u64, u32)>::empty(),
            r.sc_fuel == 0,
    {
        let mut words: Vec<u32> = Vec::new();
        while words.len() < n_words
            invariant
                words@.len() <= n_words,
                forall|i: int| 0 <= i < words@.len() ==> words@[i] == 0,
            decreases n_words - words@.len(),
        {
            words.push(0);
        }
        MmioBus { lo, words, ro: Vec::new(), sc: Vec::new(), stuck: Vec::new(), sc_fuel: 0 }
    }

    /// Mark the register at `addr` as ignoring writes.
    pub fn set_read_only(&mut self, addr: u64)
        ensures
            final(self).lo == old(self).lo,
            final(self).words@ == old(self).words@,
            final(self).ro@ == old(self).ro@.push(addr),
            final(self).sc@ == old(self).sc@,
            final(self).stuck@ == old(self).stuck@,
            final(self).sc_fuel == old(self).sc_fuel,
    {
        self.ro.push(addr);
    }

    /// Let the device clear the bits of `mask` in the register at `addr`
    /// whenever it acknowledges a write that set any of them.
    pub fn set_self_clearing(&mut self, addr: u64, mask: u32)
        ensures
            final(self).lo == old(self).lo,
            final(self).words@ == old(self).words@,
            final(self).ro@ == old(self).ro@,
            final(self).sc@ == old(self).sc@.push((addr, mask)),
            final(self).stuck@ == old(self).stuck@,
            final(self).sc_fuel == old(self).sc_fuel,
    {
        self.sc.push((addr, mask));
    }

    /// Let the bits of `mask` in the register at `addr` stick at zero: the
    /// device never honours a request written there.
    pub fn set_stuck_at_zero(&mut self, addr: u64, mask: u32)
        ensures
            final(self).lo == old(self).lo,
            final(self).words@ == old(self).words@,
            final(self).ro@ == old(self).ro@,
            final(self).sc@ == old(self).sc@,
            final(self).stuck@ == old(self).stuck@.push((addr, mask)),
            final(self).sc_fuel == old(self).sc_fuel,
    {
        self.stuck.push((addr, mask));
    }

    /// Set how many self-clearing writes the device still acknowledges.
    pub fn set_fuel(&mut self, fuel: u32)
        ensures
            final(self).lo == old(self).lo,
            final(self).words@ == old(self).words@,
            final(self).ro@ == old(self).ro@,
            final(self).sc@ == old(self).sc@,
            final(self).stuck@ == old(self).stuck@,
            final(self).sc_fuel == fuel,
    {
        self.sc_fuel = fuel;
    }

    /// Store a register value directly, bypassing the behaviour rules.
    /// This plays the role of firmware or of the device itself putting the
    /// hardware into a given state before the driver runs.
    pub fn preset(&mut self, addr: u64, data: u32)
        requires
            old(self).in_window(addr),
        ensures
            final(self).same_rules(*old(self)),
            final(self).words@ == old(self).words@.update(old(self).word_idx(addr), data),
            final(self).reg(addr) == data,
            forall|a: u64|
                old(self).in_window(a) && a != addr ==> final(self).reg(a) == old(self).reg(a),
            final(self).sc_fuel == old(self).sc_fuel,
    {
        let n: usize = self.words.len();
        proof {
            assert((addr - self.lo) / 4 < n);
        }
        let idx: usize = ((addr - self.lo) / 4) as usize;
        self.words.set(idx, data);
        proof {
            assert forall|a: u64|
                old(self).in_window(a) && a != addr implies self.reg(a) == old(self).reg(a) by {
                lemma_fundamental_div_mod((a - old(self).lo) as int, 4);
                lemma_fundamental_div_mod((addr - old(self).lo) as int, 4);
            }
        }
    }

    /// Volatile 32-bit register read.
    pub fn read32(&self, addr: u64) -> (r: u32)
        requires
            self.in_window(addr),
        ensures
            r == self.reg(addr),
    {
        let n: usize = self.words.len();
        proof {
            assert((addr - self.lo) / 4 < n);
        }
        let idx: usize = ((addr - self.lo) / 4) as usize;
        self.words[idx]
    }

    /// Volatile 32-bit register write, subject to the behaviour rules.
    pub fn write32(&mut self, data: u32, addr: u64)
        requires
            old(self).in_window(addr),
        ensures
            final(self).same_rules(*old(self)),
            final(self).words@ == old(self).words@.update(
                old(self).word_idx(addr),
                old(self).stored_of(data, addr),
            ),
            final(self).reg(addr) == old(self).stored_of(data, addr),
            forall|a: u64|
                old(self).in_window(a) && a != addr ==> final(self).reg(a) == old(self).reg(a),
            final(self).sc_fuel == old(self).fuel_of(data, addr),
    {
        let n: usize = self.words.len();
        proof {
            assert((addr - self.lo) / 4 < n);
        }
        let idx: usize = ((addr - self.lo) / 4) as usize;
        proof {
            assert(self.ro@.skip(0) =~= self.ro@);
            assert(self.sc@.skip(0) =~= self.sc@);
            assert(self.stuck@.skip(0) =~= self.stuck@);
        }
        if addr_find(&self.ro, 0, addr) {
            // the write is dropped; re-store the old value so the register
            // file is unchanged
            let v = self.words[idx];
            self.words.set(idx, v);
        } else {
            let m = sc_find(&self.sc, 0, addr);
            let mut stored: u32;
            if m & data != 0 && self.sc_fuel > 0 {
                self.sc_fuel = self.sc_fuel - 1;
                stored = data & !m;
            } else {
                stored = data;
            }
            let z = sc_find(&self.stuck, 0, addr);
            if z != 0 {
                stored = stored & !z;
            }
            self.words.set(idx, stored);
        }
        proof {
            assert forall|a: u64|
                old(self).in_window(a) && a != addr implies self.reg(a) == old(self).reg(a) by {
                lemma_fundamental_div_mod((a - old(self).lo) as int, 4);
                lemma_fundamental_div_mod((addr - old(self).lo) as int, 4);
            }
        }
    }
}

} // verus!
