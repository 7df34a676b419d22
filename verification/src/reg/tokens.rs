//! Capability tokens for registers and the registry that issues them.
//!
//! A register may be written only through a token, and a write-capable token
//! is move-only: it cannot be cloned or copied. The registry enforces the
//! single-writer rule at construction time: for any address it hands out at
//! most one [`RwRegToken`] over its whole lifetime, so no two code paths can
//! ever race destructively on the same register. Read access needs no token
//! bookkeeping, because reads never lose updates.

use vstd::prelude::*;

use crate::reg::atomic::{
    exclusive_modify, exclusive_modify_with, RegMemory, RwRegAtomic, WRwRegFieldAtomic,
    WRwRegFieldBitAtomic, WRwRegFieldBitsAtomic,
};
use crate::reg::field::{bit_clear, bit_set, bit_toggle, low_mask_value, Field};

verus! {

/// Compile-time description of one register, as the device's register map
/// supplies it: its address, its value width in bits (8, 16 or 32), its
/// documented reset value, and whether it is documented safe for atomic
/// read-modify-write (no read side effects, no write-1-to-clear semantics
/// mixed with other live fields).
#[derive(Clone, Copy, PartialEq, Eq, Structural, Debug)]
pub struct RegDescr {
    /// The register's memory-mapped address.
    pub addr: u32,
    /// The register's value width in bits.
    pub width: u32,
    /// The register's documented reset value.
    pub reset: u32,
    /// Whether the register is documented eligible for atomic
    /// read-modify-write.
    pub atomic: bool,
}

impl RegDescr {
    /// A register is 8, 16 or 32 bits wide.
    pub open spec fn wf(self) -> bool {
        self.width == 8 || self.width == 16 || self.width == 32
    }
}

/// A capability to read, write and atomically modify one register.
///
/// The type is deliberately neither `Clone` nor `Copy`: once issued it can
/// only be moved or lent by reference, which keeps "at most one writer per
/// address" a construction-time property.
pub struct RwRegToken {
    descr: RegDescr,
}

/// A read-only capability for one register.
///
/// Unlike write-capable tokens, read tokens are freely copyable: reads
/// never race destructively, so duplication cannot violate the
/// single-writer rule.
#[derive(Clone, Copy)]
pub struct RoRegToken {
    addr: u32,
}

impl RoRegToken {
    /// The register address this token grants read access to.
    pub closed spec fn addr(&self) -> u32 {
        self.addr
    }

    /// Read capability: a single hardware read of the register's current
    /// contents.
    pub fn load(&self, mem: &RegMemory) -> (r: u32)
        requires
            mem.addr == self.addr(),
        ensures
            r == mem.value,
    {
        mem.value
    }
}

/// A write capability narrowed to one bit field of one register.
///
/// Field tokens are derived from a register's [`RwRegToken`] by reference;
/// all their updates still round-trip the whole register value through the
/// atomic engine, so holders of different fields of one register cannot
/// corrupt each other's bits.
pub struct RwRegFieldToken {
    addr: u32,
    field: Field,
}

impl RwRegToken {
    /// The descriptor of the register this token grants access to.
    pub closed spec fn descr(&self) -> RegDescr {
        self.descr
    }

    /// The register's documented reset value.
    pub fn reset_value(&self) -> (r: u32)
        ensures
            r == self.descr().reset,
    {
        self.descr.reset
    }

    /// Duplicates this token's read right as a freely copyable read-only
    /// token.
    pub fn reader(&self) -> (t: RoRegToken)
        ensures
            t.addr() == self.addr(),
    {
        RoRegToken { addr: self.descr.addr }
    }

    /// Narrows this token to a write capability over one field, which
    /// must lie inside the register's value width.
    pub fn field_token(&self, field: Field) -> (t: RwRegFieldToken)
        requires
            field.wf(),
            field.offset + field.width <= self.descr().width,
        ensures
            t.addr() == self.addr(),
            t.field() == field,
    {
        RwRegFieldToken { addr: self.descr.addr, field }
    }

    /// Read capability: a single hardware read of the register's current
    /// contents. Duplicating reads is always safe; they never lose updates.
    pub fn load(&self, mem: &RegMemory) -> (r: u32)
        requires
            mem.addr == self.addr(),
        ensures
            r == mem.value,
    {
        mem.value
    }

    /// Write capability: a single plain hardware write replacing the
    /// register's contents, outside the exclusive protocol.
    pub fn store(&self, mem: &mut RegMemory, value: u32)
        requires
            old(mem).addr == self.addr(),
        ensures
            final(mem).addr == old(mem).addr,
            final(mem).value == value,
            final(mem).intruders@ == old(mem).intruders@,
            final(mem).loads == old(mem).loads,
            final(mem).stores == old(mem).stores,
    {
        mem.value = value;
    }

    /// The non-retrying read-modify-write: one plain read, the transform,
    /// one plain write, with no exclusive monitor. This is only sound when
    /// the calling context has itself excluded preemption, which the
    /// contract states by demanding a memory with no contention scheduled;
    /// it is offered as a distinct operation and never substituted for
    /// [`RwRegAtomic::modify`].
    pub fn modify_unsync<F: Fn(u32) -> u32>(&self, mem: &mut RegMemory, f: F)
        requires
            old(mem).addr == self.addr(),
            old(mem).intruders@.len() == 0,
            call_requires(f, (old(mem).value,)),
        ensures
            final(mem).addr == old(mem).addr,
            final(mem).intruders@ == old(mem).intruders@,
            final(mem).loads == old(mem).loads,
            final(mem).stores == old(mem).stores,
            call_ensures(f, (old(mem).value,), final(mem).value),
    {
        let loaded = mem.value;
        let updated = f(loaded);
        mem.value = updated;
    }
}

impl RwRegAtomic for RwRegToken {
    closed spec fn addr(&self) -> u32 {
        self.descr.addr
    }

    fn modify<F: Fn(u32) -> u32>(&self, mem: &mut RegMemory, f: F) {
        exclusive_modify(mem, f);
    }

    fn modify_reg<F: Fn(&Self, u32) -> u32>(&self, mem: &mut RegMemory, f: F) {
        exclusive_modify_with(self, mem, f);
    }
}

impl WRwRegFieldAtomic for RwRegFieldToken {
    closed spec fn addr(&self) -> u32 {
        self.addr
    }

    closed spec fn field(&self) -> Field {
        self.field
    }

    fn modify<F: Fn(u32) -> u32>(&self, mem: &mut RegMemory, f: F) {
        exclusive_modify(mem, f);
    }
}

impl WRwRegFieldBitAtomic for RwRegFieldToken {
    fn set_bit(&self, mem: &mut RegMemory) {
        let off = self.field.offset;
        let clo = |v: u32| -> (r: u32)
            ensures
                r == bit_set(v, off),
            { v | (1u32 << off) };
        exclusive_modify(mem, clo);
    }

    fn clear_bit(&self, mem: &mut RegMemory) {
        let off = self.field.offset;
        let clo = |v: u32| -> (r: u32)
            ensures
                r == bit_clear(v, off),
            { v & !(1u32 << off) };
        exclusive_modify(mem, clo);
    }

    fn toggle_bit(&self, mem: &mut RegMemory) {
        let off = self.field.offset;
        let clo = |v: u32| -> (r: u32)
            ensures
                r == bit_toggle(v, off),
            { v ^ (1u32 << off) };
        exclusive_modify(mem, clo);
    }
}

impl WRwRegFieldBitsAtomic for RwRegFieldToken {
    fn write_bits(&self, mem: &mut RegMemory, bits: u32) {
        let off = self.field.offset;
        let low = low_mask_value(self.field.width);
        let clo = |v: u32| -> (r: u32)
            ensures
                r == (v & !(low << off)) | ((bits & low) << off),
            { (v & !(low << off)) | ((bits & low) << off) };
        exclusive_modify(mem, clo);
    }
}

/// Whether the registry may still issue a write-capable token for `addr`.
pub open spec fn grant_allowed(issued: Set<u32>, addr: u32) -> bool {
    !issued.contains(addr)
}

/// The registry's bookkeeping after granting a token for `addr`.
pub open spec fn grant(issued: Set<u32>, addr: u32) -> Set<u32> {
    issued.insert(addr)
}

/// Once a write-capable token for an address has been granted, a second
/// independent grant for the same address is refused: construction, not a
/// runtime flag, rules out two writers on one register.
pub proof fn lemma_single_writer(issued: Set<u32>, addr: u32)
    requires
        grant_allowed(issued, addr),
    ensures
        !grant_allowed(grant(issued, addr), addr),
{
}

/// The token registry: the one place write capabilities come from.
///
/// Firmware builds one registry at initialization and partitions the register
/// map into tokens; the registry remembers every address it has granted and
/// never grants it again.
pub struct RegTokens {
    taken: Vec<u32>,
}

impl RegTokens {
    /// The set of addresses whose write token has been issued.
    pub closed spec fn issued(&self) -> Set<u32> {
        self.taken@.to_set()
    }

    /// A fresh registry with no token issued yet.
    pub fn new() -> (r: RegTokens)
        ensures
            r.issued() == Set::<u32>::empty(),
    {
        let taken: Vec<u32> = Vec::new();
        proof {
            assert(taken@.to_set() =~= Set::<u32>::empty());
        }
        RegTokens { taken }
    }

    /// Issues the unique read-write-atomic token for the register that
    /// `descr` describes, or refuses if one was already issued for that
    /// address. Only a register documented eligible for atomic
    /// read-modify-write may carry this capability; handing the registry
    /// an ineligible descriptor is a construction-time programming error,
    /// ruled out by the contract.
    ///
    /// Returns `Some` if and only if no token for the address was granted
    /// before.
    pub fn take_rw(&mut self, descr: RegDescr) -> (r: Option<RwRegToken>)
        requires
            descr.wf(),
            descr.atomic,
        ensures
            grant_allowed(old(self).issued(), descr.addr) ==> {
                &&& r matches Some(t) && t.addr() == descr.addr && t.descr() == descr
                &&& final(self).issued() == grant(old(self).issued(), descr.addr)
            },
            !grant_allowed(old(self).issued(), descr.addr) ==> {
                &&& r is None
                &&& final(self).issued() == old(self).issued()
            },
    {
        let addr = descr.addr;
        let mut i: usize = 0;
        while i < self.taken.len()
            invariant
                i <= self.taken@.len(),
                self == old(self),
                addr == descr.addr,
                forall|j: int| 0 <= j < i ==> self.taken@[j] != addr,
            decreases self.taken@.len() - i,
        {
            if self.taken[i] == addr {
                proof {
                    assert(self.taken@.contains(addr));
                }
                return None;
            }
            i += 1;
        }
        proof {
            assert(!self.taken@.contains(addr));
        }
        self.taken.push(addr);
        proof {
            assert(self.taken@.to_set() =~= old(self).taken@.to_set().insert(addr)) by {
                assert(self.taken@ == old(self).taken@.push(addr));
                assert forall|x: u32| self.taken@.contains(x) implies old(
                    self,
                ).taken@.to_set().insert(addr).contains(x) by {
                    let j = choose|j: int| 0 <= j < self.taken@.len() && self.taken@[j] == x;
                    if j < old(self).taken@.len() {
                        assert(old(self).taken@.contains(x));
                    }
                }
                assert forall|x: u32|
                    old(self).taken@.to_set().insert(addr).contains(x) implies self.taken@.contains(
                    x,
                ) by {
                    if x == addr {
                        assert(self.taken@[self.taken@.len() - 1] == addr);
                    } else {
                        let j = choose|j: int|
                            0 <= j < old(self).taken@.len() && old(self).taken@[j] == x;
                        assert(self.taken@[j] == x);
                    }
                }
            }
        }
        Some(RwRegToken { descr })
    }
}

} // verus!
