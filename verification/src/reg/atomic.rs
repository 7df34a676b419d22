//! The atomic read-modify-write engine and the capability traits over it.
//!
//! On the target hardware an atomic update is an exclusive-load /
//! store-conditional retry loop: load the register, apply a pure transform,
//! attempt the conditional store, and restart the whole round if a preempting
//! writer touched the address in between. [`RegMemory`] models exactly that
//! protocol for one register: the stores a preempting writer will slip in
//! between a load and the matching conditional store are laid out in advance,
//! and every contract states what the loop does under any such schedule. The
//! raw machine instructions live with the hardware glue outside this crate;
//! everything decided here — which value wins, how many rounds run, what the
//! register holds afterwards — is verified.

use vstd::prelude::*;

use crate::reg::field::{bit_clear, bit_set, bit_toggle, Field};

verus! {

/// One register's storage together with the interference the exclusive
/// monitor will observe.
///
/// `intruders` holds, front first, the values a preempting writer stores
/// into the register between an exclusive load and the matching conditional
/// store; each one makes exactly one store-conditional fail. `loads` and
/// `stores` count exclusive loads and successful stores, so contracts can
/// pin down how many rounds an update took.
pub struct RegMemory {
    /// The register's address.
    pub addr: u32,
    /// The register's current contents.
    pub value: u32,
    /// Values a preempting writer will store, one per failed round.
    pub intruders: Vec<u32>,
    /// How many exclusive loads have run.
    pub loads: u64,
    /// How many stores have succeeded.
    pub stores: u64,
}

impl RegMemory {
    /// A register at `addr` holding `value`, with no contention scheduled.
    pub fn new(addr: u32, value: u32) -> (r: RegMemory)
        ensures
            r.addr == addr,
            r.value == value,
            r.intruders@ == Seq::<u32>::empty(),
            r.loads == 0,
            r.stores == 0,
    {
        RegMemory { addr, value, intruders: Vec::new(), loads: 0, stores: 0 }
    }

    /// Schedules one more preempting store: the next retry loop will lose
    /// one more round, and the register will hold `value` when that round's
    /// conditional store fails.
    pub fn push_intruder(&mut self, value: u32)
        ensures
            final(self).intruders@ == old(self).intruders@.push(value),
            final(self).addr == old(self).addr,
            final(self).value == old(self).value,
            final(self).loads == old(self).loads,
            final(self).stores == old(self).stores,
    {
        self.intruders.push(value);
    }

    /// The register value the winning round of a retry loop starts from:
    /// the current contents if no contention is scheduled, otherwise the
    /// last preempting store.
    pub open spec fn contended_base(self) -> u32 {
        if self.intruders@.len() == 0 {
            self.value
        } else {
            self.intruders@.last()
        }
    }

    /// The operation counters have room for one full retry loop.
    pub open spec fn counters_fit(self) -> bool {
        &&& self.loads + self.intruders@.len() < u64::MAX
        &&& self.stores < u64::MAX
    }
}

/// What one run of the retry loop does to the register, whatever transform
/// it applies: with `k` preempting stores scheduled, the loop performs
/// exactly `k + 1` exclusive loads and exactly one successful store, and
/// consumes the whole contention schedule.
pub open spec fn retry_outcome(pre: RegMemory, post: RegMemory) -> bool {
    &&& post.addr == pre.addr
    &&& post.intruders@.len() == 0
    &&& post.loads == pre.loads + pre.intruders@.len() + 1
    &&& post.stores == pre.stores + 1
}

/// The engine of every atomic update: exclusive-load `mem`, apply `f`,
/// attempt the conditional store, retry from the load if a scheduled
/// preempting store invalidated the round. `f` runs once per round, so it
/// must be pure; the final contents are `f` of the value present
/// immediately before the one successful store.
pub(crate) fn exclusive_modify<F: Fn(u32) -> u32>(mem: &mut RegMemory, f: F)
    requires
        old(mem).counters_fit(),
        forall|v: u32| #[trigger] call_requires(f, (v,)),
    ensures
        retry_outcome(*old(mem), *final(mem)),
        call_ensures(f, (old(mem).contended_base(),), final(mem).value),
{
    let ghost m0 = *mem;
    let mut i: usize = 0;
    loop
        invariant
            m0 == *old(mem),
            mem.addr == m0.addr,
            mem.intruders@ == m0.intruders@,
            i <= m0.intruders@.len(),
            mem.loads == m0.loads + i,
            mem.stores == m0.stores,
            m0.counters_fit(),
            mem.value == if i == 0 {
                m0.value
            } else {
                m0.intruders@[i - 1]
            },
            forall|v: u32| #[trigger] call_requires(f, (v,)),
        decreases m0.intruders@.len() - i,
    {
        mem.loads = mem.loads + 1;
        let loaded = mem.value;
        let updated = f(loaded);
        if i == mem.intruders.len() {
            // No preempting store is left to invalidate the monitor: the
            // conditional store succeeds and the loop is done.
            mem.value = updated;
            mem.stores = mem.stores + 1;
            mem.intruders = Vec::new();
            return ;
        }
        // A preempting writer stored between the load and the conditional
        // store: its value lands, our store reports failure, retry.
        mem.value = mem.intruders[i];
        i += 1;
    }
}

/// The same retry loop as [`exclusive_modify`], for transforms that also
/// receive the capability token they run under: `tok` is handed unchanged
/// to `f` in every round.
pub(crate) fn exclusive_modify_with<T, F: Fn(&T, u32) -> u32>(tok: &T, mem: &mut RegMemory, f: F)
    requires
        old(mem).counters_fit(),
        forall|v: u32| #[trigger] call_requires(f, (tok, v)),
    ensures
        retry_outcome(*old(mem), *final(mem)),
        call_ensures(f, (tok, old(mem).contended_base()), final(mem).value),
{
    let ghost m0 = *mem;
    let mut i: usize = 0;
    loop
        invariant
            m0 == *old(mem),
            mem.addr == m0.addr,
            mem.intruders@ == m0.intruders@,
            i <= m0.intruders@.len(),
            mem.loads == m0.loads + i,
            mem.stores == m0.stores,
            m0.counters_fit(),
            mem.value == if i == 0 {
                m0.value
            } else {
                m0.intruders@[i - 1]
            },
            forall|v: u32| #[trigger] call_requires(f, (tok, v)),
        decreases m0.intruders@.len() - i,
    {
        mem.loads = mem.loads + 1;
        let loaded = mem.value;
        let updated = f(tok, loaded);
        if i == mem.intruders.len() {
            mem.value = updated;
            mem.stores = mem.stores + 1;
            mem.intruders = Vec::new();
            return ;
        }
        mem.value = mem.intruders[i];
        i += 1;
    }
}

/// Atomic operations for a read-write register.
///
/// Implemented by tokens that prove read, write and atomic-modify rights
/// over one register at once.
pub trait RwRegAtomic {
    /// The address of the register this capability covers.
    spec fn addr(&self) -> u32;

    /// Reads the register, passes the value to `f`, and writes the result
    /// back, as one exclusive-retry loop: if a preempting writer touches
    /// the register between the read and the write, the whole round is
    /// discarded and repeated, so `f` may be called multiple times and the
    /// update that lands is `f` of the value present just before the one
    /// successful store.
    fn modify<F: Fn(u32) -> u32>(&self, mem: &mut RegMemory, f: F)
        requires
            old(mem).addr == self.addr(),
            old(mem).counters_fit(),
            forall|v: u32| #[trigger] call_requires(f, (v,)),
        ensures
            retry_outcome(*old(mem), *final(mem)),
            call_ensures(f, (old(mem).contended_base(),), final(mem).value),
    ;

    /// Like [`RwRegAtomic::modify`], but `f` additionally receives the
    /// token itself, so helpers that need to know which register they
    /// belong to need not re-derive it from the value.
    fn modify_reg<F: Fn(&Self, u32) -> u32>(&self, mem: &mut RegMemory, f: F)
        requires
            old(mem).addr == self.addr(),
            old(mem).counters_fit(),
            forall|v: u32| #[trigger] call_requires(f, (self, v)),
        ensures
            retry_outcome(*old(mem), *final(mem)),
            call_ensures(f, (self, old(mem).contended_base()), final(mem).value),
    ;
}

/// Atomic operations for a writable field of a read-write register.
pub trait WRwRegFieldAtomic {
    /// The address of the register this capability covers.
    spec fn addr(&self) -> u32;

    /// The bit field this capability is narrowed to.
    spec fn field(&self) -> Field;

    /// Reads the register, passes the value to `f`, and writes the result
    /// back, retrying as [`RwRegAtomic::modify`] does.
    fn modify<F: Fn(u32) -> u32>(&self, mem: &mut RegMemory, f: F)
        requires
            old(mem).addr == self.addr(),
            old(mem).counters_fit(),
            forall|v: u32| #[trigger] call_requires(f, (v,)),
        ensures
            retry_outcome(*old(mem), *final(mem)),
            call_ensures(f, (old(mem).contended_base(),), final(mem).value),
    ;
}

/// Atomic operations for a writable single-bit field.
///
/// Each operation round-trips the whole register value through the retry
/// loop, so a concurrent update of a different field is never lost.
pub trait WRwRegFieldBitAtomic: WRwRegFieldAtomic {
    /// Atomically forces the field's bit to 1, leaving all other bits of
    /// the register as the winning round found them.
    fn set_bit(&self, mem: &mut RegMemory)
        requires
            old(mem).addr == self.addr(),
            old(mem).counters_fit(),
            self.field().wf(),
            self.field().width == 1,
        ensures
            retry_outcome(*old(mem), *final(mem)),
            final(mem).value == bit_set(old(mem).contended_base(), self.field().offset),
    ;

    /// Atomically forces the field's bit to 0, leaving all other bits of
    /// the register as the winning round found them.
    fn clear_bit(&self, mem: &mut RegMemory)
        requires
            old(mem).addr == self.addr(),
            old(mem).counters_fit(),
            self.field().wf(),
            self.field().width == 1,
        ensures
            retry_outcome(*old(mem), *final(mem)),
            final(mem).value == bit_clear(old(mem).contended_base(), self.field().offset),
    ;

    /// Atomically flips the field's bit, leaving all other bits of the
    /// register as the winning round found them.
    fn toggle_bit(&self, mem: &mut RegMemory)
        requires
            old(mem).addr == self.addr(),
            old(mem).counters_fit(),
            self.field().wf(),
            self.field().width == 1,
        ensures
            retry_outcome(*old(mem), *final(mem)),
            final(mem).value == bit_toggle(old(mem).contended_base(), self.field().offset),
    ;
}

/// Atomic operations for a writable multi-bit field.
pub trait WRwRegFieldBitsAtomic: WRwRegFieldAtomic {
    /// Atomically replaces the field by the low bits of `bits` (wider
    /// `bits` are truncated, not rejected), leaving all other bits of the
    /// register as the winning round found them.
    fn write_bits(&self, mem: &mut RegMemory, bits: u32)
        requires
            old(mem).addr == self.addr(),
            old(mem).counters_fit(),
            self.field().wf(),
        ensures
            retry_outcome(*old(mem), *final(mem)),
            final(mem).value == self.field().insert(old(mem).contended_base(), bits),
    ;
}

} // verus!
