//! Bit-field descriptors and the pure snapshot arithmetic they induce.
//!
//! A [`Field`] names a contiguous run of bits inside one 32-bit register
//! value. All operations here are pure functions on an in-memory snapshot of
//! the register; committing a snapshot to hardware is the business of
//! [`crate::reg::atomic`].

use vstd::prelude::*;

verus! {

/// A contiguous bit range inside a 32-bit register value.
#[derive(Clone, Copy, PartialEq, Eq, Structural, Debug)]
pub struct Field {
    /// Index of the least significant bit of the field.
    pub offset: u32,
    /// Number of bits in the field, at least 1.
    pub width: u32,
}

/// The low `width` bits set, all others clear.
pub open spec fn low_mask(width: u32) -> u32 {
    if width >= 32 {
        0xffff_ffffu32
    } else {
        ((1u32 << width) - 1) as u32
    }
}

/// `v` with the single bit at `offset` forced to 1.
pub open spec fn bit_set(v: u32, offset: u32) -> u32 {
    v | (1u32 << offset)
}

/// `v` with the single bit at `offset` forced to 0.
pub open spec fn bit_clear(v: u32, offset: u32) -> u32 {
    v & !(1u32 << offset)
}

/// `v` with the single bit at `offset` flipped.
pub open spec fn bit_toggle(v: u32, offset: u32) -> u32 {
    v ^ (1u32 << offset)
}

impl Field {
    /// A field must hold at least one bit and fit inside the 32-bit value.
    pub open spec fn wf(self) -> bool {
        1 <= self.width && self.offset + self.width <= 32
    }

    /// The bits of the register value covered by this field.
    pub open spec fn mask(self) -> u32 {
        low_mask(self.width) << self.offset
    }

    /// The field's bits of `v`, shifted down to the low end.
    pub open spec fn extract(self, v: u32) -> u32 {
        (v >> self.offset) & low_mask(self.width)
    }

    /// `v` with this field replaced by the low `width` bits of `bits`;
    /// wider `bits` are truncated, bits outside the field are unchanged.
    pub open spec fn insert(self, v: u32, bits: u32) -> u32 {
        (v & !self.mask()) | ((bits & low_mask(self.width)) << self.offset)
    }

    /// Two fields cover no common bit.
    pub open spec fn disjoint(self, other: Field) -> bool {
        self.mask() & other.mask() == 0
    }

    /// Builds a well-formed field descriptor.
    pub fn new(offset: u32, width: u32) -> (r: Field)
        requires
            1 <= width,
            offset + width <= 32,
        ensures
            r == (Field { offset, width }),
            r.wf(),
    {
        Field { offset, width }
    }

    /// Computes [`Field::mask`].
    pub fn mask_value(&self) -> (r: u32)
        requires
            self.wf(),
        ensures
            r == self.mask(),
    {
        let low = low_mask_value(self.width);
        low << self.offset
    }

    /// Snapshot update: force the field's single bit to 1.
    pub fn set(&self, v: u32) -> (r: u32)
        requires
            self.wf(),
            self.width == 1,
        ensures
            r == bit_set(v, self.offset),
    {
        v | (1u32 << self.offset)
    }

    /// Snapshot update: force the field's single bit to 0.
    pub fn clear(&self, v: u32) -> (r: u32)
        requires
            self.wf(),
            self.width == 1,
        ensures
            r == bit_clear(v, self.offset),
    {
        v & !(1u32 << self.offset)
    }

    /// Snapshot update: flip the field's single bit.
    pub fn toggle(&self, v: u32) -> (r: u32)
        requires
            self.wf(),
            self.width == 1,
        ensures
            r == bit_toggle(v, self.offset),
    {
        v ^ (1u32 << self.offset)
    }

    /// Snapshot update: replace the field by the low `width` bits of `bits`.
    pub fn write(&self, v: u32, bits: u32) -> (r: u32)
        requires
            self.wf(),
        ensures
            r == self.insert(v, bits),
    {
        let low = low_mask_value(self.width);
        (v & !(low << self.offset)) | ((bits & low) << self.offset)
    }

    /// Snapshot read: the field's bits of `v`, shifted down to the low end.
    pub fn read(&self, v: u32) -> (r: u32)
        requires
            self.wf(),
        ensures
            r == self.extract(v),
    {
        let low = low_mask_value(self.width);
        (v >> self.offset) & low
    }
}

/// Computes [`low_mask`].
pub fn low_mask_value(width: u32) -> (r: u32)
    requires
        width <= 32,
    ensures
        r == low_mask(width),
{
    if width >= 32 {
        0xffff_ffffu32
    } else {
        proof {
            assert(width < 32 ==> 1u32 << width >= 1) by (bit_vector);
        }
        (1u32 << width) - 1
    }
}

/// Flipping a single bit twice restores the original value, so two
/// `toggle` applications with no intervening write are a no-op.
pub proof fn lemma_toggle_twice(v: u32, offset: u32)
    ensures
        bit_toggle(bit_toggle(v, offset), offset) == v,
{
    assert((v ^ (1u32 << offset)) ^ (1u32 << offset) == v) by (bit_vector);
}

/// Reading a field back right after writing it yields the written bits,
/// truncated to the field's width.
pub proof fn lemma_insert_extract(f: Field, v: u32, bits: u32)
    requires
        f.wf(),
    ensures
        f.extract(f.insert(v, bits)) == bits & low_mask(f.width),
{
    let off = f.offset;
    let w = f.width;
    assert((((v & !(low_mask(w) << off)) | ((bits & low_mask(w)) << off)) >> off) & low_mask(w)
        == bits & low_mask(w)) by (bit_vector)
        requires
            1 <= w,
            off + w <= 32,
    ;
}

/// Writing a field leaves every bit outside the field's mask unchanged.
pub proof fn lemma_insert_outside(f: Field, v: u32, bits: u32)
    requires
        f.wf(),
    ensures
        f.insert(v, bits) & !f.mask() == v & !f.mask(),
{
    let off = f.offset;
    let w = f.width;
    assert(((v & !(low_mask(w) << off)) | ((bits & low_mask(w)) << off)) & !(low_mask(w) << off)
        == v & !(low_mask(w) << off)) by (bit_vector);
}

/// What a field reads depends only on the bits under its mask.
pub proof fn lemma_extract_frame(f: Field, v: u32, w: u32)
    requires
        f.wf(),
        v & f.mask() == w & f.mask(),
    ensures
        f.extract(v) == f.extract(w),
{
    let off = f.offset;
    let wd = f.width;
    assert((v >> off) & low_mask(wd) == (w >> off) & low_mask(wd)) by (bit_vector)
        requires
            v & (low_mask(wd) << off) == w & (low_mask(wd) << off),
    ;
}

/// Field isolation: with `a` and `b` disjoint, setting `a`'s bit and then
/// writing `b` leaves both fields independently correct — `a` still reads
/// as set, `b` reads the written bits — and never touches a bit outside
/// the two fields.
pub proof fn lemma_field_isolation(a: Field, b: Field, v: u32, bits: u32)
    requires
        a.wf(),
        b.wf(),
        a.width == 1,
        a.disjoint(b),
    ensures
        a.extract(b.insert(bit_set(v, a.offset), bits)) == 1,
        b.extract(b.insert(bit_set(v, a.offset), bits)) == bits & low_mask(b.width),
        b.insert(bit_set(v, a.offset), bits) & !(a.mask() | b.mask()) == v & !(a.mask() | b.mask()),
{
    let ao = a.offset;
    let bo = b.offset;
    let bw = b.width;
    lemma_insert_extract(b, bit_set(v, ao), bits);
    assert((((v | (1u32 << ao)) & !(low_mask(bw) << bo)) | ((bits & low_mask(bw)) << bo)) >> ao
        & low_mask(1) == 1) by (bit_vector)
        requires
            ao < 32,
            (low_mask(1u32) << ao) & (low_mask(bw) << bo) == 0,
    ;
    assert((((v | (1u32 << ao)) & !(low_mask(bw) << bo)) | ((bits & low_mask(bw)) << bo)) & !(
    (low_mask(1u32) << ao) | (low_mask(bw) << bo)) == v & !((low_mask(1u32) << ao) | (low_mask(bw)
        << bo))) by (bit_vector)
        requires
            (low_mask(1u32) << ao) & (low_mask(bw) << bo) == 0,
    ;
}

} // verus!
