//! Typed physical and virtual addresses.
//!
//! The two wrappers are deliberately distinct types so that a physical
//! address is never passed where a virtual one is expected. All arithmetic
//! wraps on overflow and never panics: these operations run in allocator hot
//! paths and fault handlers where panicking would recurse.
use vstd::prelude::*;

verus! {

/// Sum of `a` and `b` modulo the 64-bit address space.
pub open spec fn wrap_add64(a: u64, b: u64) -> u64 {
    if a + b > u64::MAX {
        (a + b - 0x1_0000_0000_0000_0000) as u64
    } else {
        (a + b) as u64
    }
}

/// Difference of `a` and `b` modulo the 64-bit address space.
pub open spec fn wrap_sub64(a: u64, b: u64) -> u64 {
    if a - b < 0 {
        (a - b + 0x1_0000_0000_0000_0000) as u64
    } else {
        (a - b) as u64
    }
}

/// `a` rounded up to the next multiple of `align`, modulo the address space.
pub open spec fn align_up64(a: u64, align: u64) -> u64
    recommends
        align > 0,
{
    if a % align == 0 {
        a
    } else {
        wrap_add64(a, (align - a % align) as u64)
    }
}

/// True when `v` is a power of two, the only alignments the hardware formats use.
pub open spec fn is_pow2(v: u64) -> bool {
    exists|n: nat| n < 64 && v == vstd::arithmetic::power2::pow2(n)
}

/// For a power-of-two `v`, masking with `v - 1` is reduction modulo `v`.
pub proof fn lemma_pow2_mask_is_mod(x: u64, v: u64)
    requires
        is_pow2(v),
    ensures
        v > 0,
        x & ((v - 1) as u64) == x % v,
{
    let n = choose|n: nat| n < 64 && v == vstd::arithmetic::power2::pow2(n);
    vstd::arithmetic::power2::lemma_pow2_pos(n);
    vstd::bits::lemma_u64_low_bits_mask_is_mod(x, n);
}

/// A physical address: a location in RAM or on the memory bus.
#[derive(Debug, Copy, Clone, PartialEq, Eq, Structural)]
pub struct PhyAddr(pub u64);

/// A virtual address: a location in the kernel's flat address space.
#[derive(Debug, Copy, Clone, PartialEq, Eq, Structural)]
pub struct VirtAddr(pub u64);

impl PhyAddr {
    pub fn new(value: u64) -> (r: PhyAddr)
        ensures
            r.0 == value,
    {
        PhyAddr(value)
    }

    pub fn null() -> (r: PhyAddr)
        ensures
            r.0 == 0,
    {
        PhyAddr(0)
    }

    pub fn is_null(&self) -> (r: bool)
        ensures
            r == (self.0 == 0),
    {
        self.0 == 0
    }

    /// Bytes from `self` up to `end`, or zero when `end` lies below `self`.
    pub fn distance(&self, end: PhyAddr) -> (r: u64)
        ensures
            r == if end.0 > self.0 {
                end.0 - self.0
            } else {
                0
            },
    {
        if end.0 > self.0 {
            end.0 - self.0
        } else {
            0
        }
    }

    pub fn is_aligned(&self, align: u64) -> (r: bool)
        requires
            is_pow2(align),
        ensures
            r == (self.0 % align == 0),
    {
        proof {
            lemma_pow2_mask_is_mod(self.0, align);
        }
        self.0 & (align - 1) == 0
    }

    pub fn wrapping_add(&self, value: u64) -> (r: PhyAddr)
        ensures
            r.0 == wrap_add64(self.0, value),
    {
        PhyAddr(self.0.wrapping_add(value))
    }

    pub fn wrapping_sub(&self, value: u64) -> (r: PhyAddr)
        ensures
            r.0 == wrap_sub64(self.0, value),
    {
        PhyAddr(self.0.wrapping_sub(value))
    }

    /// Round up to the next `value`-aligned address, wrapping at the top of
    /// the address space as the pointer `align_offset` idiom does.
    pub fn align_to(&self, value: u64) -> (r: PhyAddr)
        requires
            is_pow2(value),
        ensures
            r.0 == align_up64(self.0, value),
    {
        proof {
            lemma_pow2_mask_is_mod(self.0, value);
        }
        let rem = self.0 % value;
        let pad = if rem == 0 {
            0
        } else {
            value - rem
        };
        PhyAddr(self.0.wrapping_add(pad))
    }
}

impl VirtAddr {
    pub fn new(value: u64) -> (r: VirtAddr)
        ensures
            r.0 == value,
    {
        VirtAddr(value)
    }

    pub fn null() -> (r: VirtAddr)
        ensures
            r.0 == 0,
    {
        VirtAddr(0)
    }

    pub fn is_null(&self) -> (r: bool)
        ensures
            r == (self.0 == 0),
    {
        self.0 == 0
    }

    /// Bytes from `self` up to `end`, or zero when `end` lies below `self`.
    pub fn distance(&self, end: VirtAddr) -> (r: u64)
        ensures
            r == if end.0 > self.0 {
                end.0 - self.0
            } else {
                0
            },
    {
        if end.0 > self.0 {
            end.0 - self.0
        } else {
            0
        }
    }

    pub fn is_aligned(&self, align: u64) -> (r: bool)
        requires
            is_pow2(align),
        ensures
            r == (self.0 % align == 0),
    {
        proof {
            lemma_pow2_mask_is_mod(self.0, align);
        }
        self.0 & (align - 1) == 0
    }

    pub fn wrapping_add(&self, value: u64) -> (r: VirtAddr)
        ensures
            r.0 == wrap_add64(self.0, value),
    {
        VirtAddr(self.0.wrapping_add(value))
    }

    pub fn wrapping_sub(&self, value: u64) -> (r: VirtAddr)
        ensures
            r.0 == wrap_sub64(self.0, value),
    {
        VirtAddr(self.0.wrapping_sub(value))
    }

    /// Round up to the next `value`-aligned address, wrapping at the top of
    /// the address space as the pointer `align_offset` idiom does.
    pub fn align_to(&self, value: u64) -> (r: VirtAddr)
        requires
            is_pow2(value),
        ensures
            r.0 == align_up64(self.0, value),
    {
        proof {
            lemma_pow2_mask_is_mod(self.0, value);
        }
        let rem = self.0 % value;
        let pad = if rem == 0 {
            0
        } else {
            value - rem
        };
        VirtAddr(self.0.wrapping_add(pad))
    }
}

} // verus!
