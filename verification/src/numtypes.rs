//! Masked fixed-width integers: a 12-bit address and a 4-bit nibble.
//!
//! Both types mask on construction and on every mutation, so no value of
//! either type can ever exceed its bit width.

use vstd::prelude::*;

verus! {

/// A 12-bit unsigned quantity; every constructor and mutator masks its
/// input down to the low 12 bits.
#[allow(non_camel_case_types)]
#[derive(Clone, Copy, PartialEq, Eq, Structural, Hash, Debug, Default)]
pub struct u12(u16);

/// A 4-bit unsigned quantity; every constructor and mutator masks its
/// input down to the low 4 bits.
#[allow(non_camel_case_types)]
#[derive(Clone, Copy, PartialEq, Eq, Structural, Hash, Debug, Default)]
pub struct u4(u8);

impl View for u12 {
    type V = u16;

    closed spec fn view(&self) -> u16 {
        self.0
    }
}

impl View for u4 {
    type V = u8;

    closed spec fn view(&self) -> u8 {
        self.0
    }
}

proof fn lemma_mask12_bound(x: u16)
    ensures
        x & 0xFFF < 0x1000,
{
    assert(x & 0xFFF < 0x1000) by (bit_vector);
}

proof fn lemma_mask4_bound(x: u8)
    ensures
        x & 0xF < 0x10,
{
    assert(x & 0xF < 0x10) by (bit_vector);
}

impl u12 {
    /// The masking discipline: no 12-bit value ever exceeds its bit width.
    #[verifier::type_invariant]
    pub closed spec fn inv(self) -> bool {
        self.0 < 0x1000
    }

    /// The 12-bit value holding `val` masked to its low 12 bits.
    pub closed spec fn spec_of(val: u16) -> u12 {
        u12(val & 0xFFF)
    }

    /// Composes an address from its three nibbles, high to low.
    pub fn from_nibbles(hi: u8, mid: u8, lo: u8) -> (r: u12)
        ensures
            r == u12::spec_of(((hi as u16) << 8) | ((mid as u16) << 4) | (lo as u16)),
            r@ == (((hi as u16) << 8) | ((mid as u16) << 4) | (lo as u16)) & 0xFFF,
            r@ < 0x1000,
    {
        u12::of(((hi as u16) << 8) | ((mid as u16) << 4) | (lo as u16))
    }

    pub fn of(val: u16) -> (r: u12)
        ensures
            r == u12::spec_of(val),
            r@ == val & 0xFFF,
            r@ < 0x1000,
    {
        proof {
            lemma_mask12_bound(val);
        }
        u12(val & 0xFFF)
    }

    /// Applies `f` to the held value and masks the result back to 12 bits.
    pub fn modify(&mut self, f: impl Fn(u16) -> u16)
        requires
            call_requires(f, (old(self)@,)),
        ensures
            exists|y: u16| call_ensures(f, (old(self)@,), y) && final(self)@ == y & 0xFFF,
            final(self)@ < 0x1000,
    {
        let y = f(self.0);
        proof {
            lemma_mask12_bound(y);
        }
        self.0 = y & 0xFFF;
    }

    pub fn get(&self) -> (r: u16)
        ensures
            r == self@,
    {
        self.0
    }
}

impl u4 {
    /// The masking discipline: no 4-bit value ever exceeds its bit width.
    #[verifier::type_invariant]
    pub closed spec fn inv(self) -> bool {
        self.0 < 0x10
    }

    /// The 4-bit value holding `val` masked to its low 4 bits.
    pub closed spec fn spec_of(val: u8) -> u4 {
        u4(val & 0xF)
    }

    pub fn of(val: u8) -> (r: u4)
        ensures
            r == u4::spec_of(val),
            r@ == val & 0xF,
            r@ < 0x10,
    {
        proof {
            lemma_mask4_bound(val);
        }
        u4(val & 0xF)
    }

    /// Applies `f` to the held value and masks the result back to 4 bits.
    pub fn modify(&mut self, f: impl Fn(u8) -> u8)
        requires
            call_requires(f, (old(self)@,)),
        ensures
            exists|y: u8| call_ensures(f, (old(self)@,), y) && final(self)@ == y & 0xF,
            final(self)@ < 0x10,
    {
        let y = f(self.0);
        proof {
            lemma_mask4_bound(y);
        }
        self.0 = y & 0xF;
    }

    pub fn get(&self) -> (r: u8)
        ensures
            r == self@,
    {
        self.0
    }
}

/// The bound that the masking invariant gives: pair with
/// `use_type_invariant` on a held 12-bit value.
pub proof fn lemma_u12_bounded(a: u12)
    requires
        a.inv(),
    ensures
        a@ < 0x1000,
{
}

/// Nibble extraction from an `N`-nibble integer; position 0 is the least
/// significant nibble.
pub trait Nibbles<const N: usize> {
    /// The value of the nibble at position `idx`, as this trait defines it.
    spec fn nibble_spec(&self, idx: int) -> u8;

    /// Reads the nibble at position `idx` (0 = least significant).
    fn nibble_at(&self, idx: usize) -> (r: u4)
        requires
            idx < N,
        ensures
            r@ == self.nibble_spec(idx as int),
    ;

    /// All `N` nibbles, most significant first.
    fn nibbles(&self) -> (r: [u8; N])
        ensures
            forall|i: int| 0 <= i < N ==> r@[i] == self.nibble_spec(N - 1 - i),
    ;
}

impl Nibbles<2> for u8 {
    open spec fn nibble_spec(&self, idx: int) -> u8 {
        if idx == 0 {
            *self & 0xF
        } else {
            (*self >> 4) & 0xF
        }
    }

    fn nibble_at(&self, idx: usize) -> (r: u4) {
        if idx == 0 {
            u4::of(*self)
        } else {
            u4::of(*self >> 4)
        }
    }

    fn nibbles(&self) -> (r: [u8; 2]) {
        [self.nibble_at(1).get(), self.nibble_at(0).get()]
    }
}

impl Nibbles<4> for u16 {
    open spec fn nibble_spec(&self, idx: int) -> u8 {
        if idx == 0 {
            (*self & 0xF) as u8
        } else if idx == 1 {
            ((*self >> 4) & 0xF) as u8
        } else if idx == 2 {
            ((*self >> 8) & 0xF) as u8
        } else {
            ((*self >> 12) & 0xF) as u8
        }
    }

    fn nibble_at(&self, idx: usize) -> (r: u4) {
        let b: u8 = if idx == 0 {
            (*self & 0xF) as u8
        } else if idx == 1 {
            ((*self >> 4) & 0xF) as u8
        } else if idx == 2 {
            ((*self >> 8) & 0xF) as u8
        } else {
            ((*self >> 12) & 0xF) as u8
        };
        proof {
            lemma_u16_nibble_masked(*self);
        }
        u4::of(b)
    }

    fn nibbles(&self) -> (r: [u8; 4]) {
        [
            self.nibble_at(3).get(),
            self.nibble_at(2).get(),
            self.nibble_at(1).get(),
            self.nibble_at(0).get(),
        ]
    }
}

proof fn lemma_u16_nibble_masked(x: u16)
    ensures
        ((x & 0xF) as u8) & 0xF == (x & 0xF) as u8,
        (((x >> 4) & 0xF) as u8) & 0xF == ((x >> 4) & 0xF) as u8,
        (((x >> 8) & 0xF) as u8) & 0xF == ((x >> 8) & 0xF) as u8,
        (((x >> 12) & 0xF) as u8) & 0xF == ((x >> 12) & 0xF) as u8,
{
    assert(((x & 0xF) as u8) & 0xF == (x & 0xF) as u8) by (bit_vector);
    assert((((x >> 4) & 0xF) as u8) & 0xF == ((x >> 4) & 0xF) as u8) by (bit_vector);
    assert((((x >> 8) & 0xF) as u8) & 0xF == ((x >> 8) & 0xF) as u8) by (bit_vector);
    assert((((x >> 12) & 0xF) as u8) & 0xF == ((x >> 12) & 0xF) as u8) by (bit_vector);
}

} // verus!
