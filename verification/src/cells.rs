//! A pair of numeric cells updated in sequence inside an exclusive-access
//! window that is checked at run time.
//!
//! Each cell holds an unsigned 8-bit value. The source of the update rules
//! leaves overflow behaviour open; this library fixes it as wrapping
//! (modulo 256) arithmetic, stated explicitly in every contract.

use crate::OpError;
use vstd::prelude::*;

verus! {

/// `x + y` reduced modulo 256: the wrapping sum of two cell values.
pub open spec fn wrap_add(x: u8, y: u8) -> u8 {
    ((x + y) % 256) as u8
}

/// `x * y` reduced modulo 256: the wrapping product of two cell values.
pub open spec fn wrap_mul(x: u8, y: u8) -> u8 {
    ((x * y) % 256) as u8
}

/// A single mutable numeric cell.
#[derive(Clone, Copy, Debug, PartialEq, Eq, Structural)]
pub struct Test {
    pub data: u8,
}

impl Test {
    /// The additive pairwise update: `self := self + other`, then
    /// `other := other + self` using the already-updated `self`.
    /// Both sums wrap modulo 256.
    pub fn add(&mut self, other: &mut Test)
        ensures
            final(self).data == wrap_add(old(self).data, old(other).data),
            final(other).data == wrap_add(old(other).data, final(self).data),
    {
        self.data = self.data.wrapping_add(other.data);
        other.data = other.data.wrapping_add(self.data);
    }

    /// The multiplicative pairwise update: `self := self * other`, then
    /// `other := other * self` using the already-updated `self`.
    /// Both products wrap modulo 256.
    pub fn mul(&mut self, other: &mut Test)
        ensures
            final(self).data == wrap_mul(old(self).data, old(other).data),
            final(other).data == wrap_mul(old(other).data, final(self).data),
    {
        self.data = self.data.wrapping_mul(other.data);
        other.data = other.data.wrapping_mul(self.data);
    }
}

/// Two cells owned together, updated only inside an exclusive-access window
/// that is checked at run time: while a window is open, no other update may
/// start and neither cell may be observed.
pub struct CellPair {
    pub a: Test,
    pub b: Test,
    pub in_use: bool,
}

impl CellPair {
    /// A fresh pair holding `a` and `b`, with no window open.
    pub fn new(a: u8, b: u8) -> (p: CellPair)
        ensures
            p.a.data == a,
            p.b.data == b,
            !p.in_use,
    {
        CellPair { a: Test { data: a }, b: Test { data: b }, in_use: false }
    }

    /// Opens an exclusive-access window by hand, as another logical owner of
    /// the cells would. While it is open, every update and every read of the
    /// pair fails with `BorrowConflict`.
    pub fn begin_exclusive(&mut self) -> (r: Result<(), OpError>)
        ensures
            old(self).in_use ==> r == Err::<(), OpError>(OpError::BorrowConflict) && *final(self)
                == *old(self),
            !old(self).in_use ==> r == Ok::<(), OpError>(()) && final(self).in_use
                && final(self).a == old(self).a && final(self).b == old(self).b,
    {
        if self.in_use {
            return Err(OpError::BorrowConflict);
        }
        self.in_use = true;
        Ok(())
    }

    /// Closes the exclusive-access window; the cells are untouched.
    pub fn end_exclusive(&mut self)
        ensures
            !final(self).in_use,
            final(self).a == old(self).a,
            final(self).b == old(self).b,
    {
        self.in_use = false;
    }

    /// The additive update sequence on the pair: `A := A + B`, then
    /// `B := B + A` with the updated `A`, both wrapping modulo 256. The
    /// whole sequence runs inside its own exclusive-access window, so it
    /// fails with `BorrowConflict` if one is already open, and then leaves
    /// the cells untouched.
    pub fn combine_add(&mut self) -> (r: Result<(), OpError>)
        ensures
            old(self).in_use ==> r == Err::<(), OpError>(OpError::BorrowConflict) && *final(self)
                == *old(self),
            !old(self).in_use ==> r == Ok::<(), OpError>(()) && !final(self).in_use
                && final(self).a.data == wrap_add(old(self).a.data, old(self).b.data)
                && final(self).b.data == wrap_add(old(self).b.data, final(self).a.data),
    {
        if self.in_use {
            return Err(OpError::BorrowConflict);
        }
        self.in_use = true;
        let mut a = self.a;
        let mut b = self.b;
        a.add(&mut b);
        self.a = a;
        self.b = b;
        self.in_use = false;
        Ok(())
    }

    /// The multiplicative update sequence on the pair, the mirror image of
    /// the additive one: here `B` updates first. `B := B * A`, then
    /// `A := A * B` with the updated `B`, both wrapping modulo 256. It fails
    /// with `BorrowConflict` if a window is already open, leaving the cells
    /// untouched.
    pub fn combine_mul(&mut self) -> (r: Result<(), OpError>)
        ensures
            old(self).in_use ==> r == Err::<(), OpError>(OpError::BorrowConflict) && *final(self)
                == *old(self),
            !old(self).in_use ==> r == Ok::<(), OpError>(()) && !final(self).in_use
                && final(self).b.data == wrap_mul(old(self).b.data, old(self).a.data)
                && final(self).a.data == wrap_mul(old(self).a.data, final(self).b.data),
    {
        if self.in_use {
            return Err(OpError::BorrowConflict);
        }
        self.in_use = true;
        let mut a = self.a;
        let mut b = self.b;
        b.mul(&mut a);
        self.a = a;
        self.b = b;
        self.in_use = false;
        Ok(())
    }

    /// Reads both cells. Observation is refused while an exclusive-access
    /// window is open: it fails with `BorrowConflict` then.
    pub fn values(&self) -> (r: Result<(u8, u8), OpError>)
        ensures
            self.in_use ==> r == Err::<(u8, u8), OpError>(OpError::BorrowConflict),
            !self.in_use ==> r == Ok::<(u8, u8), OpError>((self.a.data, self.b.data)),
    {
        if self.in_use {
            return Err(OpError::BorrowConflict);
        }
        Ok((self.a.data, self.b.data))
    }
}

} // verus!
