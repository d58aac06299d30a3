//! Numeric types that can serve as block numbers and nonces.
//!
//! [`Counter`] says what the state module needs of such a type: a zero, a
//! unit, and addition. It is implemented here for the unsigned integer types,
//! whose zero and unit come from the `num` crate.

use vstd::prelude::*;

verus! {

/// A numeric type that counts upwards from zero in steps of one.
///
/// Each value stands for a natural number, given by [`Counter::value`]. The
/// type supplies its own zero and its own unit, so that code written against
/// this trait never builds a number from a literal.
pub trait Counter: Copy {
    /// The natural number that `self` stands for.
    spec fn value(self) -> nat;

    /// Whether the type has a value that stands for `n`.
    spec fn can_hold(n: nat) -> bool;

    /// The additive identity of the type.
    fn zero() -> (z: Self)
        ensures
            z.value() == 0,
    ;

    /// The unit of the type: the step by which a counter advances.
    fn one() -> (u: Self)
        ensures
            u.value() == 1,
    ;

    /// The sum of `self` and `rhs`. The caller shows that the type can hold
    /// it: an overflow is not detected here.
    fn plus(self, rhs: Self) -> (sum: Self)
        requires
            Self::can_hold(self.value() + rhs.value()),
        ensures
            sum.value() == self.value() + rhs.value(),
    ;
}

/// Calls `<u8 as num::traits::Zero>::zero`, which `num` defines as the
/// literal `0`.
#[verifier::external_body]
fn zero_u8() -> (z: u8)
    ensures
        z == 0,
{
    <u8 as num::traits::Zero>::zero()
}

/// Calls `<u8 as num::traits::One>::one`, which `num` defines as the
/// literal `1`.
#[verifier::external_body]
fn one_u8() -> (u: u8)
    ensures
        u == 1,
{
    <u8 as num::traits::One>::one()
}

impl Counter for u8 {
    open spec fn value(self) -> nat {
        self as nat
    }

    open spec fn can_hold(n: nat) -> bool {
        n <= u8::MAX
    }

    fn zero() -> (z: u8) {
        zero_u8()
    }

    fn one() -> (u: u8) {
        one_u8()
    }

    fn plus(self, rhs: u8) -> (sum: u8) {
        self + rhs
    }
}

/// Calls `<u16 as num::traits::Zero>::zero`, which `num` defines as the
/// literal `0`.
#[verifier::external_body]
fn zero_u16() -> (z: u16)
    ensures
        z == 0,
{
    <u16 as num::traits::Zero>::zero()
}

/// Calls `<u16 as num::traits::One>::one`, which `num` defines as the
/// literal `1`.
#[verifier::external_body]
fn one_u16() -> (u: u16)
    ensures
        u == 1,
{
    <u16 as num::traits::One>::one()
}

impl Counter for u16 {
    open spec fn value(self) -> nat {
        self as nat
    }

    open spec fn can_hold(n: nat) -> bool {
        n <= u16::MAX
    }

    fn zero() -> (z: u16) {
        zero_u16()
    }

    fn one() -> (u: u16) {
        one_u16()
    }

    fn plus(self, rhs: u16) -> (sum: u16) {
        self + rhs
    }
}

/// Calls `<u32 as num::traits::Zero>::zero`, which `num` defines as the
/// literal `0`.
#[verifier::external_body]
fn zero_u32() -> (z: u32)
    ensures
        z == 0,
{
    <u32 as num::traits::Zero>::zero()
}

/// Calls `<u32 as num::traits::One>::one`, which `num` defines as the
/// literal `1`.
#[verifier::external_body]
fn one_u32() -> (u: u32)
    ensures
        u == 1,
{
    <u32 as num::traits::One>::one()
}

impl Counter for u32 {
    open spec fn value(self) -> nat {
        self as nat
    }

    open spec fn can_hold(n: nat) -> bool {
        n <= u32::MAX
    }

    fn zero() -> (z: u32) {
        zero_u32()
    }

    fn one() -> (u: u32) {
        one_u32()
    }

    fn plus(self, rhs: u32) -> (sum: u32) {
        self + rhs
    }
}

/// Calls `<u64 as num::traits::Zero>::zero`, which `num` defines as the
/// literal `0`.
#[verifier::external_body]
fn zero_u64() -> (z: u64)
    ensures
        z == 0,
{
    <u64 as num::traits::Zero>::zero()
}

/// Calls `<u64 as num::traits::One>::one`, which `num` defines as the
/// literal `1`.
#[verifier::external_body]
fn one_u64() -> (u: u64)
    ensures
        u == 1,
{
    <u64 as num::traits::One>::one()
}

impl Counter for u64 {
    open spec fn value(self) -> nat {
        self as nat
    }

    open spec fn can_hold(n: nat) -> bool {
        n <= u64::MAX
    }

    fn zero() -> (z: u64) {
        zero_u64()
    }

    fn one() -> (u: u64) {
        one_u64()
    }

    fn plus(self, rhs: u64) -> (sum: u64) {
        self + rhs
    }
}

/// Calls `<u128 as num::traits::Zero>::zero`, which `num` defines as the
/// literal `0`.
#[verifier::external_body]
fn zero_u128() -> (z: u128)
    ensures
        z == 0,
{
    <u128 as num::traits::Zero>::zero()
}

/// Calls `<u128 as num::traits::One>::one`, which `num` defines as the
/// literal `1`.
#[verifier::external_body]
fn one_u128() -> (u: u128)
    ensures
        u == 1,
{
    <u128 as num::traits::One>::one()
}

impl Counter for u128 {
    open spec fn value(self) -> nat {
        self as nat
    }

    open spec fn can_hold(n: nat) -> bool {
        n <= u128::MAX
    }

    fn zero() -> (z: u128) {
        zero_u128()
    }

    fn one() -> (u: u128) {
        one_u128()
    }

    fn plus(self, rhs: u128) -> (sum: u128) {
        self + rhs
    }
}

/// Calls `<usize as num::traits::Zero>::zero`, which `num` defines as the
/// literal `0`.
#[verifier::external_body]
fn zero_usize() -> (z: usize)
    ensures
        z == 0,
{
    <usize as num::traits::Zero>::zero()
}

/// Calls `<usize as num::traits::One>::one`, which `num` defines as the
/// literal `1`.
#[verifier::external_body]
fn one_usize() -> (u: usize)
    ensures
        u == 1,
{
    <usize as num::traits::One>::one()
}

impl Counter for usize {
    open spec fn value(self) -> nat {
        self as nat
    }

    open spec fn can_hold(n: nat) -> bool {
        n <= usize::MAX
    }

    fn zero() -> (z: usize) {
        zero_usize()
    }

    fn one() -> (u: usize) {
        one_usize()
    }

    fn plus(self, rhs: usize) -> (sum: usize) {
        self + rhs
    }
}

} // verus!
