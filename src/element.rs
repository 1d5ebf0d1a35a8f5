//! The arithmetic an element of a volume needs: a zero, `+` and `*`.

use vstd::prelude::*;

verus! {

/// A numeric element type forming a semiring under `plus` and `times`
/// with additive identity `zero`.
///
/// The integer impls use wrapping arithmetic, so every sum and product is
/// defined and the operations form the ring of integers modulo 2^bits.
pub trait Element: Copy + Sized {
    spec fn zero_spec() -> Self;

    spec fn plus_spec(a: Self, b: Self) -> Self;

    spec fn times_spec(a: Self, b: Self) -> Self;

    fn zero() -> (r: Self)
        ensures
            r == Self::zero_spec(),
    ;

    fn plus(self, other: Self) -> (r: Self)
        ensures
            r == Self::plus_spec(self, other),
    ;

    fn times(self, other: Self) -> (r: Self)
        ensures
            r == Self::times_spec(self, other),
    ;
}

impl Element for u8 {
    open spec fn zero_spec() -> u8 {
        0
    }

    open spec fn plus_spec(a: u8, b: u8) -> u8 {
        vstd::wrapping::u8_specs::wrapping_add(a, b)
    }

    open spec fn times_spec(a: u8, b: u8) -> u8 {
        vstd::wrapping::u8_specs::wrapping_mul(a, b)
    }

    fn zero() -> (r: u8) {
        0
    }

    fn plus(self, other: u8) -> (r: u8) {
        self.wrapping_add(other)
    }

    fn times(self, other: u8) -> (r: u8) {
        self.wrapping_mul(other)
    }
}

impl Element for u16 {
    open spec fn zero_spec() -> u16 {
        0
    }

    open spec fn plus_spec(a: u16, b: u16) -> u16 {
        vstd::wrapping::u16_specs::wrapping_add(a, b)
    }

    open spec fn times_spec(a: u16, b: u16) -> u16 {
        vstd::wrapping::u16_specs::wrapping_mul(a, b)
    }

    fn zero() -> (r: u16) {
        0
    }

    fn plus(self, other: u16) -> (r: u16) {
        self.wrapping_add(other)
    }

    fn times(self, other: u16) -> (r: u16) {
        self.wrapping_mul(other)
    }
}

impl Element for u32 {
    open spec fn zero_spec() -> u32 {
        0
    }

    open spec fn plus_spec(a: u32, b: u32) -> u32 {
        vstd::wrapping::u32_specs::wrapping_add(a, b)
    }

    open spec fn times_spec(a: u32, b: u32) -> u32 {
        vstd::wrapping::u32_specs::wrapping_mul(a, b)
    }

    fn zero() -> (r: u32) {
        0
    }

    fn plus(self, other: u32) -> (r: u32) {
        self.wrapping_add(other)
    }

    fn times(self, other: u32) -> (r: u32) {
        self.wrapping_mul(other)
    }
}

impl Element for u64 {
    open spec fn zero_spec() -> u64 {
        0
    }

    open spec fn plus_spec(a: u64, b: u64) -> u64 {
        vstd::wrapping::u64_specs::wrapping_add(a, b)
    }

    open spec fn times_spec(a: u64, b: u64) -> u64 {
        vstd::wrapping::u64_specs::wrapping_mul(a, b)
    }

    fn zero() -> (r: u64) {
        0
    }

    fn plus(self, other: u64) -> (r: u64) {
        self.wrapping_add(other)
    }

    fn times(self, other: u64) -> (r: u64) {
        self.wrapping_mul(other)
    }
}

impl Element for i8 {
    open spec fn zero_spec() -> i8 {
        0
    }

    open spec fn plus_spec(a: i8, b: i8) -> i8 {
        vstd::wrapping::i8_specs::wrapping_add(a, b)
    }

    open spec fn times_spec(a: i8, b: i8) -> i8 {
        vstd::wrapping::i8_specs::wrapping_mul(a, b)
    }

    fn zero() -> (r: i8) {
        0
    }

    fn plus(self, other: i8) -> (r: i8) {
        self.wrapping_add(other)
    }

    fn times(self, other: i8) -> (r: i8) {
        self.wrapping_mul(other)
    }
}

impl Element for i16 {
    open spec fn zero_spec() -> i16 {
        0
    }

    open spec fn plus_spec(a: i16, b: i16) -> i16 {
        vstd::wrapping::i16_specs::wrapping_add(a, b)
    }

    open spec fn times_spec(a: i16, b: i16) -> i16 {
        vstd::wrapping::i16_specs::wrapping_mul(a, b)
    }

    fn zero() -> (r: i16) {
        0
    }

    fn plus(self, other: i16) -> (r: i16) {
        self.wrapping_add(other)
    }

    fn times(self, other: i16) -> (r: i16) {
        self.wrapping_mul(other)
    }
}

impl Element for i32 {
    open spec fn zero_spec() -> i32 {
        0
    }

    open spec fn plus_spec(a: i32, b: i32) -> i32 {
        vstd::wrapping::i32_specs::wrapping_add(a, b)
    }

    open spec fn times_spec(a: i32, b: i32) -> i32 {
        vstd::wrapping::i32_specs::wrapping_mul(a, b)
    }

    fn zero() -> (r: i32) {
        0
    }

    fn plus(self, other: i32) -> (r: i32) {
        self.wrapping_add(other)
    }

    fn times(self, other: i32) -> (r: i32) {
        self.wrapping_mul(other)
    }
}

impl Element for i64 {
    open spec fn zero_spec() -> i64 {
        0
    }

    open spec fn plus_spec(a: i64, b: i64) -> i64 {
        vstd::wrapping::i64_specs::wrapping_add(a, b)
    }

    open spec fn times_spec(a: i64, b: i64) -> i64 {
        vstd::wrapping::i64_specs::wrapping_mul(a, b)
    }

    fn zero() -> (r: i64) {
        0
    }

    fn plus(self, other: i64) -> (r: i64) {
        self.wrapping_add(other)
    }

    fn times(self, other: i64) -> (r: i64) {
        self.wrapping_mul(other)
    }
}

} // verus!
