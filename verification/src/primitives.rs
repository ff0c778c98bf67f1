//! The element contract for the primitive integer types, with the extreme
//! values taken from `cubecl`'s `Numeric` trait.

use crate::element::{wrap, Element};
use vstd::prelude::*;

verus! {

/// `cubecl`'s `Numeric::min_value` for `i8`, which its source defines as
/// `i8::MIN`.
#[verifier::external_body]
fn min_value_i8() -> (r: i8)
    ensures
        r == i8::MIN,
{
    <i8 as cubecl::prelude::Numeric>::min_value()
}

/// `cubecl`'s `Numeric::max_value` for `i8`, which its source defines as
/// `i8::MAX`.
#[verifier::external_body]
fn max_value_i8() -> (r: i8)
    ensures
        r == i8::MAX,
{
    <i8 as cubecl::prelude::Numeric>::max_value()
}

impl Element for i8 {
    open spec fn value(self) -> int {
        self as int
    }

    open spec fn lowest() -> int {
        i8::MIN as int
    }

    open spec fn highest() -> int {
        i8::MAX as int
    }

    open spec fn of(v: int) -> Self {
        v as i8
    }

    proof fn lemma_of(v: int) {
    }

    proof fn lemma_in_range(self) {
    }

    proof fn lemma_limits() {
    }

    proof fn lemma_value_determines(self, other: Self) {
    }

    fn min_value() -> (r: Self) {
        min_value_i8()
    }

    fn max_value() -> (r: Self) {
        max_value_i8()
    }

    fn widen(self) -> (w: i128) {
        self as i128
    }

    fn narrow(w: i128) -> (r: Self) {
        let r = #[verifier::truncate] (w as i8);
        assert(r == wrap(w as int, i8::MIN as int, i8::MAX as int)) by {
            assert(r == (if (w % 0x100) > 0x7f {
                (w % 0x100) - 0x100
            } else {
                (w % 0x100) as int
            })) by (bit_vector)
                requires
                    r == w as i8,
            ;
        }
        r
    }

    fn wrapping_mul(self, other: Self) -> (r: Self) {
        i8::wrapping_mul(self, other)
    }
}

/// `cubecl`'s `Numeric::min_value` for `i16`, which its source defines as
/// `i16::MIN`.
#[verifier::external_body]
fn min_value_i16() -> (r: i16)
    ensures
        r == i16::MIN,
{
    <i16 as cubecl::prelude::Numeric>::min_value()
}

/// `cubecl`'s `Numeric::max_value` for `i16`, which its source defines as
/// `i16::MAX`.
#[verifier::external_body]
fn max_value_i16() -> (r: i16)
    ensures
        r == i16::MAX,
{
    <i16 as cubecl::prelude::Numeric>::max_value()
}

impl Element for i16 {
    open spec fn value(self) -> int {
        self as int
    }

    open spec fn lowest() -> int {
        i16::MIN as int
    }

    open spec fn highest() -> int {
        i16::MAX as int
    }

    open spec fn of(v: int) -> Self {
        v as i16
    }

    proof fn lemma_of(v: int) {
    }

    proof fn lemma_in_range(self) {
    }

    proof fn lemma_limits() {
    }

    proof fn lemma_value_determines(self, other: Self) {
    }

    fn min_value() -> (r: Self) {
        min_value_i16()
    }

    fn max_value() -> (r: Self) {
        max_value_i16()
    }

    fn widen(self) -> (w: i128) {
        self as i128
    }

    fn narrow(w: i128) -> (r: Self) {
        let r = #[verifier::truncate] (w as i16);
        assert(r == wrap(w as int, i16::MIN as int, i16::MAX as int)) by {
            assert(r == (if (w % 0x1_0000) > 0x7fff {
                (w % 0x1_0000) - 0x1_0000
            } else {
                (w % 0x1_0000) as int
            })) by (bit_vector)
                requires
                    r == w as i16,
            ;
        }
        r
    }

    fn wrapping_mul(self, other: Self) -> (r: Self) {
        i16::wrapping_mul(self, other)
    }
}

/// `cubecl`'s `Numeric::min_value` for `i32`, which its source defines as
/// `i32::MIN`.
#[verifier::external_body]
fn min_value_i32() -> (r: i32)
    ensures
        r == i32::MIN,
{
    <i32 as cubecl::prelude::Numeric>::min_value()
}

/// `cubecl`'s `Numeric::max_value` for `i32`, which its source defines as
/// `i32::MAX`.
#[verifier::external_body]
fn max_value_i32() -> (r: i32)
    ensures
        r == i32::MAX,
{
    <i32 as cubecl::prelude::Numeric>::max_value()
}

impl Element for i32 {
    open spec fn value(self) -> int {
        self as int
    }

    open spec fn lowest() -> int {
        i32::MIN as int
    }

    open spec fn highest() -> int {
        i32::MAX as int
    }

    open spec fn of(v: int) -> Self {
        v as i32
    }

    proof fn lemma_of(v: int) {
    }

    proof fn lemma_in_range(self) {
    }

    proof fn lemma_limits() {
    }

    proof fn lemma_value_determines(self, other: Self) {
    }

    fn min_value() -> (r: Self) {
        min_value_i32()
    }

    fn max_value() -> (r: Self) {
        max_value_i32()
    }

    fn widen(self) -> (w: i128) {
        self as i128
    }

    fn narrow(w: i128) -> (r: Self) {
        let r = #[verifier::truncate] (w as i32);
        assert(r == wrap(w as int, i32::MIN as int, i32::MAX as int)) by {
            assert(r == (if (w % 0x1_0000_0000) > 0x7fff_ffff {
                (w % 0x1_0000_0000) - 0x1_0000_0000
            } else {
                (w % 0x1_0000_0000) as int
            })) by (bit_vector)
                requires
                    r == w as i32,
            ;
        }
        r
    }

    fn wrapping_mul(self, other: Self) -> (r: Self) {
        i32::wrapping_mul(self, other)
    }
}

/// `cubecl`'s `Numeric::min_value` for `i64`, which its source defines as
/// `i64::MIN`.
#[verifier::external_body]
fn min_value_i64() -> (r: i64)
    ensures
        r == i64::MIN,
{
    <i64 as cubecl::prelude::Numeric>::min_value()
}

/// `cubecl`'s `Numeric::max_value` for `i64`, which its source defines as
/// `i64::MAX`.
#[verifier::external_body]
fn max_value_i64() -> (r: i64)
    ensures
        r == i64::MAX,
{
    <i64 as cubecl::prelude::Numeric>::max_value()
}

impl Element for i64 {
    open spec fn value(self) -> int {
        self as int
    }

    open spec fn lowest() -> int {
        i64::MIN as int
    }

    open spec fn highest() -> int {
        i64::MAX as int
    }

    open spec fn of(v: int) -> Self {
        v as i64
    }

    proof fn lemma_of(v: int) {
    }

    proof fn lemma_in_range(self) {
    }

    proof fn lemma_limits() {
    }

    proof fn lemma_value_determines(self, other: Self) {
    }

    fn min_value() -> (r: Self) {
        min_value_i64()
    }

    fn max_value() -> (r: Self) {
        max_value_i64()
    }

    fn widen(self) -> (w: i128) {
        self as i128
    }

    fn narrow(w: i128) -> (r: Self) {
        let r = #[verifier::truncate] (w as i64);
        assert(r == wrap(w as int, i64::MIN as int, i64::MAX as int)) by {
            assert(r == (if (w % 0x1_0000_0000_0000_0000) > 0x7fff_ffff_ffff_ffff {
                (w % 0x1_0000_0000_0000_0000) - 0x1_0000_0000_0000_0000
            } else {
                (w % 0x1_0000_0000_0000_0000) as int
            })) by (bit_vector)
                requires
                    r == w as i64,
            ;
        }
        r
    }

    fn wrapping_mul(self, other: Self) -> (r: Self) {
        i64::wrapping_mul(self, other)
    }
}

/// `cubecl`'s `Numeric::min_value` for `u8`, which its source defines as
/// `u8::MIN`.
#[verifier::external_body]
fn min_value_u8() -> (r: u8)
    ensures
        r == u8::MIN,
{
    <u8 as cubecl::prelude::Numeric>::min_value()
}

/// `cubecl`'s `Numeric::max_value` for `u8`, which its source defines as
/// `u8::MAX`.
#[verifier::external_body]
fn max_value_u8() -> (r: u8)
    ensures
        r == u8::MAX,
{
    <u8 as cubecl::prelude::Numeric>::max_value()
}

impl Element for u8 {
    open spec fn value(self) -> int {
        self as int
    }

    open spec fn lowest() -> int {
        u8::MIN as int
    }

    open spec fn highest() -> int {
        u8::MAX as int
    }

    open spec fn of(v: int) -> Self {
        v as u8
    }

    proof fn lemma_of(v: int) {
    }

    proof fn lemma_in_range(self) {
    }

    proof fn lemma_limits() {
    }

    proof fn lemma_value_determines(self, other: Self) {
    }

    fn min_value() -> (r: Self) {
        min_value_u8()
    }

    fn max_value() -> (r: Self) {
        max_value_u8()
    }

    fn widen(self) -> (w: i128) {
        self as i128
    }

    fn narrow(w: i128) -> (r: Self) {
        let r = #[verifier::truncate] (w as u8);
        assert(r == wrap(w as int, u8::MIN as int, u8::MAX as int)) by {
            assert(r == (if (w % 0x100) > 0xff {
                (w % 0x100) - 0x100
            } else {
                (w % 0x100) as int
            })) by (bit_vector)
                requires
                    r == w as u8,
            ;
        }
        r
    }

    fn wrapping_mul(self, other: Self) -> (r: Self) {
        u8::wrapping_mul(self, other)
    }
}

/// `cubecl`'s `Numeric::min_value` for `u16`, which its source defines as
/// `u16::MIN`.
#[verifier::external_body]
fn min_value_u16() -> (r: u16)
    ensures
        r == u16::MIN,
{
    <u16 as cubecl::prelude::Numeric>::min_value()
}

/// `cubecl`'s `Numeric::max_value` for `u16`, which its source defines as
/// `u16::MAX`.
#[verifier::external_body]
fn max_value_u16() -> (r: u16)
    ensures
        r == u16::MAX,
{
    <u16 as cubecl::prelude::Numeric>::max_value()
}

impl Element for u16 {
    open spec fn value(self) -> int {
        self as int
    }

    open spec fn lowest() -> int {
        u16::MIN as int
    }

    open spec fn highest() -> int {
        u16::MAX as int
    }

    open spec fn of(v: int) -> Self {
        v as u16
    }

    proof fn lemma_of(v: int) {
    }

    proof fn lemma_in_range(self) {
    }

    proof fn lemma_limits() {
    }

    proof fn lemma_value_determines(self, other: Self) {
    }

    fn min_value() -> (r: Self) {
        min_value_u16()
    }

    fn max_value() -> (r: Self) {
        max_value_u16()
    }

    fn widen(self) -> (w: i128) {
        self as i128
    }

    fn narrow(w: i128) -> (r: Self) {
        let r = #[verifier::truncate] (w as u16);
        assert(r == wrap(w as int, u16::MIN as int, u16::MAX as int)) by {
            assert(r == (if (w % 0x1_0000) > 0xffff {
                (w % 0x1_0000) - 0x1_0000
            } else {
                (w % 0x1_0000) as int
            })) by (bit_vector)
                requires
                    r == w as u16,
            ;
        }
        r
    }

    fn wrapping_mul(self, other: Self) -> (r: Self) {
        u16::wrapping_mul(self, other)
    }
}

/// `cubecl`'s `Numeric::min_value` for `u32`, which its source defines as
/// `u32::MIN`.
#[verifier::external_body]
fn min_value_u32() -> (r: u32)
    ensures
        r == u32::MIN,
{
    <u32 as cubecl::prelude::Numeric>::min_value()
}

/// `cubecl`'s `Numeric::max_value` for `u32`, which its source defines as
/// `u32::MAX`.
#[verifier::external_body]
fn max_value_u32() -> (r: u32)
    ensures
        r == u32::MAX,
{
    <u32 as cubecl::prelude::Numeric>::max_value()
}

impl Element for u32 {
    open spec fn value(self) -> int {
        self as int
    }

    open spec fn lowest() -> int {
        u32::MIN as int
    }

    open spec fn highest() -> int {
        u32::MAX as int
    }

    open spec fn of(v: int) -> Self {
        v as u32
    }

    proof fn lemma_of(v: int) {
    }

    proof fn lemma_in_range(self) {
    }

    proof fn lemma_limits() {
    }

    proof fn lemma_value_determines(self, other: Self) {
    }

    fn min_value() -> (r: Self) {
        min_value_u32()
    }

    fn max_value() -> (r: Self) {
        max_value_u32()
    }

    fn widen(self) -> (w: i128) {
        self as i128
    }

    fn narrow(w: i128) -> (r: Self) {
        let r = #[verifier::truncate] (w as u32);
        assert(r == wrap(w as int, u32::MIN as int, u32::MAX as int)) by {
            assert(r == (if (w % 0x1_0000_0000) > 0xffff_ffff {
                (w % 0x1_0000_0000) - 0x1_0000_0000
            } else {
                (w % 0x1_0000_0000) as int
            })) by (bit_vector)
                requires
                    r == w as u32,
            ;
        }
        r
    }

    fn wrapping_mul(self, other: Self) -> (r: Self) {
        u32::wrapping_mul(self, other)
    }
}

/// `cubecl`'s `Numeric::min_value` for `u64`, which its source defines as
/// `u64::MIN`.
#[verifier::external_body]
fn min_value_u64() -> (r: u64)
    ensures
        r == u64::MIN,
{
    <u64 as cubecl::prelude::Numeric>::min_value()
}

/// `cubecl`'s `Numeric::max_value` for `u64`, which its source defines as
/// `u64::MAX`.
#[verifier::external_body]
fn max_value_u64() -> (r: u64)
    ensures
        r == u64::MAX,
{
    <u64 as cubecl::prelude::Numeric>::max_value()
}

impl Element for u64 {
    open spec fn value(self) -> int {
        self as int
    }

    open spec fn lowest() -> int {
        u64::MIN as int
    }

    open spec fn highest() -> int {
        u64::MAX as int
    }

    open spec fn of(v: int) -> Self {
        v as u64
    }

    proof fn lemma_of(v: int) {
    }

    proof fn lemma_in_range(self) {
    }

    proof fn lemma_limits() {
    }

    proof fn lemma_value_determines(self, other: Self) {
    }

    fn min_value() -> (r: Self) {
        min_value_u64()
    }

    fn max_value() -> (r: Self) {
        max_value_u64()
    }

    fn widen(self) -> (w: i128) {
        self as i128
    }

    fn narrow(w: i128) -> (r: Self) {
        let r = #[verifier::truncate] (w as u64);
        assert(r == wrap(w as int, u64::MIN as int, u64::MAX as int)) by {
            assert(r == (if (w % 0x1_0000_0000_0000_0000) > 0xffff_ffff_ffff_ffff {
                (w % 0x1_0000_0000_0000_0000) - 0x1_0000_0000_0000_0000
            } else {
                (w % 0x1_0000_0000_0000_0000) as int
            })) by (bit_vector)
                requires
                    r == w as u64,
            ;
        }
        r
    }

    fn wrapping_mul(self, other: Self) -> (r: Self) {
        u64::wrapping_mul(self, other)
    }
}

} // verus!
