//! The numeric element contract: what a reduction needs from the element type
//! of a tensor, stated over the mathematical integer each element stands for.

use vstd::prelude::*;

verus! {

/// Folds an integer into the range `lo ..= hi` of a fixed-width type by
/// discarding whole multiples of the range's size (two's complement wrapping).
pub open spec fn wrap(v: int, lo: int, hi: int) -> int {
    let range = hi - lo + 1;
    let m = v % range;
    if m > hi {
        m - range
    } else {
        m
    }
}

/// Quotient rounded toward zero, as fixed-width integer division computes it.
pub open spec fn trunc_div(a: int, b: int) -> int {
    if a >= 0 && b > 0 {
        a / b
    } else if a < 0 && b < 0 {
        (-a) / (-b)
    } else if a < 0 {
        -((-a) / b)
    } else {
        -(a / (-b))
    }
}

/// Wrapping leaves a value that already lies in the range unchanged.
pub proof fn lemma_wrap_in_range(v: int, lo: int, hi: int)
    requires
        lo <= 0 <= hi,
        lo <= v <= hi,
    ensures
        wrap(v, lo, hi) == v,
{
    let range = hi - lo + 1;
    if v >= 0 {
        vstd::arithmetic::div_mod::lemma_fundamental_div_mod_converse(v, range, 0, v);
    } else {
        vstd::arithmetic::div_mod::lemma_fundamental_div_mod_converse(v, range, -1, v + range);
    }
}

/// A fixed-width integer element of a tensor.
///
/// Every element stands for one integer, `value()`, between `lowest()` and
/// `highest()`; two elements with the same value are the same element.
pub trait Element: Copy + Sized {
    /// The integer this element stands for.
    spec fn value(self) -> int;

    /// The smallest value the type can hold.
    spec fn lowest() -> int;

    /// The largest value the type can hold.
    spec fn highest() -> int;

    /// The element that stands for `v`, for `v` within the type's range.
    spec fn of(v: int) -> Self;

    /// `of` inverts `value` on the type's range.
    proof fn lemma_of(v: int)
        requires
            Self::lowest() <= v <= Self::highest(),
        ensures
            Self::of(v).value() == v,
    ;

    /// Every element lies within the type's range.
    proof fn lemma_in_range(self)
        ensures
            Self::lowest() <= self.value() <= Self::highest(),
    ;

    /// The type's range contains zero and one and fits in 64 bits of either
    /// signedness, so that sums of two elements fit in an `i128`.
    proof fn lemma_limits()
        ensures
            -0x8000_0000_0000_0000 <= Self::lowest() <= 0,
            1 <= Self::highest() <= 0xffff_ffff_ffff_ffff,
    ;

    /// The value identifies the element.
    proof fn lemma_value_determines(self, other: Self)
        ensures
            self.value() == other.value() ==> self == other,
    ;

    /// The smallest element of the type.
    fn min_value() -> (r: Self)
        ensures
            r.value() == Self::lowest(),
    ;

    /// The largest element of the type.
    fn max_value() -> (r: Self)
        ensures
            r.value() == Self::highest(),
    ;

    /// The element's value, exactly, in a type wide enough for all elements.
    fn widen(self) -> (w: i128)
        ensures
            w == self.value(),
    ;

    /// The element whose value is `w` wrapped into the type's range.
    fn narrow(w: i128) -> (r: Self)
        ensures
            r.value() == wrap(w as int, Self::lowest(), Self::highest()),
    ;

    /// Product with wrapping on overflow.
    fn wrapping_mul(self, other: Self) -> (r: Self)
        ensures
            r.value() == wrap(self.value() * other.value(), Self::lowest(), Self::highest()),
    ;
}

/// An element is the one that stands for its value.
pub proof fn lemma_of_value<E: Element>(x: E)
    ensures
        E::of(x.value()) == x,
{
    x.lemma_in_range();
    E::lemma_of(x.value());
    E::lemma_value_determines(E::of(x.value()), x);
}

/// `a > b`, by value.
pub fn greater<E: Element>(a: E, b: E) -> (r: bool)
    ensures
        r == (a.value() > b.value()),
{
    a.widen() > b.widen()
}

/// `a < b`, by value.
pub fn less<E: Element>(a: E, b: E) -> (r: bool)
    ensures
        r == (a.value() < b.value()),
{
    a.widen() < b.widen()
}

/// Sum with wrapping on overflow.
pub fn wrapping_add<E: Element>(a: E, b: E) -> (r: E)
    ensures
        r.value() == wrap(a.value() + b.value(), E::lowest(), E::highest()),
        r == E::of(wrap(a.value() + b.value(), E::lowest(), E::highest())),
{
    proof {
        a.lemma_in_range();
        b.lemma_in_range();
        E::lemma_limits();
    }
    let r = E::narrow(a.widen() + b.widen());
    proof {
        lemma_of_value(r);
    }
    r
}

/// Quotient rounded toward zero, wrapped into the type's range (only the
/// quotient of the lowest value of a signed type by minus one wraps).
pub fn wrapping_div<E: Element>(a: E, b: E) -> (r: E)
    requires
        b.value() != 0,
    ensures
        r.value() == wrap(trunc_div(a.value(), b.value()), E::lowest(), E::highest()),
        r == E::of(wrap(trunc_div(a.value(), b.value()), E::lowest(), E::highest())),
{
    proof {
        a.lemma_in_range();
        b.lemma_in_range();
        E::lemma_limits();
    }
    let x = a.widen();
    let y = b.widen();
    let q: i128 = if x >= 0 && y > 0 {
        x / y
    } else if x < 0 && y < 0 {
        (-x) / (-y)
    } else if x < 0 {
        let m: i128 = (-x) / y;
        -m
    } else {
        let m: i128 = x / (-y);
        -m
    };
    let r = E::narrow(q);
    proof {
        lemma_of_value(r);
    }
    r
}

/// The element for zero.
pub fn zero<E: Element>() -> (r: E)
    ensures
        r.value() == 0,
        r == E::of(0),
{
    proof {
        E::lemma_limits();
        lemma_wrap_in_range(0, E::lowest(), E::highest());
    }
    let r = E::narrow(0);
    proof {
        lemma_of_value(r);
    }
    r
}

/// The element for one.
pub fn one<E: Element>() -> (r: E)
    ensures
        r.value() == 1,
        r == E::of(1),
{
    proof {
        E::lemma_limits();
        lemma_wrap_in_range(1, E::lowest(), E::highest());
    }
    let r = E::narrow(1);
    proof {
        lemma_of_value(r);
    }
    r
}

/// Product with wrapping on overflow.
pub fn wrapping_product<E: Element>(a: E, b: E) -> (r: E)
    ensures
        r.value() == wrap(a.value() * b.value(), E::lowest(), E::highest()),
        r == E::of(wrap(a.value() * b.value(), E::lowest(), E::highest())),
{
    let r = a.wrapping_mul(b);
    proof {
        lemma_of_value(r);
    }
    r
}

/// The smallest element of the type.
pub fn lowest_element<E: Element>() -> (r: E)
    ensures
        r.value() == E::lowest(),
        r == E::of(E::lowest()),
{
    let r = E::min_value();
    proof {
        lemma_of_value(r);
    }
    r
}

/// The largest element of the type.
pub fn highest_element<E: Element>() -> (r: E)
    ensures
        r.value() == E::highest(),
        r == E::of(E::highest()),
{
    let r = E::max_value();
    proof {
        lemma_of_value(r);
    }
    r
}

} // verus!
