//! The casting layer: the one place where a finalized result, held in the
//! input element type or in the index type, becomes an output element.

use crate::element::{lemma_wrap_in_range, wrap, Element};
use vstd::prelude::*;

verus! {

/// The value that `v` takes in the element type `EO`: `v` itself where `EO`
/// can hold it, else `v` wrapped into `EO`'s range.
pub open spec fn cast_value<EO: Element>(v: int) -> int {
    wrap(v, EO::lowest(), EO::highest())
}

/// Converts an element of one type into another type. The conversion is
/// total; a value that the target cannot hold wraps. A value within the
/// target's range, such as an index no greater than the target's largest
/// value, arrives unchanged and with its sign.
pub fn cast_from<EO: Element, EI: Element>(value: EI) -> (r: EO)
    ensures
        r.value() == cast_value::<EO>(value.value()),
        r == EO::of(cast_value::<EO>(value.value())),
        EO::lowest() <= value.value() <= EO::highest() ==> r.value() == value.value(),
{
    let r = EO::narrow(value.widen());
    proof {
        EO::lemma_limits();
        r.lemma_in_range();
        EO::lemma_of(r.value());
        EO::lemma_value_determines(r, EO::of(r.value()));
        if EO::lowest() <= value.value() <= EO::highest() {
            lemma_wrap_in_range(value.value(), EO::lowest(), EO::highest());
        }
    }
    r
}

} // verus!
