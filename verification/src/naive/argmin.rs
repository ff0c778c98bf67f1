//! The index of the smallest entry.

use crate::cast::cast_from;
use crate::element::{less, highest_element, Element};
use crate::naive::base::ReduceDimNaive;
use crate::tensor::Tensor;
use vstd::prelude::*;

verus! {

/// Reduces a dimension to the index of its smallest entry; among equal
/// entries, to the lowest index.
pub struct Argmin;

impl<EI: Element> ReduceDimNaive<EI> for Argmin {
    /// The smallest entry so far and the index it was first seen at.
    type Accumulator = (EI, u32);

    open spec fn initial() -> (EI, u32) {
        (EI::of(EI::highest()), 0u32)
    }

    open spec fn step(accumulator: (EI, u32), value: EI, index: u32) -> (EI, u32) {
        if value.value() < accumulator.0.value() {
            (value, index)
        } else {
            accumulator
        }
    }

    open spec fn result(accumulator: (EI, u32), shape_reduce_dim: u32) -> int {
        accumulator.1 as int
    }

    open spec fn defined_for(shape_reduce_dim: u32) -> bool {
        true
    }

    fn initialize_naive() -> (accumulator: (EI, u32)) {
        (highest_element(), 0u32)
    }

    fn inner_loop_naive(accumulator: &mut (EI, u32), current_value: EI, i: u32) {
        if less(current_value, accumulator.0) {
            accumulator.0 = current_value;
            accumulator.1 = i;
        }
    }

    fn assign_naive<EO: Element>(
        output: &mut Tensor<EO>,
        accumulator: (EI, u32),
        shape_reduce_dim: u32,
        position: usize,
    ) {
        let index = accumulator.1;
        output.set(position, cast_from::<EO, u32>(index));
    }

    fn is_defined_for(shape_reduce_dim: u32) -> (r: bool) {
        true
    }
}

} // verus!
