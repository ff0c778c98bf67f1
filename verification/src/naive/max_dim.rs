//! The largest entry.

use crate::cast::cast_from;
use crate::element::{greater, lowest_element, Element};
use crate::naive::base::ReduceDimNaive;
use crate::tensor::Tensor;
use vstd::prelude::*;

verus! {

/// Reduces a dimension to its largest entry.
pub struct MaxDim;

impl<EI: Element> ReduceDimNaive<EI> for MaxDim {
    /// The largest entry so far.
    type Accumulator = EI;

    open spec fn initial() -> EI {
        EI::of(EI::lowest())
    }

    open spec fn step(accumulator: EI, value: EI, index: u32) -> EI {
        if value.value() > accumulator.value() {
            value
        } else {
            accumulator
        }
    }

    open spec fn result(accumulator: EI, shape_reduce_dim: u32) -> int {
        accumulator.value()
    }

    open spec fn defined_for(shape_reduce_dim: u32) -> bool {
        true
    }

    fn initialize_naive() -> (accumulator: EI) {
        lowest_element()
    }

    fn inner_loop_naive(accumulator: &mut EI, current_value: EI, i: u32) {
        if greater(current_value, *accumulator) {
            *accumulator = current_value;
        }
    }

    fn assign_naive<EO: Element>(
        output: &mut Tensor<EO>,
        accumulator: EI,
        shape_reduce_dim: u32,
        position: usize,
    ) {
        output.set(position, cast_from::<EO, EI>(accumulator));
    }

    fn is_defined_for(shape_reduce_dim: u32) -> (r: bool) {
        true
    }
}

} // verus!
