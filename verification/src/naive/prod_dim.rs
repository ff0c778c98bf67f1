//! The product of the entries.

use crate::cast::cast_from;
use crate::element::{one, wrap, wrapping_product, Element};
use crate::naive::base::ReduceDimNaive;
use crate::tensor::Tensor;
use vstd::prelude::*;

verus! {

/// Reduces a dimension to the product of its entries, wrapping on overflow.
pub struct ProdDim;

impl<EI: Element> ReduceDimNaive<EI> for ProdDim {
    /// The product of the entries so far.
    type Accumulator = EI;

    open spec fn initial() -> EI {
        EI::of(1)
    }

    open spec fn step(accumulator: EI, value: EI, index: u32) -> EI {
        EI::of(wrap(accumulator.value() * value.value(), EI::lowest(), EI::highest()))
    }

    open spec fn result(accumulator: EI, shape_reduce_dim: u32) -> int {
        accumulator.value()
    }

    open spec fn defined_for(shape_reduce_dim: u32) -> bool {
        true
    }

    fn initialize_naive() -> (accumulator: EI) {
        one()
    }

    fn inner_loop_naive(accumulator: &mut EI, current_value: EI, i: u32) {
        *accumulator = wrapping_product(*accumulator, current_value);
    }

    fn assign_naive<EO: Element>(
        output: &mut Tensor<EO>,
        accumulator: EI,
        shape_reduce_dim: u32,
        position: usize,
    ) {
        output.set(position, cast_from::<EO, EI>(accumulator));
    }

    fn is_defined_for(shape_reduce_dim: u32) -> (r: bool) {
        true
    }
}

} // verus!
