//! The mean of the entries.

use crate::cast::{cast_from, cast_value};
use crate::element::{trunc_div, wrap, wrapping_add, wrapping_div, zero, Element};
use crate::naive::base::ReduceDimNaive;
use crate::tensor::Tensor;
use vstd::prelude::*;

verus! {

/// Reduces a dimension to the mean of its entries: their wrapping sum,
/// divided by the number of entries as the element type holds it, rounded
/// toward zero.
pub struct MeanDim;

/// The mean that a sum over `shape_reduce_dim` entries stands for.
pub open spec fn mean_of<EI: Element>(sum: int, shape_reduce_dim: u32) -> int {
    wrap(
        trunc_div(sum, cast_value::<EI>(shape_reduce_dim as int)),
        EI::lowest(),
        EI::highest(),
    )
}

impl<EI: Element> ReduceDimNaive<EI> for MeanDim {
    /// The sum of the entries so far.
    type Accumulator = EI;

    open spec fn initial() -> EI {
        EI::of(0)
    }

    open spec fn step(accumulator: EI, value: EI, index: u32) -> EI {
        EI::of(wrap(accumulator.value() + value.value(), EI::lowest(), EI::highest()))
    }

    open spec fn result(accumulator: EI, shape_reduce_dim: u32) -> int {
        mean_of::<EI>(accumulator.value(), shape_reduce_dim)
    }

    /// The mean is defined where the number of entries, as the element type
    /// holds it, is not zero.
    open spec fn defined_for(shape_reduce_dim: u32) -> bool {
        cast_value::<EI>(shape_reduce_dim as int) != 0
    }

    fn initialize_naive() -> (accumulator: EI) {
        zero()
    }

    fn inner_loop_naive(accumulator: &mut EI, current_value: EI, i: u32) {
        *accumulator = wrapping_add(*accumulator, current_value);
    }

    fn assign_naive<EO: Element>(
        output: &mut Tensor<EO>,
        accumulator: EI,
        shape_reduce_dim: u32,
        position: usize,
    ) {
        let count = cast_from::<EI, u32>(shape_reduce_dim);
        let mean = wrapping_div(accumulator, count);
        output.set(position, cast_from::<EO, EI>(mean));
    }

    fn is_defined_for(shape_reduce_dim: u32) -> (r: bool) {
        cast_from::<EI, u32>(shape_reduce_dim).widen() != 0
    }
}

} // verus!
