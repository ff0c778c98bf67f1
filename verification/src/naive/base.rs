//! What every reduction operation supplies to the naive strategy.

use crate::cast::cast_value;
use crate::element::Element;
use crate::tensor::Tensor;
use vstd::prelude::*;

verus! {

/// A reduction operation over elements of type `EI`, as the naive strategy
/// sees it: a fresh accumulator, a step per element, and a final write.
///
/// The three spec functions are the operation's meaning; the three executable
/// functions compute exactly them.
pub trait ReduceDimNaive<EI: Element> {
    /// The intermediate state that one worker carries along the dimension.
    type Accumulator;

    /// The accumulator before any element was seen.
    spec fn initial() -> Self::Accumulator;

    /// The accumulator after the element `value`, found at `index` along the
    /// reduced dimension, was seen.
    spec fn step(accumulator: Self::Accumulator, value: EI, index: u32) -> Self::Accumulator;

    /// The number that the accumulator stands for once the whole dimension,
    /// of size `shape_reduce_dim`, was seen.
    spec fn result(accumulator: Self::Accumulator, shape_reduce_dim: u32) -> int;

    /// Whether the operation has a result over a dimension of that size.
    spec fn defined_for(shape_reduce_dim: u32) -> bool;

    fn initialize_naive() -> (accumulator: Self::Accumulator)
        ensures
            accumulator == Self::initial(),
    ;

    fn inner_loop_naive(accumulator: &mut Self::Accumulator, current_value: EI, i: u32)
        ensures
            *final(accumulator) == Self::step(*old(accumulator), current_value, i),
    ;

    /// Writes the accumulator's result, cast to the output's element type, at
    /// `position`, and nothing else.
    fn assign_naive<EO: Element>(
        output: &mut Tensor<EO>,
        accumulator: Self::Accumulator,
        shape_reduce_dim: u32,
        position: usize,
    )
        requires
            position < old(output)@.len(),
            Self::defined_for(shape_reduce_dim),
        ensures
            final(output)@ == old(output)@.update(
                position as int,
                EO::of(cast_value::<EO>(Self::result(accumulator, shape_reduce_dim))),
            ),
            final(output).dims() == old(output).dims(),
    ;

    /// Whether the operation has a result over a dimension of that size.
    fn is_defined_for(shape_reduce_dim: u32) -> (r: bool)
        ensures
            r == Self::defined_for(shape_reduce_dim),
    ;
}

/// The accumulator of one worker after it has scanned `row` from its first
/// entry to its last.
pub open spec fn scan<RD: ReduceDimNaive<EI>, EI: Element>(row: Seq<EI>) -> RD::Accumulator
    decreases row.len(),
{
    if row.len() == 0 {
        RD::initial()
    } else {
        RD::step(scan::<RD, EI>(row.drop_last()), row.last(), (row.len() - 1) as u32)
    }
}

/// The number that reducing `row` gives, before it is cast to the output's
/// element type.
pub open spec fn reduction<RD: ReduceDimNaive<EI>, EI: Element>(row: Seq<EI>) -> int {
    RD::result(scan::<RD, EI>(row), row.len() as u32)
}

} // verus!
