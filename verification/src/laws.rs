//! What holds of every reduction, stated over the library's spec functions.

use crate::cast::cast_value;
use crate::element::{lemma_wrap_in_range, trunc_div, Element};
use crate::naive::argmax::Argmax;
use crate::naive::argmin::Argmin;
use crate::naive::base::{reduction, scan, ReduceDimNaive};
use crate::naive::kernel::{lane, reduced, reduced_element};
use crate::naive::mean_dim::MeanDim;
use crate::naive::sum_dim::SumDim;
use crate::tensor::{collapsed, volume};
use vstd::prelude::*;

verus! {

/// Determinism: two runs of the naive strategy over the same tensor, along the
/// same dimension and with the same operation, leave the same output, element
/// for element.
pub proof fn law_determinism<RD: ReduceDimNaive<EI>, EI: Element, EO: Element>(
    data: Seq<EI>,
    dims: Seq<u32>,
    dim: int,
    first: Seq<EO>,
    second: Seq<EO>,
)
    requires
        first == reduced::<RD, EI, EO>(data, dims, dim),
        second == reduced::<RD, EI, EO>(data, dims, dim),
    ensures
        first == second,
        first.len() == volume(collapsed(dims, dim)),
        forall|p: int| 0 <= p < first.len() ==> first[p].value() == second[p].value(),
{
}

/// Isolation: two workers on different positions do not interfere. Whichever
/// runs first, the output is the same, and each position holds what its
/// worker alone would have left there, which does not depend on the output's
/// earlier contents.
pub proof fn law_isolation<RD: ReduceDimNaive<EI>, EI: Element, EO: Element>(
    data: Seq<EI>,
    dims: Seq<u32>,
    dim: int,
    output: Seq<EO>,
    p: int,
    q: int,
)
    requires
        0 <= p < output.len(),
        0 <= q < output.len(),
        p != q,
    ensures
        ({
            let at_p = reduced_element::<RD, EI, EO>(data, dims, dim, p);
            let at_q = reduced_element::<RD, EI, EO>(data, dims, dim, q);
            let p_then_q = output.update(p, at_p).update(q, at_q);
            let q_then_p = output.update(q, at_q).update(p, at_p);
            &&& p_then_q == q_then_p
            &&& p_then_q[p] == output.update(p, at_p)[p]
            &&& p_then_q[q] == output.update(q, at_q)[q]
            &&& forall|k: int| 0 <= k < output.len() && k != p && k != q ==> p_then_q[k] == output[k]
        }),
{
    let at_p = reduced_element::<RD, EI, EO>(data, dims, dim, p);
    let at_q = reduced_element::<RD, EI, EO>(data, dims, dim, q);
    assert(output.update(p, at_p).update(q, at_q) =~= output.update(q, at_q).update(p, at_p));
}

/// The accumulator of `Argmax` over a row that is not empty: the index of an
/// entry that none exceeds and that every earlier entry is below, with that
/// entry's value.
proof fn lemma_argmax_scan<EI: Element>(row: Seq<EI>)
    requires
        0 < row.len() <= 0x1_0000_0000,
    ensures
        ({
            let acc = scan::<Argmax, EI>(row);
            &&& 0 <= acc.1 < row.len()
            &&& acc.0.value() == row[acc.1 as int].value()
            &&& forall|j: int| 0 <= j < row.len() ==> row[j].value() <= acc.0.value()
            &&& forall|j: int| 0 <= j < acc.1 ==> row[j].value() < acc.0.value()
        }),
    decreases row.len(),
{
    let rest = row.drop_last();
    let last = row.last();
    last.lemma_in_range();
    EI::lemma_limits();
    EI::lemma_of(EI::lowest());
    if rest.len() == 0 {
        assert(scan::<Argmax, EI>(rest) == (EI::of(EI::lowest()), 0u32));
    } else {
        lemma_argmax_scan::<EI>(rest);
        let before = scan::<Argmax, EI>(rest);
        assert(forall|j: int| 0 <= j < rest.len() ==> rest[j] == row[j]);
    }
}

/// `Argmax` ties: over a row that is not empty, the reported index is the
/// lowest index at which the row's largest value occurs.
pub proof fn law_argmax_lowest_index<EI: Element>(row: Seq<EI>)
    requires
        0 < row.len() <= 0x1_0000_0000,
    ensures
        ({
            let index = reduction::<Argmax, EI>(row);
            &&& 0 <= index < row.len()
            &&& forall|j: int| 0 <= j < row.len() ==> row[j].value() <= row[index].value()
            &&& forall|j: int| 0 <= j < index ==> row[j].value() < row[index].value()
        }),
{
    lemma_argmax_scan::<EI>(row);
}

/// The accumulator of `Argmin` over a row that is not empty: the index of an
/// entry that none is below and that every earlier entry exceeds, with that
/// entry's value.
proof fn lemma_argmin_scan<EI: Element>(row: Seq<EI>)
    requires
        0 < row.len() <= 0x1_0000_0000,
    ensures
        ({
            let acc = scan::<Argmin, EI>(row);
            &&& 0 <= acc.1 < row.len()
            &&& acc.0.value() == row[acc.1 as int].value()
            &&& forall|j: int| 0 <= j < row.len() ==> row[j].value() >= acc.0.value()
            &&& forall|j: int| 0 <= j < acc.1 ==> row[j].value() > acc.0.value()
        }),
    decreases row.len(),
{
    let rest = row.drop_last();
    let last = row.last();
    last.lemma_in_range();
    EI::lemma_limits();
    EI::lemma_of(EI::highest());
    if rest.len() == 0 {
        assert(scan::<Argmin, EI>(rest) == (EI::of(EI::highest()), 0u32));
    } else {
        lemma_argmin_scan::<EI>(rest);
        let before = scan::<Argmin, EI>(rest);
        assert(forall|j: int| 0 <= j < rest.len() ==> rest[j] == row[j]);
    }
}

/// `Argmin` ties: over a row that is not empty, the reported index is the
/// lowest index at which the row's smallest value occurs.
pub proof fn law_argmin_lowest_index<EI: Element>(row: Seq<EI>)
    requires
        0 < row.len() <= 0x1_0000_0000,
    ensures
        ({
            let index = reduction::<Argmin, EI>(row);
            &&& 0 <= index < row.len()
            &&& forall|j: int| 0 <= j < row.len() ==> row[j].value() >= row[index].value()
            &&& forall|j: int| 0 <= j < index ==> row[j].value() > row[index].value()
        }),
{
    lemma_argmin_scan::<EI>(row);
}

/// Over a dimension of size zero `Argmax` and `Argmin` report index zero.
pub proof fn law_arg_empty<EI: Element>()
    ensures
        reduction::<Argmax, EI>(Seq::<EI>::empty()) == 0,
        reduction::<Argmin, EI>(Seq::<EI>::empty()) == 0,
{
}

/// `MeanDim` and `SumDim` accumulate alike.
pub proof fn lemma_mean_scans_as_sum<EI: Element>(row: Seq<EI>)
    ensures
        scan::<MeanDim, EI>(row) == scan::<SumDim, EI>(row),
    decreases row.len(),
{
    if row.len() > 0 {
        lemma_mean_scans_as_sum::<EI>(row.drop_last());
    }
}

/// Where the divisor is positive, rounding toward zero keeps the quotient
/// between zero and the dividend.
pub proof fn lemma_trunc_div_between(a: int, b: int)
    requires
        b > 0,
    ensures
        a >= 0 ==> 0 <= trunc_div(a, b) <= a,
        a < 0 ==> a <= trunc_div(a, b) <= 0,
{
    if a >= 0 {
        vstd::arithmetic::div_mod::lemma_div_pos_is_pos(a, b);
        vstd::arithmetic::div_mod::lemma_div_is_ordered_by_denominator(a, 1, b);
        vstd::arithmetic::div_mod::lemma_div_basics(a);
    } else {
        vstd::arithmetic::div_mod::lemma_div_pos_is_pos(-a, b);
        vstd::arithmetic::div_mod::lemma_div_is_ordered_by_denominator(-a, 1, b);
        vstd::arithmetic::div_mod::lemma_div_basics(-a);
    }
}

/// Sum and mean agree: what `MeanDim` finalizes is what `SumDim` finalizes
/// from the same accumulator, divided by the dimension's size and rounded
/// toward zero, for every size that is not zero and that the element type can
/// hold.
pub proof fn law_mean_is_sum_divided<EI: Element>(accumulator: EI, shape_reduce_dim: u32)
    requires
        0 < shape_reduce_dim <= EI::highest(),
    ensures
        <MeanDim as ReduceDimNaive<EI>>::defined_for(shape_reduce_dim),
        <MeanDim as ReduceDimNaive<EI>>::result(accumulator, shape_reduce_dim) == trunc_div(
            <SumDim as ReduceDimNaive<EI>>::result(accumulator, shape_reduce_dim),
            shape_reduce_dim as int,
        ),
{
    EI::lemma_limits();
    accumulator.lemma_in_range();
    let n = shape_reduce_dim as int;
    lemma_wrap_in_range(n, EI::lowest(), EI::highest());
    lemma_trunc_div_between(accumulator.value(), n);
    lemma_wrap_in_range(trunc_div(accumulator.value(), n), EI::lowest(), EI::highest());
}

/// Sum and mean agree for every size over which the mean is defined: what
/// `MeanDim` finalizes is what `SumDim` finalizes from the same accumulator,
/// divided by the size as the element type holds it, rounded toward zero and
/// wrapped into the element type.
pub proof fn law_mean_is_sum_divided_by_count<EI: Element>(accumulator: EI, shape_reduce_dim: u32)
    requires
        <MeanDim as ReduceDimNaive<EI>>::defined_for(shape_reduce_dim),
    ensures
        cast_value::<EI>(shape_reduce_dim as int) != 0,
        <MeanDim as ReduceDimNaive<EI>>::result(accumulator, shape_reduce_dim) == cast_value::<EI>(
            trunc_div(
                <SumDim as ReduceDimNaive<EI>>::result(accumulator, shape_reduce_dim),
                cast_value::<EI>(shape_reduce_dim as int),
            ),
        ),
{
}

/// Sum and mean agree over rows: the mean of a row is its sum divided by its
/// length and rounded toward zero, for every row that is not empty and whose
/// length the element type and the index type can hold.
pub proof fn law_mean_of_row<EI: Element>(row: Seq<EI>)
    requires
        0 < row.len() <= EI::highest(),
        row.len() <= u32::MAX,
    ensures
        reduction::<MeanDim, EI>(row) == trunc_div(
            reduction::<SumDim, EI>(row),
            row.len() as int,
        ),
{
    EI::lemma_limits();
    lemma_mean_scans_as_sum::<EI>(row);
    law_mean_is_sum_divided::<EI>(scan::<SumDim, EI>(row), row.len() as u32);
}

/// Casting an index: where the index that `Argmax` reports is no greater than
/// the largest value of the output's element type, the output element stands
/// for exactly that index, which is never negative.
pub proof fn law_argmax_cast_exact<EI: Element, EO: Element>(
    data: Seq<EI>,
    dims: Seq<u32>,
    dim: int,
    position: int,
)
    requires
        reduction::<Argmax, EI>(lane(data, dims, dim, position))
            <= EO::highest(),
    ensures
        reduced_element::<Argmax, EI, EO>(data, dims, dim, position).value() == reduction::<
            Argmax,
            EI,
        >(lane(data, dims, dim, position)),
        reduced_element::<Argmax, EI, EO>(data, dims, dim, position).value() >= 0,
{
    let index = reduction::<Argmax, EI>(lane(data, dims, dim, position));
    EO::lemma_limits();
    lemma_wrap_in_range(index, EO::lowest(), EO::highest());
    EO::lemma_of(index);
}

/// Casting in general: a result that the output's element type can hold
/// arrives unchanged.
pub proof fn law_cast_exact<EO: Element>(v: int)
    requires
        EO::lowest() <= v <= EO::highest(),
    ensures
        cast_value::<EO>(v) == v,
        EO::of(cast_value::<EO>(v)).value() == v,
{
    EO::lemma_limits();
    lemma_wrap_in_range(v, EO::lowest(), EO::highest());
    EO::lemma_of(v);
}

} // verus!
