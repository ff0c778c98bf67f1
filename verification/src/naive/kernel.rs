//! The naive strategy itself: the work of one worker, and a whole reduction
//! as one worker per output position.

use crate::cast::cast_value;
use crate::element::Element;
use crate::naive::base::{reduction, scan, ReduceDimNaive};
use crate::tensor::{
    collapsed, inner_size, lemma_volume_parts, lemma_volume_split, outer_size, volume, Tensor,
};
use vstd::prelude::*;

verus! {

/// Why a reduction request was turned down before any worker started.
#[derive(Debug, Clone, Copy, PartialEq, Eq)]
pub enum ReduceError {
    /// The reduce dimension is not a dimension of the input.
    InvalidDimension,
    /// The output's shape is not the input's with the reduce dimension
    /// collapsed to one entry.
    ShapeMismatch,
    /// The operation has no result over a dimension of this size.
    UndefinedResult,
}

/// The flat index, in a row-major tensor of shape `dims`, of entry `i` along
/// dimension `dim` of the lane that output position `position` stands for.
pub open spec fn lane_index(dims: Seq<u32>, dim: int, position: int, i: int) -> int {
    let inner = inner_size(dims, dim) as int;
    let n = dims[dim] as int;
    (position / inner) * (n * inner) + i * inner + position % inner
}

/// The entries along dimension `dim` that output position `position` stands
/// for, from the first to the last.
pub open spec fn lane<E>(data: Seq<E>, dims: Seq<u32>, dim: int, position: int) -> Seq<E> {
    Seq::new(dims[dim] as nat, |i: int| data[lane_index(dims, dim, position, i)])
}

/// The element that a reduction leaves at output position `position`.
pub open spec fn reduced_element<RD: ReduceDimNaive<EI>, EI: Element, EO: Element>(
    data: Seq<EI>,
    dims: Seq<u32>,
    dim: int,
    position: int,
) -> EO {
    EO::of(cast_value::<EO>(reduction::<RD, EI>(lane(data, dims, dim, position))))
}

/// The whole output of a reduction: one element per coordinate of the
/// collapsed shape.
pub open spec fn reduced<RD: ReduceDimNaive<EI>, EI: Element, EO: Element>(
    data: Seq<EI>,
    dims: Seq<u32>,
    dim: int,
) -> Seq<EO> {
    Seq::new(
        volume(collapsed(dims, dim)),
        |p: int| reduced_element::<RD, EI, EO>(data, dims, dim, p),
    )
}

/// Every entry of every lane lies inside the input buffer, and a lane's
/// entries are `inner` apart.
pub proof fn lemma_lane_index_in_bounds(outer: int, n: int, inner: int, position: int, i: int)
    requires
        0 <= position < outer * inner,
        0 <= i < n,
        0 < inner,
    ensures
        0 <= position / inner < outer,
        0 <= position % inner < inner,
        n * inner <= outer * n * inner,
        0 <= (position / inner) * (n * inner),
        (position / inner) * (n * inner) + (n - 1) * inner + position % inner < outer * n * inner,
        0 <= (position / inner) * (n * inner) + i * inner + position % inner < outer * n * inner,
{
    let o = position / inner;
    let j = position % inner;
    vstd::arithmetic::div_mod::lemma_fundamental_div_mod(position, inner);
    vstd::arithmetic::div_mod::lemma_mod_bound(position, inner);
    assert(0 <= o < outer) by (nonlinear_arith)
        requires
            position == inner * o + j,
            0 <= j < inner,
            0 <= position < outer * inner,
    ;
    assert(n * inner <= outer * n * inner) by (nonlinear_arith)
        requires
            outer >= 1,
            n >= 1,
            inner >= 1,
    ;
    assert(0 <= o * (n * inner) && o * (n * inner) + n * inner <= outer * n * inner)
        by (nonlinear_arith)
        requires
            0 <= o < outer,
            n >= 1,
            inner >= 1,
    ;
    assert(0 <= i * inner && i * inner <= (n - 1) * inner && (n - 1) * inner + inner == n * inner)
        by (nonlinear_arith)
        requires
            0 <= i < n,
            inner >= 1,
    ;
}

/// The distance between neighbours along `dim`, for a tensor whose collapsed
/// shape has at least one coordinate.
fn inner_stride<E: Copy>(input: &Tensor<E>, dim: usize) -> (inner: usize)
    requires
        dim < input.dims().len(),
        0 < volume(collapsed(input.dims(), dim as int)) <= usize::MAX,
    ensures
        inner == inner_size(input.dims(), dim as int),
        inner >= 1,
{
    let rank = input.rank();
    let ghost dims = input.dims();
    let ghost c = collapsed(dims, dim as int);
    let mut inner: usize = 1;
    let mut k: usize = dim + 1;
    assert(dims.subrange(dim + 1, k as int) =~= Seq::<u32>::empty());
    while k < rank
        invariant
            dim < k <= rank,
            rank == dims.len(),
            dims == input.dims(),
            c == collapsed(dims, dim as int),
            0 < volume(c) <= usize::MAX,
            inner == volume(dims.subrange(dim + 1, k as int)),
        decreases rank - k,
    {
        proof {
            assert(dims.subrange(dim + 1, k + 1).drop_last() =~= dims.subrange(dim + 1, k as int));
            assert(dims.subrange(dim + 1, k + 1).last() == dims[k as int]);
            assert(c.subrange(dim + 1, k + 1) =~= dims.subrange(dim + 1, k + 1));
            lemma_volume_parts(c, dim + 1, k + 1);
        }
        inner = inner * (input.shape(k) as usize);
        k += 1;
    }
    proof {
        assert(dims.subrange(dim + 1, rank as int) =~= dims.skip(dim + 1));
        assert(c.subrange(dim + 1, rank as int) =~= dims.skip(dim + 1));
        lemma_volume_parts(c, dim + 1, rank as int);
    }
    inner
}

/// The work of one worker: scans the lane of `position` from its first entry
/// to its last and writes the operation's result, cast to the output's
/// element type, at `position`. The worker reads exactly the entries of its
/// lane and writes exactly one output element.
pub fn reduce_position<RD: ReduceDimNaive<EI>, EI: Element, EO: Element>(
    input: &Tensor<EI>,
    output: &mut Tensor<EO>,
    dim: usize,
    position: usize,
)
    requires
        input.wf(),
        old(output).wf(),
        dim < input.dims().len(),
        old(output).dims() == collapsed(input.dims(), dim as int),
        position < old(output)@.len(),
        RD::defined_for(input.dims()[dim as int]),
    ensures
        final(output)@ == old(output)@.update(
            position as int,
            reduced_element::<RD, EI, EO>(input@, input.dims(), dim as int, position as int),
        ),
        final(output).dims() == old(output).dims(),
        final(output).wf(),
{
    let ghost dims = input.dims();
    let ghost outer = outer_size(dims, dim as int) as int;
    let entries = input.len();
    let positions = output.len();
    proof {
        lemma_volume_split(dims, dim as int);
        assert(volume(collapsed(dims, dim as int)) == positions);
        assert(outer * input.dims()[dim as int] * inner_size(dims, dim as int) == entries);
    }
    let n = input.shape(dim);
    let inner = inner_stride(input, dim);
    let ghost row = lane(input@, dims, dim as int, position as int);
    let ghost o = (position as int) / (inner as int);
    let ghost j = (position as int) % (inner as int);
    let mut accumulator = RD::initialize_naive();
    if n > 0 {
        proof {
            lemma_lane_index_in_bounds(outer, n as int, inner as int, position as int, 0);
        }
        let row_len = (n as usize) * inner;
        let base = (position / inner) * row_len + position % inner;
        let mut i: u32 = 0;
        assert(row.take(0) =~= Seq::<EI>::empty());
        while i < n
            invariant
                i <= n,
                dim < dims.len(),
                n == dims[dim as int],
                dims == input.dims(),
                inner == inner_size(dims, dim as int),
                inner >= 1,
                0 <= position < outer * inner,
                outer * n * inner == entries,
                entries == input@.len(),
                o == (position as int) / (inner as int),
                j == (position as int) % (inner as int),
                base == o * (n * inner) + j,
                row == lane(input@, dims, dim as int, position as int),
                accumulator == scan::<RD, EI>(row.take(i as int)),
            decreases n - i,
        {
            proof {
                lemma_lane_index_in_bounds(
                    outer,
                    n as int,
                    inner as int,
                    position as int,
                    i as int,
                );
                assert(row.take(i + 1).drop_last() =~= row.take(i as int));
                assert(row.take(i + 1).last() == row[i as int]);
                assert(lane_index(dims, dim as int, position as int, i as int) == base + i * inner);
            }
            let index = base + (i as usize) * inner;
            RD::inner_loop_naive(&mut accumulator, input.get(index), i);
            i += 1;
        }
        assert(row.take(n as int) =~= row);
    } else {
        assert(row =~= Seq::<EI>::empty());
    }
    RD::assign_naive::<EO>(output, accumulator, n, position);
}

/// The reason, if any, for which a request is turned down: the first that
/// applies of an invalid dimension, a mismatched output shape, and an
/// operation without a result over the dimension's size.
pub open spec fn request_error<RD: ReduceDimNaive<EI>, EI: Element>(
    input_dims: Seq<u32>,
    output_dims: Seq<u32>,
    dim: int,
) -> Option<ReduceError> {
    if !(0 <= dim < input_dims.len()) {
        Some(ReduceError::InvalidDimension)
    } else if output_dims != collapsed(input_dims, dim) {
        Some(ReduceError::ShapeMismatch)
    } else if !RD::defined_for(input_dims[dim]) {
        Some(ReduceError::UndefinedResult)
    } else {
        None
    }
}

/// Whether `output_dims` is `input_dims` with dimension `dim` collapsed.
fn is_collapsed(input_dims: &Vec<u32>, output_dims: &Vec<u32>, dim: usize) -> (r: bool)
    requires
        dim < input_dims@.len(),
    ensures
        r == (output_dims@ == collapsed(input_dims@, dim as int)),
{
    let rank = input_dims.len();
    if output_dims.len() != rank {
        return false;
    }
    let ghost c = collapsed(input_dims@, dim as int);
    let mut k: usize = 0;
    while k < rank
        invariant
            k <= rank,
            dim < rank,
            rank == input_dims@.len(),
            rank == output_dims@.len(),
            c == collapsed(input_dims@, dim as int),
            forall|j: int| 0 <= j < k ==> output_dims@[j] == c[j],
        decreases rank - k,
    {
        let expected = if k == dim {
            1u32
        } else {
            input_dims[k]
        };
        if output_dims[k] != expected {
            assert(output_dims@[k as int] != c[k as int]);
            return false;
        }
        k += 1;
    }
    assert(output_dims@ =~= c);
    true
}

/// Reduces dimension `dim` of `input` into `output` with the operation `RD`.
///
/// The request is checked once, before any worker starts; a request that is
/// turned down leaves `output` as it was. An accepted request runs one worker
/// per output position, and each position then holds the operation's result
/// over its lane. A dimension of size zero is accepted where the operation
/// has a result over it: each position then holds the result of the fresh
/// accumulator.
pub fn reduce<RD: ReduceDimNaive<EI>, EI: Element, EO: Element>(
    input: &Tensor<EI>,
    output: &mut Tensor<EO>,
    dim: usize,
) -> (r: Result<(), ReduceError>)
    requires
        input.wf(),
        old(output).wf(),
    ensures
        r is Ok <==> request_error::<RD, EI>(input.dims(), old(output).dims(), dim as int) is None,
        r matches Err(e) ==> request_error::<RD, EI>(input.dims(), old(output).dims(), dim as int)
            == Some(e) && final(output)@ == old(output)@,
        r is Ok ==> final(output)@ == reduced::<RD, EI, EO>(input@, input.dims(), dim as int),
        r is Ok ==> final(output).dims() == collapsed(input.dims(), dim as int),
        final(output).dims() == old(output).dims(),
        final(output).wf(),
{
    if dim >= input.rank() {
        return Err(ReduceError::InvalidDimension);
    }
    if !is_collapsed(input.shape_vec(), output.shape_vec(), dim) {
        return Err(ReduceError::ShapeMismatch);
    }
    if !RD::is_defined_for(input.shape(dim)) {
        return Err(ReduceError::UndefinedResult);
    }
    let positions = output.len();
    let mut position: usize = 0;
    while position < positions
        invariant
            position <= positions,
            positions == output@.len(),
            input.wf(),
            output.wf(),
            dim < input.dims().len(),
            output.dims() == collapsed(input.dims(), dim as int),
            RD::defined_for(input.dims()[dim as int]),
            forall|q: int|
                0 <= q < position ==> output@[q] == reduced_element::<RD, EI, EO>(
                    input@,
                    input.dims(),
                    dim as int,
                    q,
                ),
        decreases positions - position,
    {
        reduce_position::<RD, EI, EO>(input, output, dim, position);
        position += 1;
    }
    assert(output@ =~= reduced::<RD, EI, EO>(input@, input.dims(), dim as int));
    Ok(())
}

} // verus!
