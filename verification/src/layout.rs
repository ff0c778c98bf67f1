//! Row-major layout: how coordinates map to flat indices, and that a lane of
//! a reduction holds the entries along the reduced dimension at the
//! coordinate of its output position.

use crate::naive::kernel::{lane, lane_index};
use crate::tensor::{collapsed, inner_size, lemma_volume_concat, volume};
use vstd::prelude::*;

verus! {

/// Whether `coords` names an entry of a tensor of shape `dims`.
pub open spec fn in_bounds(dims: Seq<u32>, coords: Seq<int>) -> bool {
    &&& coords.len() == dims.len()
    &&& forall|k: int| 0 <= k < dims.len() ==> 0 <= #[trigger] coords[k] < dims[k]
}

/// The flat index of the entry at `coords` in a row-major tensor of shape
/// `dims`: the last coordinate varies fastest.
pub open spec fn flat_index(dims: Seq<u32>, coords: Seq<int>) -> int
    decreases dims.len(),
{
    if dims.len() == 0 {
        0
    } else {
        flat_index(dims.drop_last(), coords.drop_last()) * (dims.last() as int) + coords.last()
    }
}

/// Coordinates within the shape have a flat index within the volume.
pub proof fn lemma_flat_index_bounds(dims: Seq<u32>, coords: Seq<int>)
    requires
        in_bounds(dims, coords),
    ensures
        0 <= flat_index(dims, coords) < volume(dims),
    decreases dims.len(),
{
    if dims.len() > 0 {
        let rest = dims.drop_last();
        let rest_coords = coords.drop_last();
        assert(in_bounds(rest, rest_coords)) by {
            assert forall|k: int| 0 <= k < rest.len() implies 0 <= #[trigger] rest_coords[k]
                < rest[k] by {
                assert(rest_coords[k] == coords[k]);
            }
        }
        lemma_flat_index_bounds(rest, rest_coords);
        let f = flat_index(rest, rest_coords);
        let v = volume(rest) as int;
        let d = dims.last() as int;
        let c = coords.last();
        assert(0 <= c < d);
        assert(0 <= f * d + c < v * d) by (nonlinear_arith)
            requires
                0 <= f < v,
                0 <= c < d,
        ;
    }
}

/// The flat index over a shape in two parts: the index over the first part,
/// scaled by the volume of the second, plus the index over the second.
pub proof fn lemma_flat_index_concat(a: Seq<u32>, b: Seq<u32>, ca: Seq<int>, cb: Seq<int>)
    requires
        ca.len() == a.len(),
        cb.len() == b.len(),
    ensures
        flat_index(a + b, ca + cb) == flat_index(a, ca) * volume(b) + flat_index(b, cb),
    decreases b.len(),
{
    if b.len() == 0 {
        assert(a + b =~= a);
        assert(ca + cb =~= ca);
        assert(flat_index(a, ca) * 1 == flat_index(a, ca)) by (nonlinear_arith);
    } else {
        assert((a + b).drop_last() =~= a + b.drop_last());
        assert((ca + cb).drop_last() =~= ca + cb.drop_last());
        assert((a + b).last() == b.last());
        assert((ca + cb).last() == cb.last());
        lemma_flat_index_concat(a, b.drop_last(), ca, cb.drop_last());
        let fa = flat_index(a, ca);
        let fb = flat_index(b.drop_last(), cb.drop_last());
        let vb = volume(b.drop_last()) as int;
        let d = b.last() as int;
        assert((fa * vb + fb) * d == fa * (vb * d) + fb * d) by (nonlinear_arith);
    }
}

/// A lane follows its dimension: the entry at `coords` is entry `coords[dim]`
/// of the lane of the output position at the same coordinates with the
/// reduced dimension's coordinate set to zero.
pub proof fn law_lane_follows_dimension(dims: Seq<u32>, dim: int, coords: Seq<int>)
    requires
        0 <= dim < dims.len(),
        in_bounds(dims, coords),
    ensures
        in_bounds(collapsed(dims, dim), coords.update(dim, 0)),
        0 <= flat_index(collapsed(dims, dim), coords.update(dim, 0)) < volume(
            collapsed(dims, dim),
        ),
        lane_index(
            dims,
            dim,
            flat_index(collapsed(dims, dim), coords.update(dim, 0)),
            coords[dim],
        ) == flat_index(dims, coords),
{
    let out_dims = collapsed(dims, dim);
    let out_coords = coords.update(dim, 0);
    assert(in_bounds(out_dims, out_coords));
    lemma_flat_index_bounds(out_dims, out_coords);

    let head = dims.take(dim);
    let tail = dims.skip(dim + 1);
    let head_coords = coords.take(dim);
    let tail_coords = coords.skip(dim + 1);
    let n = dims[dim] as int;
    let i = coords[dim];
    let inner = inner_size(dims, dim) as int;
    assert(in_bounds(tail, tail_coords)) by {
        assert forall|k: int| 0 <= k < tail.len() implies 0 <= #[trigger] tail_coords[k]
            < tail[k] by {
            assert(tail_coords[k] == coords[k + dim + 1]);
        }
    }
    lemma_flat_index_bounds(tail, tail_coords);
    let fh = flat_index(head, head_coords);
    let ft = flat_index(tail, tail_coords);

    // the input index, part by part
    let one = seq![dims[dim]];
    let one_coords = seq![i];
    assert(dims =~= (head + one) + tail);
    assert(coords =~= (head_coords + one_coords) + tail_coords);
    lemma_flat_index_concat(head + one, tail, head_coords + one_coords, tail_coords);
    assert((head + one).drop_last() =~= head);
    assert((head_coords + one_coords).drop_last() =~= head_coords);
    assert(flat_index(head + one, head_coords + one_coords) == fh * n + i);
    assert(flat_index(dims, coords) == (fh * n + i) * inner + ft);

    // the output index, part by part
    let unit = seq![1u32];
    let zero = seq![0int];
    assert(out_dims =~= (head + unit) + tail);
    assert(out_coords =~= (head_coords + zero) + tail_coords);
    lemma_flat_index_concat(head + unit, tail, head_coords + zero, tail_coords);
    assert((head + unit).drop_last() =~= head);
    assert((head_coords + zero).drop_last() =~= head_coords);
    assert(flat_index(head + unit, head_coords + zero) == fh * 1 + 0);
    let position = flat_index(out_dims, out_coords);
    assert(position == fh * inner + ft) by {
        assert(fh * 1 + 0 == fh);
    }
    assert(0 <= ft < inner);
    vstd::arithmetic::div_mod::lemma_fundamental_div_mod_converse(position, inner, fh, ft);
    assert((fh * n + i) * inner + ft == fh * (n * inner) + i * inner + ft) by (nonlinear_arith);
}

/// The entries of a tensor along dimension `dim` at the coordinates
/// `coords`, whatever `coords` holds at `dim`.
pub open spec fn entries_along<E>(data: Seq<E>, dims: Seq<u32>, dim: int, coords: Seq<int>) -> Seq<
    E,
> {
    Seq::new(dims[dim] as nat, |i: int| data[flat_index(dims, coords.update(dim, i))])
}

/// The lane of an output position is the input's entries along the reduced
/// dimension at the position's coordinates.
pub proof fn law_lane_by_coordinates<E>(data: Seq<E>, dims: Seq<u32>, dim: int, coords: Seq<int>)
    requires
        0 <= dim < dims.len(),
        in_bounds(collapsed(dims, dim), coords),
    ensures
        lane(data, dims, dim, flat_index(collapsed(dims, dim), coords)) == entries_along(
            data,
            dims,
            dim,
            coords,
        ),
{
    let position = flat_index(collapsed(dims, dim), coords);
    let by_stride = lane(data, dims, dim, position);
    let by_coords = entries_along(data, dims, dim, coords);
    assert(coords[dim] == 0);
    assert forall|i: int| 0 <= i < dims[dim] implies by_stride[i] == by_coords[i] by {
        let at = coords.update(dim, i);
        assert(in_bounds(dims, at)) by {
            assert forall|k: int| 0 <= k < dims.len() implies 0 <= #[trigger] at[k] < dims[k] by {
                if k != dim {
                    assert(at[k] == coords[k]);
                    assert(collapsed(dims, dim)[k] == dims[k]);
                }
            }
        }
        law_lane_follows_dimension(dims, dim, at);
        assert(at.update(dim, 0) =~= coords);
    }
    assert(by_stride =~= by_coords);
}

} // verus!
