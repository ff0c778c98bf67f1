//! Dense tensors: a shape and a flat row-major buffer of elements.

use vstd::prelude::*;

verus! {

/// The number of elements of a tensor with the given dimension sizes.
pub open spec fn volume(dims: Seq<u32>) -> nat
    decreases dims.len(),
{
    if dims.len() == 0 {
        1
    } else {
        volume(dims.drop_last()) * (dims.last() as nat)
    }
}

/// The shape left when dimension `dim` is reduced to a single entry.
pub open spec fn collapsed(dims: Seq<u32>, dim: int) -> Seq<u32> {
    dims.update(dim, 1u32)
}

/// The number of positions that dimension `dim` is repeated over by the
/// dimensions before it.
pub open spec fn outer_size(dims: Seq<u32>, dim: int) -> nat {
    volume(dims.take(dim))
}

/// The distance, in elements, between neighbours along dimension `dim`.
pub open spec fn inner_size(dims: Seq<u32>, dim: int) -> nat {
    volume(dims.skip(dim + 1))
}

/// The volume of a concatenation is the product of the volumes.
pub proof fn lemma_volume_concat(a: Seq<u32>, b: Seq<u32>)
    ensures
        volume(a + b) == volume(a) * volume(b),
    decreases b.len(),
{
    if b.len() == 0 {
        assert(a + b =~= a);
        assert(volume(a) * 1 == volume(a)) by (nonlinear_arith);
    } else {
        assert((a + b).drop_last() =~= a + b.drop_last());
        assert((a + b).last() == b.last());
        lemma_volume_concat(a, b.drop_last());
        let x = volume(a);
        let y = volume(b.drop_last());
        let z = b.last() as nat;
        assert((x * y) * z == x * (y * z)) by (nonlinear_arith);
    }
}

/// A tensor's volume is the product of what lies before a dimension, the
/// dimension's own size, and what lies after it.
pub proof fn lemma_volume_split(dims: Seq<u32>, dim: int)
    requires
        0 <= dim < dims.len(),
    ensures
        volume(dims) == outer_size(dims, dim) * (dims[dim] as nat) * inner_size(dims, dim),
        volume(collapsed(dims, dim)) == outer_size(dims, dim) * inner_size(dims, dim),
        outer_size(collapsed(dims, dim), dim) == outer_size(dims, dim),
        inner_size(collapsed(dims, dim), dim) == inner_size(dims, dim),
{
    let head = dims.take(dim);
    let tail = dims.skip(dim + 1);
    let one = seq![dims[dim]];
    assert(dims =~= (head + one) + tail);
    lemma_volume_concat(head + one, tail);
    lemma_volume_concat(head, one);
    assert(one.drop_last() =~= Seq::<u32>::empty());
    assert(volume(one) == dims[dim] as nat) by {
        reveal_with_fuel(volume, 2);
    }
    let c = collapsed(dims, dim);
    let unit = seq![1u32];
    assert(c.take(dim) =~= head);
    assert(c.skip(dim + 1) =~= tail);
    assert(c =~= (head + unit) + tail);
    lemma_volume_concat(head + unit, tail);
    lemma_volume_concat(head, unit);
    assert(unit.drop_last() =~= Seq::<u32>::empty());
    assert(volume(unit) == 1) by {
        assert(unit.last() == 1u32);
        assert(volume(unit.drop_last()) == 1);
    }
    assert(volume(head) * 1 == volume(head)) by (nonlinear_arith);
}

/// Where every dimension is at least one, no part of the shape has a larger
/// volume than the whole.
pub proof fn lemma_volume_parts(dims: Seq<u32>, from: int, to: int)
    requires
        0 <= from <= to <= dims.len(),
        volume(dims) > 0,
    ensures
        1 <= volume(dims.subrange(from, to)) <= volume(dims),
{
    let a = dims.take(from);
    let b = dims.subrange(from, to);
    let c = dims.skip(to);
    assert(dims =~= (a + b) + c);
    lemma_volume_concat(a + b, c);
    lemma_volume_concat(a, b);
    let x = volume(a);
    let y = volume(b);
    let z = volume(c);
    assert(x * y * z > 0 ==> 1 <= y <= x * y * z) by (nonlinear_arith);
}

/// A dense tensor in row-major order.
pub struct Tensor<E> {
    shape: Vec<u32>,
    data: Vec<E>,
}

impl<E: Copy> Tensor<E> {
    /// The size of each dimension.
    pub closed spec fn dims(&self) -> Seq<u32> {
        self.shape@
    }

    /// The elements, in row-major order.
    pub closed spec fn view(&self) -> Seq<E> {
        self.data@
    }

    /// The buffer holds exactly one element per coordinate of the shape.
    pub open spec fn wf(&self) -> bool {
        self@.len() == volume(self.dims())
    }

    /// A tensor of the given shape over the given buffer, if the buffer has one
    /// element per coordinate.
    pub fn new(shape: Vec<u32>, data: Vec<E>) -> (r: Option<Self>)
        ensures
            r is Some <==> data@.len() == volume(shape@),
            r matches Some(t) ==> t.wf() && t.dims() == shape@ && t@ == data@,
    {
        if volume_is(&shape, data.len()) {
            Some(Tensor { shape, data })
        } else {
            None
        }
    }

    /// A tensor of the given shape with `value` at every coordinate, if the
    /// number of coordinates fits in a `usize`.
    pub fn filled(shape: Vec<u32>, value: E) -> (r: Option<Self>)
        ensures
            r is Some <==> volume(shape@) <= usize::MAX,
            r matches Some(t) ==> t.wf() && t.dims() == shape@ && t@ == Seq::new(
                volume(shape@),
                |i: int| value,
            ),
    {
        match volume_of(&shape) {
            Some(n) => {
                let mut data: Vec<E> = Vec::new();
                let mut k: usize = 0;
                while k < n
                    invariant
                        k <= n,
                        data@.len() == k,
                        forall|j: int| 0 <= j < k ==> data@[j] == value,
                    decreases n - k,
                {
                    data.push(value);
                    k += 1;
                }
                assert(data@ =~= Seq::new(volume(shape@), |i: int| value));
                Some(Tensor { shape, data })
            },
            None => None,
        }
    }

    /// The number of dimensions.
    pub fn rank(&self) -> (r: usize)
        ensures
            r == self.dims().len(),
    {
        self.shape.len()
    }

    /// The size of dimension `dim`.
    pub fn shape(&self, dim: usize) -> (r: u32)
        requires
            dim < self.dims().len(),
        ensures
            r == self.dims()[dim as int],
    {
        self.shape[dim]
    }

    /// The number of elements.
    pub fn len(&self) -> (r: usize)
        ensures
            r == self@.len(),
    {
        self.data.len()
    }

    /// The element at flat index `index`.
    pub fn get(&self, index: usize) -> (r: E)
        requires
            index < self@.len(),
        ensures
            r == self@[index as int],
    {
        self.data[index]
    }

    /// Replaces the element at flat index `index`.
    pub fn set(&mut self, index: usize, value: E)
        requires
            index < old(self)@.len(),
        ensures
            final(self)@ == old(self)@.update(index as int, value),
            final(self).dims() == old(self).dims(),
    {
        self.data.set(index, value);
    }

    /// The dimension sizes, as a slice of the tensor.
    pub fn shape_vec(&self) -> (r: &Vec<u32>)
        ensures
            r@ == self.dims(),
    {
        &self.shape
    }

    /// The elements in row-major order, as a slice of the tensor.
    pub fn data(&self) -> (r: &Vec<E>)
        ensures
            r@ == self@,
    {
        &self.data
    }
}

/// The number of coordinates of a shape, if a `usize` can hold it.
pub fn volume_of(shape: &Vec<u32>) -> (r: Option<usize>)
    ensures
        r is Some <==> volume(shape@) <= usize::MAX,
        r matches Some(v) ==> v == volume(shape@),
{
    let n = shape.len();
    let mut k: usize = 0;
    while k < n
        invariant
            k <= n,
            n == shape@.len(),
            forall|j: int| 0 <= j < k ==> shape@[j] != 0,
        decreases n - k,
    {
        if shape[k] == 0 {
            proof {
                lemma_volume_split(shape@, k as int);
                let o = outer_size(shape@, k as int);
                let i = inner_size(shape@, k as int);
                assert(o * 0 * i == 0) by (nonlinear_arith);
            }
            return Some(0);
        }
        k += 1;
    }
    let mut acc: usize = 1;
    let mut k: usize = 0;
    assert(shape@.take(0) =~= Seq::<u32>::empty());
    while k < n
        invariant
            k <= n,
            n == shape@.len(),
            forall|j: int| 0 <= j < n ==> shape@[j] != 0,
            acc == volume(shape@.take(k as int)),
        decreases n - k,
    {
        proof {
            assert(shape@.take(k + 1).drop_last() =~= shape@.take(k as int));
            assert(shape@.take(k + 1).last() == shape@[k as int]);
        }
        match acc.checked_mul(shape[k] as usize) {
            Some(next) => {
                acc = next;
            },
            None => {
                proof {
                    lemma_volume_prefix_grows(shape@, k + 1);
                }
                return None;
            },
        }
        k += 1;
    }
    assert(shape@.take(n as int) =~= shape@);
    Some(acc)
}

/// Whether a shape has exactly `len` coordinates.
pub fn volume_is(shape: &Vec<u32>, len: usize) -> (b: bool)
    ensures
        b == (volume(shape@) == len),
{
    match volume_of(shape) {
        Some(v) => v == len,
        None => false,
    }
}

/// The shape of the output of a reduction along `dim`: the input's shape with
/// that dimension collapsed to a single entry.
pub fn reduced_shape(shape: &Vec<u32>, dim: usize) -> (r: Option<Vec<u32>>)
    ensures
        r is Some <==> dim < shape@.len(),
        r matches Some(s) ==> s@ == collapsed(shape@, dim as int),
{
    if dim >= shape.len() {
        return None;
    }
    let n = shape.len();
    let mut out: Vec<u32> = Vec::new();
    let mut k: usize = 0;
    while k < n
        invariant
            k <= n,
            dim < n,
            n == shape@.len(),
            out@.len() == k,
            forall|j: int| 0 <= j < k ==> out@[j] == collapsed(shape@, dim as int)[j],
        decreases n - k,
    {
        if k == dim {
            out.push(1u32);
        } else {
            out.push(shape[k]);
        }
        k += 1;
    }
    assert(out@ =~= collapsed(shape@, dim as int));
    Some(out)
}

/// Where no dimension is empty, a prefix of the shape has no more
/// coordinates than the whole shape.
pub proof fn lemma_volume_prefix_grows(dims: Seq<u32>, k: int)
    requires
        0 <= k <= dims.len(),
        forall|j: int| 0 <= j < dims.len() ==> dims[j] != 0,
    ensures
        1 <= volume(dims.take(k)) <= volume(dims),
    decreases dims.len() - k,
{
    lemma_volume_positive(dims.take(k));
    if k == dims.len() {
        assert(dims.take(k) =~= dims);
    } else {
        lemma_volume_prefix_grows(dims, k + 1);
        assert(dims.take(k + 1).drop_last() =~= dims.take(k));
        let x = volume(dims.take(k));
        let d = dims[k] as nat;
        assert(x <= x * d) by (nonlinear_arith)
            requires
                d >= 1,
        ;
    }
}

/// A shape without an empty dimension has at least one coordinate.
pub proof fn lemma_volume_positive(dims: Seq<u32>)
    requires
        forall|j: int| 0 <= j < dims.len() ==> dims[j] != 0,
    ensures
        volume(dims) >= 1,
    decreases dims.len(),
{
    if dims.len() > 0 {
        lemma_volume_positive(dims.drop_last());
        let x = volume(dims.drop_last());
        let d = dims.last() as nat;
        assert(x * d >= 1) by (nonlinear_arith)
            requires
                x >= 1,
                d >= 1,
        ;
    }
}

} // verus!
