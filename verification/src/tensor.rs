//! Strided views of a shared buffer of values, optionally masked.
//!
//! A tensor reads its buffer through an offset and one stride per axis, so
//! that reversing, transposing or broadcasting an axis changes the strides
//! and leaves the buffer alone. What a tensor *is* is its shape and the cell
//! it holds at each index of that shape.

pub mod index;

use crate::tensor::index::{
    dot, in_shape, is_shape, lemma_dot_concat, lemma_dot_insert, lemma_dot_update_index,
    lemma_dot_pointwise, lemma_dot_update_stride, lemma_dot_zero_index, lemma_dot_zero_strides,
    lemma_in_shape_skip, lemma_positive_extents, lemma_ravel_bound, lemma_row_major_skip,
    lemma_size_insert, lemma_size_nonnegative, lemma_size_positive, lemma_size_remove,
    lemma_size_suffix, lemma_size_swap, lemma_size_zero, lemma_unravel, lemma_unravel_ravel,
    ravel, row_major, size, unravel, zeros,
};
use std::sync::Arc;
use vstd::prelude::*;

verus! {

/// A strided view of a buffer of values. With a mask, the cells whose mask
/// bit is off hold no value.
#[derive(Debug)]
pub struct Tensor<T> {
    values: Arc<Vec<T>>,
    mask: Option<Arc<Vec<bool>>>,
    offset: usize,
    shape: Vec<usize>,
    strides: Vec<isize>,
}

/// The validity of the cells of a tensor, as a tensor of bits of the same shape.
#[derive(Debug)]
pub struct Mask {
    bits: Tensor<bool>,
}

/// Why a tensor cannot be given another shape.
#[derive(Debug)]
pub enum TensorError {
    /// The tensor has `found` axes where `expected` were asked for.
    Rank { expected: usize, found: usize },
    /// The shape `from` does not broadcast to the shape `to`.
    Broadcast { from: Vec<usize>, to: Vec<usize> },
    /// The shape asked for has more cells than the machine can count.
    TooLarge { shape: Vec<usize> },
}

/// The sequence with the components at `a` and `b` exchanged.
pub open spec fn swapped(s: Seq<int>, a: int, b: int) -> Seq<int> {
    s.update(a, s[b]).update(b, s[a])
}

/// The values of the cells that hold one, in the order of the cells.
pub open spec fn present<V>(cells: Seq<Option<V>>) -> Seq<V>
    decreases cells.len(),
{
    if cells.len() == 0 {
        Seq::<V>::empty()
    } else {
        match cells.last() {
            Some(v) => present(cells.drop_last()).push(v),
            None => present(cells.drop_last()),
        }
    }
}

/// The extent that two aligned axes broadcast to, if they do: the common
/// extent, or the other one where one of them is one.
pub open spec fn pair_extent(x: int, y: int) -> Option<int> {
    if x == y {
        Some(x)
    } else if x == 1 {
        Some(y)
    } else if y == 1 {
        Some(x)
    } else {
        None
    }
}

/// The extent of the axis of `shape` that lies at `j` once the shape is
/// aligned, from its last axis, in `n` axes; one where it has none there.
pub open spec fn aligned(shape: Seq<int>, n: int, j: int) -> int {
    if j >= n - shape.len() {
        shape[j - (n - shape.len())]
    } else {
        1
    }
}

/// The number of axes of the longer of two shapes.
pub open spec fn longer(a: Seq<int>, b: Seq<int>) -> int {
    if a.len() >= b.len() {
        a.len() as int
    } else {
        b.len() as int
    }
}

/// Whether two shapes broadcast to a common one.
pub open spec fn joinable(a: Seq<int>, b: Seq<int>) -> bool {
    forall|j: int|
        0 <= j < longer(a, b) ==> (#[trigger] pair_extent(
            aligned(a, longer(a, b), j),
            aligned(b, longer(a, b), j),
        )) is Some
}

/// The shape that two shapes broadcast to.
pub open spec fn joined(a: Seq<int>, b: Seq<int>) -> Seq<int> {
    Seq::new(
        longer(a, b) as nat,
        |j: int| pair_extent(aligned(a, longer(a, b), j), aligned(b, longer(a, b), j)).unwrap(),
    )
}

/// Whether a tensor of shape `from` can be repeated to fill the shape `to`:
/// `to` has at least as many axes, and each axis of `from`, aligned from the
/// last, has the extent of its counterpart or the extent one.
pub open spec fn broadcastable(from: Seq<int>, to: Seq<int>) -> bool {
    &&& from.len() <= to.len()
    &&& forall|k: int|
        0 <= k < from.len() ==> #[trigger] from[k] == to[k + to.len() - from.len()] || from[k] == 1
}

/// The index of the shape `from` that an index of a shape it was broadcast to reads.
pub open spec fn project(idx: Seq<int>, from: Seq<int>) -> Seq<int> {
    Seq::new(
        from.len(),
        |k: int|
            if from[k] == 1 {
                0
            } else {
                idx[k + idx.len() - from.len()]
            },
    )
}

/// The index that reads the same cell once the axis `axis` is reversed.
pub open spec fn mirrored(idx: Seq<int>, dims: Seq<int>, axis: int) -> Seq<int> {
    idx.update(axis, dims[axis] - 1 - idx[axis])
}

/// The extents of a shape as integers.
pub open spec fn extents(shape: Seq<usize>) -> Seq<int> {
    Seq::new(shape.len(), |k: int| shape[k] as int)
}

/// The strides of a layout as integers.
pub open spec fn steps(strides: Seq<isize>) -> Seq<int> {
    Seq::new(strides.len(), |k: int| strides[k] as int)
}

/// Another handle on the same buffer.
///
/// Calls `Arc::clone`, which hands out a new pointer to the allocation that
/// `buffer` points to: the buffer read through the result is the one read
/// through `buffer`.
#[verifier::external_body]
fn share<V>(buffer: &Arc<Vec<V>>) -> (r: Arc<Vec<V>>)
    ensures
        r == *buffer,
{
    Arc::clone(buffer)
}

fn share_mask(mask: &Option<Arc<Vec<bool>>>) -> (r: Option<Arc<Vec<bool>>>)
    ensures
        r == *mask,
{
    match mask {
        Some(m) => Some(share(m)),
        None => None,
    }
}

fn wrap_mask(mask: Option<Vec<bool>>) -> (r: Option<Arc<Vec<bool>>>)
    ensures
        match (r, mask) {
            (Some(a), Some(m)) => a@ == m@,
            (None, None) => true,
            _ => false,
        },
{
    match mask {
        Some(m) => Some(Arc::new(m)),
        None => None,
    }
}

fn copy_shape(shape: &Vec<usize>) -> (r: Vec<usize>)
    ensures
        r@ == shape@,
{
    let mut r: Vec<usize> = Vec::new();
    let mut k: usize = 0;
    while k < shape.len()
        invariant
            k <= shape.len(),
            r@ == shape@.take(k as int),
        decreases shape.len() - k,
    {
        r.push(shape[k]);
        assert(shape@.take(k + 1) =~= shape@.take(k as int).push(shape@[k as int]));
        k = k + 1;
    }
    assert(shape@.take(shape.len() as int) =~= shape@);
    r
}

fn copy_strides(strides: &Vec<isize>) -> (r: Vec<isize>)
    ensures
        r@ == strides@,
{
    let mut r: Vec<isize> = Vec::new();
    let mut k: usize = 0;
    while k < strides.len()
        invariant
            k <= strides.len(),
            r@ == strides@.take(k as int),
        decreases strides.len() - k,
    {
        r.push(strides[k]);
        assert(strides@.take(k + 1) =~= strides@.take(k as int).push(strides@[k as int]));
        k = k + 1;
    }
    assert(strides@.take(strides.len() as int) =~= strides@);
    r
}

impl<T: Copy> Tensor<T> {
    /// The extent of each axis.
    pub closed spec fn dims(&self) -> Seq<int> {
        extents(self.shape@)
    }

    /// The position in the buffer that the index reads.
    pub closed spec fn position(&self, idx: Seq<int>) -> int {
        self.offset + dot(idx, steps(self.strides@))
    }

    /// The value stored at the index, whether the mask lets it through or not.
    pub closed spec fn value(&self, idx: Seq<int>) -> T {
        self.values@[self.position(idx)]
    }

    /// Whether the cell at the index holds a value: always without a mask,
    /// and where the mask bit is on with one.
    pub closed spec fn valid(&self, idx: Seq<int>) -> bool {
        match self.mask {
            Some(m) => m@[self.position(idx)],
            None => true,
        }
    }

    /// Whether the tensor carries a mask.
    pub closed spec fn masked(&self) -> bool {
        self.mask is Some
    }

    /// The cell at the index: its value, or nothing where the mask hides it.
    pub open spec fn cell(&self, idx: Seq<int>) -> Option<T> {
        if self.valid(idx) {
            Some(self.value(idx))
        } else {
            None
        }
    }

    /// The number of cells.
    pub open spec fn count(&self) -> int {
        size(self.dims())
    }

    /// The cells in row-major order.
    pub open spec fn flat(&self) -> Seq<Option<T>> {
        Seq::new(self.count() as nat, |i: int| self.cell(unravel(i, self.dims())))
    }

    /// The validity of the cells in row-major order.
    pub open spec fn flat_valid(&self) -> Seq<bool> {
        Seq::new(self.count() as nat, |i: int| self.valid(unravel(i, self.dims())))
    }

    /// The values in row-major order, masked or not.
    pub open spec fn flat_values(&self) -> Seq<T> {
        Seq::new(self.count() as nat, |i: int| self.value(unravel(i, self.dims())))
    }

    /// The invariant of a tensor: one stride per axis, every index of the
    /// shape reads inside the buffer, a mask covers the buffer, and the
    /// number of cells is one that a buffer can have.
    pub closed spec fn wf(&self) -> bool {
        &&& self.shape.len() == self.strides.len()
        &&& size(self.dims()) <= isize::MAX
        &&& self.values@.len() <= isize::MAX
        &&& forall|idx: Seq<int>|
            in_shape(idx, self.dims()) ==> 0 <= #[trigger] self.position(idx) < self.values@.len()
        &&& match self.mask {
            Some(m) => m@.len() == self.values@.len(),
            None => true,
        }
    }

    /// The extents are those of a shape.
    pub proof fn lemma_dims(&self)
        ensures
            is_shape(self.dims()),
    {
    }

    /// A tensor over `values` in row-major order, if there are as many
    /// values as the shape has indices.
    pub fn from_vec(values: Vec<T>, shape: Vec<usize>) -> (r: Option<Tensor<T>>)
        ensures
            r is Some <==> size(extents(shape@)) == values@.len() && values@.len() <= isize::MAX,
            r matches Some(t) ==> {
                &&& t.wf()
                &&& t.dims() == extents(shape@)
                &&& !t.masked()
                &&& forall|idx: Seq<int>|
                    in_shape(idx, t.dims()) ==> #[trigger] t.cell(idx) == Some(
                        values@[ravel(idx, t.dims())],
                    )
            },
    {
        Self::standard(values, None, shape)
    }

    /// The row-major tensor over the given buffers.
    fn standard(values: Vec<T>, mask: Option<Vec<bool>>, shape: Vec<usize>) -> (r: Option<
        Tensor<T>,
    >)
        requires
            mask matches Some(m) ==> m@.len() == values@.len(),
        ensures
            r is Some <==> size(extents(shape@)) == values@.len() && values@.len() <= isize::MAX,
            r matches Some(t) ==> {
                &&& t.wf()
                &&& t.dims() == extents(shape@)
                &&& t.masked() == mask.is_some()
                &&& forall|idx: Seq<int>|
                    in_shape(idx, t.dims()) ==> 0 <= #[trigger] ravel(idx, t.dims())
                        < values@.len()
                &&& forall|idx: Seq<int>|
                    in_shape(idx, t.dims()) ==> #[trigger] t.value(idx) == values@[ravel(
                        idx,
                        t.dims(),
                    )]
                &&& forall|idx: Seq<int>|
                    in_shape(idx, t.dims()) ==> #[trigger] t.valid(idx) == (match mask {
                        Some(m) => m@[ravel(idx, t.dims())],
                        None => true,
                    })
            },
    {
        let n = shape.len();
        let len = values.len();
        let ghost dims = extents(shape@);
        if len > isize::MAX as usize {
            return None;
        }
        let mut strides: Vec<isize> = Vec::new();
        let mut zero_at: Option<usize> = None;
        let mut j: usize = 0;
        while j < n
            invariant
                n == shape.len(),
                j <= n,
                strides.len() == j,
                forall|i: int| 0 <= i < j ==> strides[i] == 0,
                match zero_at {
                    Some(z) => z < n && shape[z as int] == 0,
                    None => forall|i: int| 0 <= i < j ==> shape[i] > 0,
                },
            decreases n - j,
        {
            if shape[j] == 0 {
                zero_at = Some(j);
            }
            strides.push(0);
            j = j + 1;
        }
        match zero_at {
            Some(z) => {
                proof {
                    lemma_size_zero(dims, z as int);
                }
                if len != 0 {
                    return None;
                }
                let t = Tensor {
                    values: Arc::new(values),
                    mask: wrap_mask(mask),
                    offset: 0,
                    shape,
                    strides,
                };
                assert forall|idx: Seq<int>| in_shape(idx, t.dims()) implies false by {
                    assert(0 <= idx[z as int] < t.dims()[z as int]);
                }
                assert forall|idx: Seq<int>| in_shape(idx, t.dims()) implies 0 <= #[trigger] ravel(
                    idx,
                    t.dims(),
                ) < values@.len() by {
                    assert(0 <= idx[z as int] < t.dims()[z as int]);
                }
                Some(t)
            },
            None => {
                if len == 0 {
                    proof {
                        lemma_size_suffix(dims, 0);
                    }
                    return None;
                }
                let mut prod: usize = 1;
                let mut k: usize = n;
                assert(dims.skip(n as int) =~= Seq::<int>::empty());
                while k > 0
                    invariant
                        n == shape.len(),
                        dims == extents(shape@),
                        len == values@.len(),
                        len <= isize::MAX,
                        k <= n,
                        strides.len() == n,
                        prod == size(dims.skip(k as int)),
                        prod <= len,
                        forall|i: int| 0 <= i < n ==> #[trigger] dims[i] > 0,
                        forall|i: int|
                            k <= i < n ==> #[trigger] strides[i] == size(dims.skip(i + 1)),
                    decreases k,
                {
                    k = k - 1;
                    strides.set(k, prod as isize);
                    let d = shape[k];
                    proof {
                        assert(dims.skip(k as int).skip(1) =~= dims.skip(k + 1));
                        assert(dims.skip(k as int)[0] == d);
                        lemma_size_suffix(dims, k as int);
                        assert(size(dims.skip(k as int)) == d * prod);
                    }
                    if prod > len / d {
                        assert(d * prod > len) by (nonlinear_arith)
                            requires
                                prod > len / d,
                                d > 0,
                                len >= 0,
                        ;
                        return None;
                    }
                    assert(d * prod <= len) by (nonlinear_arith)
                        requires
                            prod <= len / d,
                            d > 0,
                            len >= 0,
                    ;
                    prod = d * prod;
                }
                assert(dims.skip(0) =~= dims);
                if prod != len {
                    return None;
                }
                let t = Tensor {
                    values: Arc::new(values),
                    mask: wrap_mask(mask),
                    offset: 0,
                    shape,
                    strides,
                };
                proof {
                    assert(steps(t.strides@) =~= row_major(dims));
                    assert forall|idx: Seq<int>| in_shape(idx, t.dims()) implies 0
                        <= #[trigger] t.position(idx) < t.values@.len() && t.position(idx)
                        == ravel(idx, t.dims()) by {
                        lemma_ravel_bound(idx, dims);
                    }
                    assert forall|idx: Seq<int>| in_shape(idx, t.dims()) implies 0
                        <= #[trigger] ravel(idx, t.dims()) < values@.len() by {
                        lemma_ravel_bound(idx, dims);
                    }
                }
                Some(t)
            },
        }
    }

    /// The number of axes.
    pub fn ndim(&self) -> (n: usize)
        ensures
            n == self.dims().len(),
    {
        self.shape.len()
    }

    /// The extent of each axis.
    pub fn shape(&self) -> (s: &Vec<usize>)
        ensures
            extents(s@) == self.dims(),
    {
        &self.shape
    }

    /// Whether the tensor carries a mask.
    pub fn is_masked(&self) -> (b: bool)
        ensures
            b == self.masked(),
    {
        self.mask.is_some()
    }
    /// A tensor that reads the buffers of `self` through another layout
    /// holds, at each of its indices, the cell of `self` that the index is
    /// sent to.
    proof fn lemma_view(&self, other: &Tensor<T>, f: spec_fn(Seq<int>) -> Seq<int>)
        requires
            self.wf(),
            other.values == self.values,
            other.mask == self.mask,
            other.shape.len() == other.strides.len(),
            size(other.dims()) <= isize::MAX,
            forall|idx: Seq<int>|
                in_shape(idx, other.dims()) ==> in_shape(#[trigger] f(idx), self.dims())
                    && other.position(idx) == self.position(f(idx)),
        ensures
            other.wf(),
            other.masked() == self.masked(),
            forall|idx: Seq<int>|
                #![trigger other.value(idx)]
                #![trigger other.valid(idx)]
                in_shape(idx, other.dims()) ==> other.value(idx) == self.value(f(idx))
                    && other.valid(idx) == self.valid(f(idx)),
    {
        assert forall|idx: Seq<int>| in_shape(idx, other.dims()) implies 0
            <= #[trigger] other.position(idx) < other.values@.len() by {
            assert(in_shape(f(idx), self.dims()));
            assert(0 <= self.position(f(idx)) < self.values@.len());
        }
        assert forall|idx: Seq<int>|
            #![trigger other.value(idx)]
            #![trigger other.valid(idx)]
            in_shape(idx, other.dims()) implies other.value(idx) == self.value(f(idx))
            && other.valid(idx) == self.valid(f(idx)) by {
            assert(in_shape(f(idx), self.dims()));
        }
    }

    /// Whether the tensor has any cell.
    pub fn has_cells(&self) -> (b: bool)
        ensures
            b == (self.count() > 0),
    {
        let mut k: usize = 0;
        while k < self.shape.len()
            invariant
                k <= self.shape.len(),
                forall|j: int| 0 <= j < k ==> self.shape[j] > 0,
            decreases self.shape.len() - k,
        {
            if self.shape[k] == 0 {
                proof {
                    lemma_size_zero(self.dims(), k as int);
                }
                return false;
            }
            k = k + 1;
        }
        proof {
            lemma_size_suffix(self.dims(), 0);
            assert(self.dims().skip(0) =~= self.dims());
        }
        true
    }

    /// The same tensor under a shape whose rank is not fixed.
    pub fn as_dyn(&self) -> (r: Tensor<T>)
        requires
            self.wf(),
        ensures
            r.wf(),
            r.dims() == self.dims(),
            r.masked() == self.masked(),
            forall|idx: Seq<int>|
                #![trigger r.value(idx)]
                #![trigger r.valid(idx)]
                in_shape(idx, r.dims()) ==> r.value(idx) == self.value(idx) && r.valid(idx)
                    == self.valid(idx),
    {
        let r = Tensor {
            values: share(&self.values),
            mask: share_mask(&self.mask),
            offset: self.offset,
            shape: copy_shape(&self.shape),
            strides: copy_strides(&self.strides),
        };
        proof {
            self.lemma_view(&r, |idx: Seq<int>| idx);
        }
        r
    }

    /// The same tensor as one of `ndim` axes, which it has to have.
    pub fn as_shape(&self, ndim: usize) -> (r: Result<Tensor<T>, TensorError>)
        requires
            self.wf(),
        ensures
            match r {
                Ok(t) => {
                    &&& ndim == self.dims().len()
                    &&& t.wf()
                    &&& t.dims() == self.dims()
                    &&& t.masked() == self.masked()
                    &&& forall|idx: Seq<int>|
                        #![trigger t.value(idx)]
                        #![trigger t.valid(idx)]
                        in_shape(idx, t.dims()) ==> t.value(idx) == self.value(idx) && t.valid(
                            idx,
                        ) == self.valid(idx)
                },
                Err(e) => {
                    &&& ndim != self.dims().len()
                    &&& e matches TensorError::Rank { expected, found }
                    &&& expected == ndim
                    &&& found == self.dims().len()
                },
            },
    {
        if self.shape.len() != ndim {
            return Err(TensorError::Rank { expected: ndim, found: self.shape.len() });
        }
        Ok(self.as_dyn())
    }

    /// The tensor with the axes `ax1` and `ax2` exchanged.
    pub fn swap_axes(&self, ax1: usize, ax2: usize) -> (r: Tensor<T>)
        requires
            self.wf(),
            ax1 < self.dims().len(),
            ax2 < self.dims().len(),
        ensures
            r.wf(),
            r.dims() == swapped(self.dims(), ax1 as int, ax2 as int),
            r.masked() == self.masked(),
            forall|idx: Seq<int>|
                #![trigger r.value(idx)]
                #![trigger r.valid(idx)]
                in_shape(idx, r.dims()) ==> r.value(idx) == self.value(
                    swapped(idx, ax1 as int, ax2 as int),
                ) && r.valid(idx) == self.valid(swapped(idx, ax1 as int, ax2 as int)),
    {
        let mut shape = copy_shape(&self.shape);
        let mut strides = copy_strides(&self.strides);
        let extent1 = self.shape[ax1];
        let extent2 = self.shape[ax2];
        let step1 = self.strides[ax1];
        let step2 = self.strides[ax2];
        shape.set(ax1, extent2);
        shape.set(ax2, extent1);
        strides.set(ax1, step2);
        strides.set(ax2, step1);
        let r = Tensor {
            values: share(&self.values),
            mask: share_mask(&self.mask),
            offset: self.offset,
            shape,
            strides,
        };
        proof {
            let a = ax1 as int;
            let b = ax2 as int;
            let old_steps = steps(self.strides@);
            assert(r.dims() =~= swapped(self.dims(), a, b));
            assert(steps(r.strides@) =~= swapped(old_steps, a, b));
            lemma_size_swap(self.dims(), a, b);
            let f = |idx: Seq<int>| swapped(idx, a, b);
            assert forall|idx: Seq<int>| in_shape(idx, r.dims()) implies in_shape(
                #[trigger] f(idx),
                self.dims(),
            ) && r.position(idx) == self.position(f(idx)) by {
                let once = idx.update(a, idx[b]);
                lemma_dot_update_index(idx, old_steps, a, idx[b]);
                lemma_dot_update_index(once, old_steps, b, idx[a]);
                let half = old_steps.update(a, old_steps[b]);
                lemma_dot_update_stride(idx, old_steps, a, old_steps[b]);
                lemma_dot_update_stride(idx, half, b, old_steps[a]);
                assert forall|k: int| 0 <= k < idx.len() implies 0 <= #[trigger] f(idx)[k]
                    < self.dims()[k] by {
                    if k == a {
                        assert(0 <= idx[b] < r.dims()[b]);
                    } else if k == b {
                        assert(0 <= idx[a] < r.dims()[a]);
                    } else {
                        assert(0 <= idx[k] < r.dims()[k]);
                    }
                }
            }
            self.lemma_view(&r, f);
        }
        r
    }

    /// The tensor with the axis `axis` reversed.
    pub fn invert_axis(&self, axis: usize) -> (r: Tensor<T>)
        requires
            self.wf(),
            axis < self.dims().len(),
        ensures
            r.wf(),
            r.dims() == self.dims(),
            r.masked() == self.masked(),
            forall|idx: Seq<int>|
                #![trigger r.value(idx)]
                #![trigger r.valid(idx)]
                in_shape(idx, r.dims()) ==> r.value(idx) == self.value(
                    mirrored(idx, self.dims(), axis as int),
                ) && r.valid(idx) == self.valid(mirrored(idx, self.dims(), axis as int)),
    {
        let extent = self.shape[axis];
        let stride = self.strides[axis];
        let mut strides = copy_strides(&self.strides);
        let mut offset = self.offset;
        let ghost ax = axis as int;
        let ghost old_steps = steps(self.strides@);
        let ghost dims = self.dims();
        let ghost n = self.shape.len() as nat;
        let mut turned: isize = 0;
        if self.has_cells() {
            proof {
                lemma_positive_extents(dims);
                let origin = zeros(n);
                let far = origin.update(ax, extent - 1);
                let near = origin.update(ax, 1int);
                assert(in_shape(origin, dims));
                assert(in_shape(far, dims));
                lemma_dot_update_index(origin, old_steps, ax, extent - 1);
                lemma_dot_update_index(origin, old_steps, ax, 1);
                assert(0 <= self.position(origin) < self.values@.len());
                assert(0 <= self.position(far) < self.values@.len());
                assert(0 * old_steps[ax] == 0);
                assert(1 * old_steps[ax] == old_steps[ax]);
                if extent >= 2 {
                    assert(in_shape(near, dims));
                    assert(0 <= self.position(near) < self.values@.len());
                }
                lemma_dot_zero_index(old_steps);
                assert(self.position(far) == self.offset + (extent - 1) * stride);
            }
            let shift: i128 = ((extent - 1) as i128) * (stride as i128);
            offset = (self.offset as i128 + shift) as usize;
            if extent >= 2 {
                turned = -stride;
            }
        }
        strides.set(axis, turned);
        let r = Tensor {
            values: share(&self.values),
            mask: share_mask(&self.mask),
            offset,
            shape: copy_shape(&self.shape),
            strides,
        };
        proof {
            let f = |idx: Seq<int>| mirrored(idx, dims, ax);
            assert(r.dims() =~= dims);
            assert(steps(r.strides@) =~= old_steps.update(ax, turned as int));
            assert forall|idx: Seq<int>| in_shape(idx, r.dims()) implies in_shape(
                #[trigger] f(idx),
                self.dims(),
            ) && r.position(idx) == self.position(f(idx)) by {
                lemma_size_positive(idx, dims);
                assert(0 <= idx[ax] < dims[ax]);
                lemma_dot_update_index(idx, old_steps, ax, extent - 1 - idx[ax]);
                lemma_dot_update_stride(idx, old_steps, ax, turned as int);
                let i = idx[ax];
                let s = stride as int;
                let e = extent as int;
                if extent >= 2 {
                    assert((e - 1) * s - i * s + i * (-s) == -(i * s) + (e - 1 - i) * s)
                        by (nonlinear_arith);
                } else {
                    assert(i == 0);
                    assert(f(idx) =~= idx);
                    assert((e - 1) * s == 0) by (nonlinear_arith)
                        requires
                            e == 1,
                    ;
                    assert(i * s == 0 && i * 0 == 0) by (nonlinear_arith)
                        requires
                            i == 0,
                    ;
                }
                assert forall|k: int| 0 <= k < idx.len() implies 0 <= #[trigger] f(idx)[k]
                    < self.dims()[k] by {
                    assert(0 <= idx[k] < dims[k]);
                }
            }
            self.lemma_view(&r, f);
        }
        r
    }

    /// The tensor with an axis of extent one put in at `axis`.
    pub fn unsqueeze(&self, axis: usize) -> (r: Tensor<T>)
        requires
            self.wf(),
            axis <= self.dims().len(),
        ensures
            r.wf(),
            r.dims() == self.dims().insert(axis as int, 1),
            r.masked() == self.masked(),
            forall|idx: Seq<int>|
                #![trigger r.value(idx)]
                #![trigger r.valid(idx)]
                in_shape(idx, r.dims()) ==> r.value(idx) == self.value(idx.remove(axis as int))
                    && r.valid(idx) == self.valid(idx.remove(axis as int)),
    {
        let mut shape = copy_shape(&self.shape);
        let mut strides = copy_strides(&self.strides);
        shape.insert(axis, 1);
        strides.insert(axis, 0);
        let r = Tensor {
            values: share(&self.values),
            mask: share_mask(&self.mask),
            offset: self.offset,
            shape,
            strides,
        };
        proof {
            let ax = axis as int;
            let old_steps = steps(self.strides@);
            assert(r.dims() =~= self.dims().insert(ax, 1));
            assert(steps(r.strides@) =~= old_steps.insert(ax, 0));
            lemma_size_insert(self.dims(), ax, 1);
            let f = |idx: Seq<int>| idx.remove(ax);
            assert forall|idx: Seq<int>| in_shape(idx, r.dims()) implies in_shape(
                #[trigger] f(idx),
                self.dims(),
            ) && r.position(idx) == self.position(f(idx)) by {
                assert(idx.remove(ax).insert(ax, idx[ax]) =~= idx);
                lemma_dot_insert(idx.remove(ax), old_steps, ax, idx[ax], 0);
                assert forall|k: int| 0 <= k < f(idx).len() implies 0 <= #[trigger] f(idx)[k]
                    < self.dims()[k] by {
                    if k < ax {
                        assert(0 <= idx[k] < r.dims()[k]);
                    } else {
                        assert(0 <= idx[k + 1] < r.dims()[k + 1]);
                    }
                }
            }
            self.lemma_view(&r, f);
        }
        r
    }

    /// The tensor without the axis `axis`, whose extent is at most one. An
    /// axis of extent zero can go only where the other axes have no cell either.
    pub fn squeeze(&self, axis: usize) -> (r: Tensor<T>)
        requires
            self.wf(),
            axis < self.dims().len(),
            self.dims()[axis as int] <= 1,
            self.dims()[axis as int] == 0 ==> size(self.dims().remove(axis as int)) == 0,
        ensures
            r.wf(),
            r.dims() == self.dims().remove(axis as int),
            r.masked() == self.masked(),
            forall|idx: Seq<int>|
                #![trigger r.value(idx)]
                #![trigger r.valid(idx)]
                in_shape(idx, r.dims()) ==> r.value(idx) == self.value(idx.insert(axis as int, 0))
                    && r.valid(idx) == self.valid(idx.insert(axis as int, 0)),
    {
        let mut shape = copy_shape(&self.shape);
        let mut strides = copy_strides(&self.strides);
        shape.remove(axis);
        strides.remove(axis);
        let r = Tensor {
            values: share(&self.values),
            mask: share_mask(&self.mask),
            offset: self.offset,
            shape,
            strides,
        };
        proof {
            let ax = axis as int;
            let old_steps = steps(self.strides@);
            assert(r.dims() =~= self.dims().remove(ax));
            assert(steps(r.strides@) =~= old_steps.remove(ax));
            lemma_size_remove(self.dims(), ax);
            let f = |idx: Seq<int>| idx.insert(ax, 0);
            assert forall|idx: Seq<int>| in_shape(idx, r.dims()) implies in_shape(
                #[trigger] f(idx),
                self.dims(),
            ) && r.position(idx) == self.position(f(idx)) by {
                lemma_size_positive(idx, r.dims());
                assert(self.dims()[ax] == 1);
                assert(old_steps.remove(ax).insert(ax, old_steps[ax]) =~= old_steps);
                lemma_dot_insert(idx, old_steps.remove(ax), ax, 0, old_steps[ax]);
                assert forall|k: int| 0 <= k < f(idx).len() implies 0 <= #[trigger] f(idx)[k]
                    < self.dims()[k] by {
                    if k < ax {
                        assert(0 <= idx[k] < r.dims()[k]);
                    } else if k > ax {
                        assert(0 <= idx[k - 1] < r.dims()[k - 1]);
                    }
                }
            }
            self.lemma_view(&r, f);
        }
        r
    }
}

impl<T: Copy> Tensor<T> {
    /// The transpose of a matrix.
    pub fn t(&self) -> (r: Tensor<T>)
        requires
            self.wf(),
            self.dims().len() == 2,
        ensures
            r.wf(),
            r.dims() == swapped(self.dims(), 0, 1),
            r.masked() == self.masked(),
            forall|idx: Seq<int>|
                #![trigger r.value(idx)]
                #![trigger r.valid(idx)]
                in_shape(idx, r.dims()) ==> r.value(idx) == self.value(swapped(idx, 0, 1))
                    && r.valid(idx) == self.valid(swapped(idx, 0, 1)),
    {
        self.swap_axes(0, 1)
    }
}

impl<T: Copy> Tensor<T> {
    /// The validity of the cells as a mask of the tensor's shape.
    pub fn mask(&self) -> (m: Mask)
        requires
            self.wf(),
        ensures
            m.wf(),
            m.dims() == self.dims(),
            forall|idx: Seq<int>|
                in_shape(idx, m.dims()) ==> #[trigger] m.bit(idx) == self.valid(idx),
    {
        let bits = match &self.mask {
            Some(m) => share(m),
            None => {
                let mut all: Vec<bool> = Vec::new();
                let mut i: usize = 0;
                while i < self.values.len()
                    invariant
                        i <= self.values.len(),
                        all.len() == i,
                        forall|j: int| 0 <= j < i ==> all[j],
                    decreases self.values.len() - i,
                {
                    all.push(true);
                    i = i + 1;
                }
                Arc::new(all)
            },
        };
        let t = Tensor {
            values: bits,
            mask: None,
            offset: self.offset,
            shape: copy_shape(&self.shape),
            strides: copy_strides(&self.strides),
        };
        proof {
            assert(t.dims() =~= self.dims());
            assert forall|idx: Seq<int>| in_shape(idx, t.dims()) implies 0
                <= #[trigger] t.position(idx) < t.values@.len() && t.position(idx)
                == self.position(idx) by {
                assert(0 <= self.position(idx) < self.values@.len());
            }
        }
        Mask { bits: t }
    }

    /// The tensor with every cell holding the value stored for it.
    pub fn drop_mask(&self) -> (r: Tensor<T>)
        requires
            self.wf(),
        ensures
            r.wf(),
            r.dims() == self.dims(),
            !r.masked(),
            forall|idx: Seq<int>|
                in_shape(idx, r.dims()) ==> #[trigger] r.cell(idx) == Some(self.value(idx)),
    {
        let r = Tensor {
            values: share(&self.values),
            mask: None,
            offset: self.offset,
            shape: copy_shape(&self.shape),
            strides: copy_strides(&self.strides),
        };
        proof {
            assert(r.dims() =~= self.dims());
            assert forall|idx: Seq<int>| in_shape(idx, r.dims()) implies 0
                <= #[trigger] r.position(idx) < r.values@.len() && r.position(idx)
                == self.position(idx) by {
                assert(0 <= self.position(idx) < self.values@.len());
            }
        }
        r
    }

    /// The tensor with `value` in the cells that the mask hides, and no mask.
    pub fn fill_masked(&self, value: T) -> (r: Tensor<T>)
        requires
            self.wf(),
        ensures
            r.wf(),
            r.dims() == self.dims(),
            !r.masked(),
            forall|idx: Seq<int>|
                in_shape(idx, r.dims()) ==> #[trigger] r.cell(idx) == Some(
                    if self.valid(idx) {
                        self.value(idx)
                    } else {
                        value
                    },
                ),
    {
        let values = match &self.mask {
            None => share(&self.values),
            Some(m) => {
                let mut filled: Vec<T> = Vec::new();
                let mut i: usize = 0;
                while i < self.values.len()
                    invariant
                        i <= self.values.len(),
                        m@.len() == self.values@.len(),
                        filled.len() == i,
                        forall|j: int|
                            0 <= j < i ==> filled[j] == (if m@[j] {
                                self.values@[j]
                            } else {
                                value
                            }),
                    decreases self.values.len() - i,
                {
                    let v = if m[i] {
                        self.values[i]
                    } else {
                        value
                    };
                    filled.push(v);
                    i = i + 1;
                }
                Arc::new(filled)
            },
        };
        let r = Tensor {
            values,
            mask: None,
            offset: self.offset,
            shape: copy_shape(&self.shape),
            strides: copy_strides(&self.strides),
        };
        proof {
            assert(r.dims() =~= self.dims());
            assert forall|idx: Seq<int>| in_shape(idx, r.dims()) implies 0
                <= #[trigger] r.position(idx) < r.values@.len() && r.position(idx)
                == self.position(idx) by {
                assert(0 <= self.position(idx) < self.values@.len());
            }
        }
        r
    }

    /// The tensor repeated along new leading axes and along axes of extent
    /// one, so as to fill the shape `to`.
    pub fn broadcast_to(&self, to: &Vec<usize>) -> (r: Result<Tensor<T>, TensorError>)
        requires
            self.wf(),
        ensures
            match r {
                Ok(t) => {
                    &&& broadcastable(self.dims(), extents(to@))
                    &&& size(extents(to@)) <= isize::MAX
                    &&& t.wf()
                    &&& t.dims() == extents(to@)
                    &&& t.masked() == self.masked()
                    &&& forall|idx: Seq<int>|
                        #![trigger t.value(idx)]
                        #![trigger t.valid(idx)]
                        in_shape(idx, t.dims()) ==> t.value(idx) == self.value(
                            project(idx, self.dims()),
                        ) && t.valid(idx) == self.valid(project(idx, self.dims()))
                },
                Err(TensorError::Broadcast { from, to: target }) => {
                    &&& !broadcastable(self.dims(), extents(to@))
                    &&& extents(from@) == self.dims()
                    &&& target@ == to@
                },
                Err(TensorError::TooLarge { shape }) => {
                    &&& broadcastable(self.dims(), extents(to@))
                    &&& size(extents(to@)) > isize::MAX
                    &&& shape@ == to@
                },
                Err(_) => false,
            },
    {
        let from_n = self.shape.len();
        let to_n = to.len();
        let ghost from = self.dims();
        let ghost target = extents(to@);
        let ghost old_steps = steps(self.strides@);
        if to_n < from_n {
            return Err(
                TensorError::Broadcast { from: copy_shape(&self.shape), to: copy_shape(to) },
            );
        }
        let lead = to_n - from_n;
        let mut strides: Vec<isize> = Vec::new();
        let mut k: usize = 0;
        while k < to_n
            invariant
                from_n == self.shape.len(),
                from_n == self.strides.len(),
                to_n == to.len(),
                lead == to_n - from_n,
                from == self.dims(),
                target == extents(to@),
                old_steps == steps(self.strides@),
                k <= to_n,
                strides.len() == k,
                forall|j: int| 0 <= j < k && j < lead ==> strides[j] == 0,
                forall|j: int|
                    lead <= j < k ==> (#[trigger] from[j - lead] == target[j] || from[j - lead]
                        == 1),
                forall|j: int|
                    lead <= j < k ==> #[trigger] strides[j] == (if from[j - lead] == target[j] {
                        old_steps[j - lead]
                    } else {
                        0
                    }),
            decreases to_n - k,
        {
            if k < lead {
                strides.push(0);
            } else {
                let extent = self.shape[k - lead];
                if to[k] == extent {
                    strides.push(self.strides[k - lead]);
                } else if extent == 1 {
                    strides.push(0);
                } else {
                    proof {
                        assert(from[k - lead] != target[k as int] && from[k - lead] != 1);
                    }
                    return Err(
                        TensorError::Broadcast {
                            from: copy_shape(&self.shape),
                            to: copy_shape(to),
                        },
                    );
                }
            }
            k = k + 1;
        }
        assert(broadcastable(from, target)) by {
            assert forall|j: int| 0 <= j < from.len() implies #[trigger] from[j] == target[j
                + target.len() - from.len()] || from[j] == 1 by {
                assert(from[(j + lead) - lead] == target[j + lead] || from[(j + lead) - lead] == 1);
            }
        }
        if !fits(to) {
            return Err(TensorError::TooLarge { shape: copy_shape(to) });
        }
        let r = Tensor {
            values: share(&self.values),
            mask: share_mask(&self.mask),
            offset: self.offset,
            shape: copy_shape(to),
            strides,
        };
        proof {
            let new_steps = steps(r.strides@);
            let f = |idx: Seq<int>| project(idx, from);
            assert(r.dims() =~= target);
            assert forall|idx: Seq<int>| in_shape(idx, r.dims()) implies in_shape(
                #[trigger] f(idx),
                self.dims(),
            ) && r.position(idx) == self.position(f(idx)) by {
                let head = idx.take(lead as int);
                let rest = idx.skip(lead as int);
                let mid = new_steps.skip(lead as int);
                assert(idx =~= head + rest);
                assert(new_steps =~= zeros(lead as nat) + mid);
                lemma_dot_concat(head, rest, zeros(lead as nat), mid);
                lemma_dot_zero_strides(head);
                assert forall|j: int| 0 <= j < rest.len() implies #[trigger] (rest[j] * mid[j])
                    == f(idx)[j] * old_steps[j] by {
                    assert(0 <= idx[j + lead] < target[j + lead]);
                    assert(from[(j + lead) - lead] == target[j + lead] || from[(j + lead) - lead]
                        == 1);
                    assert(mid[j] == new_steps[j + lead]);
                    assert(new_steps[j + lead] == r.strides[j + lead]);
                    if from[j] == 1 {
                        if target[j + lead] == 1 {
                            assert(rest[j] == 0);
                        } else {
                            assert(mid[j] == 0);
                        }
                        assert(0 * old_steps[j] == 0);
                        assert(rest[j] * mid[j] == 0) by (nonlinear_arith)
                            requires
                                rest[j] == 0 || mid[j] == 0,
                        ;
                    }
                }
                lemma_dot_pointwise(rest, mid, f(idx), old_steps);
                assert forall|j: int| 0 <= j < f(idx).len() implies 0 <= #[trigger] f(idx)[j]
                    < self.dims()[j] by {
                    assert(0 <= idx[j + lead] < target[j + lead]);
                    assert(from[j] == target[j + lead] || from[j] == 1);
                }
            }
            self.lemma_view(&r, f);
        }
        Ok(r)
    }
}

/// Whether the shape has no more cells than a buffer can have.
pub fn fits(shape: &Vec<usize>) -> (b: bool)
    ensures
        b == (size(extents(shape@)) <= isize::MAX),
{
    let n = shape.len();
    let ghost dims = extents(shape@);
    let mut j: usize = 0;
    while j < n
        invariant
            n == shape.len(),
            dims == extents(shape@),
            j <= n,
            forall|i: int| 0 <= i < j ==> shape[i] > 0,
        decreases n - j,
    {
        if shape[j] == 0 {
            proof {
                lemma_size_zero(dims, j as int);
            }
            return true;
        }
        j = j + 1;
    }
    let limit: usize = isize::MAX as usize;
    let mut prod: usize = 1;
    let mut k: usize = n;
    assert(dims.skip(n as int) =~= Seq::<int>::empty());
    while k > 0
        invariant
            n == shape.len(),
            dims == extents(shape@),
            limit == isize::MAX,
            k <= n,
            prod == size(dims.skip(k as int)),
            1 <= prod <= limit,
            forall|i: int| 0 <= i < n ==> #[trigger] dims[i] > 0,
        decreases k,
    {
        k = k - 1;
        let d = shape[k];
        proof {
            assert(dims.skip(k as int).skip(1) =~= dims.skip(k + 1));
            assert(dims.skip(k as int)[0] == d);
            lemma_size_suffix(dims, k as int);
            assert(size(dims.skip(k as int)) == d * prod);
        }
        if prod > limit / d {
            assert(d * prod > limit) by (nonlinear_arith)
                requires
                    prod > limit / d,
                    d > 0,
                    limit >= 0,
            ;
            return false;
        }
        assert(d * prod <= limit) by (nonlinear_arith)
            requires
                prod <= limit / d,
                d > 0,
                limit >= 0,
        ;
        assert(d * prod >= 1) by (nonlinear_arith)
            requires
                prod >= 1,
                d >= 1,
        ;
        prod = d * prod;
    }
    assert(dims.skip(0) =~= dims);
    true
}

impl Mask {
    /// The invariant of a mask: that of its tensor of bits.
    pub closed spec fn wf(&self) -> bool {
        self.bits.wf() && !self.bits.masked()
    }

    /// The extent of each axis.
    pub closed spec fn dims(&self) -> Seq<int> {
        self.bits.dims()
    }

    /// Whether the cell at the index holds a value.
    pub closed spec fn bit(&self, idx: Seq<int>) -> bool {
        self.bits.value(idx)
    }

    /// The bits as a tensor.
    pub fn into_tensor(self) -> (t: Tensor<bool>)
        requires
            self.wf(),
        ensures
            t.wf(),
            !t.masked(),
            t.dims() == self.dims(),
            forall|idx: Seq<int>|
                in_shape(idx, t.dims()) ==> #[trigger] t.cell(idx) == Some(self.bit(idx)),
    {
        self.bits
    }
}

impl<T: Copy> Tensor<T> {
    /// Appends, in row-major order, the values and the validity of the
    /// cells whose index starts with `prefix`.
    fn collect_into(
        &self,
        k: usize,
        lin: usize,
        Ghost(prefix): Ghost<Seq<int>>,
        vals: &mut Vec<T>,
        bits: &mut Vec<bool>,
    )
        requires
            self.wf(),
            forall|j: int| 0 <= j < self.dims().len() ==> #[trigger] self.dims()[j] > 0,
            k <= self.shape.len(),
            prefix.len() == k,
            forall|j: int| 0 <= j < k ==> 0 <= #[trigger] prefix[j] < self.dims()[j],
            lin == self.position(prefix + zeros((self.shape.len() - k) as nat)),
            old(vals).len() == old(bits).len(),
        ensures
            final(vals).len() == old(vals).len() + size(self.dims().skip(k as int)),
            final(bits).len() == final(vals).len(),
            final(vals)@.take(old(vals)@.len() as int) == old(vals)@,
            final(bits)@.take(old(bits)@.len() as int) == old(bits)@,
            forall|suffix: Seq<int>|
                in_shape(suffix, self.dims().skip(k as int)) ==> {
                    let at = old(vals)@.len() + #[trigger] ravel(
                        suffix,
                        self.dims().skip(k as int),
                    );
                    &&& final(vals)@[at] == self.value(prefix + suffix)
                    &&& final(bits)@[at] == self.valid(prefix + suffix)
                },
        decreases self.shape.len() - k,
    {
        let n = self.shape.len();
        let ghost dims = self.dims();
        let ghost tail = dims.skip(k as int);
        let ghost base = vals.len() as int;
        let ghost vals0 = vals@;
        let ghost bits0 = bits@;
        if k == n {
            proof {
                assert(prefix + zeros(0) =~= prefix);
                assert(in_shape(prefix, dims));
                assert(0 <= self.position(prefix) < self.values@.len());
                assert(tail =~= Seq::<int>::empty());
            }
            let bit = match &self.mask {
                Some(m) => m[lin],
                None => true,
            };
            vals.push(self.values[lin]);
            bits.push(bit);
            proof {
                assert(vals@.take(base) =~= vals0);
                assert(bits@.take(base) =~= bits0);
                assert forall|suffix: Seq<int>| in_shape(suffix, tail) implies {
                    let at = base + #[trigger] ravel(suffix, tail);
                    &&& vals@[at] == self.value(prefix + suffix)
                    &&& bits@[at] == self.valid(prefix + suffix)
                } by {
                    assert(suffix =~= Seq::<int>::empty());
                    assert(prefix + suffix =~= prefix);
                }
            }
        } else {
            let extent = self.shape[k];
            let step = self.strides[k];
            let ghost inner = size(dims.skip(k + 1));
            let ghost rest = (n - k - 1) as nat;
            let ghost old_steps = steps(self.strides@);
            proof {
                assert(tail.skip(1) =~= dims.skip(k + 1));
                assert(tail[0] == extent);
                lemma_row_major_skip(tail);
                assert(prefix.push(0) + zeros(rest) =~= prefix + zeros((n - k) as nat));
                assert(0 * inner == 0);
                lemma_size_suffix(dims, k + 1);
            }
            proof {
                assert(vals@.take(base) =~= vals0);
                assert(bits@.take(base) =~= bits0);
            }
            let mut c: usize = 0;
            let mut cur: usize = lin;
            while c < extent
                invariant
                    self.wf(),
                    forall|j: int| 0 <= j < self.dims().len() ==> #[trigger] self.dims()[j] > 0,
                    n == self.shape.len(),
                    k < n,
                    dims == self.dims(),
                    tail == dims.skip(k as int),
                    tail.skip(1) == dims.skip(k + 1),
                    inner == size(dims.skip(k + 1)),
                    inner >= 1,
                    rest == (n - k - 1) as nat,
                    old_steps == steps(self.strides@),
                    row_major(tail)[0] == inner,
                    row_major(tail).skip(1) == row_major(tail.skip(1)),
                    prefix.len() == k,
                    forall|j: int| 0 <= j < k ==> 0 <= #[trigger] prefix[j] < self.dims()[j],
                    extent == self.shape[k as int],
                    step == self.strides[k as int],
                    c <= extent,
                    vals.len() == base + c * inner,
                    bits.len() == vals.len(),
                    base == vals0.len(),
                    vals0.len() == bits0.len(),
                    vals@.take(base) == vals0,
                    bits@.take(base) == bits0,
                    forall|suffix: Seq<int>|
                        in_shape(suffix, tail) && suffix[0] < c ==> {
                            let at = base + #[trigger] ravel(suffix, tail);
                            &&& vals@[at] == self.value(prefix + suffix)
                            &&& bits@[at] == self.valid(prefix + suffix)
                        },
                    c < extent ==> cur == self.position(prefix.push(c as int) + zeros(rest)),
                decreases extent - c,
            {
                let ghost before_v = vals@;
                let ghost before_b = bits@;
                let ghost head = prefix.push(c as int);
                self.collect_into(k + 1, cur, Ghost(head), vals, bits);
                proof {
                    assert((c + 1) * inner == c * inner + inner) by (nonlinear_arith);
                    assert(c * inner >= 0) by (nonlinear_arith)
                        requires
                            c >= 0,
                            inner >= 1,
                    ;
                    assert(vals@.take(base) =~= before_v.take(base)) by {
                        assert(vals@.take(before_v.len() as int) == before_v);
                        assert forall|i: int| 0 <= i < base implies vals@[i] == before_v[i] by {
                            assert(vals@.take(before_v.len() as int)[i] == vals@[i]);
                        }
                    }
                    assert(bits@.take(base) =~= before_b.take(base)) by {
                        assert(bits@.take(before_b.len() as int) == before_b);
                        assert forall|i: int| 0 <= i < base implies bits@[i] == before_b[i] by {
                            assert(bits@.take(before_b.len() as int)[i] == bits@[i]);
                        }
                    }
                    assert forall|suffix: Seq<int>|
                        in_shape(suffix, tail) && suffix[0] < c + 1 implies {
                        let at = base + #[trigger] ravel(suffix, tail);
                        &&& vals@[at] == self.value(prefix + suffix)
                        &&& bits@[at] == self.valid(prefix + suffix)
                    } by {
                        lemma_in_shape_skip(suffix, tail);
                        let inner_suffix = suffix.skip(1);
                        lemma_ravel_bound(inner_suffix, tail.skip(1));
                        let r = ravel(inner_suffix, tail.skip(1));
                        assert(ravel(suffix, tail) == suffix[0] * inner + r);
                        if suffix[0] < c {
                            assert(suffix[0] * inner + r < c * inner) by (nonlinear_arith)
                                requires
                                    0 <= suffix[0] < c,
                                    0 <= r < inner,
                            ;
                            assert(0 <= suffix[0] * inner) by (nonlinear_arith)
                                requires
                                    0 <= suffix[0],
                                    0 <= inner,
                            ;
                            let at = base + ravel(suffix, tail);
                            assert(before_v[at] == self.value(prefix + suffix));
                            assert(vals@.take(before_v.len() as int)[at] == vals@[at]);
                            assert(bits@.take(before_b.len() as int)[at] == bits@[at]);
                        } else {
                            assert(suffix[0] == c);
                            assert(head + inner_suffix =~= prefix + suffix);
                            assert(in_shape(inner_suffix, dims.skip(k + 1)));
                            assert(ravel(inner_suffix, dims.skip(k + 1)) == r);
                        }
                    }
                }
                if c + 1 < extent {
                    proof {
                        let here = head + zeros(rest);
                        let next = prefix.push(c + 1) + zeros(rest);
                        assert(next =~= here.update(k as int, c + 1));
                        assert(here[k as int] == c);
                        lemma_dot_update_index(here, old_steps, k as int, c + 1);
                        assert(in_shape(next, dims)) by {
                            assert forall|j: int| 0 <= j < next.len() implies 0 <= #[trigger] next[j]
                                < dims[j] by {
                                if j < k {
                                    assert(0 <= prefix[j] < dims[j]);
                                } else {
                                    assert(dims[j] > 0);
                                }
                            }
                        }
                        assert(0 <= self.position(next) < self.values@.len());
                        assert((c + 1) * step - c * step == step) by (nonlinear_arith);
                        assert(self.position(next) == cur + step);
                    }
                    cur = (cur as i128 + step as i128) as usize;
                }
                c = c + 1;
            }
            proof {
                assert(size(tail) == extent * inner);
                assert(extent * inner == c * inner);
            }
        }
    }

    /// The values and the validity of the cells, in row-major order.
    pub fn gather(&self) -> (r: (Vec<T>, Vec<bool>))
        requires
            self.wf(),
        ensures
            r.0@ == self.flat_values(),
            r.1@ == self.flat_valid(),
    {
        let mut vals: Vec<T> = Vec::new();
        let mut bits: Vec<bool> = Vec::new();
        let ghost dims = self.dims();
        proof {
            lemma_size_nonnegative(dims);
        }
        if !self.has_cells() {
            assert(vals@ =~= self.flat_values());
            assert(bits@ =~= self.flat_valid());
            return (vals, bits);
        }
        proof {
            lemma_positive_extents(dims);
            let origin = Seq::<int>::empty() + zeros(self.shape.len() as nat);
            assert(origin =~= zeros(self.shape.len() as nat));
            lemma_dot_zero_index(steps(self.strides@));
            assert(dims.skip(0) =~= dims);
        }
        self.collect_into(0, self.offset, Ghost(Seq::<int>::empty()), &mut vals, &mut bits);
        proof {
            assert forall|i: int| 0 <= i < self.count() implies #[trigger] vals@[i]
                == self.flat_values()[i] by {
                lemma_unravel(i, dims);
                let idx = unravel(i, dims);
                assert(Seq::<int>::empty() + idx =~= idx);
                assert(ravel(idx, dims.skip(0)) == i);
            }
            assert forall|i: int| 0 <= i < self.count() implies #[trigger] bits@[i]
                == self.flat_valid()[i] by {
                lemma_unravel(i, dims);
                let idx = unravel(i, dims);
                assert(Seq::<int>::empty() + idx =~= idx);
                assert(ravel(idx, dims.skip(0)) == i);
            }
            assert(vals@ =~= self.flat_values());
            assert(bits@ =~= self.flat_valid());
        }
        (vals, bits)
    }

    /// The cells in row-major order.
    pub fn flat_cells(&self) -> (cells: Vec<Option<T>>)
        requires
            self.wf(),
        ensures
            cells@ == self.flat(),
    {
        let (vals, bits) = self.gather();
        let mut cells: Vec<Option<T>> = Vec::new();
        let mut i: usize = 0;
        while i < vals.len()
            invariant
                i <= vals.len(),
                vals.len() == bits.len(),
                vals@ == self.flat_values(),
                bits@ == self.flat_valid(),
                cells.len() == i,
                forall|j: int| 0 <= j < i ==> cells[j] == self.flat()[j],
            decreases vals.len() - i,
        {
            let cell = if bits[i] {
                Some(vals[i])
            } else {
                None
            };
            cells.push(cell);
            i = i + 1;
        }
        assert(cells@ =~= self.flat());
        cells
    }
}

/// Something that says which cells of a shape hold a value.
pub trait AsMask {
    /// What `as_mask` asks of the value.
    spec fn mask_wf(&self) -> bool;

    /// The extent of each axis.
    spec fn mask_dims(&self) -> Seq<int>;

    /// Whether the cell at the index holds a value.
    spec fn mask_bit(&self, idx: Seq<int>) -> bool;

    /// The mask that the value stands for.
    fn as_mask(&self) -> (m: Mask)
        requires
            self.mask_wf(),
        ensures
            m.wf(),
            m.dims() == self.mask_dims(),
            forall|idx: Seq<int>|
                in_shape(idx, m.dims()) ==> #[trigger] m.bit(idx) == self.mask_bit(idx),
    ;
}

impl AsMask for Tensor<bool> {
    open spec fn mask_wf(&self) -> bool {
        self.wf()
    }

    open spec fn mask_dims(&self) -> Seq<int> {
        self.dims()
    }

    /// A cell of a tensor of bits is on where it holds the value `true`.
    open spec fn mask_bit(&self, idx: Seq<int>) -> bool {
        self.cell(idx) == Some(true)
    }

    fn as_mask(&self) -> (m: Mask) {
        let values = match &self.mask {
            None => share(&self.values),
            Some(hidden) => {
                let mut bits: Vec<bool> = Vec::new();
                let mut i: usize = 0;
                while i < self.values.len()
                    invariant
                        i <= self.values.len(),
                        hidden@.len() == self.values@.len(),
                        bits.len() == i,
                        forall|j: int| 0 <= j < i ==> bits[j] == (self.values@[j] && hidden@[j]),
                    decreases self.values.len() - i,
                {
                    bits.push(self.values[i] && hidden[i]);
                    i = i + 1;
                }
                Arc::new(bits)
            },
        };
        let t = Tensor {
            values,
            mask: None,
            offset: self.offset,
            shape: copy_shape(&self.shape),
            strides: copy_strides(&self.strides),
        };
        proof {
            assert(t.dims() =~= self.dims());
            assert forall|idx: Seq<int>| in_shape(idx, t.dims()) implies 0
                <= #[trigger] t.position(idx) < t.values@.len() && t.position(idx)
                == self.position(idx) by {
                assert(0 <= self.position(idx) < self.values@.len());
            }
        }
        Mask { bits: t }
    }
}

impl AsMask for Mask {
    open spec fn mask_wf(&self) -> bool {
        self.wf()
    }

    open spec fn mask_dims(&self) -> Seq<int> {
        self.dims()
    }

    open spec fn mask_bit(&self, idx: Seq<int>) -> bool {
        self.bit(idx)
    }

    fn as_mask(&self) -> (m: Mask) {
        Mask { bits: self.bits.as_dyn() }
    }
}

impl<T: Copy> Tensor<T> {
    /// The row-major tensor of the given shape over values and validity
    /// that are listed in row-major order.
    fn pack(vals: Vec<T>, bits: Option<Vec<bool>>, shape: Vec<usize>) -> (r: Tensor<T>)
        requires
            vals@.len() == size(extents(shape@)),
            vals@.len() <= isize::MAX,
            bits matches Some(b) ==> b@.len() == vals@.len(),
        ensures
            r.wf(),
            r.dims() == extents(shape@),
            r.masked() == bits.is_some(),
            r.flat_values() == vals@,
            bits matches Some(b) ==> r.flat_valid() == b@,
            forall|idx: Seq<int>|
                in_shape(idx, r.dims()) ==> 0 <= #[trigger] ravel(idx, r.dims()) < vals@.len(),
            forall|idx: Seq<int>|
                in_shape(idx, r.dims()) ==> #[trigger] r.value(idx) == vals@[ravel(idx, r.dims())],
            forall|idx: Seq<int>|
                in_shape(idx, r.dims()) ==> #[trigger] r.valid(idx) == (match bits {
                    Some(b) => b@[ravel(idx, r.dims())],
                    None => true,
                }),
    {
        let ghost listed = bits;
        let r = Self::standard(vals, bits, shape).unwrap();
        proof {
            let dims = r.dims();
            assert forall|i: int| 0 <= i < r.count() implies #[trigger] r.flat_values()[i]
                == vals@[i] by {
                lemma_unravel(i, dims);
            }
            assert(r.flat_values() =~= vals@);
            if let Some(b) = listed {
                assert forall|i: int| 0 <= i < r.count() implies #[trigger] r.flat_valid()[i]
                    == b@[i] by {
                    lemma_unravel(i, dims);
                }
                assert(r.flat_valid() =~= b@);
            }
        }
        r
    }

    /// The cell that stands at a row-major number is the cell of the index
    /// with that number.
    proof fn lemma_flat(&self, idx: Seq<int>)
        requires
            in_shape(idx, self.dims()),
        ensures
            0 <= ravel(idx, self.dims()) < self.count(),
            self.flat_values()[ravel(idx, self.dims())] == self.value(idx),
            self.flat_valid()[ravel(idx, self.dims())] == self.valid(idx),
            self.flat()[ravel(idx, self.dims())] == self.cell(idx),
    {
        lemma_ravel_bound(idx, self.dims());
        lemma_unravel_ravel(idx, self.dims());
    }

    /// The cells of the tensor in row-major order, under another shape with
    /// as many cells.
    pub fn reshape(&self, shape: &Vec<usize>) -> (r: Tensor<T>)
        requires
            self.wf(),
            size(extents(shape@)) == self.count(),
        ensures
            r.wf(),
            r.dims() == extents(shape@),
            r.masked() == self.masked(),
            r.flat_values() == self.flat_values(),
            r.flat_valid() == self.flat_valid(),
            r.flat() == self.flat(),
    {
        let (vals, bits) = self.gather();
        let bits = if self.mask.is_some() {
            Some(bits)
        } else {
            None
        };
        proof {
            lemma_size_nonnegative(self.dims());
        }
        let r = Self::pack(vals, bits, copy_shape(shape));
        proof {
            if !self.masked() {
                assert(r.flat_valid() =~= self.flat_valid());
            }
            assert forall|i: int| 0 <= i < self.count() implies #[trigger] r.flat()[i]
                == self.flat()[i] by {
                assert(r.flat_values()[i] == self.flat_values()[i]);
                assert(r.flat_valid()[i] == self.flat_valid()[i]);
            }
            assert(r.flat() =~= self.flat());
        }
        r
    }

    /// The cells of the tensor in row-major order, along a single axis.
    pub fn flatten(&self) -> (r: Tensor<T>)
        requires
            self.wf(),
        ensures
            r.wf(),
            r.dims() == seq![self.count()],
            r.masked() == self.masked(),
            r.flat_values() == self.flat_values(),
            r.flat_valid() == self.flat_valid(),
            r.flat() == self.flat(),
    {
        let (vals, bits) = self.gather();
        let bits = if self.mask.is_some() {
            Some(bits)
        } else {
            None
        };
        let mut shape: Vec<usize> = Vec::new();
        shape.push(vals.len());
        proof {
            lemma_size_nonnegative(self.dims());
            let dims = extents(shape@);
            assert(dims =~= seq![self.count()]);
            assert(dims.skip(1) =~= Seq::<int>::empty());
            assert(size(dims.skip(1)) == 1);
            assert(size(dims) == dims[0] * size(dims.skip(1)));
            assert(size(dims) == vals@.len());
        }
        let r = Self::pack(vals, bits, shape);
        proof {
            if !self.masked() {
                assert(r.flat_valid() =~= self.flat_valid());
            }
            assert forall|i: int| 0 <= i < self.count() implies #[trigger] r.flat()[i]
                == self.flat()[i] by {
                assert(r.flat_values()[i] == self.flat_values()[i]);
                assert(r.flat_valid()[i] == self.flat_valid()[i]);
            }
            assert(r.flat() =~= self.flat());
        }
        r
    }

    /// The values of the cells that hold one, in row-major order, along a single axis.
    pub fn compress(&self) -> (r: Tensor<T>)
        requires
            self.wf(),
        ensures
            r.wf(),
            !r.masked(),
            r.dims() == seq![present(self.flat()).len() as int],
            r.flat_values() == present(self.flat()),
    {
        let (vals, bits) = self.gather();
        let ghost cells = self.flat();
        let mut picked: Vec<T> = Vec::new();
        let mut i: usize = 0;
        proof {
            lemma_size_nonnegative(self.dims());
            assert(cells.take(0) =~= Seq::<Option<T>>::empty());
        }
        while i < vals.len()
            invariant
                i <= vals.len(),
                vals.len() == bits.len(),
                vals@ == self.flat_values(),
                bits@ == self.flat_valid(),
                cells == self.flat(),
                cells.len() == vals.len(),
                picked.len() <= i,
                picked@ == present(cells.take(i as int)),
            decreases vals.len() - i,
        {
            proof {
                assert(cells.take(i + 1).drop_last() =~= cells.take(i as int));
                assert(cells.take(i + 1).last() == cells[i as int]);
            }
            if bits[i] {
                picked.push(vals[i]);
            }
            i = i + 1;
        }
        let mut shape: Vec<usize> = Vec::new();
        shape.push(picked.len());
        proof {
            assert(cells.take(vals.len() as int) =~= cells);
            let dims = extents(shape@);
            assert(dims =~= seq![picked.len() as int]);
            assert(dims.skip(1) =~= Seq::<int>::empty());
            assert(size(dims) == dims[0] * size(dims.skip(1)));
        }
        Self::pack(picked, None, shape)
    }

    /// The tensor with the values stored for its cells, and with `mask`
    /// deciding which cells hold theirs.
    pub fn with_mask<M: AsMask>(&self, mask: &M) -> (r: Tensor<T>)
        requires
            self.wf(),
            mask.mask_wf(),
            mask.mask_dims() == self.dims(),
        ensures
            r.wf(),
            r.dims() == self.dims(),
            r.masked(),
            forall|idx: Seq<int>|
                #![trigger r.value(idx)]
                #![trigger r.valid(idx)]
                in_shape(idx, r.dims()) ==> r.value(idx) == self.value(idx) && r.valid(idx)
                    == mask.mask_bit(idx),
    {
        let m = mask.as_mask();
        let (vals, _) = self.gather();
        let (bits, _) = m.bits.gather();
        proof {
            lemma_size_nonnegative(self.dims());
        }
        let r = Self::pack(vals, Some(bits), copy_shape(&self.shape));
        proof {
            assert(r.dims() =~= self.dims());
            assert forall|idx: Seq<int>|
                #![trigger r.value(idx)]
                #![trigger r.valid(idx)]
                in_shape(idx, r.dims()) implies r.value(idx) == self.value(idx) && r.valid(idx)
                == mask.mask_bit(idx) by {
                self.lemma_flat(idx);
                m.bits.lemma_flat(idx);
                assert(m.bit(idx) == mask.mask_bit(idx));
            }
        }
        r
    }

    /// This tensor and `other`, each repeated so as to fill the shape that
    /// their two shapes broadcast to.
    pub fn broadcast_with<U: Copy>(&self, other: &Tensor<U>) -> (r: Result<
        (Tensor<T>, Tensor<U>),
        TensorError,
    >)
        requires
            self.wf(),
            other.wf(),
        ensures
            match r {
                Ok((a, b)) => {
                    &&& joinable(self.dims(), other.dims())
                    &&& size(joined(self.dims(), other.dims())) <= isize::MAX
                    &&& a.wf()
                    &&& b.wf()
                    &&& a.dims() == joined(self.dims(), other.dims())
                    &&& b.dims() == joined(self.dims(), other.dims())
                    &&& a.masked() == self.masked()
                    &&& b.masked() == other.masked()
                    &&& forall|idx: Seq<int>|
                        #![trigger a.value(idx)]
                        #![trigger a.valid(idx)]
                        in_shape(idx, a.dims()) ==> a.value(idx) == self.value(
                            project(idx, self.dims()),
                        ) && a.valid(idx) == self.valid(project(idx, self.dims()))
                    &&& forall|idx: Seq<int>|
                        #![trigger b.value(idx)]
                        #![trigger b.valid(idx)]
                        in_shape(idx, b.dims()) ==> b.value(idx) == other.value(
                            project(idx, other.dims()),
                        ) && b.valid(idx) == other.valid(project(idx, other.dims()))
                },
                Err(TensorError::Broadcast { from, to }) => {
                    &&& !joinable(self.dims(), other.dims())
                    &&& extents(from@) == self.dims()
                    &&& extents(to@) == other.dims()
                },
                Err(TensorError::TooLarge { shape }) => {
                    &&& joinable(self.dims(), other.dims())
                    &&& extents(shape@) == joined(self.dims(), other.dims())
                    &&& size(joined(self.dims(), other.dims())) > isize::MAX
                },
                Err(_) => false,
            },
    {
        let la = self.shape.len();
        let lb = other.shape.len();
        let n = if la >= lb {
            la
        } else {
            lb
        };
        let ghost a = self.dims();
        let ghost b = other.dims();
        let mut shape: Vec<usize> = Vec::new();
        let mut j: usize = 0;
        while j < n
            invariant
                la == self.shape.len(),
                lb == other.shape.len(),
                a == self.dims(),
                b == other.dims(),
                n == longer(a, b),
                j <= n,
                shape.len() == j,
                forall|i: int|
                    0 <= i < j ==> (#[trigger] pair_extent(aligned(a, n as int, i), aligned(b, n as int, i)))
                        == Some(shape[i] as int),
            decreases n - j,
        {
            let x: usize = if j >= n - la {
                self.shape[j - (n - la)]
            } else {
                1
            };
            let y: usize = if j >= n - lb {
                other.shape[j - (n - lb)]
            } else {
                1
            };
            if x == y || y == 1 {
                shape.push(x);
            } else if x == 1 {
                shape.push(y);
            } else {
                proof {
                    assert(pair_extent(aligned(a, n as int, j as int), aligned(b, n as int, j as int))
                        is None);
                }
                return Err(
                    TensorError::Broadcast {
                        from: copy_shape(&self.shape),
                        to: copy_shape(&other.shape),
                    },
                );
            }
            j = j + 1;
        }
        proof {
            assert(extents(shape@) =~= joined(a, b));
            assert(joinable(a, b));
            assert(broadcastable(a, extents(shape@))) by {
                assert forall|k: int| 0 <= k < a.len() implies #[trigger] a[k] == extents(
                    shape@,
                )[k + n - a.len()] || a[k] == 1 by {
                    let i = k + n - a.len();
                    assert(pair_extent(aligned(a, n as int, i), aligned(b, n as int, i)) == Some(
                        shape[i] as int,
                    ));
                }
            }
            assert(broadcastable(b, extents(shape@))) by {
                assert forall|k: int| 0 <= k < b.len() implies #[trigger] b[k] == extents(
                    shape@,
                )[k + n - b.len()] || b[k] == 1 by {
                    let i = k + n - b.len();
                    assert(pair_extent(aligned(a, n as int, i), aligned(b, n as int, i)) == Some(
                        shape[i] as int,
                    ));
                }
            }
        }
        let first = match self.broadcast_to(&shape) {
            Ok(t) => t,
            Err(_) => {
                return Err(TensorError::TooLarge { shape });
            },
        };
        let second = match other.broadcast_to(&shape) {
            Ok(t) => t,
            Err(_) => {
                return Err(TensorError::TooLarge { shape });
            },
        };
        Ok((first, second))
    }
}

impl Tensor<i32> {
    /// Where the cells of two tensors of one shape agree: a cell of the
    /// result holds `true` where the two cells hold the same value or both
    /// hold none, and `false` elsewhere.
    pub fn eq(&self, other: &Tensor<i32>) -> (r: Tensor<bool>)
        requires
            self.wf(),
            other.wf(),
            self.dims() == other.dims(),
        ensures
            r.wf(),
            r.dims() == self.dims(),
            !r.masked(),
            forall|idx: Seq<int>|
                in_shape(idx, r.dims()) ==> #[trigger] r.cell(idx) == Some(
                    self.cell(idx) == other.cell(idx),
                ),
    {
        let (va, ba) = self.gather();
        let (vb, bb) = other.gather();
        let mut same: Vec<bool> = Vec::new();
        let mut i: usize = 0;
        while i < va.len()
            invariant
                i <= va.len(),
                va.len() == ba.len(),
                va.len() == vb.len(),
                va.len() == bb.len(),
                va@ == self.flat_values(),
                ba@ == self.flat_valid(),
                vb@ == other.flat_values(),
                bb@ == other.flat_valid(),
                same.len() == i,
                forall|j: int| 0 <= j < i ==> same[j] == (self.flat()[j] == other.flat()[j]),
            decreases va.len() - i,
        {
            let agree = if ba[i] && bb[i] {
                va[i] == vb[i]
            } else {
                !ba[i] && !bb[i]
            };
            same.push(agree);
            i = i + 1;
        }
        proof {
            lemma_size_nonnegative(self.dims());
        }
        let r = Tensor::<bool>::pack(same, None, copy_shape(&self.shape));
        proof {
            assert(r.dims() =~= self.dims());
            assert forall|idx: Seq<int>| in_shape(idx, r.dims()) implies #[trigger] r.cell(idx)
                == Some(self.cell(idx) == other.cell(idx)) by {
                self.lemma_flat(idx);
                other.lemma_flat(idx);
            }
        }
        r
    }
}

impl Tensor<bool> {
    /// Whether no cell holds `false`.
    pub fn all(&self) -> (r: bool)
        requires
            self.wf(),
        ensures
            r == (forall|idx: Seq<int>|
                in_shape(idx, self.dims()) ==> #[trigger] self.cell(idx) != Some(false)),
    {
        let (vals, bits) = self.gather();
        let mut i: usize = 0;
        while i < vals.len()
            invariant
                i <= vals.len(),
                vals.len() == bits.len(),
                vals@ == self.flat_values(),
                bits@ == self.flat_valid(),
                forall|j: int| 0 <= j < i ==> #[trigger] self.flat()[j] != Some(false),
            decreases vals.len() - i,
        {
            if bits[i] && !vals[i] {
                proof {
                    lemma_size_nonnegative(self.dims());
                    lemma_unravel(i as int, self.dims());
                    let idx = unravel(i as int, self.dims());
                    assert(self.cell(idx) == Some(false));
                }
                return false;
            }
            i = i + 1;
        }
        proof {
            assert forall|idx: Seq<int>| in_shape(idx, self.dims()) implies #[trigger] self.cell(
                idx,
            ) != Some(false) by {
                self.lemma_flat(idx);
                assert(self.flat()[ravel(idx, self.dims())] != Some(false));
            }
        }
        true
    }
}

} // verus!
