//! The arithmetic of multi-dimensional indices: the linear position of an
//! index under a list of strides, the number of indices of a shape, and the
//! row-major numbering of the indices.

use vstd::arithmetic::div_mod::{lemma_fundamental_div_mod, lemma_mod_bound};
use vstd::prelude::*;

verus! {

/// The sum of the products of the components of `idx` with those of `strides`.
pub open spec fn dot(idx: Seq<int>, strides: Seq<int>) -> int
    decreases idx.len(),
{
    if idx.len() == 0 {
        0
    } else {
        idx[0] * strides[0] + dot(idx.skip(1), strides.skip(1))
    }
}

/// The number of indices of a shape: the product of its extents.
pub open spec fn size(shape: Seq<int>) -> int
    decreases shape.len(),
{
    if shape.len() == 0 {
        1
    } else {
        shape[0] * size(shape.skip(1))
    }
}

/// `idx` has one component for each axis of `shape`, each within the axis' extent.
pub open spec fn in_shape(idx: Seq<int>, shape: Seq<int>) -> bool {
    &&& idx.len() == shape.len()
    &&& forall|k: int| 0 <= k < idx.len() ==> 0 <= #[trigger] idx[k] < shape[k]
}

/// No extent of the shape is negative.
pub open spec fn is_shape(shape: Seq<int>) -> bool {
    forall|k: int| 0 <= k < shape.len() ==> 0 <= #[trigger] shape[k]
}

/// The strides of the row-major layout: that of an axis is the number of
/// indices of the axes after it.
pub open spec fn row_major(shape: Seq<int>) -> Seq<int> {
    Seq::new(shape.len(), |k: int| size(shape.skip(k + 1)))
}

/// The row-major number of an index of the shape.
pub open spec fn ravel(idx: Seq<int>, shape: Seq<int>) -> int {
    dot(idx, row_major(shape))
}

/// The index of the shape whose row-major number is `i`.
pub open spec fn unravel(i: int, shape: Seq<int>) -> Seq<int>
    decreases shape.len(),
{
    if shape.len() == 0 {
        Seq::<int>::empty()
    } else {
        let inner = size(shape.skip(1));
        seq![i / inner] + unravel(i % inner, shape.skip(1))
    }
}

/// The index of `n` zeros.
pub open spec fn zeros(n: nat) -> Seq<int> {
    Seq::new(n, |k: int| 0int)
}

/// A shape without negative extents has no negative number of indices.
pub proof fn lemma_size_nonnegative(shape: Seq<int>)
    requires
        is_shape(shape),
    ensures
        size(shape) >= 0,
    decreases shape.len(),
{
    if shape.len() > 0 {
        lemma_size_nonnegative(shape.skip(1));
        assert(shape[0] * size(shape.skip(1)) >= 0) by (nonlinear_arith)
            requires
                shape[0] >= 0,
                size(shape.skip(1)) >= 0,
        ;
    }
}

/// A shape that has an index has a positive number of them, and so has
/// every shape made of its trailing axes.
pub proof fn lemma_size_positive(idx: Seq<int>, shape: Seq<int>)
    requires
        in_shape(idx, shape),
    ensures
        size(shape) > 0,
    decreases shape.len(),
{
    if shape.len() > 0 {
        assert(0 <= idx[0] < shape[0]);
        assert forall|k: int| 0 <= k < idx.skip(1).len() implies 0 <= #[trigger] idx.skip(1)[k]
            < shape.skip(1)[k] by {
            assert(idx.skip(1)[k] == idx[k + 1]);
        }
        lemma_size_positive(idx.skip(1), shape.skip(1));
        assert(shape[0] * size(shape.skip(1)) > 0) by (nonlinear_arith)
            requires
                shape[0] > 0,
                size(shape.skip(1)) > 0,
        ;
    }
}

/// A shape with an axis of extent zero has no index.
pub proof fn lemma_size_zero(shape: Seq<int>, k: int)
    requires
        0 <= k < shape.len(),
        shape[k] == 0,
    ensures
        size(shape) == 0,
    decreases shape.len(),
{
    if k > 0 {
        assert(shape.skip(1)[k - 1] == shape[k]);
        lemma_size_zero(shape.skip(1), k - 1);
    }
    assert(shape[0] * size(shape.skip(1)) == 0) by (nonlinear_arith)
        requires
            shape[0] == 0 || size(shape.skip(1)) == 0,
    ;
}

/// Where every extent is positive, the trailing axes have at least one
/// index and no more indices than the whole shape.
pub proof fn lemma_size_suffix(shape: Seq<int>, k: int)
    requires
        0 <= k <= shape.len(),
        forall|j: int| 0 <= j < shape.len() ==> #[trigger] shape[j] > 0,
    ensures
        1 <= size(shape.skip(k)) <= size(shape),
    decreases shape.len(),
{
    if shape.len() == 0 {
        assert(shape.skip(k) =~= shape);
    } else {
        assert forall|j: int| 0 <= j < shape.skip(1).len() implies #[trigger] shape.skip(1)[j]
            > 0 by {
            assert(shape.skip(1)[j] == shape[j + 1]);
        }
        lemma_size_suffix(shape.skip(1), 0);
        assert(shape.skip(1).skip(0) =~= shape.skip(1));
        assert(size(shape.skip(1)) <= shape[0] * size(shape.skip(1))) by (nonlinear_arith)
            requires
                shape[0] >= 1,
                size(shape.skip(1)) >= 1,
        ;
        if k == 0 {
            assert(shape.skip(0) =~= shape);
        } else {
            lemma_size_suffix(shape.skip(1), k - 1);
            assert(shape.skip(1).skip(k - 1) =~= shape.skip(k));
        }
    }
}

/// A shape with an index has only positive extents.
pub proof fn lemma_positive_extents(shape: Seq<int>)
    requires
        is_shape(shape),
        size(shape) > 0,
    ensures
        forall|j: int| 0 <= j < shape.len() ==> #[trigger] shape[j] > 0,
{
    assert forall|j: int| 0 <= j < shape.len() implies #[trigger] shape[j] > 0 by {
        if shape[j] == 0 {
            lemma_size_zero(shape, j);
        }
    }
}

/// An axis put in at `k` multiplies the number of indices by its extent.
pub proof fn lemma_size_insert(shape: Seq<int>, k: int, v: int)
    requires
        0 <= k <= shape.len(),
    ensures
        size(shape.insert(k, v)) == size(shape) * v,
    decreases shape.len(),
{
    let grown = shape.insert(k, v);
    if k == 0 {
        assert(grown.skip(1) =~= shape);
        assert(v * size(shape) == size(shape) * v) by (nonlinear_arith);
    } else {
        assert(grown.skip(1) =~= shape.skip(1).insert(k - 1, v));
        lemma_size_insert(shape.skip(1), k - 1, v);
        let inner = size(shape.skip(1));
        assert(shape[0] * (inner * v) == (shape[0] * inner) * v) by (nonlinear_arith);
    }
}

/// The number of indices is the extent of an axis times the number of
/// indices of the other axes.
pub proof fn lemma_size_remove(shape: Seq<int>, k: int)
    requires
        0 <= k < shape.len(),
    ensures
        size(shape) == size(shape.remove(k)) * shape[k],
{
    assert(shape.remove(k).insert(k, shape[k]) =~= shape);
    lemma_size_insert(shape.remove(k), k, shape[k]);
}

/// Exchanging the extents of two axes keeps the number of indices.
pub proof fn lemma_size_swap(shape: Seq<int>, a: int, b: int)
    requires
        0 <= a < shape.len(),
        0 <= b < shape.len(),
    ensures
        size(shape.update(a, shape[b]).update(b, shape[a])) == size(shape),
{
    let swapped = shape.update(a, shape[b]).update(b, shape[a]);
    if a == b {
        assert(swapped =~= shape);
    } else {
        let rest = shape.remove(a);
        let b1 = if b < a { b } else { b - 1 };
        let core = rest.remove(b1);
        lemma_size_remove(shape, a);
        assert(rest[b1] == shape[b]);
        lemma_size_remove(rest, b1);
        let rest2 = swapped.remove(a);
        lemma_size_remove(swapped, a);
        assert(rest2[b1] == shape[a]);
        lemma_size_remove(rest2, b1);
        assert(rest2.remove(b1) =~= core);
        assert((size(core) * shape[a]) * shape[b] == (size(core) * shape[b]) * shape[a])
            by (nonlinear_arith);
    }
}

/// Two index/stride pairs whose products agree axis by axis give the same position.
pub proof fn lemma_dot_pointwise(a: Seq<int>, b: Seq<int>, c: Seq<int>, d: Seq<int>)
    requires
        a.len() == b.len(),
        a.len() == c.len(),
        a.len() == d.len(),
        forall|k: int| 0 <= k < a.len() ==> #[trigger] (a[k] * b[k]) == c[k] * d[k],
    ensures
        dot(a, b) == dot(c, d),
    decreases a.len(),
{
    if a.len() > 0 {
        assert(a[0] * b[0] == c[0] * d[0]);
        assert forall|k: int| 0 <= k < a.skip(1).len() implies #[trigger] (a.skip(1)[k] * b.skip(
            1,
        )[k]) == c.skip(1)[k] * d.skip(1)[k] by {
            assert(a[k + 1] * b[k + 1] == c[k + 1] * d[k + 1]);
        }
        lemma_dot_pointwise(a.skip(1), b.skip(1), c.skip(1), d.skip(1));
    }
}

/// The parts of an index and of a shape after their first axis fit together too.
pub proof fn lemma_in_shape_skip(idx: Seq<int>, shape: Seq<int>)
    requires
        in_shape(idx, shape),
        idx.len() > 0,
    ensures
        in_shape(idx.skip(1), shape.skip(1)),
        0 <= idx[0] < shape[0],
{
    assert forall|k: int| 0 <= k < idx.skip(1).len() implies 0 <= #[trigger] idx.skip(1)[k]
        < shape.skip(1)[k] by {
        assert(idx.skip(1)[k] == idx[k + 1]);
    }
}

/// Changing one component of the index moves the position by the change times that axis' stride.
pub proof fn lemma_dot_update_index(idx: Seq<int>, strides: Seq<int>, k: int, v: int)
    requires
        idx.len() == strides.len(),
        0 <= k < idx.len(),
    ensures
        dot(idx.update(k, v), strides) == dot(idx, strides) - idx[k] * strides[k] + v * strides[k],
    decreases idx.len(),
{
    if k == 0 {
        assert(idx.update(k, v).skip(1) =~= idx.skip(1));
    } else {
        assert(idx.update(k, v).skip(1) =~= idx.skip(1).update(k - 1, v));
        lemma_dot_update_index(idx.skip(1), strides.skip(1), k - 1, v);
    }
}

/// Changing one stride moves the position by that axis' component times the change.
pub proof fn lemma_dot_update_stride(idx: Seq<int>, strides: Seq<int>, k: int, w: int)
    requires
        idx.len() == strides.len(),
        0 <= k < idx.len(),
    ensures
        dot(idx, strides.update(k, w)) == dot(idx, strides) - idx[k] * strides[k] + idx[k] * w,
    decreases idx.len(),
{
    if k == 0 {
        assert(strides.update(k, w).skip(1) =~= strides.skip(1));
    } else {
        assert(strides.update(k, w).skip(1) =~= strides.skip(1).update(k - 1, w));
        lemma_dot_update_stride(idx.skip(1), strides.skip(1), k - 1, w);
    }
}

/// An axis put in at `k` adds the product of its component and its stride.
pub proof fn lemma_dot_insert(idx: Seq<int>, strides: Seq<int>, k: int, v: int, w: int)
    requires
        idx.len() == strides.len(),
        0 <= k <= idx.len(),
    ensures
        dot(idx.insert(k, v), strides.insert(k, w)) == dot(idx, strides) + v * w,
    decreases idx.len(),
{
    if k == 0 {
        assert(idx.insert(k, v).skip(1) =~= idx);
        assert(strides.insert(k, w).skip(1) =~= strides);
    } else {
        assert(idx.insert(k, v).skip(1) =~= idx.skip(1).insert(k - 1, v));
        assert(strides.insert(k, w).skip(1) =~= strides.skip(1).insert(k - 1, w));
        lemma_dot_insert(idx.skip(1), strides.skip(1), k - 1, v, w);
    }
}

/// The position of a concatenated index is the sum of the positions of its parts.
pub proof fn lemma_dot_concat(a: Seq<int>, b: Seq<int>, c: Seq<int>, d: Seq<int>)
    requires
        a.len() == c.len(),
        b.len() == d.len(),
    ensures
        dot(a + b, c + d) == dot(a, c) + dot(b, d),
    decreases a.len(),
{
    if a.len() == 0 {
        assert(a + b =~= b);
        assert(c + d =~= d);
    } else {
        assert((a + b).skip(1) =~= a.skip(1) + b);
        assert((c + d).skip(1) =~= c.skip(1) + d);
        lemma_dot_concat(a.skip(1), b, c.skip(1), d);
    }
}

/// Under strides that are all zero every index has position zero.
pub proof fn lemma_dot_zero_strides(idx: Seq<int>)
    ensures
        dot(idx, zeros(idx.len())) == 0,
    decreases idx.len(),
{
    if idx.len() > 0 {
        assert(zeros(idx.len()).skip(1) =~= zeros(idx.skip(1).len()));
        assert(zeros(idx.len())[0] == 0);
        lemma_dot_zero_strides(idx.skip(1));
    }
}

/// The index of zeros has position zero.
pub proof fn lemma_dot_zero_index(strides: Seq<int>)
    ensures
        dot(zeros(strides.len()), strides) == 0,
    decreases strides.len(),
{
    if strides.len() > 0 {
        assert(zeros(strides.len()).skip(1) =~= zeros(strides.skip(1).len()));
        assert(zeros(strides.len())[0] == 0);
        lemma_dot_zero_index(strides.skip(1));
    }
}

/// The row-major strides of the trailing axes are the trailing row-major strides.
pub proof fn lemma_row_major_skip(shape: Seq<int>)
    requires
        shape.len() > 0,
    ensures
        row_major(shape).skip(1) == row_major(shape.skip(1)),
        row_major(shape)[0] == size(shape.skip(1)),
{
    assert forall|k: int| 0 <= k < shape.len() - 1 implies row_major(shape).skip(1)[k]
        == row_major(shape.skip(1))[k] by {
        assert(shape.skip(1).skip(k + 1) =~= shape.skip(k + 2));
    }
    assert(row_major(shape).skip(1) =~= row_major(shape.skip(1)));
}

/// The row-major number of an index lies below the number of indices.
pub proof fn lemma_ravel_bound(idx: Seq<int>, shape: Seq<int>)
    requires
        in_shape(idx, shape),
    ensures
        0 <= ravel(idx, shape) < size(shape),
    decreases shape.len(),
{
    if shape.len() > 0 {
        lemma_in_shape_skip(idx, shape);
        lemma_row_major_skip(shape);
        lemma_ravel_bound(idx.skip(1), shape.skip(1));
        let inner = size(shape.skip(1));
        let rest = ravel(idx.skip(1), shape.skip(1));
        assert(ravel(idx, shape) == idx[0] * inner + rest);
        assert(0 <= idx[0] * inner + rest < shape[0] * inner) by (nonlinear_arith)
            requires
                0 <= idx[0] < shape[0],
                0 <= rest < inner,
        ;
    }
}

/// Numbering is one to one: the index with the number `i` is in the shape
/// and has the number `i`.
pub proof fn lemma_unravel(i: int, shape: Seq<int>)
    requires
        is_shape(shape),
        0 <= i < size(shape),
    ensures
        in_shape(unravel(i, shape), shape),
        ravel(unravel(i, shape), shape) == i,
    decreases shape.len(),
{
    if shape.len() > 0 {
        let inner = size(shape.skip(1));
        assert(is_shape(shape.skip(1))) by {
            assert forall|k: int| 0 <= k < shape.skip(1).len() implies 0
                <= #[trigger] shape.skip(1)[k] by {
                assert(shape.skip(1)[k] == shape[k + 1]);
            }
        }
        lemma_size_nonnegative(shape.skip(1));
        assert(inner > 0 && shape[0] > 0) by (nonlinear_arith)
            requires
                shape[0] * inner > 0,
                inner >= 0,
                shape[0] >= 0,
        ;
        lemma_mod_bound(i, inner);
        lemma_fundamental_div_mod(i, inner);
        lemma_unravel(i % inner, shape.skip(1));
        let head = i / inner;
        assert(0 <= head < shape[0]) by (nonlinear_arith)
            requires
                i == inner * head + i % inner,
                0 <= i % inner < inner,
                0 <= i < shape[0] * inner,
                inner > 0,
        ;
        let idx = unravel(i, shape);
        let tail = unravel(i % inner, shape.skip(1));
        assert(idx == seq![head] + tail);
        assert(idx.skip(1) =~= tail);
        assert(idx[0] == head);
        assert forall|k: int| 0 <= k < idx.len() implies 0 <= #[trigger] idx[k] < shape[k] by {
            if k > 0 {
                assert(idx[k] == tail[k - 1]);
                assert(shape.skip(1)[k - 1] == shape[k]);
            }
        }
        lemma_row_major_skip(shape);
        assert(ravel(idx, shape) == head * inner + ravel(tail, shape.skip(1)));
        assert(head * inner == inner * head) by (nonlinear_arith);
    }
}

/// An index is the one that carries its number.
pub proof fn lemma_unravel_ravel(idx: Seq<int>, shape: Seq<int>)
    requires
        in_shape(idx, shape),
    ensures
        unravel(ravel(idx, shape), shape) == idx,
    decreases shape.len(),
{
    if shape.len() == 0 {
        assert(idx =~= Seq::<int>::empty());
    } else {
        lemma_in_shape_skip(idx, shape);
        lemma_row_major_skip(shape);
        lemma_ravel_bound(idx.skip(1), shape.skip(1));
        lemma_unravel_ravel(idx.skip(1), shape.skip(1));
        let inner = size(shape.skip(1));
        let rest = ravel(idx.skip(1), shape.skip(1));
        let i = ravel(idx, shape);
        assert(i == idx[0] * inner + rest);
        assert(i / inner == idx[0] && i % inner == rest) by (nonlinear_arith)
            requires
                i == idx[0] * inner + rest,
                0 <= rest < inner,
        ;
        assert(unravel(i, shape) =~= idx);
    }
}

} // verus!
