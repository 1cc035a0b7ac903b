//! Multidimensional arrays with row-major layout.
use vstd::prelude::*;

use crate::typenat::{Nat, PosNat, N2};

verus! {

/// The row-major offset of the first `n` components of `ix`: zero for no
/// component, then `offset * shape[d] + ix[d]` for each further axis `d`.
pub open spec fn prefix_offset(shape: Seq<usize>, ix: Seq<usize>, n: nat) -> int
    decreases n,
{
    if n == 0 {
        0
    } else {
        prefix_offset(shape, ix, (n - 1) as nat) * shape[n - 1] + ix[n - 1]
    }
}

/// The flat position of the element at index `ix` in an array of the given
/// shape, with the last axis varying fastest.
pub open spec fn row_major_offset(shape: Seq<usize>, ix: Seq<usize>) -> int {
    prefix_offset(shape, ix, ix.len())
}

/// The product of the first `n` extents of `shape`.
pub open spec fn prefix_product(shape: Seq<usize>, n: nat) -> int
    decreases n,
{
    if n == 0 {
        1
    } else {
        prefix_product(shape, (n - 1) as nat) * shape[n - 1]
    }
}

/// The number of elements of an array of the given shape.
pub open spec fn shape_product(shape: Seq<usize>) -> int {
    prefix_product(shape, shape.len())
}

/// `ix` has one component per axis, each below that axis's extent.
pub open spec fn index_in_bounds(shape: Seq<usize>, ix: Seq<usize>) -> bool {
    &&& ix.len() == shape.len()
    &&& forall|d: int| 0 <= d < shape.len() ==> #[trigger] ix[d] < shape[d]
}

/// The offset of an in-bounds prefix lies below the product of its extents.
pub proof fn lemma_prefix_offset_bound(shape: Seq<usize>, ix: Seq<usize>, n: nat)
    requires
        n <= shape.len(),
        index_in_bounds(shape, ix),
    ensures
        0 <= prefix_offset(shape, ix, n) < prefix_product(shape, n),
    decreases n,
{
    if n > 0 {
        lemma_prefix_offset_bound(shape, ix, (n - 1) as nat);
        let a = prefix_offset(shape, ix, (n - 1) as nat);
        let p = prefix_product(shape, (n - 1) as nat);
        let s = shape[n - 1] as int;
        let i = ix[n - 1] as int;
        assert(0 <= i < s);
        assert(0 <= a * s + i < p * s) by (nonlinear_arith)
            requires
                0 <= a < p,
                0 <= i < s,
        ;
    }
}

/// Where every extent is positive, the products of longer prefixes are no
/// smaller.
pub proof fn lemma_prefix_product_monotone(shape: Seq<usize>, k: nat, n: nat)
    requires
        k <= n <= shape.len(),
        forall|d: int| 0 <= d < shape.len() ==> #[trigger] shape[d] >= 1,
    ensures
        1 <= prefix_product(shape, k) <= prefix_product(shape, n),
    decreases n,
{
    if n > 0 {
        let m = (n - 1) as nat;
        if k < n {
            lemma_prefix_product_monotone(shape, k, m);
        } else {
            lemma_prefix_product_monotone(shape, m, m);
        }
        let p = prefix_product(shape, m);
        let s = shape[n - 1] as int;
        assert(s >= 1);
        assert(1 <= p <= p * s) by (nonlinear_arith)
            requires
                p >= 1,
                s >= 1,
        ;
    }
}

/// A zero extent makes the product of every prefix that holds it zero.
pub proof fn lemma_prefix_product_zero(shape: Seq<usize>, d: nat, n: nat)
    requires
        d < n <= shape.len(),
        shape[d as int] == 0,
    ensures
        prefix_product(shape, n) == 0,
    decreases n,
{
    let p = prefix_product(shape, (n - 1) as nat);
    let s = shape[n - 1] as int;
    if d + 1 < n {
        lemma_prefix_product_zero(shape, d, (n - 1) as nat);
        assert(p * s == 0) by (nonlinear_arith)
            requires
                p == 0,
        ;
    } else {
        assert(p * s == 0) by (nonlinear_arith)
            requires
                s == 0,
        ;
    }
}

/// Two in-bounds indices whose prefixes have the same offset agree on that
/// prefix.
pub proof fn lemma_prefix_offset_injective(shape: Seq<usize>, ix: Seq<usize>, jx: Seq<usize>, n: nat)
    requires
        n <= shape.len(),
        index_in_bounds(shape, ix),
        index_in_bounds(shape, jx),
        prefix_offset(shape, ix, n) == prefix_offset(shape, jx, n),
    ensures
        forall|d: int| 0 <= d < n ==> #[trigger] ix[d] == jx[d],
    decreases n,
{
    if n > 0 {
        lemma_prefix_offset_bound(shape, ix, (n - 1) as nat);
        lemma_prefix_offset_bound(shape, jx, (n - 1) as nat);
        let a = prefix_offset(shape, ix, (n - 1) as nat);
        let b = prefix_offset(shape, jx, (n - 1) as nat);
        let s = shape[n - 1] as int;
        let i = ix[n - 1] as int;
        let j = jx[n - 1] as int;
        assert(0 <= i < s);
        assert(0 <= j < s);
        assert(a == b && i == j) by (nonlinear_arith)
            requires
                a * s + i == b * s + j,
                0 <= a,
                0 <= b,
                0 <= i < s,
                0 <= j < s,
        ;
        lemma_prefix_offset_injective(shape, ix, jx, (n - 1) as nat);
    }
}

/// Why a checked access to an array failed.
#[derive(Clone, Copy, Debug, PartialEq, Eq, Structural)]
pub enum ArrayError {
    /// The number of elements differs from the product of the extents.
    ShapeMismatch,
    /// An index component is not below the extent of its axis.
    IndexOutOfBounds,
}

/// A view of data as an array with a fixed number of axes.
pub trait MDArrayView<T, D: PosNat> {
    /// The shape that the array was given.
    spec fn shape_spec(&self) -> D::USizeArray;

    /// Shape of the array. For instance, a 4x5 array has shape `[4, 5]`.
    fn shape(&self) -> (r: D::USizeArray)
        ensures
            r == self.shape_spec(),
    ;
}

/// A multidimensional array that owns its elements, stored contiguously in
/// row-major order.
pub struct MDArrayBuf<T, D: PosNat> {
    inner: Vec<T>,
    shape: D::USizeArray,
}

impl<T, D: PosNat> MDArrayBuf<T, D> {
    /// The elements, in storage order.
    pub closed spec fn data(&self) -> Seq<T> {
        self.inner@
    }

    /// The extents of the axes.
    pub open spec fn extents(&self) -> Seq<usize> {
        D::ix_view(self.shape_spec())
    }

    /// `ix` addresses an element: it is in bounds, and the number of elements
    /// matches the shape.
    pub open spec fn addresses(&self, ix: D::USizeArray) -> bool {
        &&& index_in_bounds(self.extents(), D::ix_view(ix))
        &&& self.data().len() == shape_product(self.extents())
    }

    /// The flat position that `ix` addresses.
    pub open spec fn offset_of(&self, ix: D::USizeArray) -> int {
        row_major_offset(self.extents(), D::ix_view(ix))
    }

    /// Construct a MDArrayBuf from a boxed slice and an array specifying the
    /// shape. The number of elements is not checked against the shape; the
    /// accessors require the two to match.
    pub fn from_boxed_slice(boxed: Box<[T]>, shape: D::USizeArray) -> (r: Self)
        ensures
            r.data() == boxed@,
            r.shape_spec() == shape,
    {
        MDArrayBuf { inner: boxed.into_vec(), shape }
    }

    /// The flat position of an element, by the row-major recurrence.
    fn flat_index(&self, ix: &D::USizeArray) -> (pos: usize)
        requires
            self.addresses(*ix),
        ensures
            pos == self.offset_of(*ix),
            pos < self.data().len(),
    {
        let ghost sv = self.extents();
        let ghost iv = D::ix_view(*ix);
        proof {
            D::lemma_rank_bound();
            D::lemma_pre();
            assert(iv[0] < sv[0]);
            assert forall|d: int| 0 <= d < sv.len() implies #[trigger] sv[d] >= 1 by {
                assert(iv[d] < sv[d]);
            }
        }
        let rank = D::value();
        let len = self.inner.len();
        let mut pos: usize = D::ix_get(ix, 0);
        let mut dim: usize = 1;
        assert(prefix_offset(sv, iv, 0) == 0);
        assert(prefix_offset(sv, iv, 1) == pos);
        while dim < rank
            invariant
                1 <= dim <= rank,
                rank == D::rank(),
                sv == self.extents(),
                iv == D::ix_view(*ix),
                sv.len() == rank,
                iv.len() == rank,
                index_in_bounds(sv, iv),
                forall|d: int| 0 <= d < sv.len() ==> #[trigger] sv[d] >= 1,
                self.data().len() == shape_product(sv),
                len == self.data().len(),
                pos == prefix_offset(sv, iv, dim as nat),
            decreases rank - dim,
        {
            proof {
                lemma_prefix_offset_bound(sv, iv, (dim + 1) as nat);
                lemma_prefix_product_monotone(sv, (dim + 1) as nat, rank as nat);
            }
            let extent = D::ix_get(&self.shape, dim);
            let component = D::ix_get(ix, dim);
            assert(prefix_offset(sv, iv, (dim + 1) as nat) == pos * extent + component);
            pos = pos * extent + component;
            dim = dim + 1;
        }
        proof {
            lemma_prefix_offset_bound(sv, iv, rank as nat);
        }
        pos
    }

    /// Whether the number of elements equals the product of the extents.
    fn shape_matches_len(&self) -> (b: bool)
        ensures
            b == (self.data().len() == shape_product(self.extents())),
    {
        let ghost sv = self.extents();
        proof {
            D::lemma_rank_bound();
        }
        let rank = D::value();
        let len = self.inner.len();
        let mut dim: usize = 0;
        while dim < rank
            invariant
                dim <= rank,
                rank == D::rank(),
                sv == self.extents(),
                sv.len() == rank,
                forall|d: int| 0 <= d < dim ==> #[trigger] sv[d] >= 1,
                len == self.data().len(),
            decreases rank - dim,
        {
            if D::ix_get(&self.shape, dim) == 0 {
                proof {
                    lemma_prefix_product_zero(sv, dim as nat, rank as nat);
                }
                return len == 0;
            }
            dim = dim + 1;
        }
        let mut prod: usize = 1;
        dim = 0;
        while dim < rank
            invariant
                dim <= rank,
                rank == D::rank(),
                sv == self.extents(),
                sv.len() == rank,
                forall|d: int| 0 <= d < sv.len() ==> #[trigger] sv[d] >= 1,
                prod == prefix_product(sv, dim as nat),
                len == self.data().len(),
            decreases rank - dim,
        {
            let extent = D::ix_get(&self.shape, dim);
            match prod.checked_mul(extent) {
                Some(p) => {
                    prod = p;
                },
                None => {
                    proof {
                        lemma_prefix_product_monotone(sv, (dim + 1) as nat, rank as nat);
                    }
                    return false;
                },
            }
            dim = dim + 1;
        }
        prod == len
    }

    /// Whether every component of `ix` is below the extent of its axis.
    fn in_bounds(&self, ix: &D::USizeArray) -> (b: bool)
        ensures
            b == index_in_bounds(self.extents(), D::ix_view(*ix)),
    {
        let ghost sv = self.extents();
        let ghost iv = D::ix_view(*ix);
        proof {
            D::lemma_rank_bound();
        }
        let rank = D::value();
        let mut dim: usize = 0;
        while dim < rank
            invariant
                dim <= rank,
                rank == D::rank(),
                sv == self.extents(),
                iv == D::ix_view(*ix),
                sv.len() == rank,
                iv.len() == rank,
                forall|d: int| 0 <= d < dim ==> #[trigger] iv[d] < sv[d],
            decreases rank - dim,
        {
            if D::ix_get(ix, dim) >= D::ix_get(&self.shape, dim) {
                return false;
            }
            dim = dim + 1;
        }
        true
    }

    /// The element at index `ix`, after checking that the number of elements
    /// matches the shape and that `ix` is in bounds.
    pub fn checked_index(&self, ix: &D::USizeArray) -> (r: Result<&T, ArrayError>)
        ensures
            self.data().len() != shape_product(self.extents()) ==> r == Err::<&T, ArrayError>(
                ArrayError::ShapeMismatch,
            ),
            self.data().len() == shape_product(self.extents()) && !index_in_bounds(
                self.extents(),
                D::ix_view(*ix),
            ) ==> r == Err::<&T, ArrayError>(ArrayError::IndexOutOfBounds),
            self.addresses(*ix) ==> r == Ok::<&T, ArrayError>(&self.data()[self.offset_of(*ix)]),
    {
        if !self.shape_matches_len() {
            return Err(ArrayError::ShapeMismatch);
        }
        if !self.in_bounds(ix) {
            return Err(ArrayError::IndexOutOfBounds);
        }
        Ok(self.index(ix))
    }

    /// The element at index `ix`, which must address an element.
    pub fn index(&self, ix: &D::USizeArray) -> (r: &T)
        requires
            self.addresses(*ix),
        ensures
            *r == self.data()[self.offset_of(*ix)],
    {
        let pos = self.flat_index(ix);
        &self.inner[pos]
    }

    /// The element at index `ix`, for writing; `ix` must address an element.
    pub fn index_mut(&mut self, ix: &D::USizeArray) -> (r: &mut T)
        requires
            old(self).addresses(*ix),
        ensures
            *r == old(self).data()[old(self).offset_of(*ix)],
            final(self).data() == old(self).data().update(old(self).offset_of(*ix), *final(r)),
            final(self).shape_spec() == old(self).shape_spec(),
    {
        let pos = self.flat_index(ix);
        &mut self.inner[pos]
    }

    /// Gives up the array, handing back its elements in storage order.
    pub fn into_vec(self) -> (r: Vec<T>)
        ensures
            r@ == self.data(),
    {
        self.inner
    }
}

impl<T, D: PosNat> MDArrayView<T, D> for MDArrayBuf<T, D> {
    closed spec fn shape_spec(&self) -> D::USizeArray {
        self.shape
    }

    fn shape(&self) -> (r: D::USizeArray) {
        self.shape
    }
}

/// Every array has one extent per axis: its shape has exactly as many
/// components as its rank, which is positive.
pub proof fn lemma_shape_rank<T, D: PosNat>(a: MDArrayBuf<T, D>)
    ensures
        a.extents().len() == D::rank(),
        D::rank() >= 1,
{
    D::lemma_rank_bound();
    D::lemma_pre();
}

/// Round trip: once `v` is written at index `ix` (through `index_mut`), reading
/// index `ix` gives `v`, and reading any other index gives what it held before.
pub proof fn lemma_write_then_read<T, D: PosNat>(
    a: MDArrayBuf<T, D>,
    b: MDArrayBuf<T, D>,
    ix: D::USizeArray,
    jx: D::USizeArray,
    v: T,
)
    requires
        a.addresses(ix),
        a.addresses(jx),
        b.shape_spec() == a.shape_spec(),
        b.data() == a.data().update(a.offset_of(ix), v),
    ensures
        b.addresses(jx),
        D::ix_view(jx) == D::ix_view(ix) ==> b.data()[b.offset_of(jx)] == v,
        D::ix_view(jx) != D::ix_view(ix) ==> b.data()[b.offset_of(jx)] == a.data()[a.offset_of(jx)],
{
    let sv = a.extents();
    let iv = D::ix_view(ix);
    let jv = D::ix_view(jx);
    lemma_prefix_offset_bound(sv, iv, sv.len());
    lemma_prefix_offset_bound(sv, jv, sv.len());
    if a.offset_of(ix) == a.offset_of(jx) {
        lemma_prefix_offset_injective(sv, iv, jv, sv.len());
        assert(iv =~= jv);
    }
}

/// Row-major law: in a two-axis array of shape `[R, C]`, index `[i, j]`
/// addresses flat position `i * C + j`.
pub proof fn lemma_row_major_2d<T>(a: MDArrayBuf<T, N2>, ix: [usize; 2])
    requires
        a.addresses(ix),
    ensures
        a.offset_of(ix) == ix[0] * a.extents()[1] + ix[1],
        0 <= a.offset_of(ix) < a.data().len(),
{
    let sv = a.extents();
    let iv = ix@;
    lemma_prefix_offset_bound(sv, iv, 2);
    assert(prefix_offset(sv, iv, 0) == 0);
    assert(prefix_offset(sv, iv, 1) == ix[0]);
}

} // verus!
