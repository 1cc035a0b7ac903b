//! Type-level natural numbers that fix the rank of an array.
use core::marker::PhantomData;
use vstd::prelude::*;

verus! {

/// A type-level natural number, from `N0` up to `N32`.
pub trait Nat {
    /// A `usize` array of exactly `rank()` elements (`[usize; 2]` for `N2`).
    type USizeArray: Copy;

    /// The number that this type stands for.
    spec fn rank() -> nat;

    /// The elements of a `USizeArray`, in order.
    spec fn ix_view(a: Self::USizeArray) -> Seq<usize>;

    /// Reads one element of a `USizeArray`.
    fn ix_get(a: &Self::USizeArray, i: usize) -> (r: usize)
        requires
            i < Self::rank(),
        ensures
            r == Self::ix_view(*a)[i as int],
    ;

    /// The number as a runtime value.
    fn value() -> (r: usize)
        ensures
            r as nat == Self::rank(),
    ;

    /// Every type-level number is at most 32, and its arrays have exactly
    /// that many elements.
    proof fn lemma_rank_bound()
        ensures
            Self::rank() <= 32,
            forall|a: Self::USizeArray| #[trigger] Self::ix_view(a).len() == Self::rank(),
    ;
}

/// A type-level number whose successor is a type-level number too: one below
/// 32. It supplies the array type of its successor.
pub trait SucNat: Nat {
    /// A `usize` array of exactly `rank() + 1` elements.
    type NextArray: Copy;

    /// The elements of a `NextArray`, in order.
    spec fn next_view(a: Self::NextArray) -> Seq<usize>;

    /// Reads one element of a `NextArray`.
    fn next_get(a: &Self::NextArray, i: usize) -> (r: usize)
        requires
            i <= Self::rank(),
        ensures
            r == Self::next_view(*a)[i as int],
    ;

    /// The number is below 32, and the arrays of its successor have one
    /// element more than the number.
    proof fn lemma_next_bound()
        ensures
            Self::rank() < 32,
            forall|a: Self::NextArray| #[trigger] Self::next_view(a).len() == Self::rank() + 1,
    ;
}

/// A positive type-level number: one that has a predecessor.
pub trait PosNat: Nat {
    /// The predecessor: `N0` is the predecessor of `N1`.
    type Pre: SucNat;

    /// The number is one more than its predecessor.
    proof fn lemma_pre()
        ensures
            Self::rank() == Self::Pre::rank() + 1,
    ;
}

/// The zero of the type-level numbers.
#[derive(Clone, Copy, Debug)]
pub struct N0;

/// The successor of a type-level number: `N1` is `Suc<N0>`. It is only ever
/// used as a type, never built.
pub struct Suc<T: Nat>(PhantomData<T>);

impl Nat for N0 {
    type USizeArray = [usize; 0];

    open spec fn rank() -> nat {
        0
    }

    open spec fn ix_view(a: [usize; 0]) -> Seq<usize> {
        a@
    }

    fn ix_get(a: &[usize; 0], i: usize) -> (r: usize) {
        a[i]
    }

    fn value() -> (r: usize) {
        0
    }

    proof fn lemma_rank_bound() {
    }
}

impl<T: SucNat> Nat for Suc<T> {
    type USizeArray = T::NextArray;

    open spec fn rank() -> nat {
        T::rank() + 1
    }

    open spec fn ix_view(a: T::NextArray) -> Seq<usize> {
        T::next_view(a)
    }

    fn ix_get(a: &T::NextArray, i: usize) -> (r: usize) {
        T::next_get(a, i)
    }

    fn value() -> (r: usize) {
        proof {
            T::lemma_next_bound();
        }
        T::value() + 1
    }

    proof fn lemma_rank_bound() {
        T::lemma_next_bound();
    }
}

impl<T: SucNat> PosNat for Suc<T> {
    type Pre = T;

    proof fn lemma_pre() {
    }
}

/// The number 1.
pub type N1 = Suc<N0>;
/// The number 2.
pub type N2 = Suc<N1>;
/// The number 3.
pub type N3 = Suc<N2>;
/// The number 4.
pub type N4 = Suc<N3>;
/// The number 5.
pub type N5 = Suc<N4>;
/// The number 6.
pub type N6 = Suc<N5>;
/// The number 7.
pub type N7 = Suc<N6>;
/// The number 8.
pub type N8 = Suc<N7>;
/// The number 9.
pub type N9 = Suc<N8>;
/// The number 10.
pub type N10 = Suc<N9>;
/// The number 11.
pub type N11 = Suc<N10>;
/// The number 12.
pub type N12 = Suc<N11>;
/// The number 13.
pub type N13 = Suc<N12>;
/// The number 14.
pub type N14 = Suc<N13>;
/// The number 15.
pub type N15 = Suc<N14>;
/// The number 16.
pub type N16 = Suc<N15>;
/// The number 17.
pub type N17 = Suc<N16>;
/// The number 18.
pub type N18 = Suc<N17>;
/// The number 19.
pub type N19 = Suc<N18>;
/// The number 20.
pub type N20 = Suc<N19>;
/// The number 21.
pub type N21 = Suc<N20>;
/// The number 22.
pub type N22 = Suc<N21>;
/// The number 23.
pub type N23 = Suc<N22>;
/// The number 24.
pub type N24 = Suc<N23>;
/// The number 25.
pub type N25 = Suc<N24>;
/// The number 26.
pub type N26 = Suc<N25>;
/// The number 27.
pub type N27 = Suc<N26>;
/// The number 28.
pub type N28 = Suc<N27>;
/// The number 29.
pub type N29 = Suc<N28>;
/// The number 30.
pub type N30 = Suc<N29>;
/// The number 31.
pub type N31 = Suc<N30>;
/// The number 32.
pub type N32 = Suc<N31>;

impl SucNat for N0 {
    type NextArray = [usize; 1];

    open spec fn next_view(a: [usize; 1]) -> Seq<usize> {
        a@
    }

    fn next_get(a: &[usize; 1], i: usize) -> (r: usize) {
        a[i]
    }

    proof fn lemma_next_bound() {
    }
}

impl SucNat for N1 {
    type NextArray = [usize; 2];

    open spec fn next_view(a: [usize; 2]) -> Seq<usize> {
        a@
    }

    fn next_get(a: &[usize; 2], i: usize) -> (r: usize) {
        a[i]
    }

    proof fn lemma_next_bound() {
    }
}

impl SucNat for N2 {
    type NextArray = [usize; 3];

    open spec fn next_view(a: [usize; 3]) -> Seq<usize> {
        a@
    }

    fn next_get(a: &[usize; 3], i: usize) -> (r: usize) {
        a[i]
    }

    proof fn lemma_next_bound() {
    }
}

impl SucNat for N3 {
    type NextArray = [usize; 4];

    open spec fn next_view(a: [usize; 4]) -> Seq<usize> {
        a@
    }

    fn next_get(a: &[usize; 4], i: usize) -> (r: usize) {
        a[i]
    }

    proof fn lemma_next_bound() {
    }
}

impl SucNat for N4 {
    type NextArray = [usize; 5];

    open spec fn next_view(a: [usize; 5]) -> Seq<usize> {
        a@
    }

    fn next_get(a: &[usize; 5], i: usize) -> (r: usize) {
        a[i]
    }

    proof fn lemma_next_bound() {
    }
}

impl SucNat for N5 {
    type NextArray = [usize; 6];

    open spec fn next_view(a: [usize; 6]) -> Seq<usize> {
        a@
    }

    fn next_get(a: &[usize; 6], i: usize) -> (r: usize) {
        a[i]
    }

    proof fn lemma_next_bound() {
    }
}

impl SucNat for N6 {
    type NextArray = [usize; 7];

    open spec fn next_view(a: [usize; 7]) -> Seq<usize> {
        a@
    }

    fn next_get(a: &[usize; 7], i: usize) -> (r: usize) {
        a[i]
    }

    proof fn lemma_next_bound() {
    }
}

impl SucNat for N7 {
    type NextArray = [usize; 8];

    open spec fn next_view(a: [usize; 8]) -> Seq<usize> {
        a@
    }

    fn next_get(a: &[usize; 8], i: usize) -> (r: usize) {
        a[i]
    }

    proof fn lemma_next_bound() {
    }
}

impl SucNat for N8 {
    type NextArray = [usize; 9];

    open spec fn next_view(a: [usize; 9]) -> Seq<usize> {
        a@
    }

    fn next_get(a: &[usize; 9], i: usize) -> (r: usize) {
        a[i]
    }

    proof fn lemma_next_bound() {
    }
}

impl SucNat for N9 {
    type NextArray = [usize; 10];

    open spec fn next_view(a: [usize; 10]) -> Seq<usize> {
        a@
    }

    fn next_get(a: &[usize; 10], i: usize) -> (r: usize) {
        a[i]
    }

    proof fn lemma_next_bound() {
    }
}

impl SucNat for N10 {
    type NextArray = [usize; 11];

    open spec fn next_view(a: [usize; 11]) -> Seq<usize> {
        a@
    }

    fn next_get(a: &[usize; 11], i: usize) -> (r: usize) {
        a[i]
    }

    proof fn lemma_next_bound() {
    }
}

impl SucNat for N11 {
    type NextArray = [usize; 12];

    open spec fn next_view(a: [usize; 12]) -> Seq<usize> {
        a@
    }

    fn next_get(a: &[usize; 12], i: usize) -> (r: usize) {
        a[i]
    }

    proof fn lemma_next_bound() {
    }
}

impl SucNat for N12 {
    type NextArray = [usize; 13];

    open spec fn next_view(a: [usize; 13]) -> Seq<usize> {
        a@
    }

    fn next_get(a: &[usize; 13], i: usize) -> (r: usize) {
        a[i]
    }

    proof fn lemma_next_bound() {
    }
}

impl SucNat for N13 {
    type NextArray = [usize; 14];

    open spec fn next_view(a: [usize; 14]) -> Seq<usize> {
        a@
    }

    fn next_get(a: &[usize; 14], i: usize) -> (r: usize) {
        a[i]
    }

    proof fn lemma_next_bound() {
    }
}

impl SucNat for N14 {
    type NextArray = [usize; 15];

    open spec fn next_view(a: [usize; 15]) -> Seq<usize> {
        a@
    }

    fn next_get(a: &[usize; 15], i: usize) -> (r: usize) {
        a[i]
    }

    proof fn lemma_next_bound() {
    }
}

impl SucNat for N15 {
    type NextArray = [usize; 16];

    open spec fn next_view(a: [usize; 16]) -> Seq<usize> {
        a@
    }

    fn next_get(a: &[usize; 16], i: usize) -> (r: usize) {
        a[i]
    }

    proof fn lemma_next_bound() {
    }
}

impl SucNat for N16 {
    type NextArray = [usize; 17];

    open spec fn next_view(a: [usize; 17]) -> Seq<usize> {
        a@
    }

    fn next_get(a: &[usize; 17], i: usize) -> (r: usize) {
        a[i]
    }

    proof fn lemma_next_bound() {
    }
}

impl SucNat for N17 {
    type NextArray = [usize; 18];

    open spec fn next_view(a: [usize; 18]) -> Seq<usize> {
        a@
    }

    fn next_get(a: &[usize; 18], i: usize) -> (r: usize) {
        a[i]
    }

    proof fn lemma_next_bound() {
    }
}

impl SucNat for N18 {
    type NextArray = [usize; 19];

    open spec fn next_view(a: [usize; 19]) -> Seq<usize> {
        a@
    }

    fn next_get(a: &[usize; 19], i: usize) -> (r: usize) {
        a[i]
    }

    proof fn lemma_next_bound() {
    }
}

impl SucNat for N19 {
    type NextArray = [usize; 20];

    open spec fn next_view(a: [usize; 20]) -> Seq<usize> {
        a@
    }

    fn next_get(a: &[usize; 20], i: usize) -> (r: usize) {
        a[i]
    }

    proof fn lemma_next_bound() {
    }
}

impl SucNat for N20 {
    type NextArray = [usize; 21];

    open spec fn next_view(a: [usize; 21]) -> Seq<usize> {
        a@
    }

    fn next_get(a: &[usize; 21], i: usize) -> (r: usize) {
        a[i]
    }

    proof fn lemma_next_bound() {
    }
}

impl SucNat for N21 {
    type NextArray = [usize; 22];

    open spec fn next_view(a: [usize; 22]) -> Seq<usize> {
        a@
    }

    fn next_get(a: &[usize; 22], i: usize) -> (r: usize) {
        a[i]
    }

    proof fn lemma_next_bound() {
    }
}

impl SucNat for N22 {
    type NextArray = [usize; 23];

    open spec fn next_view(a: [usize; 23]) -> Seq<usize> {
        a@
    }

    fn next_get(a: &[usize; 23], i: usize) -> (r: usize) {
        a[i]
    }

    proof fn lemma_next_bound() {
    }
}

impl SucNat for N23 {
    type NextArray = [usize; 24];

    open spec fn next_view(a: [usize; 24]) -> Seq<usize> {
        a@
    }

    fn next_get(a: &[usize; 24], i: usize) -> (r: usize) {
        a[i]
    }

    proof fn lemma_next_bound() {
    }
}

impl SucNat for N24 {
    type NextArray = [usize; 25];

    open spec fn next_view(a: [usize; 25]) -> Seq<usize> {
        a@
    }

    fn next_get(a: &[usize; 25], i: usize) -> (r: usize) {
        a[i]
    }

    proof fn lemma_next_bound() {
    }
}

impl SucNat for N25 {
    type NextArray = [usize; 26];

    open spec fn next_view(a: [usize; 26]) -> Seq<usize> {
        a@
    }

    fn next_get(a: &[usize; 26], i: usize) -> (r: usize) {
        a[i]
    }

    proof fn lemma_next_bound() {
    }
}

impl SucNat for N26 {
    type NextArray = [usize; 27];

    open spec fn next_view(a: [usize; 27]) -> Seq<usize> {
        a@
    }

    fn next_get(a: &[usize; 27], i: usize) -> (r: usize) {
        a[i]
    }

    proof fn lemma_next_bound() {
    }
}

impl SucNat for N27 {
    type NextArray = [usize; 28];

    open spec fn next_view(a: [usize; 28]) -> Seq<usize> {
        a@
    }

    fn next_get(a: &[usize; 28], i: usize) -> (r: usize) {
        a[i]
    }

    proof fn lemma_next_bound() {
    }
}

impl SucNat for N28 {
    type NextArray = [usize; 29];

    open spec fn next_view(a: [usize; 29]) -> Seq<usize> {
        a@
    }

    fn next_get(a: &[usize; 29], i: usize) -> (r: usize) {
        a[i]
    }

    proof fn lemma_next_bound() {
    }
}

impl SucNat for N29 {
    type NextArray = [usize; 30];

    open spec fn next_view(a: [usize; 30]) -> Seq<usize> {
        a@
    }

    fn next_get(a: &[usize; 30], i: usize) -> (r: usize) {
        a[i]
    }

    proof fn lemma_next_bound() {
    }
}

impl SucNat for N30 {
    type NextArray = [usize; 31];

    open spec fn next_view(a: [usize; 31]) -> Seq<usize> {
        a@
    }

    fn next_get(a: &[usize; 31], i: usize) -> (r: usize) {
        a[i]
    }

    proof fn lemma_next_bound() {
    }
}

impl SucNat for N31 {
    type NextArray = [usize; 32];

    open spec fn next_view(a: [usize; 32]) -> Seq<usize> {
        a@
    }

    fn next_get(a: &[usize; 32], i: usize) -> (r: usize) {
        a[i]
    }

    proof fn lemma_next_bound() {
    }
}

} // verus!

verus! {

/// Predecessor law: every positive rank is one more than its predecessor, and
/// the successor of its predecessor is a rank of the same value.
pub proof fn lemma_predecessor<D: PosNat>()
    ensures
        D::rank() >= 1,
        D::Pre::rank() == D::rank() - 1,
        <Suc<D::Pre> as Nat>::rank() == D::rank(),
{
    D::lemma_pre();
}

} // verus!
