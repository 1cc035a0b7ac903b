//! Fixed-rank multidimensional arrays for numerically intensive code.
//!
//! The number of axes of an array is fixed by a type-level natural number
//! (`N1`, `N2`, ..., `N32`), which also fixes the length of the `usize` arrays
//! that give shapes and indices.

pub mod array;
pub mod buffer;
pub mod typenat;

pub use array::{MDArrayBuf, MDArrayView};
pub use typenat::{
    N0, N1, N10, N11, N12, N13, N14, N15, N16, N17, N18, N19, N2, N20, N21, N22, N23, N24, N25,
    N26, N27, N28, N29, N3, N30, N31, N32, N4, N5, N6, N7, N8, N9,
};
