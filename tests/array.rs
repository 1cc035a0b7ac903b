use multiarray::array::ArrayError;
use multiarray::{MDArrayBuf, MDArrayView, N1, N2, N3, N32};

#[test]
fn boxed_slice_constructs_correct_shape_1d() {
    let boxed_nums: Box<[i32]> = Box::new([1, 2, 3, 4]);
    let array = MDArrayBuf::<i32, N1>::from_boxed_slice(boxed_nums, [4]);
    assert_eq!(array.shape(), [4usize]);
}

#[test]
fn boxed_slice_constructs_correct_shape_3d() {
    let boxed_nums: Box<[i32]> = Box::new([1, 2, 3, 4, 5, 6, 7, 8, 9, 10, 11, 12]);
    let array = MDArrayBuf::<i32, N3>::from_boxed_slice(boxed_nums, [2, 3, 2]);
    assert_eq!(array.shape(), [2usize, 3, 2]);
}

#[test]
fn index_retrieves_elements_in_row_major_order() {
    let data = [1i32, 2, 3, 4, 5, 6];
    let boxed_nums: Box<[i32]> = Box::new([1, 2, 3, 4, 5, 6]);
    let array = MDArrayBuf::<_, N2>::from_boxed_slice(boxed_nums, [2, 3]);
    let mut pos = 0;
    for i in 0..2 {
        for j in 0..3 {
            assert_eq!(*array.index(&[i, j]), data[pos]);
            pos += 1;
        }
    }
}

#[test]
fn index_mut_sets_elements_in_row_major_order() {
    let data = [1i32, 2, 3, 4, 5, 6];
    let boxed_nums: Box<[i32]> = Box::new([0; 6]);
    let mut array = MDArrayBuf::<_, N2>::from_boxed_slice(boxed_nums, [2, 3]);
    let mut pos = 0;
    for i in 0..2 {
        for j in 0..3 {
            *array.index_mut(&[i, j]) = data[pos];
            pos += 1;
        }
    }
    assert_eq!(array.into_vec(), (&data).to_vec())
}

#[test]
fn shape_of_rank_32_array_is_kept() {
    let boxed: Box<[u8]> = vec![5u8; 1].into_boxed_slice();
    let array = MDArrayBuf::<u8, N32>::from_boxed_slice(boxed, [1usize; 32]);
    assert_eq!(array.shape(), [1usize; 32]);
    assert_eq!(*array.index(&[0usize; 32]), 5);
}

#[test]
fn shape_is_kept_when_length_does_not_match() {
    let boxed: Box<[i32]> = Box::new([1, 2, 3]);
    let array = MDArrayBuf::<i32, N2>::from_boxed_slice(boxed, [4, 5]);
    assert_eq!(array.shape(), [4usize, 5]);
}

#[test]
fn rank_3_index_follows_row_major_order() {
    let boxed: Box<[i32]> = (1..=12).collect::<Vec<i32>>().into_boxed_slice();
    let array = MDArrayBuf::<i32, N3>::from_boxed_slice(boxed, [2, 3, 2]);
    assert_eq!(*array.index(&[1, 2, 1]), 12);
    assert_eq!(*array.index(&[0, 0, 0]), 1);
    assert_eq!(*array.index(&[0, 1, 1]), 4);
    assert_eq!(*array.index(&[1, 0, 0]), 7);
}

#[test]
fn two_axis_index_is_row_then_column() {
    let (rows, cols) = (3usize, 4usize);
    let boxed: Box<[usize]> = (1..=rows * cols).collect::<Vec<usize>>().into_boxed_slice();
    let array = MDArrayBuf::<usize, N2>::from_boxed_slice(boxed, [rows, cols]);
    for i in 0..rows {
        for j in 0..cols {
            assert_eq!(*array.index(&[i, j]), i * cols + j + 1);
        }
    }
}

#[test]
fn write_then_read_returns_value() {
    let boxed: Box<[i64]> = vec![0i64; 24].into_boxed_slice();
    let mut array = MDArrayBuf::<i64, N3>::from_boxed_slice(boxed, [2, 3, 4]);
    *array.index_mut(&[1, 2, 3]) = -8;
    *array.index_mut(&[0, 1, 2]) = 42;
    assert_eq!(*array.index(&[1, 2, 3]), -8);
    assert_eq!(*array.index(&[0, 1, 2]), 42);
    assert_eq!(*array.index(&[1, 1, 2]), 0);
    let flat = array.into_vec();
    assert_eq!(flat[23], -8);
    assert_eq!(flat[6], 42);
}

#[test]
fn one_axis_index_is_the_position() {
    let boxed: Box<[char]> = Box::new(['a', 'b', 'c']);
    let mut array = MDArrayBuf::<char, N1>::from_boxed_slice(boxed, [3]);
    assert_eq!(*array.index(&[2]), 'c');
    *array.index_mut(&[0]) = 'z';
    assert_eq!(array.into_vec(), vec!['z', 'b', 'c']);
}

#[test]
fn checked_index_returns_element_in_bounds() {
    let boxed: Box<[i32]> = (1..=12).collect::<Vec<i32>>().into_boxed_slice();
    let array = MDArrayBuf::<i32, N3>::from_boxed_slice(boxed, [2, 3, 2]);
    assert_eq!(array.checked_index(&[1, 2, 1]), Ok(&12));
    assert_eq!(array.checked_index(&[0, 2, 0]), Ok(&5));
}

#[test]
fn checked_index_rejects_component_out_of_bounds() {
    let boxed: Box<[i32]> = (1..=12).collect::<Vec<i32>>().into_boxed_slice();
    let array = MDArrayBuf::<i32, N3>::from_boxed_slice(boxed, [2, 3, 2]);
    assert_eq!(array.checked_index(&[2, 0, 0]), Err(ArrayError::IndexOutOfBounds));
    assert_eq!(array.checked_index(&[0, 0, 2]), Err(ArrayError::IndexOutOfBounds));
}

#[test]
fn checked_index_rejects_length_that_does_not_match_shape() {
    let boxed: Box<[i32]> = Box::new([1, 2, 3, 4, 5]);
    let array = MDArrayBuf::<i32, N2>::from_boxed_slice(boxed, [2, 3]);
    assert_eq!(array.checked_index(&[0, 0]), Err(ArrayError::ShapeMismatch));
    assert_eq!(array.checked_index(&[5, 5]), Err(ArrayError::ShapeMismatch));
}

#[test]
fn checked_index_with_overflowing_shape_is_a_mismatch() {
    let boxed: Box<[u8]> = Box::new([1, 2, 3]);
    let array = MDArrayBuf::<u8, N3>::from_boxed_slice(boxed, [usize::MAX, 2, 3]);
    assert_eq!(array.checked_index(&[0, 0, 0]), Err(ArrayError::ShapeMismatch));
}

#[test]
fn checked_index_with_zero_extent_is_out_of_bounds() {
    let boxed: Box<[u8]> = Vec::new().into_boxed_slice();
    let array = MDArrayBuf::<u8, N3>::from_boxed_slice(boxed, [usize::MAX, 0, 3]);
    assert_eq!(array.checked_index(&[0, 0, 0]), Err(ArrayError::IndexOutOfBounds));
    let boxed: Box<[u8]> = Box::new([9]);
    let array = MDArrayBuf::<u8, N2>::from_boxed_slice(boxed, [4, 0]);
    assert_eq!(array.checked_index(&[0, 0]), Err(ArrayError::ShapeMismatch));
}
