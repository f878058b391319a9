use pats::environment::grid::{pick, Grid2, Grid3};
use pats::errors::InputError;

#[test]
fn grid2_from_shape_vec_lays_rows_out() {
    let grid = Grid2::from_shape_vec((2, 3), vec![1, 2, 3, 4, 5, 6]).unwrap();
    assert_eq!(grid.shape(), (2, 3));
    assert_eq!(grid.get(0, 0), Some(&1));
    assert_eq!(grid.get(0, 2), Some(&3));
    assert_eq!(grid.get(1, 0), Some(&4));
    assert_eq!(grid.get(1, 2), Some(&6));
    assert_eq!(grid.get(2, 0), None);
    assert_eq!(grid.get(0, 3), None);
    assert_eq!(grid.as_slice(), &[1, 2, 3, 4, 5, 6]);
}

#[test]
fn grid2_refuses_a_wrong_count() {
    assert!(matches!(
        Grid2::from_shape_vec((2, 3), vec![1, 2, 3, 4, 5]),
        Err(InputError::IncorrectShape)
    ));
    assert!(matches!(
        Grid2::from_shape_vec((usize::MAX, 2), vec![1, 2]),
        Err(InputError::IncorrectShape)
    ));
    assert!(Grid2::<u8>::from_shape_vec((0, 5), vec![]).is_ok());
}

#[test]
fn grid2_transposed_exchanges_axes() {
    let grid = Grid2::from_shape_vec((2, 3), vec![1, 2, 3, 4, 5, 6]).unwrap();
    let turned = grid.transposed();
    assert_eq!(turned.shape(), (3, 2));
    assert_eq!(turned.as_slice(), &[1, 4, 2, 5, 3, 6]);
    for i in 0..3 {
        for j in 0..2 {
            assert_eq!(turned.get(i, j), grid.get(j, i));
        }
    }
}

#[test]
fn grid2_select_takes_crossings() {
    let grid = Grid2::from_shape_vec((3, 3), vec![0, 1, 2, 10, 11, 12, 20, 21, 22]).unwrap();
    let part = grid.select(&[2, 0], &[1, 2]);
    assert_eq!(part.shape(), (2, 2));
    assert_eq!(part.as_slice(), &[21, 22, 1, 2]);
}

#[test]
fn grid2_spreads_values_along_an_axis() {
    let first = Grid2::along_first(&[1, 2, 3], 2);
    assert_eq!(first.shape(), (3, 2));
    assert_eq!(first.as_slice(), &[1, 1, 2, 2, 3, 3]);
    let second = Grid2::along_second(&[1, 2, 3], 2);
    assert_eq!(second.shape(), (2, 3));
    assert_eq!(second.as_slice(), &[1, 2, 3, 1, 2, 3]);
}

#[test]
fn grid3_from_shape_vec_lays_levels_out() {
    let data: Vec<u32> = (0..24).collect();
    let grid = Grid3::from_shape_vec((2, 3, 4), data).unwrap();
    assert_eq!(grid.shape(), (2, 3, 4));
    assert_eq!(grid.get(0, 0, 0), Some(&0));
    assert_eq!(grid.get(0, 1, 2), Some(&6));
    assert_eq!(grid.get(1, 0, 0), Some(&12));
    assert_eq!(grid.get(1, 2, 3), Some(&23));
    assert_eq!(grid.get(2, 0, 0), None);
    assert_eq!(grid.get(0, 3, 0), None);
    assert_eq!(grid.get(0, 0, 4), None);
    assert_eq!(grid.column(1, 2), vec![6, 18]);
}

#[test]
fn grid3_refuses_a_wrong_count() {
    assert!(matches!(
        Grid3::from_shape_vec((2, 3, 4), vec![0u8; 23]),
        Err(InputError::IncorrectShape)
    ));
    assert!(matches!(
        Grid3::from_shape_vec((usize::MAX, 2, 1), vec![0u8; 2]),
        Err(InputError::IncorrectShape)
    ));
    assert!(Grid3::<u8>::from_shape_vec((usize::MAX, 2, 0), vec![]).is_ok());
    assert!(matches!(
        Grid3::from_shape_vec((3, 2, 0), vec![0u8; 1]),
        Err(InputError::IncorrectShape)
    ));
}

#[test]
fn grid3_select_keeps_levels() {
    let data: Vec<u32> = (0..18).collect();
    let grid = Grid3::from_shape_vec((2, 3, 3), data).unwrap();
    let part = grid.select(&[1, 2], &[0]);
    assert_eq!(part.shape(), (2, 2, 1));
    assert_eq!(part.as_slice(), &[3, 6, 12, 15]);
}

#[test]
fn grid3_stack_puts_levels_in_order() {
    let low = Grid2::from_shape_vec((2, 2), vec![1, 2, 3, 4]).unwrap();
    let high = Grid2::from_shape_vec((2, 2), vec![5, 6, 7, 8]).unwrap();
    let stacked = Grid3::stack(&[low, high]).unwrap();
    assert_eq!(stacked.shape(), (2, 2, 2));
    assert_eq!(stacked.as_slice(), &[1, 2, 3, 4, 5, 6, 7, 8]);
}

#[test]
fn grid3_stack_refuses_nothing_and_unlike_levels() {
    let none: Vec<Grid2<u8>> = vec![];
    assert!(matches!(Grid3::stack(&none), Err(InputError::IncorrectShape)));
    let low = Grid2::from_shape_vec((2, 2), vec![1, 2, 3, 4]).unwrap();
    let high = Grid2::from_shape_vec((1, 4), vec![5, 6, 7, 8]).unwrap();
    assert!(matches!(Grid3::stack(&[low, high]), Err(InputError::IncorrectShape)));
}

#[test]
fn grid3_level_wise_repeats_levels() {
    let grid = Grid3::level_wise(&[1000, 850], 2, 3);
    assert_eq!(grid.shape(), (2, 2, 3));
    assert_eq!(grid.as_slice(), &[1000, 1000, 1000, 1000, 1000, 1000, 850, 850, 850, 850, 850, 850]);
}

#[test]
fn pick_takes_values_in_the_order_of_places() {
    assert_eq!(pick(&[10.5, 20.5, 30.5], &[2, 0, 2]), vec![30.5, 10.5, 30.5]);
    let nothing: Vec<u8> = pick(&[1, 2], &[]);
    assert!(nothing.is_empty());
}

#[test]
fn corners_of_a_cell() {
    let grid = Grid2::from_shape_vec((3, 3), vec![0, 1, 2, 10, 11, 12, 20, 21, 22]).unwrap();
    assert_eq!(grid.corners(0, 0), [0, 1, 10, 11]);
    assert_eq!(grid.corners(1, 1), [11, 12, 21, 22]);
    let data: Vec<u32> = (0..18).collect();
    let grid = Grid3::from_shape_vec((2, 3, 3), data).unwrap();
    assert_eq!(grid.corners(0, 0, 0), [0, 1, 3, 4, 9, 10, 12, 13]);
    assert_eq!(grid.corners(0, 1, 1), [4, 5, 7, 8, 13, 14, 16, 17]);
}
