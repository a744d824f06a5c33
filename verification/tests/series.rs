use flight_core::series::{compile_vec, read_window};

#[test]
fn zero_points_return_everything() {
    let data = vec![10, 20, 30, 40, 50];
    assert_eq!(read_window(&data, 0), vec![10, 20, 30, 40, 50]);
    let empty: Vec<i32> = vec![];
    assert_eq!(read_window(&empty, 0), empty);
}

#[test]
fn skip_beyond_length_returns_nothing() {
    let data = vec![10, 20, 30, 40, 50];
    let none: Vec<i32> = vec![];
    assert_eq!(read_window(&data, 6), none);
    assert_eq!(read_window(&data, i32::MAX), none);
}

#[test]
fn skip_of_whole_length_returns_nothing() {
    let data = vec![10, 20, 30, 40, 50];
    let none: Vec<i32> = vec![];
    assert_eq!(read_window(&data, 5), none);
}

#[test]
fn tail_beyond_length_returns_everything() {
    let data = vec![10, 20, 30, 40, 50];
    assert_eq!(read_window(&data, -6), data);
    assert_eq!(read_window(&data, i32::MIN), data);
}

#[test]
fn tail_of_three_from_five() {
    let data = vec!['a', 'b', 'c', 'd', 'e'];
    assert_eq!(read_window(&data, -3), vec!['c', 'd', 'e']);
}

#[test]
fn skip_of_two_from_five() {
    let data = vec!['a', 'b', 'c', 'd', 'e'];
    assert_eq!(read_window(&data, 2), vec!['c', 'd', 'e']);
}

#[test]
fn compile_vec_by_magnitude_and_sign() {
    let data = vec![1u8, 2, 3, 4];
    assert_eq!(compile_vec(&data, 1, false), vec![2, 3, 4]);
    assert_eq!(compile_vec(&data, 1, true), vec![4]);
    assert_eq!(compile_vec(&data, 4, true), vec![1, 2, 3, 4]);
    assert_eq!(compile_vec(&data, 4, false), Vec::<u8>::new());
    assert_eq!(compile_vec(&data, 0, true), Vec::<u8>::new());
    assert_eq!(compile_vec(&data, 9, true), vec![1, 2, 3, 4]);
    assert_eq!(compile_vec(&data, 9, false), Vec::<u8>::new());
}

#[test]
fn read_leaves_the_channel_alone() {
    let data = vec![(1u32, 2u32), (3, 4)];
    let copy = read_window(&data, -1);
    assert_eq!(copy, vec![(3, 4)]);
    assert_eq!(data, vec![(1, 2), (3, 4)]);
}
