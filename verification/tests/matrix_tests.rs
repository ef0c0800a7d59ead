use slutils::util::matrix::Matrix2D;

/// Test matrix creation.
#[test]
fn create_matrix2d() {
    // Create matrix:
    // 1 2 3
    // 4 5 6
    let matrix = Matrix2D::new(2, 3, vec![1, 2, 3, 4, 5, 6]);
    assert_eq!(matrix.get_size(), (2, 3));

    assert_eq!(*matrix.get(0, 0), 1);
    assert_eq!(*matrix.get(0, 1), 2);
    assert_eq!(*matrix.get(0, 2), 3);
    assert_eq!(*matrix.get(1, 0), 4);
    assert_eq!(*matrix.get(1, 1), 5);
    assert_eq!(*matrix.get(1, 2), 6);
}

/// Test matrix creation with default values.
#[test]
fn create_matrix2d_zeros() {
    // Check NxN matrix
    let matrix0 = Matrix2D::<u8>::zeros(3, 3);
    assert_eq!(matrix0.get_size(), (3, 3));
    for i in 0..3 {
        for j in 0..3 {
            assert_eq!(*matrix0.get(i, j), 0);
        }
    }

    // Check MxN matrices
    let matrix1 = Matrix2D::<u8>::zeros(2, 4);
    assert_eq!(matrix1.get_size(), (2, 4));
    let matrix2 = Matrix2D::<u8>::zeros(4, 2);
    assert_eq!(matrix2.get_size(), (4, 2));
}

/// Test element replacement.
#[test]
fn matrix2d_set() {
    let mut matrix = Matrix2D::new(2, 2, vec![1, 2, 3, 4]);
    matrix.set(1, 0, 9);
    assert_eq!(*matrix.get(0, 0), 1);
    assert_eq!(*matrix.get(1, 0), 9);
    assert_eq!(*matrix.get(1, 1), 4);
}
