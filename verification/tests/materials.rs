use navette_berreman::materials::{
    check_table_shape, oscillator_rows, OscillatorShapeError, TableShapeError,
};

#[test]
fn oscillator_shapes() {
    assert_eq!(oscillator_rows(6, 3), Ok(2));
    assert_eq!(oscillator_rows(4, 4), Ok(1));
    assert_eq!(oscillator_rows(5, 3), Err(OscillatorShapeError::NotRowMajor { width: 3, len: 5 }));
    assert_eq!(oscillator_rows(6, 0), Err(OscillatorShapeError::NotRowMajor { width: 0, len: 6 }));
    assert_eq!(oscillator_rows(0, 4), Err(OscillatorShapeError::Empty));
}

#[test]
fn table_shapes() {
    assert_eq!(check_table_shape(3, 3, None), Ok(()));
    assert_eq!(check_table_shape(3, 3, Some(3)), Ok(()));
    assert_eq!(check_table_shape(1, 1, None), Err(TableShapeError::TooFewPoints { got: 1 }));
    assert_eq!(check_table_shape(3, 2, Some(3)), Err(TableShapeError::GridNMismatch { grid: 3, n: 2 }));
    assert_eq!(check_table_shape(3, 3, Some(4)), Err(TableShapeError::GridKMismatch { grid: 3, k: 4 }));
}
