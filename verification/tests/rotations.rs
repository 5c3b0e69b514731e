use navette_berreman::rotations::transpose3;

#[test]
fn transpose_swaps_indices_and_is_an_involution() {
    let r = [[1.0, 2.0, 3.0], [4.0, 5.0, 6.0], [7.0, 8.0, 9.0]];
    let t = transpose3(&r);
    assert_eq!(t, [[1.0, 4.0, 7.0], [2.0, 5.0, 8.0], [3.0, 6.0, 9.0]]);
    assert_eq!(transpose3(&t), r);
}
