use navette_berreman::cmatrix::eigen_clusters;

#[test]
fn distinct_eigenvalues_are_singletons() {
    let close = [[false; 4]; 4];
    assert_eq!(eigen_clusters(&close), [0, 1, 2, 3]);
}

#[test]
fn double_pairs_group() {
    // isotropic layer: {0, 1} and {2, 3} repeated
    let mut close = [[false; 4]; 4];
    close[0][1] = true;
    close[2][3] = true;
    assert_eq!(eigen_clusters(&close), [0, 0, 2, 2]);
}

#[test]
fn greedy_takes_first_leader() {
    // 1 joins 0; 2 is close only to 1, which leads nothing, so 2 leads a
    // cluster of its own; 3 joins the first leader close to it, 0.
    let mut close = [[false; 4]; 4];
    close[0][1] = true;
    close[1][2] = true;
    close[0][3] = true;
    close[2][3] = true;
    assert_eq!(eigen_clusters(&close), [0, 0, 2, 0]);
    let all = [[true; 4]; 4];
    assert_eq!(eigen_clusters(&all), [0, 0, 0, 0]);
}
