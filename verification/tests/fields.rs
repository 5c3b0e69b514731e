use navette_berreman::fields::field_buf_index;

/// Buffer layout: two writes never collide, re/im adjacent, count exact.
#[test]
fn buf_layout_bijective() {
    let n_z = 7;
    let mut seen = std::collections::HashSet::new();
    for pol in 0..2 {
        for eh in 0..2 {
            for iz in 0..n_z {
                for comp in 0..3 {
                    let idx = field_buf_index(pol, eh, iz, comp, n_z);
                    assert!(idx + 1 < 2 * 2 * n_z * 3 * 2);
                    assert!(seen.insert(idx), "collision at {idx}");
                }
            }
        }
    }
    assert_eq!(seen.len(), 2 * 2 * n_z * 3);
}

#[test]
fn field_buf_index_exact_values() {
    assert_eq!(field_buf_index(0, 0, 0, 0, 5), 0);
    assert_eq!(field_buf_index(0, 0, 0, 1, 5), 2);
    assert_eq!(field_buf_index(0, 0, 1, 0, 5), 6);
    assert_eq!(field_buf_index(0, 1, 0, 0, 5), 30);
    assert_eq!(field_buf_index(1, 0, 0, 0, 5), 60);
    assert_eq!(field_buf_index(1, 1, 4, 2, 5), 118);
}

#[test]
fn field_buf_index_real_parts_even_and_dense() {
    let n_z = 3;
    let mut all: Vec<usize> = Vec::new();
    for pol in 0..2 {
        for eh in 0..2 {
            for iz in 0..n_z {
                for comp in 0..3 {
                    all.push(field_buf_index(pol, eh, iz, comp, n_z));
                }
            }
        }
    }
    all.sort();
    let expect: Vec<usize> = (0..2 * 2 * n_z * 3).map(|k| 2 * k).collect();
    assert_eq!(all, expect);
}
