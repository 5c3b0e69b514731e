use navette_berreman::berreman::{assemble_waves, sorted_wave_order, split_by_direction};

#[test]
fn split_requires_two_forward_waves() {
    assert_eq!(split_by_direction([true, false, true, false]), Some(([0, 2], [1, 3])));
    assert_eq!(split_by_direction([false, false, true, true]), Some(([2, 3], [0, 1])));
    assert_eq!(split_by_direction([true, true, true, false]), None);
    assert_eq!(split_by_direction([false, false, false, false]), None);
    assert_eq!(split_by_direction([true, false, false, false]), None);
}

#[test]
fn wave_order_swaps() {
    assert_eq!(sorted_wave_order([0, 2], [1, 3], false, false), [2, 0, 3, 1]);
    assert_eq!(sorted_wave_order([0, 2], [1, 3], true, false), [0, 2, 3, 1]);
    assert_eq!(sorted_wave_order([0, 2], [1, 3], false, true), [2, 0, 1, 3]);
    assert_eq!(sorted_wave_order([0, 2], [1, 3], true, true), [0, 2, 1, 3]);
}

#[test]
fn every_order_is_a_forward_first_permutation() {
    for bits in 0..16u32 {
        let forward = [bits & 1 != 0, bits & 2 != 0, bits & 4 != 0, bits & 8 != 0];
        let n_forward = forward.iter().filter(|&&f| f).count();
        match split_by_direction(forward) {
            Some((t, r)) => {
                assert_eq!(n_forward, 2);
                for st in [false, true] {
                    for sr in [false, true] {
                        let o = sorted_wave_order(t, r, st, sr);
                        let mut sorted = o;
                        sorted.sort();
                        assert_eq!(sorted, [0, 1, 2, 3]);
                        assert!(forward[o[0]] && forward[o[1]]);
                        assert!(!forward[o[2]] && !forward[o[3]]);
                    }
                }
            }
            None => assert_ne!(n_forward, 2),
        }
    }
}

#[test]
fn columns_follow_their_eigenvalues() {
    let vals = ['a', 'b', 'c', 'd'];
    let vecs = [['a', 'b', 'c', 'd'], ['A', 'B', 'C', 'D'], ['1', '2', '3', '4'], ['w', 'x', 'y', 'z']];
    let (q, p) = assemble_waves(&vals, &vecs, &[2, 0, 3, 1]);
    assert_eq!(q, ['c', 'a', 'd', 'b']);
    assert_eq!(p[0], ['c', 'a', 'd', 'b']);
    assert_eq!(p[1], ['C', 'A', 'D', 'B']);
    assert_eq!(p[3], ['y', 'w', 'z', 'x']);
}
