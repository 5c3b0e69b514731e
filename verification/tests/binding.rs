use navette_berreman::binding::{
    check_fields_grid, check_solve_grid, count_failed, depth_slot, exit_layout,
    fields_method_from_code, grid_point, has_roughness, matrix4_from_flat, matrix_slot,
    method_from_code, tensor_batch_count, tensor_entry, tensor_offset, ExitArray, ExitLayout,
    GridError,
};
use navette_berreman::transfer::Method;

#[test]
fn solve_grid_accepts_consistent_shapes() {
    assert_eq!(check_solve_grid(3, 4, 2, 1, 3 * 2 * 18, 3, 3), Ok(()));
    assert_eq!(check_solve_grid(1, 1, 1, 40, 18, 2, 2), Ok(()));
}

#[test]
fn solve_grid_rejects_in_order() {
    assert_eq!(check_solve_grid(0, 4, 2, 0, 0, 0, 0), Err(GridError::EmptyGrid));
    assert_eq!(check_solve_grid(3, 0, 2, 1, 108, 3, 3), Err(GridError::EmptyGrid));
    assert_eq!(check_solve_grid(3, 4, 0, 1, 0, 1, 1), Err(GridError::EmptyGrid));
    assert_eq!(check_solve_grid(3, 4, 2, 0, 7, 0, 0), Err(GridError::ZeroPeriods));
    assert_eq!(
        check_solve_grid(3, 4, 2, 1, 107, 0, 0),
        Err(GridError::EpsLength { got: 107, want: 108 })
    );
    assert_eq!(check_solve_grid(3, 4, 2, 1, 108, 2, 3), Err(GridError::RoughLength { want: 3 }));
    assert_eq!(check_solve_grid(3, 4, 2, 1, 108, 3, 4), Err(GridError::RoughLength { want: 3 }));
}

#[test]
fn fields_grid_checks() {
    assert_eq!(check_fields_grid(2, 3, 1, 9, 36), Ok(()));
    assert_eq!(check_fields_grid(2, 3, 0, 9, 36), Err(GridError::EmptyGrid));
    assert_eq!(check_fields_grid(2, 3, 1, 0, 36), Err(GridError::EmptyDepths));
    assert_eq!(
        check_fields_grid(2, 3, 1, 9, 35),
        Err(GridError::EpsLength { got: 35, want: 36 })
    );
}

#[test]
fn method_codes_and_roughness() {
    assert_eq!(method_from_code(0, false), Ok(Method::Scattering));
    assert_eq!(method_from_code(1, false), Ok(Method::Transfer));
    assert_eq!(method_from_code(2, false), Ok(Method::Exponential));
    assert_eq!(method_from_code(7, false), Ok(Method::Scattering));
    assert_eq!(method_from_code(-1, true), Ok(Method::Scattering));
    assert_eq!(method_from_code(0, true), Ok(Method::Scattering));
    assert_eq!(method_from_code(1, true), Err(GridError::RoughnessNeedsScattering));
    assert_eq!(method_from_code(2, true), Err(GridError::RoughnessNeedsScattering));
    assert_eq!(fields_method_from_code(1), Method::Transfer);
    assert_eq!(fields_method_from_code(2), Method::Exponential);
    assert_eq!(fields_method_from_code(9), Method::Scattering);
    assert!(!has_roughness(&[0, 0, 0]));
    assert!(has_roughness(&[0, 5, 0]));
    assert!(!has_roughness(&[]));
}

#[test]
fn exit_protocol() {
    let n = 2;
    let w = n * 18;
    assert_eq!(exit_layout(n, 0, 0, 0, 0, false), Ok(ExitLayout::Isotropic));
    assert_eq!(exit_layout(n, w, 0, 0, 0, false), Ok(ExitLayout::Anisotropic));
    assert_eq!(exit_layout(n, w, w, w, w, true), Ok(ExitLayout::AnisotropicFull));
    assert_eq!(exit_layout(n, w, 0, 0, 0, true), Ok(ExitLayout::Anisotropic));
    assert_eq!(
        exit_layout(n, 5, 0, 0, 0, true),
        Err(GridError::ExitLength { which: ExitArray::Eps, got: 5, want: 36 })
    );
    assert_eq!(
        exit_layout(n, w, w, 3, w, true),
        Err(GridError::ExitLength { which: ExitArray::Rhop, got: 3, want: 36 })
    );
    assert_eq!(
        exit_layout(n, w, w, w, 1, true),
        Err(GridError::ExitLength { which: ExitArray::Mu, got: 1, want: 36 })
    );
    assert_eq!(
        exit_layout(n, w, 2, w, w, true),
        Err(GridError::ExitLength { which: ExitArray::Rho, got: 2, want: 36 })
    );
    assert_eq!(exit_layout(n, w, w, 0, w, true), Err(GridError::ExitMoPartial));
    assert_eq!(exit_layout(n, 0, w, w, w, true), Err(GridError::ExitMoWithoutEps));
    assert_eq!(exit_layout(n, w, w, w, w, false), Err(GridError::ExitMoNeedsFull));
}

#[test]
fn failed_points_counted() {
    assert_eq!(count_failed(&[true, false, true, false, false]), 3);
    assert_eq!(count_failed(&[true, true]), 0);
    assert_eq!(count_failed(&[]), 0);
}

#[test]
fn grid_points_decode_row_major() {
    let n_th = 4;
    for w in 0..3 {
        for th in 0..n_th {
            assert_eq!(grid_point(w * n_th + th, n_th), (w, th));
        }
    }
    assert_eq!(grid_point(11, 4), (2, 3));
}

#[test]
fn tensor_layout_values() {
    assert_eq!(tensor_offset(0, 0, 3), 0);
    assert_eq!(tensor_offset(1, 2, 3), 90);
    assert_eq!(tensor_entry(90, 0, 0), 90);
    assert_eq!(tensor_entry(90, 2, 2), 106);
    assert_eq!(tensor_entry(0, 1, 2), 10);
    let mut seen = std::collections::HashSet::new();
    for w in 0..2 {
        for l in 0..3 {
            for i in 0..3 {
                for j in 0..3 {
                    let p = tensor_entry(tensor_offset(w, l, 3), i, j);
                    assert!(p + 1 < 2 * 3 * 18);
                    assert!(seen.insert(p));
                }
            }
        }
    }
}

#[test]
fn output_slots() {
    assert_eq!(matrix_slot(0, 0, 0, 2), 0);
    assert_eq!(matrix_slot(3, 1, 0, 2), 14);
    assert_eq!(matrix_slot(2, 3, 1, 4), 45);
    assert_eq!(depth_slot(0, 0, 0, 5), 0);
    assert_eq!(depth_slot(2, 4, 2, 5), 44);
}

#[test]
fn flat_matrices_and_batches() {
    let flat: Vec<i32> = (0..16).collect();
    let m = matrix4_from_flat(&flat).unwrap();
    assert_eq!(m[0], [0, 1, 2, 3]);
    assert_eq!(m[2][1], 9);
    assert_eq!(m[3][3], 15);
    assert!(matrix4_from_flat(&flat[..15]).is_none());
    assert_eq!(tensor_batch_count(18, 18), Some(2));
    assert_eq!(tensor_batch_count(9, 9), Some(1));
    assert_eq!(tensor_batch_count(0, 0), None);
    assert_eq!(tensor_batch_count(18, 9), None);
    assert_eq!(tensor_batch_count(10, 10), None);
}
