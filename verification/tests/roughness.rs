use navette_berreman::roughness::{
    coupling_factor, form_model, interface_columns, Channel, CouplingFactor, FormModel, Medium,
};

#[test]
fn form_models_by_code() {
    assert_eq!(form_model(1), Some(FormModel::Uniform));
    assert_eq!(form_model(2), Some(FormModel::TwoDelta));
    assert_eq!(form_model(3), Some(FormModel::Lorentzian));
    assert_eq!(form_model(4), Some(FormModel::Gaussian));
    assert_eq!(form_model(0), None);
    assert_eq!(form_model(5), None);
    assert_eq!(form_model(9), None);
}

#[test]
fn channel_map_of_single_argument_codes() {
    let a = |m| Channel { medium: Medium::Incident, mode: m };
    let b = |m| Channel { medium: Medium::Transmitted, mode: m };
    assert_eq!(
        coupling_factor(3, 0, 1),
        CouplingFactor::Form { model: FormModel::Lorentzian, input: a(1), output: b(0) }
    );
    assert_eq!(
        coupling_factor(1, 2, 3),
        CouplingFactor::Form { model: FormModel::Uniform, input: b(3), output: a(2) }
    );
    assert_eq!(
        coupling_factor(4, 3, 0),
        CouplingFactor::Form { model: FormModel::Gaussian, input: a(0), output: a(3) }
    );
    assert_eq!(coupling_factor(0, 1, 1), CouplingFactor::Unity);
    assert_eq!(coupling_factor(8, 2, 1), CouplingFactor::Unity);
}

#[test]
fn nevot_croce_blocks() {
    for i in 0..4 {
        for j in 0..4 {
            let f = coupling_factor(5, i, j);
            if (i < 2) == (j < 2) {
                assert_eq!(f, coupling_factor(4, i, j));
            } else {
                assert_eq!(f, CouplingFactor::Cross { mode: if j < 2 { j } else { i } });
            }
        }
    }
    assert_eq!(coupling_factor(5, 2, 1), CouplingFactor::Cross { mode: 1 });
    assert_eq!(coupling_factor(5, 0, 3), CouplingFactor::Cross { mode: 0 });
}

#[test]
fn interface_columns_follow_the_channels() {
    let mut pa = [[0; 4]; 4];
    let mut pb = [[0; 4]; 4];
    for i in 0..4 {
        for k in 0..4 {
            pa[i][k] = 100 + 10 * i + k;
            pb[i][k] = 200 + 10 * i + k;
        }
    }
    let (incoming, outgoing) = interface_columns(&pa, &pb);
    assert_eq!(incoming[1], [110, 111, 212, 213]);
    assert_eq!(outgoing[1], [210, 211, 112, 113]);
    assert_eq!(incoming[3][0], 130);
    assert_eq!(outgoing[3][3], 133);
}
