use navette_berreman::transfer::{
    block, fresnel_from_scattering, interface_roughness, join_blocks,
    periodic_roughness, periodic_route, power_method_for, PeriodicRoute, PowerMethod,
};

fn numbered() -> [[i32; 4]; 4] {
    let mut m = [[0; 4]; 4];
    for i in 0..4 {
        for j in 0..4 {
            m[i][j] = (10 * i + j) as i32;
        }
    }
    m
}

#[test]
fn blocks_split_and_join() {
    let m = numbered();
    assert_eq!(block(&m, 0, 0), [[0, 1], [10, 11]]);
    assert_eq!(block(&m, 0, 1), [[2, 3], [12, 13]]);
    assert_eq!(block(&m, 1, 0), [[20, 21], [30, 31]]);
    assert_eq!(block(&m, 1, 1), [[22, 23], [32, 33]]);
    let back = join_blocks(&block(&m, 0, 0), &block(&m, 0, 1), &block(&m, 1, 0), &block(&m, 1, 1));
    assert_eq!(back, m);
}

#[test]
fn fresnel_read_off_from_scattering_matrix() {
    let j = fresnel_from_scattering(&numbered());
    assert_eq!(j.trans, [[0, 1], [10, 11]]);
    assert_eq!(j.refl, [[20, 21], [30, 31]]);
}

#[test]
fn plain_stack_interfaces() {
    let fronts = [(4, 8.0), (0, 0.0), (1, 5.0)];
    let r = interface_roughness(&fronts, (4, 12.0));
    assert_eq!(r, vec![(4, 8.0), (0, 0.0), (1, 5.0), (4, 12.0)]);
    let empty: [(i32, f64); 0] = [];
    assert_eq!(interface_roughness(&empty, (2, 1.0)), vec![(2, 1.0)]);
}

#[test]
fn periodic_dressing_equals_expanded_stack() {
    let cell = [(5, 3.0), (4, 1.0), (0, 0.0)];
    let exit = (2, 7.0);
    let periods: u32 = 3;
    let dress = periodic_roughness(&cell, periods, exit);
    let expanded: Vec<(i32, f64)> = (0..periods).flat_map(|_| cell.iter().copied()).collect();
    assert_eq!(dress, interface_roughness(&expanded, exit));
    assert_eq!(dress.len(), 3 * 3 + 1);
    // entry, interior, wrap, last
    assert_eq!(dress[0], (5, 3.0));
    assert_eq!(&dress[1..3], &[(4, 1.0), (0, 0.0)]);
    assert_eq!(dress[3], (5, 3.0));
    assert_eq!(dress[dress.len() - 1], exit);
}

#[test]
fn periodic_dressing_single_layer_cell() {
    let cell = [(1, 2.0)];
    let dress = periodic_roughness(&cell, 4, (0, 0.0));
    assert_eq!(dress, vec![(1, 2.0), (1, 2.0), (1, 2.0), (1, 2.0), (0, 0.0)]);
    let once = periodic_roughness(&cell, 1, (3, 9.0));
    assert_eq!(once, vec![(1, 2.0), (3, 9.0)]);
}

#[test]
fn periodic_routes() {
    assert_eq!(periodic_route(0, 3), PeriodicRoute::Rejected);
    assert_eq!(periodic_route(5, 0), PeriodicRoute::Rejected);
    assert_eq!(periodic_route(1, 3), PeriodicRoute::Single);
    assert_eq!(periodic_route(40, 2), PeriodicRoute::Powered);
}

#[test]
fn power_method_by_exit() {
    assert_eq!(power_method_for(true), PowerMethod::Flux);
    assert_eq!(power_method_for(false), PowerMethod::JonesFactor);
}
