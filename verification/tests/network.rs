use labdessem::ids::{BranchId, BusId, SubmarketId};
use labdessem::network::{
    branch_terminals, bus_column, non_reference_buses, reduced_incidence, BranchTerminals,
};
use labdessem::system::{Branch, Bus, StudyHorizon, System};

fn bus(id: usize, reference: bool) -> Bus {
    Bus {
        id: BusId(id),
        name: format!("BUS-{id}"),
        submarket_id: SubmarketId(1),
        angle_reference: reference,
        demand_periods: 1,
    }
}

fn branch(id: usize, from: usize, to: usize) -> Branch {
    Branch { id: BranchId(id), name: format!("LIN-{id}"), from_bus_id: BusId(from), to_bus_id: BusId(to) }
}

fn network(buses: Vec<Bus>, branches: Vec<Branch>) -> System {
    System {
        horizon: StudyHorizon { periods: 1 },
        thermal_unit_commitment_enabled: false,
        hydro_unit_commitment_enabled: false,
        ton_residual_enabled: false,
        hydro_fpha_enabled: true,
        residual_costs: vec![],
        submarkets: vec![],
        interchange_limits: vec![],
        operational_limits: vec![],
        buses,
        branches,
        thermal_plants: vec![],
        hydro_plants: vec![],
        renewable_plants: vec![],
        pumping_plants: vec![],
    }
}

fn three_bus_ring() -> System {
    network(
        vec![bus(10, false), bus(20, true), bus(30, false)],
        vec![branch(1, 10, 20), branch(2, 20, 30), branch(3, 10, 30)],
    )
}

#[test]
fn reference_bus_takes_no_column() {
    let system = three_bus_ring();
    let columns = non_reference_buses(&system);
    assert_eq!(columns, vec![0, 2]);
    assert_eq!(bus_column(&system, &columns, BusId(10)), Some(0));
    assert_eq!(bus_column(&system, &columns, BusId(20)), None);
    assert_eq!(bus_column(&system, &columns, BusId(30)), Some(1));
    assert_eq!(bus_column(&system, &columns, BusId(99)), None);
}

#[test]
fn branch_ends_map_to_reduced_columns() {
    let system = three_bus_ring();
    let columns = non_reference_buses(&system);
    let terminals = branch_terminals(&system, &columns);
    assert_eq!(
        terminals,
        vec![
            BranchTerminals { from_column: Some(0), to_column: None },
            BranchTerminals { from_column: None, to_column: Some(1) },
            BranchTerminals { from_column: Some(0), to_column: Some(1) },
        ]
    );
}

#[test]
fn reduced_incidence_marks_sending_and_receiving_buses() {
    let system = three_bus_ring();
    let columns = non_reference_buses(&system);
    let terminals = branch_terminals(&system, &columns);
    let incidence = reduced_incidence(&terminals, columns.len());
    assert_eq!(incidence, vec![vec![1, 0], vec![0, -1], vec![1, -1]]);
}

#[test]
fn receiving_end_wins_when_both_ends_share_a_column() {
    let terminals = vec![BranchTerminals { from_column: Some(0), to_column: Some(0) }];
    assert_eq!(reduced_incidence(&terminals, 2), vec![vec![-1, 0]]);
}

#[test]
fn network_without_branches_has_empty_incidence() {
    let system = network(vec![bus(1, true), bus(2, false)], vec![]);
    let columns = non_reference_buses(&system);
    assert_eq!(columns, vec![1]);
    let terminals = branch_terminals(&system, &columns);
    assert!(terminals.is_empty());
    assert!(reduced_incidence(&terminals, columns.len()).is_empty());
}
