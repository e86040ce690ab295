use labdessem::ids::{
    BusId, HydroGroupId, HydroPlantId, HydroUnitId, PumpingPlantId, RenewablePlantId, SubmarketId,
    ThermalPlantId, ThermalUnitId,
};
use labdessem::indexing::Indexing;
use labdessem::layout::{demand_balance_terms, hydro_balance_terms, limit_terms, productivity_terms, LayoutTerm, VarRef};
use labdessem::model::diversion_closed;
use labdessem::system::{
    Bus, HydroFphaSegment, HydroGroup, HydroInitialCondition, HydroPlant, HydroUnit,
    InterchangeLimit, OperationalLimitTarget, OperationalLimitVariable, PumpingPlant,
    RenewablePlant, StudyHorizon, Submarket, System, ThermalInitialCondition, ThermalPlant,
    ThermalUnit,
};

fn term(var: VarRef, coefficient: i64) -> LayoutTerm {
    LayoutTerm { var, coefficient }
}

fn hydro_plant(id: usize, name: &str, group: &str, unit: &str, submarket: usize, periods: usize) -> HydroPlant {
    HydroPlant {
        id: HydroPlantId(id),
        name: name.into(),
        submarket_id: SubmarketId(submarket),
        bus_id: BusId(submarket),
        upstream_plant_ids: vec![],
        downstream_plant_id: None,
        diversion_upstream_plant_ids: vec![],
        diversion_plant_id: None,
        inflow_periods: periods,
        withdrawal_periods: periods,
        fpha_segments: vec![HydroFphaSegment { segment: 1 }],
        groups: vec![HydroGroup {
            id: HydroGroupId(id),
            name: group.into(),
            units: vec![HydroUnit {
                id: HydroUnitId(id),
                name: unit.into(),
                min_up_time: 1,
                min_down_time: 1,
                initial_condition: HydroInitialCondition { is_on: true, time_in_state: 1 },
            }],
        }],
    }
}

fn build_system() -> System {
    System {
        horizon: StudyHorizon { periods: 2 },
        thermal_unit_commitment_enabled: true,
        hydro_unit_commitment_enabled: true,
        ton_residual_enabled: false,
        hydro_fpha_enabled: true,
        residual_costs: vec![],
        submarkets: vec![
            Submarket { id: SubmarketId(1), name: "SE".into(), demand_periods: 2 },
            Submarket { id: SubmarketId(2), name: "S".into(), demand_periods: 2 },
        ],
        interchange_limits: vec![
            InterchangeLimit { from_submarket_id: SubmarketId(1), to_submarket_id: SubmarketId(2) },
            InterchangeLimit { from_submarket_id: SubmarketId(2), to_submarket_id: SubmarketId(1) },
        ],
        operational_limits: vec![],
        buses: vec![
            Bus { id: BusId(1), name: "BUS-1".into(), submarket_id: SubmarketId(1), angle_reference: true, demand_periods: 2 },
            Bus { id: BusId(2), name: "BUS-2".into(), submarket_id: SubmarketId(2), angle_reference: false, demand_periods: 2 },
        ],
        branches: vec![],
        thermal_plants: vec![ThermalPlant {
            id: ThermalPlantId(1),
            name: "UTE-1".into(),
            submarket_id: SubmarketId(1),
            bus_id: BusId(1),
            units: vec![ThermalUnit {
                id: ThermalUnitId(1),
                name: "GT-1".into(),
                startup_steps: 2,
                shutdown_steps: 2,
                min_up_time: 1,
                min_down_time: 1,
                initial_condition: ThermalInitialCondition {
                    is_on: true,
                    time_in_state: 1,
                    time_in_ramp: 1,
                    is_ramping_up: false,
                    is_ramping_down: false,
                },
            }],
        }],
        hydro_plants: vec![hydro_plant(1, "UHE-1", "CJ-1", "UG-1", 2, 2)],
        renewable_plants: vec![
            RenewablePlant { id: RenewablePlantId(1), name: "REN-1".into(), submarket_id: SubmarketId(1), bus_id: BusId(1), available_periods: 2 },
            RenewablePlant { id: RenewablePlantId(2), name: "REN-2".into(), submarket_id: SubmarketId(2), bus_id: BusId(2), available_periods: 2 },
        ],
        pumping_plants: vec![],
    }
}

fn build_system_with_multiple_upstreams() -> System {
    let mut a = hydro_plant(1, "UHE-A", "CJ-A", "UG-A", 1, 1);
    a.downstream_plant_id = Some(HydroPlantId(3));
    let mut b = hydro_plant(2, "UHE-B", "CJ-B", "UG-B", 1, 1);
    b.downstream_plant_id = Some(HydroPlantId(3));
    let mut c = hydro_plant(3, "UHE-C", "CJ-C", "UG-C", 1, 1);
    c.upstream_plant_ids = vec![HydroPlantId(1), HydroPlantId(2)];
    System {
        horizon: StudyHorizon { periods: 1 },
        thermal_unit_commitment_enabled: true,
        hydro_unit_commitment_enabled: true,
        ton_residual_enabled: false,
        hydro_fpha_enabled: true,
        residual_costs: vec![],
        submarkets: vec![Submarket { id: SubmarketId(1), name: "SE".into(), demand_periods: 1 }],
        interchange_limits: vec![],
        operational_limits: vec![],
        buses: vec![Bus { id: BusId(1), name: "BUS-1".into(), submarket_id: SubmarketId(1), angle_reference: true, demand_periods: 1 }],
        branches: vec![],
        thermal_plants: vec![],
        hydro_plants: vec![a, b, c],
        renewable_plants: vec![],
        pumping_plants: vec![],
    }
}

#[test]
fn builds_demand_balance_by_submarket_and_period() {
    let system = build_system();
    let ix = Indexing::from_system(&system);
    // Interchange entries of period 0: SE->S (0), S->SE (1).
    let first = demand_balance_terms(&ix, 0, 0);
    assert_eq!(
        first,
        vec![
            term(VarRef::ThermalGeneration { entry: 0, period: 0 }, 1),
            term(VarRef::RenewableGeneration { entry: 0, period: 0 }, 1),
            term(VarRef::Interchange { entry: 0 }, -1),
            term(VarRef::Interchange { entry: 1 }, 1),
            term(VarRef::Deficit { submarket: 0, period: 0 }, 1),
        ]
    );
    let second_period_s = demand_balance_terms(&ix, 1, 1);
    assert_eq!(
        second_period_s,
        vec![
            term(VarRef::HydroGeneration { entry: 0, period: 1 }, 1),
            term(VarRef::RenewableGeneration { entry: 1, period: 1 }, 1),
            term(VarRef::Interchange { entry: 2 }, 1),
            term(VarRef::Interchange { entry: 3 }, -1),
            term(VarRef::Deficit { submarket: 1, period: 1 }, 1),
        ]
    );
}

#[test]
fn builds_hydro_balance_for_first_period_with_boundary_condition() {
    let system = build_system();
    let ix = Indexing::from_system(&system);
    let first = hydro_balance_terms(&system, &ix, 0, 0);
    assert_eq!(
        first,
        vec![
            term(VarRef::HydroVolume { plant_entry: 0, boundary: 1 }, 1),
            term(VarRef::HydroVolume { plant_entry: 0, boundary: 0 }, -1),
            term(VarRef::HydroTurbining { entry: 0, period: 0 }, 1),
            term(VarRef::HydroSpillage { plant_entry: 0, period: 0 }, 1),
            term(VarRef::HydroDiversion { plant_entry: 0, period: 0 }, 1),
        ]
    );
    assert!(!first.contains(&term(VarRef::HydroVolume { plant_entry: 0, boundary: 2 }, -1)));
}

#[test]
fn builds_hydro_balance_for_later_periods_with_previous_volume() {
    let system = build_system();
    let ix = Indexing::from_system(&system);
    let second = hydro_balance_terms(&system, &ix, 0, 1);
    assert!(second.contains(&term(VarRef::HydroVolume { plant_entry: 0, boundary: 2 }, 1)));
    assert!(second.contains(&term(VarRef::HydroVolume { plant_entry: 0, boundary: 1 }, -1)));
}

#[test]
fn sums_all_upstream_plants_in_hydro_balance() {
    let system = build_system_with_multiple_upstreams();
    assert_eq!(system.validate(), Ok(()));
    let ix = Indexing::from_system(&system);
    let balance = hydro_balance_terms(&system, &ix, 2, 0);
    assert!(balance.contains(&term(VarRef::HydroTurbining { entry: 0, period: 0 }, -1)));
    assert!(balance.contains(&term(VarRef::HydroSpillage { plant_entry: 0, period: 0 }, -1)));
    assert!(balance.contains(&term(VarRef::HydroTurbining { entry: 1, period: 0 }, -1)));
    assert!(balance.contains(&term(VarRef::HydroSpillage { plant_entry: 1, period: 0 }, -1)));
    // Each upstream plant releases the same water from its own balance.
    let upstream = hydro_balance_terms(&system, &ix, 0, 0);
    assert!(upstream.contains(&term(VarRef::HydroTurbining { entry: 0, period: 0 }, 1)));
    assert!(upstream.contains(&term(VarRef::HydroSpillage { plant_entry: 0, period: 0 }, 1)));
}

#[test]
fn adds_diversion_flows_to_hydro_balance() {
    let mut system = build_system_with_multiple_upstreams();
    system.hydro_plants[0].diversion_plant_id = Some(HydroPlantId(3));
    system.hydro_plants[2].diversion_upstream_plant_ids = vec![HydroPlantId(1)];
    assert_eq!(system.validate(), Ok(()));
    let ix = Indexing::from_system(&system);

    let destination = hydro_balance_terms(&system, &ix, 2, 0);
    assert!(destination.contains(&term(VarRef::HydroDiversion { plant_entry: 0, period: 0 }, -1)));
    let origin = hydro_balance_terms(&system, &ix, 0, 0);
    assert!(origin.contains(&term(VarRef::HydroDiversion { plant_entry: 0, period: 0 }, 1)));
}

#[test]
fn adds_pumping_to_demand_and_hydro_balances() {
    let mut system = build_system_with_multiple_upstreams();
    system.pumping_plants = vec![PumpingPlant {
        id: PumpingPlantId(1),
        name: "USIE-1".into(),
        submarket_id: SubmarketId(1),
        bus_id: BusId(1),
        upstream_hydro_id: HydroPlantId(1),
        downstream_hydro_id: HydroPlantId(3),
    }];
    let ix = Indexing::from_system(&system);

    let demand = demand_balance_terms(&ix, 0, 0);
    assert!(demand.contains(&term(VarRef::Pumping { entry: 0, period: 0 }, -1)));
    let upstream = hydro_balance_terms(&system, &ix, 0, 0);
    assert!(upstream.contains(&term(VarRef::Pumping { entry: 0, period: 0 }, -1)));
    let downstream = hydro_balance_terms(&system, &ix, 2, 0);
    assert!(downstream.contains(&term(VarRef::Pumping { entry: 0, period: 0 }, 1)));
    let unrelated = hydro_balance_terms(&system, &ix, 1, 0);
    assert!(!unrelated.iter().any(|t| matches!(t.var, VarRef::Pumping { .. })));
}

#[test]
fn builds_pumping_operational_limits() {
    let mut system = build_system();
    system.pumping_plants = vec![PumpingPlant {
        id: PumpingPlantId(1),
        name: "USIE-1".into(),
        submarket_id: SubmarketId(1),
        bus_id: BusId(1),
        upstream_hydro_id: HydroPlantId(999),
        downstream_hydro_id: HydroPlantId(1),
    }];
    system.hydro_plants.push(hydro_plant(999, "UHE-UP", "CJ-1", "UG-1", 1, 2));
    let ix = Indexing::from_system(&system);
    let target = OperationalLimitTarget::PumpingPlant(PumpingPlantId(1));
    assert_eq!(
        limit_terms(&system, &ix, target, OperationalLimitVariable::Pumping, 0),
        vec![term(VarRef::Pumping { entry: 0, period: 0 }, 1)]
    );
    assert!(limit_terms(&system, &ix, target, OperationalLimitVariable::Generation, 0).is_empty());
}

#[test]
fn operational_limits_bound_the_right_variables() {
    let system = build_system();
    let ix = Indexing::from_system(&system);
    let thermal = OperationalLimitTarget::ThermalPlant(ThermalPlantId(1));
    let hydro = OperationalLimitTarget::HydroPlant(HydroPlantId(1));
    assert_eq!(
        limit_terms(&system, &ix, thermal, OperationalLimitVariable::Generation, 1),
        vec![term(VarRef::ThermalGeneration { entry: 0, period: 1 }, 1)]
    );
    assert!(limit_terms(&system, &ix, thermal, OperationalLimitVariable::Volume, 1).is_empty());
    assert_eq!(
        limit_terms(&system, &ix, hydro, OperationalLimitVariable::Generation, 0),
        vec![term(VarRef::HydroGeneration { entry: 0, period: 0 }, 1)]
    );
    assert_eq!(
        limit_terms(&system, &ix, hydro, OperationalLimitVariable::Volume, 0),
        vec![term(VarRef::HydroVolume { plant_entry: 0, boundary: 1 }, 1)]
    );
    assert_eq!(
        limit_terms(&system, &ix, hydro, OperationalLimitVariable::Spillage, 1),
        vec![term(VarRef::HydroSpillage { plant_entry: 0, period: 1 }, 1)]
    );
    assert_eq!(
        limit_terms(&system, &ix, hydro, OperationalLimitVariable::Turbining, 1),
        vec![term(VarRef::HydroTurbining { entry: 0, period: 1 }, 1)]
    );
    assert_eq!(
        limit_terms(&system, &ix, hydro, OperationalLimitVariable::Defluence, 1),
        vec![
            term(VarRef::HydroTurbining { entry: 0, period: 1 }, 1),
            term(VarRef::HydroSpillage { plant_entry: 0, period: 1 }, 1),
        ]
    );
    assert_eq!(
        limit_terms(&system, &ix, hydro, OperationalLimitVariable::Diversion, 1),
        vec![term(VarRef::HydroDiversion { plant_entry: 0, period: 1 }, 1)]
    );
}

#[test]
fn productivity_links_generation_to_turbining() {
    assert_eq!(
        productivity_terms(3, 2),
        vec![
            term(VarRef::HydroGeneration { entry: 3, period: 2 }, 1),
            term(VarRef::HydroTurbining { entry: 3, period: 2 }, -1),
        ]
    );
}

#[test]
fn plants_without_a_diversion_link_divert_nothing() {
    let mut plant = hydro_plant(1, "UHE-1", "G1", "U1", 1, 2);
    plant.diversion_plant_id = None;
    assert!(diversion_closed(&plant));
    plant.diversion_plant_id = Some(HydroPlantId(2));
    assert!(!diversion_closed(&plant));
}
