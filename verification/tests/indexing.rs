use labdessem::ids::{
    BusId, HydroGroupId, HydroPlantId, HydroUnitId, PumpingPlantId, RenewablePlantId, SubmarketId,
    ThermalPlantId, ThermalUnitId,
};
use labdessem::indexing::{
    submarket_position, HydroPlantIndex, HydroUnitIndex, Indexing, InterchangeIndex,
    PumpingPlantIndex, RenewablePlantIndex, ThermalUnitIndex,
};
use labdessem::system::{
    Bus, HydroFphaSegment, HydroGroup, HydroInitialCondition, HydroPlant, HydroUnit, PumpingPlant,
    RenewablePlant, StudyHorizon, Submarket, System, ThermalInitialCondition, ThermalPlant,
    ThermalUnit,
};

fn thermal_unit(id: usize) -> ThermalUnit {
    ThermalUnit {
        id: ThermalUnitId(id),
        name: format!("GT-{id}"),
        startup_steps: 1,
        shutdown_steps: 1,
        min_up_time: 1,
        min_down_time: 1,
        initial_condition: ThermalInitialCondition {
            is_on: false,
            time_in_state: 1,
            time_in_ramp: 0,
            is_ramping_up: false,
            is_ramping_down: false,
        },
    }
}

fn hydro_unit(id: usize) -> HydroUnit {
    HydroUnit {
        id: HydroUnitId(id),
        name: format!("UG-{id}"),
        min_up_time: 1,
        min_down_time: 1,
        initial_condition: HydroInitialCondition { is_on: true, time_in_state: 1 },
    }
}

fn hydro_plant(id: usize, submarket: usize, groups: Vec<HydroGroup>) -> HydroPlant {
    HydroPlant {
        id: HydroPlantId(id),
        name: format!("UHE-{id}"),
        submarket_id: SubmarketId(submarket),
        bus_id: BusId(submarket),
        upstream_plant_ids: vec![],
        downstream_plant_id: None,
        diversion_upstream_plant_ids: vec![],
        diversion_plant_id: None,
        inflow_periods: 2,
        withdrawal_periods: 2,
        fpha_segments: vec![HydroFphaSegment { segment: 1 }],
        groups,
    }
}

fn two_submarket_system() -> System {
    System {
        horizon: StudyHorizon { periods: 2 },
        thermal_unit_commitment_enabled: false,
        hydro_unit_commitment_enabled: false,
        ton_residual_enabled: false,
        hydro_fpha_enabled: true,
        residual_costs: vec![],
        submarkets: vec![
            Submarket { id: SubmarketId(4), name: "SE".into(), demand_periods: 2 },
            Submarket { id: SubmarketId(2), name: "S".into(), demand_periods: 2 },
        ],
        interchange_limits: vec![],
        operational_limits: vec![],
        buses: vec![
            Bus { id: BusId(4), name: "B4".into(), submarket_id: SubmarketId(4), angle_reference: true, demand_periods: 2 },
            Bus { id: BusId(2), name: "B2".into(), submarket_id: SubmarketId(2), angle_reference: false, demand_periods: 2 },
        ],
        branches: vec![],
        thermal_plants: vec![
            ThermalPlant {
                id: ThermalPlantId(1),
                name: "UTE-1".into(),
                submarket_id: SubmarketId(2),
                bus_id: BusId(2),
                units: vec![thermal_unit(1), thermal_unit(2)],
            },
            ThermalPlant {
                id: ThermalPlantId(2),
                name: "UTE-2".into(),
                submarket_id: SubmarketId(4),
                bus_id: BusId(4),
                units: vec![thermal_unit(3)],
            },
        ],
        hydro_plants: vec![
            hydro_plant(
                1,
                4,
                vec![
                    HydroGroup { id: HydroGroupId(1), name: "CJ-1".into(), units: vec![hydro_unit(1)] },
                    HydroGroup { id: HydroGroupId(2), name: "CJ-2".into(), units: vec![hydro_unit(2), hydro_unit(3)] },
                ],
            ),
            hydro_plant(2, 2, vec![]),
        ],
        renewable_plants: vec![RenewablePlant {
            id: RenewablePlantId(1),
            name: "EOL-1".into(),
            submarket_id: SubmarketId(2),
            bus_id: BusId(2),
            available_periods: 2,
        }],
        pumping_plants: vec![PumpingPlant {
            id: PumpingPlantId(1),
            name: "USIE-1".into(),
            submarket_id: SubmarketId(4),
            bus_id: BusId(4),
            upstream_hydro_id: HydroPlantId(2),
            downstream_hydro_id: HydroPlantId(1),
        }],
    }
}

#[test]
fn submarket_positions() {
    let ids = vec![SubmarketId(4), SubmarketId(2), SubmarketId(4)];
    assert_eq!(submarket_position(&ids, SubmarketId(4)), 0);
    assert_eq!(submarket_position(&ids, SubmarketId(2)), 1);
}

#[test]
fn indexing_follows_plants_units_and_submarkets() {
    let system = two_submarket_system();
    assert_eq!(system.validate(), Ok(()));
    let idx = Indexing::from_system(&system);

    assert_eq!(idx.submarket_ids, vec![SubmarketId(4), SubmarketId(2)]);
    assert_eq!(
        idx.thermal_unit_entries,
        vec![
            ThermalUnitIndex { plant_idx: 0, unit_idx: 0, submarket_idx: 1 },
            ThermalUnitIndex { plant_idx: 0, unit_idx: 1, submarket_idx: 1 },
            ThermalUnitIndex { plant_idx: 1, unit_idx: 0, submarket_idx: 0 },
        ]
    );
    assert_eq!(
        idx.hydro_unit_entries,
        vec![
            HydroUnitIndex { plant_idx: 0, group_idx: 0, unit_idx: 0, submarket_idx: 0 },
            HydroUnitIndex { plant_idx: 0, group_idx: 1, unit_idx: 0, submarket_idx: 0 },
            HydroUnitIndex { plant_idx: 0, group_idx: 1, unit_idx: 1, submarket_idx: 0 },
        ]
    );
    assert_eq!(
        idx.hydro_plant_entries,
        vec![HydroPlantIndex { plant_idx: 0, submarket_idx: 0 }, HydroPlantIndex { plant_idx: 1, submarket_idx: 1 }]
    );
    assert_eq!(idx.renewable_plant_entries, vec![RenewablePlantIndex { plant_idx: 0, submarket_idx: 1 }]);
    assert_eq!(idx.pumping_plant_entries, vec![PumpingPlantIndex { plant_idx: 0, submarket_idx: 0 }]);
    assert_eq!(
        idx.interchange_entries,
        vec![
            InterchangeIndex { from_submarket_idx: 0, to_submarket_idx: 1, period: 0 },
            InterchangeIndex { from_submarket_idx: 1, to_submarket_idx: 0, period: 0 },
            InterchangeIndex { from_submarket_idx: 0, to_submarket_idx: 1, period: 1 },
            InterchangeIndex { from_submarket_idx: 1, to_submarket_idx: 0, period: 1 },
        ]
    );
    assert_eq!(idx.thermal_units, 3);
    assert_eq!(idx.hydro_units, 3);
    assert_eq!(idx.renewable_plants, 1);
    assert_eq!(idx.pumping_plants, 1);
    assert_eq!(idx.buses, 2);
    assert_eq!(idx.submarkets, 2);
}

#[test]
fn interchange_entries_cover_every_ordered_pair() {
    let mut system = two_submarket_system();
    system.submarkets.push(Submarket { id: SubmarketId(9), name: "N".into(), demand_periods: 2 });
    system.horizon.periods = 1;
    let idx = Indexing::from_system(&system);
    // n * m * (m - 1) entries: one period, three submarkets.
    assert_eq!(idx.interchange_entries.len(), 6);
    assert_eq!(
        idx.interchange_entries[2..4].to_vec(),
        vec![
            InterchangeIndex { from_submarket_idx: 1, to_submarket_idx: 0, period: 0 },
            InterchangeIndex { from_submarket_idx: 1, to_submarket_idx: 2, period: 0 },
        ]
    );
}
