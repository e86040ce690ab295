use labdessem::ids::{
    BranchId, BusId, HydroGroupId, HydroPlantId, HydroUnitId, PumpingPlantId, RenewablePlantId,
    SubmarketId, ThermalPlantId, ThermalUnitId,
};
use labdessem::system::{
    Branch, Bus, CascadeLink, CoreError, EntityKind, HydroFphaSegment, HydroGroup,
    HydroInitialCondition, HydroPlant, HydroUnit, InterchangeLimit, OperationalLimit,
    OperationalLimitTarget, OperationalLimitVariable, PumpingPlant, RenewablePlant, ResidualCost, SeriesKind,
    StudyHorizon, Submarket, System, ThermalInitialCondition, ThermalPlant, ThermalUnit,
    TrajectoryKind,
};

fn fpha_segments() -> Vec<HydroFphaSegment> {
    vec![HydroFphaSegment { segment: 1 }]
}

fn hydro_unit(id: usize, name: &str) -> HydroUnit {
    HydroUnit {
        id: HydroUnitId(id),
        name: name.into(),
        min_up_time: 1,
        min_down_time: 1,
        initial_condition: HydroInitialCondition { is_on: true, time_in_state: 1 },
    }
}

fn second_hydro_plant(downstream: Option<HydroPlantId>) -> HydroPlant {
    HydroPlant {
        id: HydroPlantId(2),
        name: "UHE-2".into(),
        submarket_id: SubmarketId(1),
        bus_id: BusId(1),
        upstream_plant_ids: vec![],
        downstream_plant_id: downstream,
        diversion_upstream_plant_ids: vec![],
        diversion_plant_id: None,
        inflow_periods: 2,
        withdrawal_periods: 2,
        fpha_segments: fpha_segments(),
        groups: vec![HydroGroup {
            id: HydroGroupId(2),
            name: "CJ-2".into(),
            units: vec![hydro_unit(2, "UG-2")],
        }],
    }
}

fn valid_system() -> System {
    System {
        horizon: StudyHorizon { periods: 2 },
        thermal_unit_commitment_enabled: true,
        hydro_unit_commitment_enabled: true,
        ton_residual_enabled: false,
        hydro_fpha_enabled: true,
        residual_costs: vec![],
        submarkets: vec![Submarket { id: SubmarketId(1), name: "SE".into(), demand_periods: 2 }],
        interchange_limits: vec![],
        operational_limits: vec![],
        buses: vec![Bus {
            id: BusId(1),
            name: "BUS-1".into(),
            submarket_id: SubmarketId(1),
            angle_reference: true,
            demand_periods: 2,
        }],
        branches: vec![],
        thermal_plants: vec![ThermalPlant {
            id: ThermalPlantId(1),
            name: "UTE-1".into(),
            submarket_id: SubmarketId(1),
            bus_id: BusId(1),
            units: vec![ThermalUnit {
                id: ThermalUnitId(1),
                name: "GT-1".into(),
                startup_steps: 3,
                shutdown_steps: 3,
                min_up_time: 1,
                min_down_time: 1,
                initial_condition: ThermalInitialCondition {
                    is_on: true,
                    time_in_state: 2,
                    time_in_ramp: 0,
                    is_ramping_up: false,
                    is_ramping_down: false,
                },
            }],
        }],
        hydro_plants: vec![HydroPlant {
            id: HydroPlantId(1),
            name: "UHE-1".into(),
            submarket_id: SubmarketId(1),
            bus_id: BusId(1),
            upstream_plant_ids: vec![],
            downstream_plant_id: None,
            diversion_upstream_plant_ids: vec![],
            diversion_plant_id: None,
            inflow_periods: 2,
            withdrawal_periods: 2,
            fpha_segments: fpha_segments(),
            groups: vec![HydroGroup {
                id: HydroGroupId(1),
                name: "CJ-1".into(),
                units: vec![hydro_unit(1, "UG-1")],
            }],
        }],
        renewable_plants: vec![
            RenewablePlant {
                id: RenewablePlantId(1),
                name: "EOL-1".into(),
                submarket_id: SubmarketId(1),
                bus_id: BusId(1),
                available_periods: 2,
            },
            RenewablePlant {
                id: RenewablePlantId(2),
                name: "SOL-1".into(),
                submarket_id: SubmarketId(1),
                bus_id: BusId(1),
                available_periods: 2,
            },
        ],
        pumping_plants: vec![],
    }
}

#[test]
fn validates_a_consistent_system() {
    assert!(valid_system().validate().is_ok());
}

#[test]
fn rejects_system_without_single_reference_bus() {
    let mut system = valid_system();
    system.buses.push(Bus {
        id: BusId(2),
        name: "BUS-2".into(),
        submarket_id: SubmarketId(1),
        angle_reference: true,
        demand_periods: 2,
    });
    system.branches.push(Branch {
        id: BranchId(1),
        name: "LT-1".into(),
        from_bus_id: BusId(1),
        to_bus_id: BusId(2),
    });

    assert!(system.validate().is_err());
}

#[test]
fn rejects_inconsistent_hydro_cascade_links() {
    let mut system = valid_system();
    system.hydro_plants.push(second_hydro_plant(None));
    system.hydro_plants[0].downstream_plant_id = Some(HydroPlantId(2));

    assert!(system.validate().is_err());
}

#[test]
fn rejects_duplicated_upstream_reference() {
    let mut system = valid_system();
    system.hydro_plants.push(second_hydro_plant(Some(HydroPlantId(1))));
    system.hydro_plants[0].upstream_plant_ids = vec![HydroPlantId(2), HydroPlantId(2)];

    assert!(system.validate().is_err());
}

#[test]
fn rejects_duplicated_directed_interchange_limit() {
    let mut system = valid_system();
    system.submarkets.push(Submarket { id: SubmarketId(2), name: "S".into(), demand_periods: 2 });
    system.interchange_limits = vec![
        InterchangeLimit { from_submarket_id: SubmarketId(1), to_submarket_id: SubmarketId(2) },
        InterchangeLimit { from_submarket_id: SubmarketId(1), to_submarket_id: SubmarketId(2) },
    ];

    assert!(system.validate().is_err());
}

#[test]
fn reference_bus_error_reports_the_count() {
    let mut system = valid_system();
    system.buses.push(Bus {
        id: BusId(2),
        name: "BUS-2".into(),
        submarket_id: SubmarketId(1),
        angle_reference: true,
        demand_periods: 2,
    });
    assert_eq!(system.validate(), Err(CoreError::ReferenceBusCount(2)));
    system.buses[0].angle_reference = false;
    system.buses[1].angle_reference = false;
    assert_eq!(system.validate(), Err(CoreError::ReferenceBusCount(0)));
}

#[test]
fn cascade_errors_name_the_plants_involved() {
    let mut system = valid_system();
    system.hydro_plants.push(second_hydro_plant(None));
    system.hydro_plants[0].downstream_plant_id = Some(HydroPlantId(2));
    assert_eq!(
        system.validate(),
        Err(CoreError::InconsistentCascadeLink(HydroPlantId(1), CascadeLink::Downstream, HydroPlantId(2)))
    );

    let mut system = valid_system();
    system.hydro_plants.push(second_hydro_plant(Some(HydroPlantId(1))));
    system.hydro_plants[0].upstream_plant_ids = vec![HydroPlantId(2), HydroPlantId(2)];
    assert_eq!(
        system.validate(),
        Err(CoreError::DuplicateCascadeReference(HydroPlantId(1), CascadeLink::Upstream, HydroPlantId(2)))
    );

    let mut system = valid_system();
    system.hydro_plants.push(second_hydro_plant(Some(HydroPlantId(1))));
    system.hydro_plants[0].upstream_plant_ids = vec![HydroPlantId(2)];
    assert_eq!(system.validate(), Ok(()));

    let mut system = valid_system();
    system.hydro_plants[0].downstream_plant_id = Some(HydroPlantId(1));
    assert_eq!(
        system.validate(),
        Err(CoreError::SelfCascadeReference(HydroPlantId(1), CascadeLink::Downstream))
    );

    let mut system = valid_system();
    system.hydro_plants[0].diversion_plant_id = Some(HydroPlantId(9));
    assert_eq!(
        system.validate(),
        Err(CoreError::UnknownCascadeReference(
            HydroPlantId(1),
            CascadeLink::DiversionDestination,
            HydroPlantId(9)
        ))
    );
}

#[test]
fn interchange_errors() {
    let mut system = valid_system();
    system.submarkets.push(Submarket { id: SubmarketId(2), name: "S".into(), demand_periods: 2 });
    system.interchange_limits = vec![
        InterchangeLimit { from_submarket_id: SubmarketId(1), to_submarket_id: SubmarketId(2) },
        InterchangeLimit { from_submarket_id: SubmarketId(1), to_submarket_id: SubmarketId(2) },
    ];
    assert_eq!(
        system.validate(),
        Err(CoreError::DuplicateInterchangeLimit(SubmarketId(1), SubmarketId(2)))
    );
    system.interchange_limits[1] =
        InterchangeLimit { from_submarket_id: SubmarketId(2), to_submarket_id: SubmarketId(1) };
    assert_eq!(system.validate(), Ok(()));
    system.interchange_limits[1] =
        InterchangeLimit { from_submarket_id: SubmarketId(2), to_submarket_id: SubmarketId(2) };
    assert_eq!(system.validate(), Err(CoreError::InterchangeSameSubmarket(SubmarketId(2))));
    system.interchange_limits[1] =
        InterchangeLimit { from_submarket_id: SubmarketId(2), to_submarket_id: SubmarketId(7) };
    assert_eq!(
        system.validate(),
        Err(CoreError::InterchangeUnknownSubmarket(SubmarketId(2), SubmarketId(7)))
    );
}

#[test]
fn basic_structure_errors() {
    let mut system = valid_system();
    system.horizon.periods = 0;
    assert_eq!(system.validate(), Err(CoreError::EmptyHorizon));

    let mut system = valid_system();
    system.submarkets.clear();
    assert_eq!(system.validate(), Err(CoreError::NoSubmarkets));

    let mut system = valid_system();
    system.buses.clear();
    assert_eq!(system.validate(), Err(CoreError::NoBuses));

    let mut system = valid_system();
    system.renewable_plants[1].id = RenewablePlantId(1);
    assert_eq!(system.validate(), Err(CoreError::DuplicateIds(EntityKind::RenewablePlant)));

    let mut system = valid_system();
    system.submarkets[0].name = "  ".into();
    assert_eq!(system.validate(), Err(CoreError::BlankName(EntityKind::Submarket, 1)));

    let mut system = valid_system();
    system.submarkets[0].demand_periods = 3;
    assert_eq!(
        system.validate(),
        Err(CoreError::HorizonMismatch {
            series: SeriesKind::SubmarketDemand,
            id: 1,
            expected: 2,
            found: 3
        })
    );
}

#[test]
fn residual_cost_errors() {
    let mut system = valid_system();
    system.ton_residual_enabled = true;
    assert_eq!(system.validate(), Err(CoreError::MissingResidualCosts));
    system.residual_costs = vec![ResidualCost { submarket_id: SubmarketId(1) }];
    assert_eq!(system.validate(), Ok(()));
    system.residual_costs.push(ResidualCost { submarket_id: SubmarketId(1) });
    assert_eq!(system.validate(), Err(CoreError::DuplicateResidualCost(SubmarketId(1))));
    system.residual_costs = vec![ResidualCost { submarket_id: SubmarketId(4) }];
    assert_eq!(system.validate(), Err(CoreError::UnknownResidualCostSubmarket(SubmarketId(4))));
}

#[test]
fn bus_and_branch_errors() {
    let mut system = valid_system();
    system.buses[0].submarket_id = SubmarketId(5);
    assert_eq!(system.validate(), Err(CoreError::BusUnknownSubmarket(BusId(1), SubmarketId(5))));

    let mut system = valid_system();
    system.branches.push(Branch { id: BranchId(1), name: "LT-1".into(), from_bus_id: BusId(1), to_bus_id: BusId(1) });
    assert_eq!(system.validate(), Err(CoreError::BranchSameBus(BranchId(1))));

    let mut system = valid_system();
    system.branches.push(Branch { id: BranchId(1), name: "LT-1".into(), from_bus_id: BusId(1), to_bus_id: BusId(3) });
    assert_eq!(system.validate(), Err(CoreError::BranchUnknownBus(BranchId(1))));
}

#[test]
fn plant_membership_errors() {
    let mut system = valid_system();
    system.thermal_plants[0].bus_id = BusId(8);
    assert_eq!(system.validate(), Err(CoreError::UnknownBus(EntityKind::ThermalPlant, 1, BusId(8))));

    let mut system = valid_system();
    system.hydro_plants[0].submarket_id = SubmarketId(8);
    assert_eq!(
        system.validate(),
        Err(CoreError::UnknownSubmarket(EntityKind::HydroPlant, 1, SubmarketId(8)))
    );

    let mut system = valid_system();
    system.submarkets.push(Submarket { id: SubmarketId(2), name: "S".into(), demand_periods: 2 });
    system.renewable_plants[0].submarket_id = SubmarketId(2);
    assert_eq!(system.validate(), Err(CoreError::BusSubmarketMismatch(EntityKind::RenewablePlant, 1)));
    assert_eq!(
        system.validate_bus_and_submarket_membership(EntityKind::RenewablePlant, 1, BusId(1), SubmarketId(1)),
        Ok(())
    );
}

#[test]
fn thermal_unit_errors() {
    let mut system = valid_system();
    system.thermal_plants[0].units.clear();
    assert_eq!(system.validate(), Err(CoreError::PlantWithoutUnits(EntityKind::ThermalPlant, 1)));

    let mut system = valid_system();
    system.thermal_plants[0].units[0].initial_condition.is_ramping_up = true;
    system.thermal_plants[0].units[0].initial_condition.is_ramping_down = true;
    assert_eq!(system.validate(), Err(CoreError::RampingBothWays(ThermalUnitId(1))));

    let mut system = valid_system();
    system.thermal_plants[0].units[0].initial_condition.is_on = false;
    system.thermal_plants[0].units[0].initial_condition.is_ramping_down = true;
    assert_eq!(system.validate(), Err(CoreError::RampingWhileOff(ThermalUnitId(1))));

    let mut system = valid_system();
    system.thermal_plants[0].units[0].initial_condition.is_ramping_up = true;
    system.thermal_plants[0].units[0].initial_condition.time_in_ramp = 0;
    assert_eq!(
        system.validate(),
        Err(CoreError::ZeroRampTime(ThermalUnitId(1), TrajectoryKind::Startup))
    );

    let mut system = valid_system();
    system.thermal_plants[0].units[0].initial_condition.is_ramping_down = true;
    system.thermal_plants[0].units[0].initial_condition.time_in_ramp = 4;
    assert_eq!(
        system.validate(),
        Err(CoreError::RampTimeBeyondTrajectory {
            unit: ThermalUnitId(1),
            trajectory: TrajectoryKind::Shutdown,
            time_in_ramp: 4,
            length: 3
        })
    );

    let mut system = valid_system();
    system.thermal_plants[0].units[0].initial_condition.is_ramping_up = true;
    system.thermal_plants[0].units[0].startup_steps = 0;
    system.thermal_plants[0].units[0].initial_condition.time_in_ramp = 1;
    assert_eq!(
        system.validate(),
        Err(CoreError::EmptyTrajectory(ThermalUnitId(1), TrajectoryKind::Startup))
    );

    let mut system = valid_system();
    system.thermal_plants[0].units[0].initial_condition.is_ramping_up = true;
    system.thermal_plants[0].units[0].initial_condition.time_in_ramp = 2;
    assert_eq!(system.validate(), Ok(()));
    assert_eq!(system.thermal_plants[0].units[0].initial_startup_step(), Ok(1));
    assert_eq!(system.thermal_plants[0].units[0].initial_shutdown_step(), Ok(1));
}

#[test]
fn hydro_plant_errors() {
    let mut system = valid_system();
    system.hydro_plants[0].fpha_segments.clear();
    assert_eq!(system.validate(), Err(CoreError::MissingFphaSegments(HydroPlantId(1))));
    // With generation given by productivity, no FPHA data is needed.
    system.hydro_fpha_enabled = false;
    assert_eq!(system.validate(), Ok(()));

    let mut system = valid_system();
    system.hydro_plants[0].fpha_segments[0].segment = 0;
    assert_eq!(system.validate(), Err(CoreError::FphaSegmentZero(HydroPlantId(1))));

    let mut system = valid_system();
    system.hydro_plants[0].groups[0].units.clear();
    assert_eq!(system.validate(), Err(CoreError::GroupWithoutUnits(HydroGroupId(1))));

    let mut system = valid_system();
    system.hydro_plants[0].groups[0].units[0].name = "".into();
    assert_eq!(system.validate(), Err(CoreError::BlankName(EntityKind::HydroUnit, 1)));

    let mut system = valid_system();
    system.hydro_plants[0].withdrawal_periods = 1;
    assert_eq!(
        system.validate(),
        Err(CoreError::HorizonMismatch {
            series: SeriesKind::HydroWithdrawal,
            id: 1,
            expected: 2,
            found: 1
        })
    );
}

fn limit(target: OperationalLimitTarget, name: &str, variable: OperationalLimitVariable) -> OperationalLimit {
    OperationalLimit {
        target,
        plant_name: name.into(),
        variable,
        start_period: 1,
        end_period: 2,
        has_lower_bound: true,
        has_upper_bound: false,
    }
}

#[test]
fn operational_limit_errors() {
    let mut system = valid_system();
    system.operational_limits =
        vec![limit(OperationalLimitTarget::HydroPlant(HydroPlantId(1)), "UHE-1", OperationalLimitVariable::Volume)];
    assert_eq!(system.validate(), Ok(()));

    system.operational_limits[0].end_period = 3;
    assert_eq!(system.validate(), Err(CoreError::LimitBeyondHorizon("UHE-1".into())));
    system.operational_limits[0].end_period = 2;
    system.operational_limits[0].start_period = 0;
    assert_eq!(system.validate(), Err(CoreError::LimitPeriodZero));
    system.operational_limits[0].start_period = 2;
    system.operational_limits[0].end_period = 1;
    assert_eq!(system.validate(), Err(CoreError::LimitStartAfterEnd("UHE-1".into())));
    system.operational_limits[0].end_period = 2;
    system.operational_limits[0].has_lower_bound = false;
    assert_eq!(system.validate(), Err(CoreError::LimitWithoutBound("UHE-1".into())));

    let mut system = valid_system();
    system.operational_limits =
        vec![limit(OperationalLimitTarget::ThermalPlant(ThermalPlantId(1)), "UTE-1", OperationalLimitVariable::Turbining)];
    assert_eq!(
        system.validate(),
        Err(CoreError::LimitIncompatibleTarget("UTE-1".into(), OperationalLimitVariable::Turbining))
    );
    system.operational_limits[0].variable = OperationalLimitVariable::Generation;
    assert_eq!(system.validate(), Ok(()));
    system.operational_limits[0].plant_name = "UTE-9".into();
    assert_eq!(system.validate(), Err(CoreError::LimitThermalNameMismatch(ThermalPlantId(1))));
    system.operational_limits[0].target = OperationalLimitTarget::ThermalPlant(ThermalPlantId(9));
    assert_eq!(system.validate(), Err(CoreError::LimitUnknownThermalPlant(ThermalPlantId(9))));

    let mut system = valid_system();
    system.operational_limits =
        vec![limit(OperationalLimitTarget::HydroPlant(HydroPlantId(1)), "UHE-X", OperationalLimitVariable::Spillage)];
    assert_eq!(system.validate(), Err(CoreError::LimitHydroNameMismatch(HydroPlantId(1))));
    system.operational_limits[0].plant_name = " ".into();
    assert_eq!(system.validate(), Err(CoreError::LimitBlankPlantName));

    let mut system = valid_system();
    system.pumping_plants = vec![PumpingPlant {
        id: PumpingPlantId(1),
        name: "USIE-1".into(),
        submarket_id: SubmarketId(1),
        bus_id: BusId(1),
        upstream_hydro_id: HydroPlantId(1),
        downstream_hydro_id: HydroPlantId(1),
    }];
    system.operational_limits =
        vec![limit(OperationalLimitTarget::PumpingPlant(PumpingPlantId(1)), "USIE-1", OperationalLimitVariable::Pumping)];
    assert_eq!(system.validate(), Ok(()));
    system.operational_limits[0].plant_name = "USIE-2".into();
    assert_eq!(system.validate(), Err(CoreError::LimitPumpingNameMismatch(PumpingPlantId(1))));
    system.operational_limits[0].target = OperationalLimitTarget::PumpingPlant(PumpingPlantId(2));
    assert_eq!(system.validate(), Err(CoreError::LimitUnknownPumpingPlant(PumpingPlantId(2))));
    system.operational_limits[0].variable = OperationalLimitVariable::Volume;
    assert_eq!(
        system.validate(),
        Err(CoreError::LimitIncompatibleTarget("USIE-2".into(), OperationalLimitVariable::Volume))
    );
    system.operational_limits =
        vec![limit(OperationalLimitTarget::HydroPlant(HydroPlantId(1)), "UHE-1", OperationalLimitVariable::Pumping)];
    assert_eq!(
        system.validate(),
        Err(CoreError::LimitIncompatibleTarget("UHE-1".into(), OperationalLimitVariable::Pumping))
    );
}

#[test]
fn lookups_return_the_first_match() {
    let mut system = valid_system();
    system.submarkets.push(Submarket { id: SubmarketId(2), name: "S".into(), demand_periods: 2 });
    system.interchange_limits = vec![
        InterchangeLimit { from_submarket_id: SubmarketId(2), to_submarket_id: SubmarketId(1) },
        InterchangeLimit { from_submarket_id: SubmarketId(1), to_submarket_id: SubmarketId(2) },
    ];
    assert_eq!(system.find_interchange_limit(0, 1), Some(1));
    assert_eq!(system.find_interchange_limit(1, 0), Some(0));
    assert_eq!(system.find_interchange_limit(0, 0), None);
    system.residual_costs = vec![ResidualCost { submarket_id: SubmarketId(2) }, ResidualCost { submarket_id: SubmarketId(1) }];
    assert_eq!(system.find_residual_cost(SubmarketId(1)), Some(1));
    assert_eq!(system.find_residual_cost(SubmarketId(3)), None);
    assert_eq!(system.find_hydro_plant(HydroPlantId(1)), Some(0));
    assert_eq!(system.find_hydro_plant(HydroPlantId(4)), None);
    assert_eq!(system.find_thermal_plant(ThermalPlantId(1)), Some(0));
    assert_eq!(system.find_bus(BusId(1)), Some(0));
    assert!(system.contains_submarket(SubmarketId(2)));
    assert!(!system.contains_submarket(SubmarketId(3)));
}

#[test]
fn membership_reads_the_first_bus_with_the_identifier() {
    let mut system = valid_system();
    system.submarkets.push(Submarket { id: SubmarketId(2), name: "S".into(), demand_periods: 2 });
    system.buses.push(Bus {
        id: BusId(1),
        name: "BUS-1B".into(),
        submarket_id: SubmarketId(2),
        angle_reference: false,
        demand_periods: 2,
    });
    assert_eq!(
        system.validate_bus_and_submarket_membership(EntityKind::ThermalPlant, 1, BusId(1), SubmarketId(1)),
        Ok(())
    );
    assert_eq!(
        system.validate_bus_and_submarket_membership(EntityKind::ThermalPlant, 1, BusId(1), SubmarketId(2)),
        Err(CoreError::BusSubmarketMismatch(EntityKind::ThermalPlant, 1))
    );
}

#[test]
fn pumping_plants_need_known_bus_submarket_and_hydro_plants() {
    let pump = PumpingPlant {
        id: PumpingPlantId(1),
        name: "USIE-1".into(),
        submarket_id: SubmarketId(1),
        bus_id: BusId(1),
        upstream_hydro_id: HydroPlantId(1),
        downstream_hydro_id: HydroPlantId(1),
    };
    let mut system = valid_system();
    system.pumping_plants = vec![pump.clone()];
    assert_eq!(system.validate(), Ok(()));

    system.pumping_plants[0].bus_id = BusId(9);
    assert_eq!(system.validate(), Err(CoreError::UnknownBus(EntityKind::PumpingPlant, 1, BusId(9))));

    system.pumping_plants = vec![pump.clone()];
    system.pumping_plants[0].submarket_id = SubmarketId(9);
    assert_eq!(
        system.validate(),
        Err(CoreError::UnknownSubmarket(EntityKind::PumpingPlant, 1, SubmarketId(9)))
    );

    system.pumping_plants = vec![pump.clone()];
    system.pumping_plants[0].upstream_hydro_id = HydroPlantId(7);
    assert_eq!(
        system.validate(),
        Err(CoreError::PumpingUnknownHydroPlant(PumpingPlantId(1), HydroPlantId(7)))
    );

    system.pumping_plants = vec![pump];
    system.pumping_plants[0].downstream_hydro_id = HydroPlantId(8);
    assert_eq!(
        system.validate(),
        Err(CoreError::PumpingUnknownHydroPlant(PumpingPlantId(1), HydroPlantId(8)))
    );
}
