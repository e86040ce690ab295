use labdessem::ids::{BusId, HydroGroupId, HydroPlantId, HydroUnitId, PumpingPlantId, SubmarketId, ThermalPlantId};
use labdessem::study::{
    build_dummy_buses, bus_id_or_dummy, cascade_upstream_lists, group_by_key, horizon_periods,
    optional_hydro_reference_by_code, parse_operational_limit_variable, parse_restriction_period,
    resolve_operational_limit_target, submarket_id_by_name, validate_period, StudyInputError,
};
use labdessem::system::{
    HydroFphaSegment, HydroGroup, HydroInitialCondition, HydroPlant, HydroUnit,
    OperationalLimitTarget, OperationalLimitVariable, PumpingPlant, Submarket, ThermalPlant,
};

#[test]
fn periods_are_checked_against_the_horizon() {
    assert_eq!(validate_period(1, 48, "DADOS.csv"), Ok(0));
    assert_eq!(validate_period(48, 48, "DADOS.csv"), Ok(47));
    assert_eq!(
        validate_period(0, 48, "DADOS.csv"),
        Err(StudyInputError::InvalidPeriod { period: 0, horizon: 48, file: "DADOS.csv".into() })
    );
    assert_eq!(
        validate_period(49, 48, "CARGA.csv"),
        Err(StudyInputError::InvalidPeriod { period: 49, horizon: 48, file: "CARGA.csv".into() })
    );
}

#[test]
fn restriction_periods_accept_first_last_and_numbers() {
    assert_eq!(parse_restriction_period("I", 24, true), Ok(1));
    assert_eq!(parse_restriction_period(" i ", 24, true), Ok(1));
    assert_eq!(parse_restriction_period("F", 24, false), Ok(24));
    assert_eq!(parse_restriction_period("f", 24, false), Ok(24));
    assert_eq!(parse_restriction_period(" 12 ", 24, true), Ok(12));
    assert_eq!(parse_restriction_period("+3", 24, true), Ok(3));
    assert_eq!(
        parse_restriction_period("25", 24, false),
        Err(StudyInputError::RestrictionPeriodOutsideHorizon { is_start: false, period: 25, horizon: 24 })
    );
    assert_eq!(
        parse_restriction_period("0", 24, true),
        Err(StudyInputError::RestrictionPeriodOutsideHorizon { is_start: true, period: 0, horizon: 24 })
    );
    assert_eq!(
        parse_restriction_period(" x1 ", 24, true),
        Err(StudyInputError::InvalidRestrictionPeriod("x1".into()))
    );
    assert_eq!(
        parse_restriction_period("-1", 24, true),
        Err(StudyInputError::InvalidRestrictionPeriod("-1".into()))
    );
}

#[test]
fn operational_limit_variables_are_read_by_label() {
    assert_eq!(parse_operational_limit_variable("GER"), Ok(OperationalLimitVariable::Generation));
    assert_eq!(parse_operational_limit_variable(" vert "), Ok(OperationalLimitVariable::Spillage));
    assert_eq!(parse_operational_limit_variable("Vol"), Ok(OperationalLimitVariable::Volume));
    assert_eq!(parse_operational_limit_variable("DEFLU"), Ok(OperationalLimitVariable::Defluence));
    assert_eq!(parse_operational_limit_variable("turb"), Ok(OperationalLimitVariable::Turbining));
    assert_eq!(parse_operational_limit_variable("QBOM"), Ok(OperationalLimitVariable::Pumping));
    assert_eq!(parse_operational_limit_variable(" qdes "), Ok(OperationalLimitVariable::Diversion));
    assert_eq!(
        parse_operational_limit_variable(" QTUR "),
        Err(StudyInputError::UnknownOperationalLimitVariable("QTUR".into()))
    );
}

#[test]
fn optional_hydro_references() {
    let codes = vec![6, 17, 211];
    assert_eq!(optional_hydro_reference_by_code("", &codes), Ok(None));
    assert_eq!(optional_hydro_reference_by_code(" - ", &codes), Ok(None));
    assert_eq!(optional_hydro_reference_by_code(" 17", &codes), Ok(Some(HydroPlantId(17))));
    assert_eq!(optional_hydro_reference_by_code("18", &codes), Err(StudyInputError::UnknownHydroReference(18)));
    assert_eq!(
        optional_hydro_reference_by_code("abc", &codes),
        Err(StudyInputError::InvalidHydroReference("abc".into()))
    );
}

#[test]
fn buses_fall_back_to_the_dummy_bus_without_network() {
    assert_eq!(bus_id_or_dummy(Some(7), true, "UTE-1", SubmarketId(2)), Ok(7));
    assert_eq!(bus_id_or_dummy(None, true, "UTE-1", SubmarketId(2)), Err(StudyInputError::MissingBus("UTE-1".into())));
    assert_eq!(bus_id_or_dummy(Some(7), false, "UTE-1", SubmarketId(2)), Ok(2));
    assert_eq!(bus_id_or_dummy(None, false, "UTE-1", SubmarketId(3)), Ok(3));
}

fn submarkets() -> Vec<Submarket> {
    vec![
        Submarket { id: SubmarketId(1), name: "SE".into(), demand_periods: 4 },
        Submarket { id: SubmarketId(2), name: "S".into(), demand_periods: 4 },
    ]
}

#[test]
fn submarkets_are_found_by_name() {
    let s = submarkets();
    assert_eq!(submarket_id_by_name(&s, " S "), Ok(SubmarketId(2)));
    assert_eq!(submarket_id_by_name(&s, "SE"), Ok(SubmarketId(1)));
    assert_eq!(submarket_id_by_name(&s, "NE"), Err(StudyInputError::UnknownSubmarket("NE".into())));
}

#[test]
fn dummy_buses_follow_the_submarkets() {
    let buses = build_dummy_buses(&submarkets(), 4);
    assert_eq!(buses.len(), 2);
    assert_eq!(buses[0].id, BusId(1));
    assert_eq!(buses[0].name, "DUMMY-BUS-SE");
    assert_eq!(buses[0].submarket_id, SubmarketId(1));
    assert!(buses[0].angle_reference);
    assert_eq!(buses[0].demand_periods, 4);
    assert_eq!(buses[1].id, BusId(2));
    assert_eq!(buses[1].name, "DUMMY-BUS-S");
    assert!(!buses[1].angle_reference);
}

#[test]
fn horizon_counts_distinct_periods() {
    assert_eq!(horizon_periods(&vec![]), Err(StudyInputError::NoPeriods));
    assert_eq!(horizon_periods(&vec![1, 2, 3, 1, 2, 3]), Ok(3));
    assert_eq!(horizon_periods(&vec![2, 1]), Ok(2));
    assert_eq!(horizon_periods(&vec![1, 3, 3]), Err(StudyInputError::MissingPeriod(2)));
    assert_eq!(horizon_periods(&vec![5]), Err(StudyInputError::MissingPeriod(1)));
}

#[test]
fn cascade_upstream_lists_mirror_downstream_links() {
    let codes = vec![1, 2, 3];
    let downstream = vec![Some(HydroPlantId(3)), Some(HydroPlantId(3)), None];
    let lists = cascade_upstream_lists(&codes, &downstream);
    assert_eq!(lists.len(), 3);
    assert!(lists[0].is_empty());
    assert!(lists[1].is_empty());
    assert_eq!(lists[2], vec![HydroPlantId(1), HydroPlantId(2)]);
}

fn thermal(id: usize, name: &str) -> ThermalPlant {
    ThermalPlant { id: ThermalPlantId(id), name: name.into(), submarket_id: SubmarketId(1), bus_id: BusId(1), units: vec![] }
}

fn hydro(id: usize, name: &str) -> HydroPlant {
    HydroPlant {
        id: HydroPlantId(id),
        name: name.into(),
        submarket_id: SubmarketId(1),
        bus_id: BusId(1),
        upstream_plant_ids: vec![],
        downstream_plant_id: None,
        diversion_upstream_plant_ids: vec![],
        diversion_plant_id: None,
        inflow_periods: 1,
        withdrawal_periods: 1,
        fpha_segments: vec![HydroFphaSegment { segment: 1 }],
        groups: vec![HydroGroup {
            id: HydroGroupId(id),
            name: "CJ".into(),
            units: vec![HydroUnit {
                id: HydroUnitId(id),
                name: "UG".into(),
                min_up_time: 1,
                min_down_time: 1,
                initial_condition: HydroInitialCondition { is_on: false, time_in_state: 1 },
            }],
        }],
    }
}

#[test]
fn operational_limit_targets_are_resolved_by_code_and_name() {
    let thermals = vec![thermal(1, "ANGRA 1"), thermal(5, "DUAL")];
    let hydros = vec![hydro(1, "FURNAS"), hydro(5, "DUAL")];
    let furnas: String = "FURNAS".into();
    let angra: String = "ANGRA 1".into();
    let dual: String = "DUAL".into();
    let nobody: String = "NOBODY".into();
    let usie: String = "USIE-1".into();
    let pumps = vec![PumpingPlant {
        id: PumpingPlantId(1),
        name: "USIE-1".into(),
        submarket_id: SubmarketId(1),
        bus_id: BusId(1),
        upstream_hydro_id: HydroPlantId(5),
        downstream_hydro_id: HydroPlantId(1),
    }];

    assert_eq!(
        resolve_operational_limit_target(OperationalLimitVariable::Generation, "GER", 1, &angra, &thermals, &hydros, &pumps),
        Ok(OperationalLimitTarget::ThermalPlant(ThermalPlantId(1)))
    );
    assert_eq!(
        resolve_operational_limit_target(OperationalLimitVariable::Generation, "GER", 1, &furnas, &thermals, &hydros, &pumps),
        Ok(OperationalLimitTarget::HydroPlant(HydroPlantId(1)))
    );
    assert_eq!(
        resolve_operational_limit_target(OperationalLimitVariable::Volume, "VOL", 1, &furnas, &thermals, &hydros, &pumps),
        Ok(OperationalLimitTarget::HydroPlant(HydroPlantId(1)))
    );
    assert_eq!(
        resolve_operational_limit_target(OperationalLimitVariable::Generation, "GER", 5, &dual, &thermals, &hydros, &pumps),
        Err(StudyInputError::AmbiguousLimitPlant("DUAL".into()))
    );
    assert_eq!(
        resolve_operational_limit_target(OperationalLimitVariable::Generation, "GER", 9, &nobody, &thermals, &hydros, &pumps),
        Err(StudyInputError::UnknownLimitPlant("NOBODY".into(), 9))
    );
    assert_eq!(
        resolve_operational_limit_target(OperationalLimitVariable::Turbining, "TURB", 1, &angra, &thermals, &hydros, &pumps),
        Err(StudyInputError::ThermalLimitVariable("ANGRA 1".into(), "TURB".into()))
    );
    assert_eq!(
        resolve_operational_limit_target(OperationalLimitVariable::Spillage, "VERT", 2, &furnas, &thermals, &hydros, &pumps),
        Err(StudyInputError::UnknownLimitHydroPlant("FURNAS".into(), 2))
    );
    assert_eq!(
        resolve_operational_limit_target(OperationalLimitVariable::Pumping, "QBOM", 1, &usie, &thermals, &hydros, &pumps),
        Ok(OperationalLimitTarget::PumpingPlant(PumpingPlantId(1)))
    );
    assert_eq!(
        resolve_operational_limit_target(OperationalLimitVariable::Pumping, "QBOM", 1, &furnas, &thermals, &hydros, &pumps),
        Err(StudyInputError::UnknownLimitPumpingPlant("FURNAS".into(), 1))
    );
}

#[test]
fn unit_rows_grouped_by_group_in_increasing_order() {
    let groups = group_by_key(&vec![2, 1, 2, 3, 1]);
    let summary: Vec<(usize, Vec<usize>)> = groups.into_iter().map(|g| (g.key, g.members)).collect();
    assert_eq!(summary, vec![(1, vec![1, 4]), (2, vec![0, 2]), (3, vec![3])]);
    assert!(group_by_key(&vec![]).is_empty());
}
