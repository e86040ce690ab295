use labdessem::iteration::IterationStage;
use labdessem::naming::{
    display_period, flow_slack_name, hydro_diversion_name, hydro_generation_name,
    hydro_spillage_name, hydro_turbining_name, hydro_volume_name, operational_limit_constraint_name,
    operational_limit_slack_name, operational_limit_variable_label, renewable_generation_name,
    thermal_commitment_name, thermal_generation_name, indexed_name, pair_name, unit_name,
    group_unit_name,
};
use labdessem::model::{
    commitment_scope, family_domain, volume_fixed_at, CommitmentScope, SolveMode, VariableDomain, VariableFamily,
};
use labdessem::system::OperationalLimitVariable;

#[test]
fn stage_labels() {
    assert_eq!(IterationStage::LinearProgramming.label(), "LP");
    assert_eq!(IterationStage::MixedIntegerLinearProgramming.label(), "MILP");
    assert_eq!(IterationStage::LinearProgrammingWithFixedCommitment.label(), "LP-FIXED");
    assert_eq!(IterationStage::LinearProgrammingForMarginalCost.label(), "LP-CALC-CMO");
}

#[test]
fn thermal_generation_names_count_periods_from_one() {
    assert_eq!(thermal_generation_name("UTE-1", "GT-1", 0), "thermal_generation[p=UTE-1,u=GT-1,t=1]");
    assert_eq!(display_period(0), 1);
    assert_eq!(display_period(41), 42);
    assert_eq!(hydro_volume_name("UHE-1", 0), "hydro_volume[p=UHE-1,t=0]");
}

#[test]
fn names_of_every_family() {
    assert_eq!(thermal_generation_name("UTE-1", "GT-1", 9), "thermal_generation[p=UTE-1,u=GT-1,t=10]");
    assert_eq!(thermal_commitment_name("UTE-1", "GT-1", 1), "thermal_on[p=UTE-1,u=GT-1,t=2]");
    assert_eq!(hydro_generation_name("UHE-1", "CJ-1", "UG-1", 0), "hydro_generation[p=UHE-1,g=CJ-1,u=UG-1,t=1]");
    assert_eq!(hydro_turbining_name("UHE-1", "CJ-1", "UG-1", 0), "hydro_turbining[p=UHE-1,g=CJ-1,u=UG-1,t=1]");
    assert_eq!(hydro_spillage_name("UHE-1", 0), "hydro_spillage[p=UHE-1,t=1]");
    assert_eq!(hydro_diversion_name("UHE-A", 0), "hydro_diversion[p=UHE-A,t=1]");
    assert_eq!(hydro_volume_name("UHE-1", 2), "hydro_volume[p=UHE-1,t=2]");
    assert_eq!(hydro_volume_name("UHE-1", 168), "hydro_volume[p=UHE-1,t=168]");
    assert_eq!(renewable_generation_name("renewable_generation", "REN-1", 0), "renewable_generation[p=REN-1,t=1]");
    assert_eq!(flow_slack_name("flow_slack_upper", "LT-1", 99), "flow_slack_upper[branch=LT-1,t=100]");
}

#[test]
fn operational_limit_names() {
    assert_eq!(operational_limit_variable_label(OperationalLimitVariable::Generation), "GER");
    assert_eq!(operational_limit_variable_label(OperationalLimitVariable::Spillage), "VERT");
    assert_eq!(operational_limit_variable_label(OperationalLimitVariable::Volume), "VOL");
    assert_eq!(operational_limit_variable_label(OperationalLimitVariable::Defluence), "DEFLU");
    assert_eq!(operational_limit_variable_label(OperationalLimitVariable::Diversion), "QDES");
    assert_eq!(operational_limit_variable_label(OperationalLimitVariable::Turbining), "TURB");
    assert_eq!(operational_limit_variable_label(OperationalLimitVariable::Pumping), "QBOM");
    assert_eq!(
        operational_limit_constraint_name(true, "UHE-1", OperationalLimitVariable::Volume, 0),
        "operational_limit_lower[p=UHE-1,var=VOL,t=1]"
    );
    assert_eq!(
        operational_limit_constraint_name(false, "UHE-1", OperationalLimitVariable::Turbining, 0),
        "operational_limit_upper[p=UHE-1,var=TURB,t=1]"
    );
    assert_eq!(
        operational_limit_slack_name(true, "UHE-1", OperationalLimitVariable::Volume, 1),
        "operational_limit_slack_lower[p=UHE-1,var=VOL,t=1]"
    );
    assert_eq!(
        operational_limit_slack_name(false, "USIE-1", OperationalLimitVariable::Defluence, 12),
        "operational_limit_slack_upper[p=USIE-1,var=DEFLU,t=12]"
    );
}

#[test]
fn names_by_the_shape_of_their_indices() {
    assert_eq!(indexed_name("pumping", "p", "EEL-1", 1), "pumping[p=EEL-1,t=2]");
    assert_eq!(indexed_name("demand_balance", "submarket", "SE", 0), "demand_balance[submarket=SE,t=1]");
    assert_eq!(pair_name("interchange", "SE", "S", 9), "interchange[from=SE,to=S,t=10]");
    assert_eq!(unit_name("thermal_startup", "UTE-1", "GT-1", 0), "thermal_startup[p=UTE-1,u=GT-1,t=1]");
    assert_eq!(group_unit_name("hydro_on", "UHE-1", "1", "2", 2), "hydro_on[p=UHE-1,g=1,u=2,t=3]");
}

#[test]
fn commitment_blocks_follow_the_solve_mode() {
    let lp = commitment_scope(SolveMode::LinearProgramming, true, true);
    assert_eq!(lp, CommitmentScope { thermal: false, hydro: false, fixed: false });
    let milp = commitment_scope(SolveMode::MixedIntegerLinearProgramming, true, false);
    assert_eq!(milp, CommitmentScope { thermal: true, hydro: false, fixed: false });
    let fixed = commitment_scope(SolveMode::LinearProgrammingWithFixedCommitment, false, true);
    assert_eq!(fixed, CommitmentScope { thermal: false, hydro: true, fixed: true });
}

#[test]
fn commitment_decisions_are_binary() {
    assert_eq!(family_domain(VariableFamily::ThermalCommitment), VariableDomain::Binary);
    assert_eq!(family_domain(VariableFamily::ThermalStartup), VariableDomain::Binary);
    assert_eq!(family_domain(VariableFamily::ThermalShutdown), VariableDomain::Binary);
    assert_eq!(family_domain(VariableFamily::HydroCommitment), VariableDomain::Binary);
    assert_eq!(family_domain(VariableFamily::HydroTurbining), VariableDomain::Continuous);
    assert_eq!(family_domain(VariableFamily::Interchange), VariableDomain::Continuous);
    assert!(volume_fixed_at(0));
    assert!(!volume_fixed_at(1));
}
