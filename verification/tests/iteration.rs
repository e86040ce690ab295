use labdessem::ids::{BranchId, BusId, SubmarketId};
use labdessem::iteration::{
    cut_periods_by_branch, extend_cut_set, relax_after_failure, ExecutionOption, FlowCutKey, FlowCutSet, IterationStage,
    IterativeProcess, LineViolation, ProcessError, ProcessPhase, StageOutcome,
};
use labdessem::study::StudyInputError;
use labdessem::system::{Branch, Bus, StudyHorizon, Submarket, System};

fn key(branch_idx: usize, period: usize) -> FlowCutKey {
    FlowCutKey { branch_idx, period }
}

#[test]
fn cut_set_keeps_keys_sorted_and_unique() {
    let mut cuts = FlowCutSet::new();
    assert!(cuts.is_empty());
    assert!(cuts.insert(key(1, 3)));
    assert!(cuts.insert(key(0, 5)));
    assert!(cuts.insert(key(1, 0)));
    assert!(!cuts.insert(key(0, 5)));
    assert_eq!(cuts.len(), 3);
    assert_eq!(cuts.keys(), &vec![key(0, 5), key(1, 0), key(1, 3)]);
    assert!(cuts.contains(key(1, 0)));
    assert!(!cuts.contains(key(2, 0)));
}

fn network_system() -> System {
    System {
        horizon: StudyHorizon { periods: 3 },
        thermal_unit_commitment_enabled: false,
        hydro_unit_commitment_enabled: false,
        ton_residual_enabled: false,
        hydro_fpha_enabled: true,
        residual_costs: vec![],
        submarkets: vec![Submarket { id: SubmarketId(1), name: "SE".into(), demand_periods: 3 }],
        interchange_limits: vec![],
        operational_limits: vec![],
        buses: vec![
            Bus { id: BusId(1), name: "B1".into(), submarket_id: SubmarketId(1), angle_reference: true, demand_periods: 3 },
            Bus { id: BusId(2), name: "B2".into(), submarket_id: SubmarketId(1), angle_reference: false, demand_periods: 3 },
        ],
        branches: vec![
            Branch { id: BranchId(10), name: "LT-10".into(), from_bus_id: BusId(1), to_bus_id: BusId(2) },
            Branch { id: BranchId(20), name: "LT-20".into(), from_bus_id: BusId(2), to_bus_id: BusId(1) },
        ],
        thermal_plants: vec![],
        hydro_plants: vec![],
        renewable_plants: vec![],
        pumping_plants: vec![],
    }
}

#[test]
fn violations_become_cuts_once() {
    let system = network_system();
    let mut cuts = FlowCutSet::new();
    let violations = vec![
        LineViolation { branch_id: BranchId(20), period: 2 },
        LineViolation { branch_id: BranchId(10), period: 1 },
        LineViolation { branch_id: BranchId(20), period: 2 },
        LineViolation { branch_id: BranchId(99), period: 1 },
    ];
    assert_eq!(extend_cut_set(&mut cuts, &system, &violations), 2);
    assert_eq!(cuts.keys(), &vec![key(0, 0), key(1, 1)]);

    let again = vec![LineViolation { branch_id: BranchId(10), period: 1 }, LineViolation { branch_id: BranchId(10), period: 3 }];
    assert_eq!(extend_cut_set(&mut cuts, &system, &again), 1);
    assert_eq!(cuts.keys(), &vec![key(0, 0), key(0, 2), key(1, 1)]);

    assert_eq!(extend_cut_set(&mut cuts, &system, &again), 0);
    assert_eq!(cuts.len(), 3);
}

fn outcome(has_violations: bool, new_cuts: usize, used_slacks: bool) -> StageOutcome {
    StageOutcome { has_violations, new_cuts, used_slacks }
}

#[test]
fn process_runs_cut_loops_around_the_commitment_solve() {
    let mut p = IterativeProcess::start(true, ExecutionOption::Iterative);
    assert_eq!(p.current_stage(), Some((IterationStage::LinearProgramming, 1)));
    assert_eq!(p.advance(outcome(true, 2, false)), Ok(()));
    assert_eq!(p.current_stage(), Some((IterationStage::LinearProgramming, 2)));
    assert_eq!(p.advance(outcome(false, 0, false)), Ok(()));
    assert_eq!(p.current_stage(), Some((IterationStage::MixedIntegerLinearProgramming, 1)));
    assert_eq!(p.advance(outcome(true, 1, false)), Ok(()));
    assert_eq!(p.current_stage(), Some((IterationStage::LinearProgrammingWithFixedCommitment, 1)));
    assert_eq!(p.advance(outcome(true, 3, false)), Ok(()));
    assert_eq!(p.current_stage(), Some((IterationStage::LinearProgrammingWithFixedCommitment, 2)));
    assert_eq!(p.advance(outcome(false, 0, false)), Ok(()));
    assert_eq!(p.current_stage(), Some((IterationStage::LinearProgrammingForMarginalCost, 1)));
    assert_eq!(p.advance(outcome(false, 0, false)), Ok(()));
    assert_eq!(p.phase, ProcessPhase::Finished);
    assert_eq!(p.current_stage(), None);
}

#[test]
fn process_without_network_solves_each_stage_once() {
    let mut p = IterativeProcess::start(false, ExecutionOption::Iterative);
    let mut stages = Vec::new();
    while let Some((stage, iteration)) = p.current_stage() {
        stages.push((stage, iteration));
        assert_eq!(p.advance(outcome(true, 0, false)), Ok(()));
    }
    assert_eq!(
        stages,
        vec![
            (IterationStage::LinearProgramming, 1),
            (IterationStage::MixedIntegerLinearProgramming, 1),
            (IterationStage::LinearProgrammingWithFixedCommitment, 1),
            (IterationStage::LinearProgrammingForMarginalCost, 1),
        ]
    );
}

#[test]
fn single_milp_option_solves_one_stage() {
    let mut p = IterativeProcess::start(true, ExecutionOption::SingleMilp);
    assert_eq!(p.current_stage(), Some((IterationStage::MixedIntegerLinearProgramming, 1)));
    assert_eq!(p.advance(outcome(true, 0, false)), Ok(()));
    assert_eq!(p.current_stage(), None);
}

#[test]
fn execution_options_from_settings() {
    assert_eq!(ExecutionOption::from_config_value(1), Ok(ExecutionOption::Iterative));
    assert_eq!(ExecutionOption::from_config_value(2), Ok(ExecutionOption::SingleMilp));
    assert_eq!(ExecutionOption::from_config_value(0), Err(StudyInputError::UnknownExecutionOption(0)));
    assert_eq!(ExecutionOption::from_config_value(3), Err(StudyInputError::UnknownExecutionOption(3)));
    assert_eq!(ExecutionOption::Iterative.description(), "LP -> MILP -> LP-FIXED -> LP-CALC-CMO");
    assert_eq!(ExecutionOption::SingleMilp.description(), "MILP unico");
}

#[test]
fn process_stops_when_violations_bring_no_new_cut() {
    let mut p = IterativeProcess::start(true, ExecutionOption::Iterative);
    assert_eq!(p.advance(outcome(true, 0, false)), Err(ProcessError::CutLoopStalled));
    assert_eq!(p, IterativeProcess::start(true, ExecutionOption::Iterative));

    let mut p = IterativeProcess::start(true, ExecutionOption::Iterative);
    assert_eq!(p.advance(outcome(true, 0, true)), Ok(()));
    assert_eq!(p.phase, ProcessPhase::Commitment);
    assert_eq!(p.advance(outcome(true, 2, false)), Ok(()));
    assert_eq!(p.advance(outcome(true, 0, false)), Err(ProcessError::FixedCommitmentStalled));
    assert_eq!(p.phase, ProcessPhase::FixedCutLoop);
    assert_eq!(p.advance(outcome(true, 0, true)), Ok(()));
    assert_eq!(p.phase, ProcessPhase::Pricing);

    // A mixed-integer stage solved with slacks that adds no cut is still
    // followed by the problems with the commitment fixed.
    let mut p = IterativeProcess::start(true, ExecutionOption::Iterative);
    assert_eq!(p.advance(outcome(false, 0, false)), Ok(()));
    assert_eq!(p.advance(outcome(true, 0, true)), Ok(()));
    assert_eq!(p.phase, ProcessPhase::FixedCutLoop);
    assert_eq!(p.current_stage(), Some((IterationStage::LinearProgrammingWithFixedCommitment, 1)));
    assert_eq!(p.advance(outcome(true, 0, true)), Ok(()));
    assert_eq!(p.phase, ProcessPhase::Pricing);
    assert_eq!(p.advance(outcome(true, 0, false)), Ok(()));
    assert_eq!(p.phase, ProcessPhase::Finished);
}

#[test]
fn failed_stages_are_relaxed_only_when_something_can_be_relaxed() {
    assert!(relax_after_failure(true, true, 1, 0));
    assert!(relax_after_failure(true, true, 0, 2));
    assert!(!relax_after_failure(true, true, 0, 0));
    assert!(!relax_after_failure(false, true, 3, 0));
    assert!(relax_after_failure(false, true, 3, 1));
    assert!(!relax_after_failure(true, false, 3, 1));
}

#[test]
fn cuts_are_grouped_by_branch_with_periods_from_one() {
    let mut cuts = FlowCutSet::new();
    cuts.insert(FlowCutKey { branch_idx: 2, period: 0 });
    cuts.insert(FlowCutKey { branch_idx: 0, period: 3 });
    cuts.insert(FlowCutKey { branch_idx: 2, period: 1 });
    cuts.insert(FlowCutKey { branch_idx: 0, period: 1 });
    let groups = cut_periods_by_branch(&cuts);
    let summary: Vec<(usize, Vec<usize>)> = groups.into_iter().map(|g| (g.branch_idx, g.periods)).collect();
    assert_eq!(summary, vec![(0, vec![2, 4]), (2, vec![1, 2])]);
    assert!(cut_periods_by_branch(&FlowCutSet::new()).is_empty());
}

#[test]
fn a_network_run_solves_lp_then_milp_then_fixed_then_pricing() {
    let mut p = IterativeProcess::start(true, ExecutionOption::Iterative);
    let mut stages = Vec::new();
    let outcomes = [
        outcome(true, 2, false),
        outcome(false, 0, false),
        outcome(true, 0, true),
        outcome(true, 1, false),
        outcome(false, 0, false),
        outcome(false, 0, false),
    ];
    for o in outcomes {
        let (stage, _) = p.current_stage().expect("a stage is left to solve");
        stages.push(stage.label());
        assert_eq!(p.advance(o), Ok(()));
    }
    assert_eq!(p.current_stage(), None);
    assert_eq!(stages, vec!["LP", "LP", "MILP", "LP-FIXED", "LP-FIXED", "LP-CALC-CMO"]);
}
