use labdessem::commitment::{
    envelope_terms, EnvelopeCoefficient, EnvelopeTerm, EnvelopeVar,
    initial_ramp_step, min_up_down_rows, post_horizon_steps, shutdown_trajectory_terms,
    startup_trajectory_terms, thermal_residence_times, transition_row, CommitmentRow,
    CommitmentRowKind, CommitmentTerm, DecisionTerm, TrajectoryTerm, UnitDecision,
};
use labdessem::model::ConstraintSense;

fn t(period: usize, coefficient: i128) -> CommitmentTerm {
    CommitmentTerm { period, coefficient }
}

fn find(rows: &[CommitmentRow], kind: CommitmentRowKind, period: usize) -> &CommitmentRow {
    rows.iter().find(|r| r.kind == kind && r.period == period).expect("row should exist")
}

#[test]
fn builds_thermal_min_up_down_constraints_with_remaining_initial_on_time() {
    // Minimum up time 3, minimum down time 2, on for 1 period before the study,
    // four periods.
    let rows = min_up_down_rows(3, 2, true, 1, 4);
    assert_eq!(rows.len(), 2 + 2 * 4);

    let fixes: Vec<&CommitmentRow> = rows.iter().filter(|r| r.kind == CommitmentRowKind::InitialOnFix).collect();
    assert_eq!(fixes.len(), 2);
    for (p, row) in fixes.iter().enumerate() {
        assert_eq!(row.period, p);
        assert_eq!(row.terms, vec![t(p, 1)]);
        assert_eq!(row.sense, ConstraintSense::Equal);
        assert_eq!(row.rhs, 1);
    }
    assert!(rows.iter().all(|r| r.kind != CommitmentRowKind::InitialOffFix));

    let first_up = find(&rows, CommitmentRowKind::MinUp, 0);
    assert_eq!(first_up.sense, ConstraintSense::GreaterOrEqual);
    assert_eq!(first_up.rhs, -3);
    assert_eq!(first_up.terms, vec![t(0, 1), t(1, 1), t(2, 1), t(0, -3)]);

    let second_up = find(&rows, CommitmentRowKind::MinUp, 1);
    assert_eq!(second_up.rhs, 0);
    assert_eq!(second_up.terms, vec![t(1, 1), t(2, 1), t(3, 1), t(1, -3), t(0, 3)]);

    // The window is cut at the end of the horizon.
    let last_up = find(&rows, CommitmentRowKind::MinUp, 3);
    assert_eq!(last_up.terms, vec![t(3, 1), t(3, -1), t(2, 1)]);

    let first_down = find(&rows, CommitmentRowKind::MinDown, 0);
    assert_eq!(first_down.sense, ConstraintSense::LessOrEqual);
    assert_eq!(first_down.rhs, 0);
    assert_eq!(first_down.terms, vec![t(0, 1), t(1, 1), t(0, -2)]);

    let later_down = find(&rows, CommitmentRowKind::MinDown, 2);
    assert_eq!(later_down.rhs, 2);
    assert_eq!(later_down.terms, vec![t(2, 1), t(3, 1), t(2, -2), t(1, 2)]);
}

#[test]
fn min_up_down_rows_with_remaining_initial_off_time() {
    let rows = min_up_down_rows(1, 5, false, 2, 2);
    let fixes: Vec<&CommitmentRow> = rows.iter().filter(|r| r.kind == CommitmentRowKind::InitialOffFix).collect();
    // Three periods of down time remain, cut at the two-period horizon.
    assert_eq!(fixes.len(), 2);
    assert!(fixes.iter().all(|r| r.rhs == 0 && r.sense == ConstraintSense::Equal));
    assert_eq!(rows.len(), 2 + 4);
    let first_up = find(&rows, CommitmentRowKind::MinUp, 0);
    assert_eq!(first_up.rhs, 0);
    let first_down = find(&rows, CommitmentRowKind::MinDown, 0);
    assert_eq!(first_down.rhs, 2);
}

#[test]
fn min_up_down_rows_without_initial_fix() {
    let rows = min_up_down_rows(2, 2, true, 5, 3);
    assert_eq!(rows.len(), 6);
    assert_eq!(rows[0].kind, CommitmentRowKind::MinUp);
    assert_eq!(rows[1].kind, CommitmentRowKind::MinDown);
    assert!(min_up_down_rows(2, 2, true, 5, 0).is_empty());
}

#[test]
fn residence_times_count_consecutive_periods() {
    let (on, off) = thermal_residence_times(true, 2, &[true, true, false, false, false, true]);
    assert_eq!(on, vec![3, 4, 0, 0, 0, 1]);
    assert_eq!(off, vec![0, 0, 1, 2, 3, 0]);

    let (on, off) = thermal_residence_times(false, 4, &[false, true]);
    assert_eq!(on, vec![0, 1]);
    assert_eq!(off, vec![5, 0]);

    let (on, off) = thermal_residence_times(true, 0, &[]);
    assert!(on.is_empty() && off.is_empty());
}

#[test]
fn trajectory_terms_look_back_and_ahead() {
    assert_eq!(
        startup_trajectory_terms(2, 2),
        vec![TrajectoryTerm { period: 2, step: 0 }, TrajectoryTerm { period: 1, step: 1 }]
    );
    assert_eq!(
        startup_trajectory_terms(1, 5),
        vec![TrajectoryTerm { period: 1, step: 0 }, TrajectoryTerm { period: 0, step: 1 }]
    );
    assert!(startup_trajectory_terms(3, 0).is_empty());

    assert_eq!(
        shutdown_trajectory_terms(0, 3, 2),
        vec![TrajectoryTerm { period: 1, step: 1 }, TrajectoryTerm { period: 2, step: 0 }]
    );
    assert_eq!(shutdown_trajectory_terms(1, 3, 2), vec![TrajectoryTerm { period: 2, step: 1 }]);
    assert!(shutdown_trajectory_terms(2, 3, 2).is_empty());
}

#[test]
fn committed_profile_beyond_the_horizon() {
    // Startup of 2 steps, minimum up time 4, shutdown of 3 steps: 7 steps in all.
    assert_eq!(post_horizon_steps(2, 4, 3, true, 10, 8), (2, 5));
    assert_eq!(post_horizon_steps(2, 4, 3, false, 10, 8), (2, 2));
    assert_eq!(post_horizon_steps(2, 1, 3, true, 10, 0), (5, 0));
    assert_eq!(post_horizon_steps(3, 0, 0, false, 4, 6), (0, 3));
}

fn d(decision: UnitDecision, period: usize, coefficient: i64) -> DecisionTerm {
    DecisionTerm { decision, period, coefficient }
}

#[test]
fn first_period_transition_moves_initial_status_to_right_hand_side() {
    let (terms, rhs) = transition_row(0, true);
    assert_eq!(
        terms,
        vec![
            d(UnitDecision::On, 0, 1),
            d(UnitDecision::Startup, 0, -1),
            d(UnitDecision::Shutdown, 0, 1),
        ]
    );
    assert_eq!(rhs, 1);
    let (_, rhs_off) = transition_row(0, false);
    assert_eq!(rhs_off, 0);
}

#[test]
fn later_transition_links_previous_status() {
    let (terms, rhs) = transition_row(2, true);
    assert_eq!(
        terms,
        vec![
            d(UnitDecision::On, 2, 1),
            d(UnitDecision::Startup, 2, -1),
            d(UnitDecision::Shutdown, 2, 1),
            d(UnitDecision::On, 1, -1),
        ]
    );
    assert_eq!(rhs, 0);
}

#[test]
fn initial_ramp_continues_until_trajectory_ends() {
    assert_eq!(initial_ramp_step(1, 4, 0), Some(2));
    assert_eq!(initial_ramp_step(1, 4, 1), Some(3));
    assert_eq!(initial_ramp_step(1, 4, 2), None);
    assert_eq!(initial_ramp_step(3, 4, 0), None);
    assert_eq!(initial_ramp_step(0, 1, 0), None);
}

fn e(var: EnvelopeVar, period: usize, coefficient: EnvelopeCoefficient, step: usize) -> EnvelopeTerm {
    EnvelopeTerm { var, period, coefficient, step }
}

#[test]
fn generation_envelope_reads_the_trajectories() {
    // Period 1 of 3, two startup steps and two shutdown steps.
    assert_eq!(
        envelope_terms(1, 3, 2, 2),
        vec![
            e(EnvelopeVar::Generation, 1, EnvelopeCoefficient::One, 0),
            e(EnvelopeVar::On, 1, EnvelopeCoefficient::MinusLimit, 0),
            e(EnvelopeVar::Startup, 1, EnvelopeCoefficient::PlusLimit, 0),
            e(EnvelopeVar::Startup, 0, EnvelopeCoefficient::PlusLimit, 1),
            e(EnvelopeVar::Shutdown, 2, EnvelopeCoefficient::PlusLimit, 1),
            e(EnvelopeVar::Startup, 1, EnvelopeCoefficient::MinusStartupLevel, 0),
            e(EnvelopeVar::Startup, 0, EnvelopeCoefficient::MinusStartupLevel, 1),
            e(EnvelopeVar::Shutdown, 2, EnvelopeCoefficient::MinusShutdownLevel, 1),
        ]
    );
    assert_eq!(envelope_terms(0, 1, 0, 0), vec![e(EnvelopeVar::Generation, 0, EnvelopeCoefficient::One, 0), e(EnvelopeVar::On, 0, EnvelopeCoefficient::MinusLimit, 0)]);
}
