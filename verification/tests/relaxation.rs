use labdessem::naming::{operational_limit_constraint_name, operational_limit_slack_name};
use labdessem::relaxation::{operational_limit_slack_plan, starts_with};
use labdessem::system::OperationalLimitVariable;

#[test]
fn prefixes() {
    assert!(starts_with("operational_limit_lower[p=A]", "operational_limit_lower"));
    assert!(starts_with("abc", ""));
    assert!(!starts_with("ab", "abc"));
    assert!(!starts_with("abd", "abc"));
}

#[test]
fn slack_plan_relaxes_only_operational_limits() {
    let names: Vec<String> = vec![
        "demand_balance[submarket=SE,t=1]".into(),
        "operational_limit_lower[p=UHE-1,var=VOL,t=1]".into(),
        "operational_limit_upper[p=UHE-1,var=VOL,t=1]".into(),
        "operational_limit".into(),
    ];
    let plan = operational_limit_slack_plan(&names);
    assert_eq!(plan.len(), 2);
    assert_eq!(plan[0].constraint_idx, 1);
    assert_eq!(plan[0].slack_name, "operational_limit_slack_lower[p=UHE-1,var=VOL,t=1]");
    assert!(plan[0].is_lower);
    assert_eq!(plan[1].constraint_idx, 2);
    assert_eq!(plan[1].slack_name, "operational_limit_slack_upper[p=UHE-1,var=VOL,t=1]");
    assert!(!plan[1].is_lower);
}

#[test]
fn slack_names_in_the_plan_match_the_reported_names() {
    let lower = operational_limit_constraint_name(true, "UHE-1", OperationalLimitVariable::Turbining, 4);
    let upper = operational_limit_constraint_name(false, "UHE-1", OperationalLimitVariable::Turbining, 4);
    assert_eq!(lower, "operational_limit_lower[p=UHE-1,var=TURB,t=5]");
    let plan = operational_limit_slack_plan(&vec![lower, upper]);
    assert_eq!(plan[0].slack_name, operational_limit_slack_name(true, "UHE-1", OperationalLimitVariable::Turbining, 5));
    assert_eq!(plan[1].slack_name, operational_limit_slack_name(false, "UHE-1", OperationalLimitVariable::Turbining, 5));
}
