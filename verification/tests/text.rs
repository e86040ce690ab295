use labdessem::model::{SolveMode, VariableDomain};
use labdessem::text::{eq_ignore_ascii_case, is_blank, is_white_space, parse_usize, trim};
use labdessem::validation::{list_contains, validate_unique_ids};
use labdessem::ids::HydroPlantId;
use labdessem::system::{CoreError, EntityKind};

#[test]
fn trimming_and_blank_text() {
    assert_eq!(trim("  ab c\t\n"), "ab c");
    assert_eq!(trim("   "), "");
    assert_eq!(trim("x"), "x");
    assert!(is_blank(" \t\u{a0}"));
    assert!(is_blank(""));
    assert!(!is_blank(" a "));
    assert!(is_white_space('\u{3000}'));
    assert!(!is_white_space('_'));
}

#[test]
fn case_insensitive_comparison() {
    assert!(eq_ignore_ascii_case("Deflu", "DEFLU"));
    assert!(!eq_ignore_ascii_case("DEFL", "DEFLU"));
    assert!(!eq_ignore_ascii_case("é", "É"));
}

#[test]
fn unsigned_numerals() {
    assert_eq!(parse_usize("0"), Some(0));
    assert_eq!(parse_usize("+42"), Some(42));
    assert_eq!(parse_usize("007"), Some(7));
    assert_eq!(parse_usize(""), None);
    assert_eq!(parse_usize("+"), None);
    assert_eq!(parse_usize("-1"), None);
    assert_eq!(parse_usize("1 2"), None);
    assert_eq!(parse_usize("99999999999999999999999"), None);
    assert_eq!(parse_usize(&usize::MAX.to_string()), Some(usize::MAX));
}

#[test]
fn unique_identifiers() {
    assert_eq!(validate_unique_ids(&vec![3, 1, 2], EntityKind::Bus), Ok(()));
    assert_eq!(validate_unique_ids(&vec![], EntityKind::Bus), Ok(()));
    assert_eq!(validate_unique_ids(&vec![3, 1, 3], EntityKind::Branch), Err(CoreError::DuplicateIds(EntityKind::Branch)));
    assert!(list_contains(&vec![HydroPlantId(2), HydroPlantId(5)], HydroPlantId(5)));
    assert!(!list_contains(&vec![HydroPlantId(2)], HydroPlantId(5)));
}

#[test]
fn solve_modes() {
    assert!(!SolveMode::LinearProgramming.has_commitment());
    assert!(SolveMode::MixedIntegerLinearProgramming.has_commitment());
    assert!(SolveMode::LinearProgrammingWithFixedCommitment.has_commitment());
    assert_ne!(VariableDomain::Binary, VariableDomain::Continuous);
}

#[test]
fn decimal_names_carry_every_digit() {
    assert_eq!(labdessem::naming::indexed_name("x", "p", "A", 9), "x[p=A,t=10]");
    assert_eq!(labdessem::naming::indexed_name("x", "p", "A", 1233), "x[p=A,t=1234]");
}
