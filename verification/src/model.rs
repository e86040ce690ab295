//! Vocabulary of the optimization model: how a problem is solved, the domain
//! of a variable, the sense of a constraint and of the objective.

use vstd::prelude::*;
use crate::system::HydroPlant;

verus! {

/// How the optimization problem is solved.
#[derive(Debug, Clone, Copy, PartialEq, Eq, Structural)]
pub enum SolveMode {
    LinearProgramming,
    MixedIntegerLinearProgramming,
    LinearProgrammingWithFixedCommitment,
}

/// Domain of a decision variable.
#[derive(Debug, Clone, Copy, PartialEq, Eq, Structural)]
pub enum VariableDomain {
    Continuous,
    Binary,
}

/// Relation between the left-hand side of a linear constraint and its right-hand side.
#[derive(Debug, Clone, Copy, PartialEq, Eq, Structural)]
pub enum ConstraintSense {
    Equal,
    LessOrEqual,
    GreaterOrEqual,
}

/// Direction of the objective.
#[derive(Debug, Clone, Copy, PartialEq, Eq, Structural)]
pub enum ObjectiveSense {
    Minimize,
}

/// Commitment decisions (on/off, startup, shutdown) are variables of the model
/// only when it is solved as a mixed-integer problem or with the commitment fixed.
pub open spec fn spec_has_commitment(mode: SolveMode) -> bool {
    mode != SolveMode::LinearProgramming
}

impl SolveMode {
    /// Whether the model of this mode carries commitment decisions and the
    /// constraints that tie them together.
    pub fn has_commitment(&self) -> (b: bool)
        ensures
            b == spec_has_commitment(*self),
    {
        match self {
            SolveMode::LinearProgramming => false,
            _ => true,
        }
    }
}

/// Which commitment blocks a model carries.
#[derive(Debug, Clone, Copy, PartialEq, Eq, Structural)]
pub struct CommitmentScope {
    /// Thermal on/off, startup and shutdown variables, their minimum up/down
    /// and ramp constraints, and the startup and shutdown costs.
    pub thermal: bool,
    /// Hydro on/off variables, their channeling and minimum up/down constraints.
    pub hydro: bool,
    /// The commitment variables are fixed to the values of an earlier solve.
    pub fixed: bool,
}

pub open spec fn spec_commitment_scope(mode: SolveMode, thermal_enabled: bool, hydro_enabled: bool) -> CommitmentScope {
    CommitmentScope {
        thermal: spec_has_commitment(mode) && thermal_enabled,
        hydro: spec_has_commitment(mode) && hydro_enabled,
        fixed: mode == SolveMode::LinearProgrammingWithFixedCommitment,
    }
}

/// The commitment blocks of a model solved in `mode`: those of the kinds of
/// unit whose commitment the study enables, in the modes that carry commitment
/// decisions, fixed in the linear problems with the commitment fixed.
pub fn commitment_scope(mode: SolveMode, thermal_enabled: bool, hydro_enabled: bool) -> (r: CommitmentScope)
    ensures
        r == spec_commitment_scope(mode, thermal_enabled, hydro_enabled),
{
    let with_commitment = mode.has_commitment();
    CommitmentScope {
        thermal: with_commitment && thermal_enabled,
        hydro: with_commitment && hydro_enabled,
        fixed: match mode {
            SolveMode::LinearProgrammingWithFixedCommitment => true,
            _ => false,
        },
    }
}

/// Families of decision variables of the model.
#[derive(Debug, Clone, Copy, PartialEq, Eq, Structural)]
pub enum VariableFamily {
    ThermalGeneration,
    HydroGeneration,
    HydroTurbining,
    HydroSpillage,
    HydroDiversion,
    HydroVolume,
    Pumping,
    Deficit,
    RenewableGeneration,
    Interchange,
    ThermalCommitment,
    ThermalStartup,
    ThermalShutdown,
    HydroCommitment,
}

/// The commitment decisions (on/off, startup and shutdown) are binary; every
/// other quantity is continuous.
pub open spec fn spec_family_domain(family: VariableFamily) -> VariableDomain {
    match family {
        VariableFamily::ThermalCommitment | VariableFamily::ThermalStartup | VariableFamily::ThermalShutdown
        | VariableFamily::HydroCommitment => VariableDomain::Binary,
        _ => VariableDomain::Continuous,
    }
}

/// Domain of the variables of a family.
pub fn family_domain(family: VariableFamily) -> (r: VariableDomain)
    ensures
        r == spec_family_domain(family),
{
    match family {
        VariableFamily::ThermalCommitment | VariableFamily::ThermalStartup | VariableFamily::ThermalShutdown
        | VariableFamily::HydroCommitment => VariableDomain::Binary,
        _ => VariableDomain::Continuous,
    }
}

/// A plant that names no diversion destination diverts nothing: its diversion
/// variables are bounded above by zero.
pub fn diversion_closed(plant: &HydroPlant) -> (r: bool)
    ensures
        r == (plant.diversion_plant_id is None),
{
    plant.diversion_plant_id.is_none()
}

/// The volume at boundary 0 is the initial volume of the reservoir, so that
/// variable is fixed; volumes at the later boundaries are free within limits.
pub fn volume_fixed_at(boundary: usize) -> (r: bool)
    ensures
        r == (boundary == 0),
{
    boundary == 0
}

} // verus!
