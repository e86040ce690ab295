//! Structure of a study: the entities, how they reference each other, and the
//! rules that a consistent study obeys. Physical quantities (demands, costs,
//! capacities, trajectory levels) are not held here; only what the structural
//! rules read is: identifiers, names, references, flags, counts and the number
//! of periods that each time series covers.

use vstd::prelude::*;
use crate::ids::{
    BranchId, BusId, HydroGroupId, HydroPlantId, HydroUnitId, PumpingPlantId, RenewablePlantId,
    SubmarketId, ThermalPlantId, ThermalUnitId,
};
use crate::text::{is_blank, spec_is_blank};

verus! {

/// Kind of entity that a structural error refers to.
#[derive(Debug, Clone, Copy, PartialEq, Eq, Structural)]
pub enum EntityKind {
    Submarket,
    Bus,
    Branch,
    ThermalPlant,
    ThermalUnit,
    HydroPlant,
    HydroGroup,
    HydroUnit,
    RenewablePlant,
    PumpingPlant,
}

/// Time series whose length must match the study horizon.
#[derive(Debug, Clone, Copy, PartialEq, Eq, Structural)]
pub enum SeriesKind {
    SubmarketDemand,
    BusDemand,
    HydroInflow,
    HydroWithdrawal,
    RenewableAvailability,
}

/// Which ramp trajectory of a thermal unit an error refers to.
#[derive(Debug, Clone, Copy, PartialEq, Eq, Structural)]
pub enum TrajectoryKind {
    Startup,
    Shutdown,
}

/// Which link of the hydro cascade an error refers to.
#[derive(Debug, Clone, Copy, PartialEq, Eq, Structural)]
pub enum CascadeLink {
    Upstream,
    Downstream,
    DiversionUpstream,
    DiversionDestination,
}

/// Variable that an operational limit bounds.
#[derive(Debug, Clone, Copy, PartialEq, Eq, Structural)]
pub enum OperationalLimitVariable {
    Generation,
    Spillage,
    Volume,
    Defluence,
    Turbining,
    /// Water that a hydro plant diverts to another plant.
    Diversion,
    /// Water pumped by a pumping plant.
    Pumping,
}

/// Plant that an operational limit applies to.
#[derive(Debug, Clone, Copy, PartialEq, Eq, Structural)]
pub enum OperationalLimitTarget {
    ThermalPlant(ThermalPlantId),
    HydroPlant(HydroPlantId),
    PumpingPlant(PumpingPlantId),
}

/// A violated structural rule of a study.
#[derive(Debug, Clone, PartialEq, Eq)]
pub enum CoreError {
    EmptyHorizon,
    NoSubmarkets,
    NoBuses,
    DuplicateIds(EntityKind),
    BlankName(EntityKind, usize),
    HorizonMismatch { series: SeriesKind, id: usize, expected: usize, found: usize },
    UnknownResidualCostSubmarket(SubmarketId),
    DuplicateResidualCost(SubmarketId),
    MissingResidualCosts,
    InterchangeSameSubmarket(SubmarketId),
    InterchangeUnknownSubmarket(SubmarketId, SubmarketId),
    DuplicateInterchangeLimit(SubmarketId, SubmarketId),
    BusUnknownSubmarket(BusId, SubmarketId),
    ReferenceBusCount(usize),
    BranchSameBus(BranchId),
    BranchUnknownBus(BranchId),
    PlantWithoutUnits(EntityKind, usize),
    GroupWithoutUnits(HydroGroupId),
    RampingBothWays(ThermalUnitId),
    RampingWhileOff(ThermalUnitId),
    EmptyTrajectory(ThermalUnitId, TrajectoryKind),
    ZeroRampTime(ThermalUnitId, TrajectoryKind),
    RampTimeBeyondTrajectory { unit: ThermalUnitId, trajectory: TrajectoryKind, time_in_ramp: usize, length: usize },
    MissingFphaSegments(HydroPlantId),
    FphaSegmentZero(HydroPlantId),
    UnknownBus(EntityKind, usize, BusId),
    UnknownSubmarket(EntityKind, usize, SubmarketId),
    BusSubmarketMismatch(EntityKind, usize),
    DuplicateCascadeReference(HydroPlantId, CascadeLink, HydroPlantId),
    SelfCascadeReference(HydroPlantId, CascadeLink),
    UnknownCascadeReference(HydroPlantId, CascadeLink, HydroPlantId),
    InconsistentCascadeLink(HydroPlantId, CascadeLink, HydroPlantId),
    LimitBlankPlantName,
    LimitPeriodZero,
    LimitStartAfterEnd(String),
    LimitBeyondHorizon(String),
    LimitWithoutBound(String),
    LimitIncompatibleTarget(String, OperationalLimitVariable),
    LimitUnknownThermalPlant(ThermalPlantId),
    LimitUnknownHydroPlant(HydroPlantId),
    LimitThermalNameMismatch(ThermalPlantId),
    LimitHydroNameMismatch(HydroPlantId),
    LimitUnknownPumpingPlant(PumpingPlantId),
    LimitPumpingNameMismatch(PumpingPlantId),
    /// A pumping plant names a hydro plant that the study does not have.
    PumpingUnknownHydroPlant(PumpingPlantId, HydroPlantId),
}

/// Number of periods of the study.
#[derive(Debug, Clone)]
pub struct StudyHorizon {
    pub periods: usize,
}

#[derive(Debug, Clone)]
pub struct Submarket {
    pub id: SubmarketId,
    pub name: String,
    /// Number of periods covered by the demand series.
    pub demand_periods: usize,
}

#[derive(Debug, Clone)]
pub struct Bus {
    pub id: BusId,
    pub name: String,
    pub submarket_id: SubmarketId,
    pub angle_reference: bool,
    /// Number of periods covered by the demand series.
    pub demand_periods: usize,
}

#[derive(Debug, Clone)]
pub struct Branch {
    pub id: BranchId,
    pub name: String,
    pub from_bus_id: BusId,
    pub to_bus_id: BusId,
}

#[derive(Debug, Clone)]
pub struct InterchangeLimit {
    pub from_submarket_id: SubmarketId,
    pub to_submarket_id: SubmarketId,
}

#[derive(Debug, Clone)]
pub struct ResidualCost {
    pub submarket_id: SubmarketId,
}

#[derive(Debug, Clone)]
pub struct OperationalLimit {
    pub target: OperationalLimitTarget,
    pub plant_name: String,
    pub variable: OperationalLimitVariable,
    pub start_period: usize,
    pub end_period: usize,
    pub has_lower_bound: bool,
    pub has_upper_bound: bool,
}

#[derive(Debug, Clone)]
pub struct ThermalInitialCondition {
    pub is_on: bool,
    pub time_in_state: usize,
    pub time_in_ramp: usize,
    pub is_ramping_up: bool,
    pub is_ramping_down: bool,
}

#[derive(Debug, Clone)]
pub struct ThermalUnit {
    pub id: ThermalUnitId,
    pub name: String,
    /// Number of steps of the startup trajectory.
    pub startup_steps: usize,
    /// Number of steps of the shutdown trajectory.
    pub shutdown_steps: usize,
    pub min_up_time: usize,
    pub min_down_time: usize,
    pub initial_condition: ThermalInitialCondition,
}

#[derive(Debug, Clone)]
pub struct ThermalPlant {
    pub id: ThermalPlantId,
    pub name: String,
    pub submarket_id: SubmarketId,
    pub bus_id: BusId,
    pub units: Vec<ThermalUnit>,
}

#[derive(Debug, Clone)]
pub struct HydroInitialCondition {
    pub is_on: bool,
    pub time_in_state: usize,
}

#[derive(Debug, Clone)]
pub struct HydroUnit {
    pub id: HydroUnitId,
    pub name: String,
    pub min_up_time: usize,
    pub min_down_time: usize,
    pub initial_condition: HydroInitialCondition,
}

#[derive(Debug, Clone)]
pub struct HydroGroup {
    pub id: HydroGroupId,
    pub name: String,
    pub units: Vec<HydroUnit>,
}

#[derive(Debug, Clone)]
pub struct HydroFphaSegment {
    pub segment: usize,
}

#[derive(Debug, Clone)]
pub struct HydroPlant {
    pub id: HydroPlantId,
    pub name: String,
    pub submarket_id: SubmarketId,
    pub bus_id: BusId,
    pub upstream_plant_ids: Vec<HydroPlantId>,
    pub downstream_plant_id: Option<HydroPlantId>,
    pub diversion_upstream_plant_ids: Vec<HydroPlantId>,
    pub diversion_plant_id: Option<HydroPlantId>,
    /// Number of periods covered by the natural inflow series.
    pub inflow_periods: usize,
    /// Number of periods covered by the water withdrawal series.
    pub withdrawal_periods: usize,
    pub fpha_segments: Vec<HydroFphaSegment>,
    pub groups: Vec<HydroGroup>,
}

#[derive(Debug, Clone)]
pub struct RenewablePlant {
    pub id: RenewablePlantId,
    pub name: String,
    pub submarket_id: SubmarketId,
    pub bus_id: BusId,
    /// Number of periods covered by the available generation series.
    pub available_periods: usize,
}

#[derive(Debug, Clone)]
pub struct PumpingPlant {
    pub id: PumpingPlantId,
    pub name: String,
    pub submarket_id: SubmarketId,
    pub bus_id: BusId,
    pub upstream_hydro_id: HydroPlantId,
    pub downstream_hydro_id: HydroPlantId,
}

#[derive(Debug, Clone)]
pub struct System {
    pub horizon: StudyHorizon,
    pub thermal_unit_commitment_enabled: bool,
    pub hydro_unit_commitment_enabled: bool,
    pub ton_residual_enabled: bool,
    /// Hydro generation is bounded by FPHA cuts (otherwise it follows the
    /// plant productivity times turbining, and no FPHA data is needed).
    pub hydro_fpha_enabled: bool,
    pub residual_costs: Vec<ResidualCost>,
    pub submarkets: Vec<Submarket>,
    pub interchange_limits: Vec<InterchangeLimit>,
    pub operational_limits: Vec<OperationalLimit>,
    pub buses: Vec<Bus>,
    pub branches: Vec<Branch>,
    pub thermal_plants: Vec<ThermalPlant>,
    pub hydro_plants: Vec<HydroPlant>,
    pub renewable_plants: Vec<RenewablePlant>,
    pub pumping_plants: Vec<PumpingPlant>,
}

// ---------------------------------------------------------------------------
// Running a check over a list: the first failing element decides the outcome.
// ---------------------------------------------------------------------------

/// Outcome of checking every element of `s` in order: the error of the first
/// element that fails, or success.
pub open spec fn first_error<T>(s: Seq<T>, check: spec_fn(T) -> Result<(), CoreError>) -> Result<(), CoreError>
    decreases s.len(),
{
    if s.len() == 0 {
        Ok(())
    } else {
        match first_error(s.drop_last(), check) {
            Err(e) => Err(e),
            Ok(_) => check(s.last()),
        }
    }
}

/// Sequencing of two outcomes: the first error wins.
pub open spec fn then(first: Result<(), CoreError>, second: Result<(), CoreError>) -> Result<(), CoreError> {
    match first {
        Err(e) => Err(e),
        Ok(_) => second,
    }
}

pub proof fn lemma_first_error_step<T>(s: Seq<T>, i: int, check: spec_fn(T) -> Result<(), CoreError>)
    requires
        0 <= i < s.len(),
    ensures
        first_error(s.take(i + 1), check) == then(first_error(s.take(i), check), check(s[i])),
{
    assert(s.take(i + 1).drop_last() =~= s.take(i));
}

pub proof fn lemma_first_error_prefix<T>(s: Seq<T>, k: int, check: spec_fn(T) -> Result<(), CoreError>)
    requires
        0 <= k <= s.len(),
        first_error(s.take(k), check) is Err,
    ensures
        first_error(s, check) == first_error(s.take(k), check),
    decreases s.len() - k,
{
    if k == s.len() {
        assert(s.take(k) =~= s);
    } else {
        lemma_first_error_step(s, k, check);
        lemma_first_error_prefix(s, k + 1, check);
    }
}

pub proof fn lemma_first_error_all<T>(s: Seq<T>, check: spec_fn(T) -> Result<(), CoreError>)
    ensures
        s.take(s.len() as int) == s,
{
    assert(s.take(s.len() as int) =~= s);
}

// ---------------------------------------------------------------------------
// Element checks.
// ---------------------------------------------------------------------------

pub open spec fn spec_series_check(series: SeriesKind, id: usize, expected: usize, found: usize) -> Result<(), CoreError> {
    if found != expected {
        Err(CoreError::HorizonMismatch { series, id, expected, found })
    } else {
        Ok(())
    }
}

impl StudyHorizon {
    pub open spec fn spec_validate(&self) -> Result<(), CoreError> {
        if self.periods == 0 {
            Err(CoreError::EmptyHorizon)
        } else {
            Ok(())
        }
    }

    /// The horizon holds at least one period.
    pub fn validate(&self) -> (r: Result<(), CoreError>)
        ensures
            r == self.spec_validate(),
    {
        if self.periods == 0 {
            Err(CoreError::EmptyHorizon)
        } else {
            Ok(())
        }
    }
}

impl Submarket {
    pub open spec fn spec_validate(&self, horizon: usize) -> Result<(), CoreError> {
        if spec_is_blank(self.name@) {
            Err(CoreError::BlankName(EntityKind::Submarket, self.id.0))
        } else {
            spec_series_check(SeriesKind::SubmarketDemand, self.id.0, horizon, self.demand_periods)
        }
    }

    /// The name is not blank and the demand covers the horizon.
    pub fn validate(&self, horizon: usize) -> (r: Result<(), CoreError>)
        ensures
            r == self.spec_validate(horizon),
    {
        if is_blank(self.name.as_str()) {
            return Err(CoreError::BlankName(EntityKind::Submarket, self.id.0));
        }
        if self.demand_periods != horizon {
            return Err(
                CoreError::HorizonMismatch {
                    series: SeriesKind::SubmarketDemand,
                    id: self.id.0,
                    expected: horizon,
                    found: self.demand_periods,
                },
            );
        }
        Ok(())
    }
}

impl Bus {
    pub open spec fn spec_validate(&self, horizon: usize) -> Result<(), CoreError> {
        if spec_is_blank(self.name@) {
            Err(CoreError::BlankName(EntityKind::Bus, self.id.0))
        } else {
            spec_series_check(SeriesKind::BusDemand, self.id.0, horizon, self.demand_periods)
        }
    }

    /// The name is not blank and the demand covers the horizon.
    pub fn validate(&self, horizon: usize) -> (r: Result<(), CoreError>)
        ensures
            r == self.spec_validate(horizon),
    {
        if is_blank(self.name.as_str()) {
            return Err(CoreError::BlankName(EntityKind::Bus, self.id.0));
        }
        if self.demand_periods != horizon {
            return Err(
                CoreError::HorizonMismatch {
                    series: SeriesKind::BusDemand,
                    id: self.id.0,
                    expected: horizon,
                    found: self.demand_periods,
                },
            );
        }
        Ok(())
    }
}

impl Branch {
    pub open spec fn spec_validate(&self) -> Result<(), CoreError> {
        if spec_is_blank(self.name@) {
            Err(CoreError::BlankName(EntityKind::Branch, self.id.0))
        } else if self.from_bus_id == self.to_bus_id {
            Err(CoreError::BranchSameBus(self.id))
        } else {
            Ok(())
        }
    }

    /// The name is not blank and the branch joins two different buses.
    pub fn validate(&self) -> (r: Result<(), CoreError>)
        ensures
            r == self.spec_validate(),
    {
        if is_blank(self.name.as_str()) {
            return Err(CoreError::BlankName(EntityKind::Branch, self.id.0));
        }
        if self.from_bus_id == self.to_bus_id {
            return Err(CoreError::BranchSameBus(self.id));
        }
        Ok(())
    }
}

impl InterchangeLimit {
    pub open spec fn spec_validate(&self) -> Result<(), CoreError> {
        if self.from_submarket_id == self.to_submarket_id {
            Err(CoreError::InterchangeSameSubmarket(self.from_submarket_id))
        } else {
            Ok(())
        }
    }

    /// The limit joins two different submarkets.
    pub fn validate(&self) -> (r: Result<(), CoreError>)
        ensures
            r == self.spec_validate(),
    {
        if self.from_submarket_id == self.to_submarket_id {
            Err(CoreError::InterchangeSameSubmarket(self.from_submarket_id))
        } else {
            Ok(())
        }
    }
}

/// Which variables a plant kind can be bounded in: a thermal plant only in its
/// generation, a pumping plant only in its pumping, a hydro plant in everything
/// but pumping.
pub open spec fn target_accepts(target: OperationalLimitTarget, variable: OperationalLimitVariable) -> bool {
    match target {
        OperationalLimitTarget::ThermalPlant(_) => variable == OperationalLimitVariable::Generation,
        OperationalLimitTarget::HydroPlant(_) => variable != OperationalLimitVariable::Pumping,
        OperationalLimitTarget::PumpingPlant(_) => variable == OperationalLimitVariable::Pumping,
    }
}

impl OperationalLimit {
    pub open spec fn spec_validate(&self, horizon: usize) -> Result<(), CoreError> {
        if spec_is_blank(self.plant_name@) {
            Err(CoreError::LimitBlankPlantName)
        } else if self.start_period == 0 || self.end_period == 0 {
            Err(CoreError::LimitPeriodZero)
        } else if self.start_period > self.end_period {
            Err(CoreError::LimitStartAfterEnd(self.plant_name))
        } else if self.end_period > horizon {
            Err(CoreError::LimitBeyondHorizon(self.plant_name))
        } else if !self.has_lower_bound && !self.has_upper_bound {
            Err(CoreError::LimitWithoutBound(self.plant_name))
        } else if !target_accepts(self.target, self.variable) {
            Err(CoreError::LimitIncompatibleTarget(self.plant_name, self.variable))
        } else {
            Ok(())
        }
    }

    /// The plant name is not blank, the periods form a range inside the horizon
    /// starting at 1, at least one bound is given, and the plant kind accepts
    /// the bounded variable.
    pub fn validate(&self, horizon: usize) -> (r: Result<(), CoreError>)
        ensures
            r == self.spec_validate(horizon),
    {
        if is_blank(self.plant_name.as_str()) {
            return Err(CoreError::LimitBlankPlantName);
        }
        if self.start_period == 0 || self.end_period == 0 {
            return Err(CoreError::LimitPeriodZero);
        }
        if self.start_period > self.end_period {
            return Err(CoreError::LimitStartAfterEnd(self.plant_name.clone()));
        }
        if self.end_period > horizon {
            return Err(CoreError::LimitBeyondHorizon(self.plant_name.clone()));
        }
        if !self.has_lower_bound && !self.has_upper_bound {
            return Err(CoreError::LimitWithoutBound(self.plant_name.clone()));
        }
        let accepted = match self.target {
            OperationalLimitTarget::ThermalPlant(_) => self.variable == OperationalLimitVariable::Generation,
            OperationalLimitTarget::HydroPlant(_) => self.variable != OperationalLimitVariable::Pumping,
            OperationalLimitTarget::PumpingPlant(_) => self.variable == OperationalLimitVariable::Pumping,
        };
        if accepted {
            Ok(())
        } else {
            Err(CoreError::LimitIncompatibleTarget(self.plant_name.clone(), self.variable))
        }
    }
}

/// Outcome of locating the initial position of a unit inside one of its ramp
/// trajectories: the index of the current step, counted from zero.
pub open spec fn spec_ramp_step(
    unit: ThermalUnitId,
    trajectory: TrajectoryKind,
    steps: usize,
    time_in_ramp: usize,
) -> Result<usize, CoreError> {
    if steps == 0 {
        Err(CoreError::EmptyTrajectory(unit, trajectory))
    } else if time_in_ramp == 0 {
        Err(CoreError::ZeroRampTime(unit, trajectory))
    } else if time_in_ramp > steps {
        Err(CoreError::RampTimeBeyondTrajectory { unit, trajectory, time_in_ramp, length: steps })
    } else {
        Ok((time_in_ramp - 1) as usize)
    }
}

/// Locates the current step of a unit that starts the study inside a ramp
/// trajectory of `steps` steps, `time_in_ramp` periods after the ramp began.
/// The remaining trajectory is the part after the returned index.
pub fn ramp_step(
    unit: ThermalUnitId,
    trajectory: TrajectoryKind,
    steps: usize,
    time_in_ramp: usize,
) -> (r: Result<usize, CoreError>)
    ensures
        r == spec_ramp_step(unit, trajectory, steps, time_in_ramp),
        r matches Ok(k) ==> k < steps,
{
    if steps == 0 {
        return Err(CoreError::EmptyTrajectory(unit, trajectory));
    }
    if time_in_ramp == 0 {
        return Err(CoreError::ZeroRampTime(unit, trajectory));
    }
    if time_in_ramp > steps {
        return Err(
            CoreError::RampTimeBeyondTrajectory { unit, trajectory, time_in_ramp, length: steps },
        );
    }
    Ok(time_in_ramp - 1)
}

pub open spec fn unit_check(r: Result<usize, CoreError>) -> Result<(), CoreError> {
    match r {
        Ok(_) => Ok(()),
        Err(e) => Err(e),
    }
}

impl ThermalUnit {
    pub open spec fn spec_validate(&self) -> Result<(), CoreError> {
        let ic = self.initial_condition;
        if spec_is_blank(self.name@) {
            Err(CoreError::BlankName(EntityKind::ThermalUnit, self.id.0))
        } else if ic.is_ramping_up && ic.is_ramping_down {
            Err(CoreError::RampingBothWays(self.id))
        } else if (ic.is_ramping_up || ic.is_ramping_down) && !ic.is_on {
            Err(CoreError::RampingWhileOff(self.id))
        } else if ic.is_ramping_up && spec_ramp_step(self.id, TrajectoryKind::Startup, self.startup_steps, ic.time_in_ramp) is Err {
            unit_check(spec_ramp_step(self.id, TrajectoryKind::Startup, self.startup_steps, ic.time_in_ramp))
        } else if ic.is_ramping_down {
            unit_check(spec_ramp_step(self.id, TrajectoryKind::Shutdown, self.shutdown_steps, ic.time_in_ramp))
        } else {
            Ok(())
        }
    }

    /// The name is not blank, the unit is not ramping both ways nor ramping while
    /// off, and a unit that starts inside a ramp lies within its trajectory.
    pub fn validate(&self) -> (r: Result<(), CoreError>)
        ensures
            r == self.spec_validate(),
    {
        if is_blank(self.name.as_str()) {
            return Err(CoreError::BlankName(EntityKind::ThermalUnit, self.id.0));
        }
        let ic = &self.initial_condition;
        if ic.is_ramping_up && ic.is_ramping_down {
            return Err(CoreError::RampingBothWays(self.id));
        }
        if (ic.is_ramping_up || ic.is_ramping_down) && !ic.is_on {
            return Err(CoreError::RampingWhileOff(self.id));
        }
        if ic.is_ramping_up {
            if let Err(e) = ramp_step(self.id, TrajectoryKind::Startup, self.startup_steps, ic.time_in_ramp) {
                return Err(e);
            }
        }
        if ic.is_ramping_down {
            if let Err(e) = ramp_step(self.id, TrajectoryKind::Shutdown, self.shutdown_steps, ic.time_in_ramp) {
                return Err(e);
            }
        }
        Ok(())
    }

    /// Index of the current startup step when the unit starts the study ramping up.
    pub fn initial_startup_step(&self) -> (r: Result<usize, CoreError>)
        ensures
            r == spec_ramp_step(self.id, TrajectoryKind::Startup, self.startup_steps, self.initial_condition.time_in_ramp),
    {
        ramp_step(self.id, TrajectoryKind::Startup, self.startup_steps, self.initial_condition.time_in_ramp)
    }

    /// Index of the current shutdown step when the unit starts the study ramping down.
    pub fn initial_shutdown_step(&self) -> (r: Result<usize, CoreError>)
        ensures
            r == spec_ramp_step(self.id, TrajectoryKind::Shutdown, self.shutdown_steps, self.initial_condition.time_in_ramp),
    {
        ramp_step(self.id, TrajectoryKind::Shutdown, self.shutdown_steps, self.initial_condition.time_in_ramp)
    }
}

pub open spec fn thermal_unit_checker() -> spec_fn(ThermalUnit) -> Result<(), CoreError> {
    |u: ThermalUnit| u.spec_validate()
}

impl ThermalPlant {
    pub open spec fn spec_validate(&self) -> Result<(), CoreError> {
        if spec_is_blank(self.name@) {
            Err(CoreError::BlankName(EntityKind::ThermalPlant, self.id.0))
        } else if self.units@.len() == 0 {
            Err(CoreError::PlantWithoutUnits(EntityKind::ThermalPlant, self.id.0))
        } else {
            first_error(self.units@, thermal_unit_checker())
        }
    }

    /// The name is not blank, the plant has units, and every unit is valid.
    pub fn validate(&self) -> (r: Result<(), CoreError>)
        ensures
            r == self.spec_validate(),
    {
        if is_blank(self.name.as_str()) {
            return Err(CoreError::BlankName(EntityKind::ThermalPlant, self.id.0));
        }
        if self.units.len() == 0 {
            return Err(CoreError::PlantWithoutUnits(EntityKind::ThermalPlant, self.id.0));
        }
        let ghost check = thermal_unit_checker();
        let mut i: usize = 0;
        while i < self.units.len()
            invariant
                i <= self.units@.len(),
                check == thermal_unit_checker(),
                first_error(self.units@.take(i as int), check) is Ok,
                !spec_is_blank(self.name@),
                self.units@.len() > 0,
            decreases self.units@.len() - i,
        {
            let r = self.units[i].validate();
            proof {
                lemma_first_error_step(self.units@, i as int, check);
                assert(check(self.units@[i as int]) == r);
            }
            if let Err(e) = r {
                proof {
                    lemma_first_error_prefix(self.units@, i + 1, check);
                    assert(first_error(self.units@, check) == Err::<(), CoreError>(e));
                }
                return Err(e);
            }
            i = i + 1;
        }
        proof {
            lemma_first_error_all(self.units@, check);
        }
        Ok(())
    }
}


/// Outcome of checking the indices `0..n` in order: the error of the first index
/// that fails, or success.
pub open spec fn first_error_upto(n: int, check: spec_fn(int) -> Result<(), CoreError>) -> Result<(), CoreError>
    decreases n,
{
    if n <= 0 {
        Ok(())
    } else {
        then(first_error_upto(n - 1, check), check(n - 1))
    }
}

pub proof fn lemma_upto_prefix(n: int, k: int, check: spec_fn(int) -> Result<(), CoreError>)
    requires
        0 <= k <= n,
        first_error_upto(k, check) is Err,
    ensures
        first_error_upto(n, check) == first_error_upto(k, check),
    decreases n - k,
{
    if k < n {
        lemma_upto_prefix(n - 1, k, check);
    }
}

pub proof fn lemma_upto_all_ok(n: int, check: spec_fn(int) -> Result<(), CoreError>, i: int)
    requires
        first_error_upto(n, check) is Ok,
        0 <= i < n,
    ensures
        check(i) is Ok,
    decreases n,
{
    if i < n - 1 {
        lemma_upto_all_ok(n - 1, check, i);
    }
}

pub proof fn lemma_first_error_all_ok<T>(s: Seq<T>, check: spec_fn(T) -> Result<(), CoreError>, i: int)
    requires
        first_error(s, check) is Ok,
        0 <= i < s.len(),
    ensures
        check(s[i]) is Ok,
    decreases s.len(),
{
    if i < s.len() - 1 {
        lemma_first_error_all_ok(s.drop_last(), check, i);
    }
}

impl HydroUnit {
    pub open spec fn spec_validate(&self) -> Result<(), CoreError> {
        if spec_is_blank(self.name@) {
            Err(CoreError::BlankName(EntityKind::HydroUnit, self.id.0))
        } else {
            Ok(())
        }
    }

    /// The name is not blank.
    pub fn validate(&self) -> (r: Result<(), CoreError>)
        ensures
            r == self.spec_validate(),
    {
        if is_blank(self.name.as_str()) {
            Err(CoreError::BlankName(EntityKind::HydroUnit, self.id.0))
        } else {
            Ok(())
        }
    }
}

pub open spec fn hydro_unit_checker() -> spec_fn(HydroUnit) -> Result<(), CoreError> {
    |u: HydroUnit| u.spec_validate()
}

impl HydroGroup {
    pub open spec fn spec_validate(&self) -> Result<(), CoreError> {
        if spec_is_blank(self.name@) {
            Err(CoreError::BlankName(EntityKind::HydroGroup, self.id.0))
        } else if self.units@.len() == 0 {
            Err(CoreError::GroupWithoutUnits(self.id))
        } else {
            first_error(self.units@, hydro_unit_checker())
        }
    }

    /// The name is not blank, the group has units, and every unit is valid.
    pub fn validate(&self) -> (r: Result<(), CoreError>)
        ensures
            r == self.spec_validate(),
    {
        if is_blank(self.name.as_str()) {
            return Err(CoreError::BlankName(EntityKind::HydroGroup, self.id.0));
        }
        if self.units.len() == 0 {
            return Err(CoreError::GroupWithoutUnits(self.id));
        }
        let ghost check = hydro_unit_checker();
        let mut i: usize = 0;
        while i < self.units.len()
            invariant
                i <= self.units@.len(),
                check == hydro_unit_checker(),
                first_error(self.units@.take(i as int), check) is Ok,
                !spec_is_blank(self.name@),
                self.units@.len() > 0,
            decreases self.units@.len() - i,
        {
            let r = self.units[i].validate();
            proof {
                lemma_first_error_step(self.units@, i as int, check);
                assert(check(self.units@[i as int]) == r);
            }
            if let Err(e) = r {
                proof {
                    lemma_first_error_prefix(self.units@, i + 1, check);
                }
                return Err(e);
            }
            i = i + 1;
        }
        proof {
            lemma_first_error_all(self.units@, check);
        }
        Ok(())
    }
}

impl HydroFphaSegment {
    pub open spec fn spec_validate(&self, plant_id: HydroPlantId) -> Result<(), CoreError> {
        if self.segment == 0 {
            Err(CoreError::FphaSegmentZero(plant_id))
        } else {
            Ok(())
        }
    }

    /// Segments are numbered from 1.
    pub fn validate(&self, plant_id: HydroPlantId) -> (r: Result<(), CoreError>)
        ensures
            r == self.spec_validate(plant_id),
    {
        if self.segment == 0 {
            Err(CoreError::FphaSegmentZero(plant_id))
        } else {
            Ok(())
        }
    }
}

pub open spec fn segment_checker(plant_id: HydroPlantId) -> spec_fn(HydroFphaSegment) -> Result<(), CoreError> {
    |s: HydroFphaSegment| s.spec_validate(plant_id)
}

pub open spec fn hydro_group_checker() -> spec_fn(HydroGroup) -> Result<(), CoreError> {
    |g: HydroGroup| g.spec_validate()
}

impl HydroPlant {
    pub open spec fn spec_validate(&self, horizon: usize, fpha_enabled: bool) -> Result<(), CoreError> {
        if spec_is_blank(self.name@) {
            Err(CoreError::BlankName(EntityKind::HydroPlant, self.id.0))
        } else if self.inflow_periods != horizon {
            spec_series_check(SeriesKind::HydroInflow, self.id.0, horizon, self.inflow_periods)
        } else if self.withdrawal_periods != horizon {
            spec_series_check(SeriesKind::HydroWithdrawal, self.id.0, horizon, self.withdrawal_periods)
        } else if fpha_enabled && self.groups@.len() > 0 && self.fpha_segments@.len() == 0 {
            Err(CoreError::MissingFphaSegments(self.id))
        } else {
            then(
                first_error(self.fpha_segments@, segment_checker(self.id)),
                first_error(self.groups@, hydro_group_checker()),
            )
        }
    }

    /// The name is not blank, inflow and withdrawal cover the horizon, a plant
    /// with generating groups has FPHA segments when FPHA cuts are in use, and
    /// segments and groups are valid.
    #[verifier::loop_isolation(false)]
    pub fn validate(&self, horizon: usize, fpha_enabled: bool) -> (r: Result<(), CoreError>)
        ensures
            r == self.spec_validate(horizon, fpha_enabled),
    {
        if is_blank(self.name.as_str()) {
            return Err(CoreError::BlankName(EntityKind::HydroPlant, self.id.0));
        }
        if self.inflow_periods != horizon {
            return Err(
                CoreError::HorizonMismatch {
                    series: SeriesKind::HydroInflow,
                    id: self.id.0,
                    expected: horizon,
                    found: self.inflow_periods,
                },
            );
        }
        if self.withdrawal_periods != horizon {
            return Err(
                CoreError::HorizonMismatch {
                    series: SeriesKind::HydroWithdrawal,
                    id: self.id.0,
                    expected: horizon,
                    found: self.withdrawal_periods,
                },
            );
        }
        if fpha_enabled && self.groups.len() > 0 && self.fpha_segments.len() == 0 {
            return Err(CoreError::MissingFphaSegments(self.id));
        }
        let ghost check = segment_checker(self.id);
        let mut i: usize = 0;
        while i < self.fpha_segments.len()
            invariant
                i <= self.fpha_segments@.len(),
                check == segment_checker(self.id),
                first_error(self.fpha_segments@.take(i as int), check) is Ok,
            decreases self.fpha_segments@.len() - i,
        {
            let r = self.fpha_segments[i].validate(self.id);
            proof {
                lemma_first_error_step(self.fpha_segments@, i as int, check);
                assert(check(self.fpha_segments@[i as int]) == r);
            }
            if let Err(e) = r {
                proof {
                    lemma_first_error_prefix(self.fpha_segments@, i + 1, check);
                }
                return Err(e);
            }
            i = i + 1;
        }
        proof {
            lemma_first_error_all(self.fpha_segments@, check);
        }
        let ghost gcheck = hydro_group_checker();
        let mut j: usize = 0;
        while j < self.groups.len()
            invariant
                j <= self.groups@.len(),
                gcheck == hydro_group_checker(),
                first_error(self.groups@.take(j as int), gcheck) is Ok,
            decreases self.groups@.len() - j,
        {
            let r = self.groups[j].validate();
            proof {
                lemma_first_error_step(self.groups@, j as int, gcheck);
                assert(gcheck(self.groups@[j as int]) == r);
            }
            if let Err(e) = r {
                proof {
                    lemma_first_error_prefix(self.groups@, j + 1, gcheck);
                }
                return Err(e);
            }
            j = j + 1;
        }
        proof {
            lemma_first_error_all(self.groups@, gcheck);
        }
        Ok(())
    }
}

impl RenewablePlant {
    pub open spec fn spec_validate(&self, horizon: usize) -> Result<(), CoreError> {
        if spec_is_blank(self.name@) {
            Err(CoreError::BlankName(EntityKind::RenewablePlant, self.id.0))
        } else {
            spec_series_check(SeriesKind::RenewableAvailability, self.id.0, horizon, self.available_periods)
        }
    }

    /// The name is not blank and the available generation covers the horizon.
    pub fn validate(&self, horizon: usize) -> (r: Result<(), CoreError>)
        ensures
            r == self.spec_validate(horizon),
    {
        if is_blank(self.name.as_str()) {
            return Err(CoreError::BlankName(EntityKind::RenewablePlant, self.id.0));
        }
        if self.available_periods != horizon {
            return Err(
                CoreError::HorizonMismatch {
                    series: SeriesKind::RenewableAvailability,
                    id: self.id.0,
                    expected: horizon,
                    found: self.available_periods,
                },
            );
        }
        Ok(())
    }
}

} // verus!
