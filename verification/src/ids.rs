//! Numeric identifiers of the study entities.

use vstd::prelude::*;

verus! {

/// Identifier of a submarket.
#[derive(Debug, Clone, Copy, PartialEq, Eq, Structural, Hash, PartialOrd, Ord)]
pub struct SubmarketId(pub usize);

/// Identifier of an electrical bus.
#[derive(Debug, Clone, Copy, PartialEq, Eq, Structural, Hash, PartialOrd, Ord)]
pub struct BusId(pub usize);

/// Identifier of a transmission branch.
#[derive(Debug, Clone, Copy, PartialEq, Eq, Structural, Hash, PartialOrd, Ord)]
pub struct BranchId(pub usize);

/// Identifier of a thermal plant.
#[derive(Debug, Clone, Copy, PartialEq, Eq, Structural, Hash, PartialOrd, Ord)]
pub struct ThermalPlantId(pub usize);

/// Identifier of a thermal generating unit.
#[derive(Debug, Clone, Copy, PartialEq, Eq, Structural, Hash, PartialOrd, Ord)]
pub struct ThermalUnitId(pub usize);

/// Identifier of a hydro plant.
#[derive(Debug, Clone, Copy, PartialEq, Eq, Structural, Hash, PartialOrd, Ord)]
pub struct HydroPlantId(pub usize);

/// Identifier of a group of hydro units.
#[derive(Debug, Clone, Copy, PartialEq, Eq, Structural, Hash, PartialOrd, Ord)]
pub struct HydroGroupId(pub usize);

/// Identifier of a hydro generating unit.
#[derive(Debug, Clone, Copy, PartialEq, Eq, Structural, Hash, PartialOrd, Ord)]
pub struct HydroUnitId(pub usize);

/// Identifier of a pumping plant.
#[derive(Debug, Clone, Copy, PartialEq, Eq, Structural, Hash, PartialOrd, Ord)]
pub struct PumpingPlantId(pub usize);

/// Identifier of a renewable plant.
#[derive(Debug, Clone, Copy, PartialEq, Eq, Structural, Hash, PartialOrd, Ord)]
pub struct RenewablePlantId(pub usize);

} // verus!
