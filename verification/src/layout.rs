//! Term layout of the balance and limit constraints: which model variables a
//! constraint holds and with which sign. Variables are named by their family and
//! their position in the index layout; the physical coefficients that scale some
//! of them are supplied by the caller.

use vstd::prelude::*;
use crate::ids::HydroPlantId;
use crate::indexing::{HydroPlantIndex, HydroUnitIndex, Indexing, InterchangeIndex, PumpingPlantIndex, RenewablePlantIndex, ThermalUnitIndex};
use crate::system::{OperationalLimitTarget, OperationalLimitVariable, System};

verus! {

/// A model variable, by family and position. Unit variables are indexed by the
/// position of the unit entry, plant variables by the position of the plant
/// entry, volumes by the boundary of the period (0 is the initial volume).
#[derive(Debug, Clone, Copy, PartialEq, Eq, Structural)]
pub enum VarRef {
    ThermalGeneration { entry: usize, period: usize },
    HydroGeneration { entry: usize, period: usize },
    HydroTurbining { entry: usize, period: usize },
    HydroSpillage { plant_entry: usize, period: usize },
    HydroDiversion { plant_entry: usize, period: usize },
    HydroVolume { plant_entry: usize, boundary: usize },
    Pumping { entry: usize, period: usize },
    RenewableGeneration { entry: usize, period: usize },
    Interchange { entry: usize },
    Deficit { submarket: usize, period: usize },
}

/// A variable of a constraint with the sign (or integer coefficient) it carries.
#[derive(Debug, Clone, Copy, PartialEq, Eq, Structural)]
pub struct LayoutTerm {
    pub var: VarRef,
    pub coefficient: i64,
}

pub open spec fn lt(var: VarRef, coefficient: int) -> LayoutTerm {
    LayoutTerm { var, coefficient: coefficient as i64 }
}

// ---------------------------------------------------------------------------
// Selections over the index layout.
// ---------------------------------------------------------------------------

/// Turbining terms, with coefficient `c`, of the units among the first `n` hydro
/// unit entries that belong to plant `plant_idx`.
pub open spec fn plant_turbining_terms(units: Seq<HydroUnitIndex>, plant_idx: usize, period: usize, c: int, n: int) -> Seq<LayoutTerm>
    decreases n,
{
    if n <= 0 {
        Seq::empty()
    } else {
        plant_turbining_terms(units, plant_idx, period, c, n - 1) + if units[n - 1].plant_idx == plant_idx {
            seq![lt(VarRef::HydroTurbining { entry: (n - 1) as usize, period }, c)]
        } else {
            Seq::<LayoutTerm>::empty()
        }
    }
}

/// Position of the first hydro plant entry at or after `from` whose plant has
/// identifier `id` (the number of entries when there is none).
pub open spec fn plant_position(system: System, plants: Seq<HydroPlantIndex>, id: HydroPlantId, from: int) -> int
    decreases plants.len() - from,
{
    if from < 0 || from >= plants.len() {
        plants.len() as int
    } else if system.hydro_plants@[plants[from].plant_idx as int].id == id {
        from
    } else {
        plant_position(system, plants, id, from + 1)
    }
}

/// Outflow terms (turbining of every unit, then spillage) of the first `n`
/// upstream plants, each subtracted.
pub open spec fn upstream_terms(
    system: System,
    units: Seq<HydroUnitIndex>,
    plants: Seq<HydroPlantIndex>,
    ids: Seq<HydroPlantId>,
    period: usize,
    n: int,
) -> Seq<LayoutTerm>
    decreases n,
{
    if n <= 0 {
        Seq::empty()
    } else {
        let q = plant_position(system, plants, ids[n - 1], 0);
        upstream_terms(system, units, plants, ids, period, n - 1) + if q < plants.len() {
            plant_turbining_terms(units, plants[q].plant_idx, period, -1, units.len() as int).push(
                lt(VarRef::HydroSpillage { plant_entry: q as usize, period }, -1),
            )
        } else {
            Seq::<LayoutTerm>::empty()
        }
    }
}

/// Diversion terms of the first `n` plants that divert into the plant, each subtracted.
pub open spec fn diversion_upstream_terms(
    system: System,
    plants: Seq<HydroPlantIndex>,
    ids: Seq<HydroPlantId>,
    period: usize,
    n: int,
) -> Seq<LayoutTerm>
    decreases n,
{
    if n <= 0 {
        Seq::empty()
    } else {
        let q = plant_position(system, plants, ids[n - 1], 0);
        diversion_upstream_terms(system, plants, ids, period, n - 1) + if q < plants.len() {
            seq![lt(VarRef::HydroDiversion { plant_entry: q as usize, period }, -1)]
        } else {
            Seq::<LayoutTerm>::empty()
        }
    }
}

/// Pumping terms of the first `n` pumping entries for plant `id`: water pumped
/// into it from below is added, water pumped out of it is subtracted.
pub open spec fn pumping_balance_terms(system: System, pumps: Seq<PumpingPlantIndex>, id: HydroPlantId, period: usize, n: int) -> Seq<LayoutTerm>
    decreases n,
{
    if n <= 0 {
        Seq::empty()
    } else {
        let plant = system.pumping_plants@[pumps[n - 1].plant_idx as int];
        let v = VarRef::Pumping { entry: (n - 1) as usize, period };
        pumping_balance_terms(system, pumps, id, period, n - 1) + (if plant.downstream_hydro_id == id {
            seq![lt(v, 1)]
        } else {
            Seq::<LayoutTerm>::empty()
        }) + (if plant.upstream_hydro_id == id {
            seq![lt(v, -1)]
        } else {
            Seq::<LayoutTerm>::empty()
        })
    }
}

/// Water balance of hydro plant entry `p` in `period`: the stored volume grows
/// by the inflow minus what the plant turbines, spills and diverts, plus what
/// its upstream plants release and divert into it and the pumping into it.
/// Every term has coefficient +1 or -1; the right-hand side is the plant's
/// natural inflow minus its withdrawal.
pub open spec fn spec_hydro_balance_terms(system: System, ix: Indexing, p: int, period: usize) -> Seq<LayoutTerm> {
    let units = ix.hydro_unit_entries@;
    let plants = ix.hydro_plant_entries@;
    let plant_idx = plants[p].plant_idx;
    let plant = system.hydro_plants@[plant_idx as int];
    seq![
        lt(VarRef::HydroVolume { plant_entry: p as usize, boundary: (period + 1) as usize }, 1),
        lt(VarRef::HydroVolume { plant_entry: p as usize, boundary: period }, -1),
    ] + plant_turbining_terms(units, plant_idx, period, 1, units.len() as int) + seq![
        lt(VarRef::HydroSpillage { plant_entry: p as usize, period }, 1),
        lt(VarRef::HydroDiversion { plant_entry: p as usize, period }, 1),
    ] + upstream_terms(system, units, plants, plant.upstream_plant_ids@, period, plant.upstream_plant_ids@.len() as int)
        + diversion_upstream_terms(system, plants, plant.diversion_upstream_plant_ids@, period, plant.diversion_upstream_plant_ids@.len() as int)
        + pumping_balance_terms(system, ix.pumping_plant_entries@, plant.id, period, ix.pumping_plant_entries@.len() as int)
}

/// The plant and pumping entries of the layout point at plants of the study.
pub open spec fn entries_in_range(system: System, ix: Indexing) -> bool {
    &&& forall|q: int| 0 <= q < ix.hydro_plant_entries@.len() ==> (#[trigger] ix.hydro_plant_entries@[q]).plant_idx < system.hydro_plants@.len()
    &&& forall|q: int| 0 <= q < ix.pumping_plant_entries@.len() ==> (#[trigger] ix.pumping_plant_entries@[q]).plant_idx < system.pumping_plants@.len()
}

fn push_plant_turbining(units: &Vec<HydroUnitIndex>, plant_idx: usize, period: usize, c: i64, out: &mut Vec<LayoutTerm>)
    ensures
        final(out)@ == old(out)@ + plant_turbining_terms(units@, plant_idx, period, c as int, units@.len() as int),
{
    let ghost start = out@;
    let mut k: usize = 0;
    while k < units.len()
        invariant
            k <= units@.len(),
            out@ == start + plant_turbining_terms(units@, plant_idx, period, c as int, k as int),
        decreases units@.len() - k,
    {
        if units[k].plant_idx == plant_idx {
            out.push(LayoutTerm { var: VarRef::HydroTurbining { entry: k, period }, coefficient: c });
        }
        proof {
            assert(out@ =~= start + plant_turbining_terms(units@, plant_idx, period, c as int, k + 1));
        }
        k = k + 1;
    }
}

fn find_plant_entry(system: &System, plants: &Vec<HydroPlantIndex>, id: HydroPlantId) -> (r: usize)
    requires
        forall|q: int| 0 <= q < plants@.len() ==> (#[trigger] plants@[q]).plant_idx < system.hydro_plants@.len(),
    ensures
        r == plant_position(*system, plants@, id, 0),
        r <= plants@.len(),
{
    let mut q: usize = 0;
    while q < plants.len()
        invariant
            q <= plants@.len(),
            forall|j: int| 0 <= j < plants@.len() ==> (#[trigger] plants@[j]).plant_idx < system.hydro_plants@.len(),
            plant_position(*system, plants@, id, 0) == plant_position(*system, plants@, id, q as int),
        decreases plants@.len() - q,
    {
        if system.hydro_plants[plants[q].plant_idx].id == id {
            return q;
        }
        q = q + 1;
    }
    q
}

/// Terms of the water balance of hydro plant entry `p` in `period`.
pub fn hydro_balance_terms(system: &System, ix: &Indexing, p: usize, period: usize) -> (r: Vec<LayoutTerm>)
    requires
        entries_in_range(*system, *ix),
        p < ix.hydro_plant_entries@.len(),
        period < usize::MAX,
    ensures
        r@ == spec_hydro_balance_terms(*system, *ix, p as int, period),
{
    let units = &ix.hydro_unit_entries;
    let plants = &ix.hydro_plant_entries;
    let pumps = &ix.pumping_plant_entries;
    let plant_idx = plants[p].plant_idx;
    let plant = &system.hydro_plants[plant_idx];
    let mut r: Vec<LayoutTerm> = Vec::new();
    r.push(LayoutTerm { var: VarRef::HydroVolume { plant_entry: p, boundary: period + 1 }, coefficient: 1 });
    r.push(LayoutTerm { var: VarRef::HydroVolume { plant_entry: p, boundary: period }, coefficient: -1 });
    push_plant_turbining(units, plant_idx, period, 1, &mut r);
    r.push(LayoutTerm { var: VarRef::HydroSpillage { plant_entry: p, period }, coefficient: 1 });
    r.push(LayoutTerm { var: VarRef::HydroDiversion { plant_entry: p, period }, coefficient: 1 });
    let ghost own = r@;

    let ups = &plant.upstream_plant_ids;
    let mut j: usize = 0;
    while j < ups.len()
        invariant
            entries_in_range(*system, *ix),
            units == &ix.hydro_unit_entries,
            plants == &ix.hydro_plant_entries,
            j <= ups@.len(),
            r@ == own + upstream_terms(*system, units@, plants@, ups@, period, j as int),
        decreases ups@.len() - j,
    {
        let q = find_plant_entry(system, plants, ups[j]);
        let ghost before = r@;
        if q < plants.len() {
            push_plant_turbining(units, plants[q].plant_idx, period, -1, &mut r);
            r.push(LayoutTerm { var: VarRef::HydroSpillage { plant_entry: q, period }, coefficient: -1 });
        }
        proof {
            assert(r@ =~= own + upstream_terms(*system, units@, plants@, ups@, period, j + 1));
        }
        j = j + 1;
    }
    let ghost with_ups = r@;

    let divs = &plant.diversion_upstream_plant_ids;
    let mut j: usize = 0;
    while j < divs.len()
        invariant
            entries_in_range(*system, *ix),
            plants == &ix.hydro_plant_entries,
            j <= divs@.len(),
            r@ == with_ups + diversion_upstream_terms(*system, plants@, divs@, period, j as int),
        decreases divs@.len() - j,
    {
        let q = find_plant_entry(system, plants, divs[j]);
        if q < plants.len() {
            r.push(LayoutTerm { var: VarRef::HydroDiversion { plant_entry: q, period }, coefficient: -1 });
        }
        proof {
            assert(r@ =~= with_ups + diversion_upstream_terms(*system, plants@, divs@, period, j + 1));
        }
        j = j + 1;
    }
    let ghost with_divs = r@;

    let mut k: usize = 0;
    while k < pumps.len()
        invariant
            entries_in_range(*system, *ix),
            pumps == &ix.pumping_plant_entries,
            k <= pumps@.len(),
            r@ == with_divs + pumping_balance_terms(*system, pumps@, plant.id, period, k as int),
        decreases pumps@.len() - k,
    {
        let pumping_plant = &system.pumping_plants[pumps[k].plant_idx];
        if pumping_plant.downstream_hydro_id == plant.id {
            r.push(LayoutTerm { var: VarRef::Pumping { entry: k, period }, coefficient: 1 });
        }
        if pumping_plant.upstream_hydro_id == plant.id {
            r.push(LayoutTerm { var: VarRef::Pumping { entry: k, period }, coefficient: -1 });
        }
        proof {
            assert(r@ =~= with_divs + pumping_balance_terms(*system, pumps@, plant.id, period, k + 1));
        }
        k = k + 1;
    }
    proof {
        assert(r@ =~= spec_hydro_balance_terms(*system, *ix, p as int, period));
    }
    r
}

// ---------------------------------------------------------------------------
// Demand balance.
// ---------------------------------------------------------------------------

/// Generation terms of the thermal unit entries among the first `n` that lie in submarket `s`.
pub open spec fn submarket_thermal_terms(units: Seq<ThermalUnitIndex>, s: usize, period: usize, n: int) -> Seq<LayoutTerm>
    decreases n,
{
    if n <= 0 {
        Seq::empty()
    } else {
        submarket_thermal_terms(units, s, period, n - 1) + if units[n - 1].submarket_idx == s {
            seq![lt(VarRef::ThermalGeneration { entry: (n - 1) as usize, period }, 1)]
        } else {
            Seq::<LayoutTerm>::empty()
        }
    }
}

/// Generation terms of the hydro unit entries among the first `n` that lie in submarket `s`.
pub open spec fn submarket_hydro_terms(units: Seq<HydroUnitIndex>, s: usize, period: usize, n: int) -> Seq<LayoutTerm>
    decreases n,
{
    if n <= 0 {
        Seq::empty()
    } else {
        submarket_hydro_terms(units, s, period, n - 1) + if units[n - 1].submarket_idx == s {
            seq![lt(VarRef::HydroGeneration { entry: (n - 1) as usize, period }, 1)]
        } else {
            Seq::<LayoutTerm>::empty()
        }
    }
}

/// Generation terms of the renewable plant entries among the first `n` that lie in submarket `s`.
pub open spec fn submarket_renewable_terms(plants: Seq<RenewablePlantIndex>, s: usize, period: usize, n: int) -> Seq<LayoutTerm>
    decreases n,
{
    if n <= 0 {
        Seq::empty()
    } else {
        submarket_renewable_terms(plants, s, period, n - 1) + if plants[n - 1].submarket_idx == s {
            seq![lt(VarRef::RenewableGeneration { entry: (n - 1) as usize, period }, 1)]
        } else {
            Seq::<LayoutTerm>::empty()
        }
    }
}

/// Interchange terms of the first `n` entries of `period`: flows into submarket
/// `s` are added, flows out of it subtracted.
pub open spec fn submarket_interchange_terms(entries: Seq<InterchangeIndex>, s: usize, period: usize, n: int) -> Seq<LayoutTerm>
    decreases n,
{
    if n <= 0 {
        Seq::empty()
    } else {
        let e = entries[n - 1];
        let v = VarRef::Interchange { entry: (n - 1) as usize };
        submarket_interchange_terms(entries, s, period, n - 1) + if e.period != period {
            Seq::<LayoutTerm>::empty()
        } else {
            (if e.to_submarket_idx == s {
                seq![lt(v, 1)]
            } else {
                Seq::<LayoutTerm>::empty()
            }) + (if e.from_submarket_idx == s {
                seq![lt(v, -1)]
            } else {
                Seq::<LayoutTerm>::empty()
            })
        }
    }
}

/// Pumping terms of the pumping entries among the first `n` that lie in
/// submarket `s`. They carry the sign only: the electrical consumption per unit
/// of pumped water scales them.
pub open spec fn submarket_pumping_terms(pumps: Seq<PumpingPlantIndex>, s: usize, period: usize, n: int) -> Seq<LayoutTerm>
    decreases n,
{
    if n <= 0 {
        Seq::empty()
    } else {
        submarket_pumping_terms(pumps, s, period, n - 1) + if pumps[n - 1].submarket_idx == s {
            seq![lt(VarRef::Pumping { entry: (n - 1) as usize, period }, -1)]
        } else {
            Seq::<LayoutTerm>::empty()
        }
    }
}

/// Demand balance of submarket `s` in `period`: thermal, hydro and renewable
/// generation in the submarket, the interchange into it minus the interchange
/// out of it, the consumption of its pumping plants and its deficit meet its
/// demand.
pub open spec fn spec_demand_balance_terms(ix: Indexing, s: usize, period: usize) -> Seq<LayoutTerm> {
    submarket_thermal_terms(ix.thermal_unit_entries@, s, period, ix.thermal_unit_entries@.len() as int)
        + submarket_hydro_terms(ix.hydro_unit_entries@, s, period, ix.hydro_unit_entries@.len() as int)
        + submarket_renewable_terms(ix.renewable_plant_entries@, s, period, ix.renewable_plant_entries@.len() as int)
        + submarket_interchange_terms(ix.interchange_entries@, s, period, ix.interchange_entries@.len() as int)
        + submarket_pumping_terms(ix.pumping_plant_entries@, s, period, ix.pumping_plant_entries@.len() as int)
        + seq![lt(VarRef::Deficit { submarket: s, period }, 1)]
}

/// Terms of the demand balance of submarket `s` in `period`.
pub fn demand_balance_terms(ix: &Indexing, s: usize, period: usize) -> (r: Vec<LayoutTerm>)
    ensures
        r@ == spec_demand_balance_terms(*ix, s, period),
{
    let mut r: Vec<LayoutTerm> = Vec::new();
    let mut k: usize = 0;
    while k < ix.thermal_unit_entries.len()
        invariant
            k <= ix.thermal_unit_entries@.len(),
            r@ == submarket_thermal_terms(ix.thermal_unit_entries@, s, period, k as int),
        decreases ix.thermal_unit_entries@.len() - k,
    {
        if ix.thermal_unit_entries[k].submarket_idx == s {
            r.push(LayoutTerm { var: VarRef::ThermalGeneration { entry: k, period }, coefficient: 1 });
        }
        proof {
            assert(r@ =~= submarket_thermal_terms(ix.thermal_unit_entries@, s, period, k + 1));
        }
        k = k + 1;
    }
    let ghost a = r@;
    let mut k: usize = 0;
    while k < ix.hydro_unit_entries.len()
        invariant
            k <= ix.hydro_unit_entries@.len(),
            r@ == a + submarket_hydro_terms(ix.hydro_unit_entries@, s, period, k as int),
        decreases ix.hydro_unit_entries@.len() - k,
    {
        if ix.hydro_unit_entries[k].submarket_idx == s {
            r.push(LayoutTerm { var: VarRef::HydroGeneration { entry: k, period }, coefficient: 1 });
        }
        proof {
            assert(r@ =~= a + submarket_hydro_terms(ix.hydro_unit_entries@, s, period, k + 1));
        }
        k = k + 1;
    }
    let ghost b = r@;
    let mut k: usize = 0;
    while k < ix.renewable_plant_entries.len()
        invariant
            k <= ix.renewable_plant_entries@.len(),
            r@ == b + submarket_renewable_terms(ix.renewable_plant_entries@, s, period, k as int),
        decreases ix.renewable_plant_entries@.len() - k,
    {
        if ix.renewable_plant_entries[k].submarket_idx == s {
            r.push(LayoutTerm { var: VarRef::RenewableGeneration { entry: k, period }, coefficient: 1 });
        }
        proof {
            assert(r@ =~= b + submarket_renewable_terms(ix.renewable_plant_entries@, s, period, k + 1));
        }
        k = k + 1;
    }
    let ghost c = r@;
    let mut k: usize = 0;
    while k < ix.interchange_entries.len()
        invariant
            k <= ix.interchange_entries@.len(),
            r@ == c + submarket_interchange_terms(ix.interchange_entries@, s, period, k as int),
        decreases ix.interchange_entries@.len() - k,
    {
        let e = ix.interchange_entries[k];
        if e.period == period {
            if e.to_submarket_idx == s {
                r.push(LayoutTerm { var: VarRef::Interchange { entry: k }, coefficient: 1 });
            }
            if e.from_submarket_idx == s {
                r.push(LayoutTerm { var: VarRef::Interchange { entry: k }, coefficient: -1 });
            }
        }
        proof {
            assert(r@ =~= c + submarket_interchange_terms(ix.interchange_entries@, s, period, k + 1));
        }
        k = k + 1;
    }
    let ghost d = r@;
    let mut k: usize = 0;
    while k < ix.pumping_plant_entries.len()
        invariant
            k <= ix.pumping_plant_entries@.len(),
            r@ == d + submarket_pumping_terms(ix.pumping_plant_entries@, s, period, k as int),
        decreases ix.pumping_plant_entries@.len() - k,
    {
        if ix.pumping_plant_entries[k].submarket_idx == s {
            r.push(LayoutTerm { var: VarRef::Pumping { entry: k, period }, coefficient: -1 });
        }
        proof {
            assert(r@ =~= d + submarket_pumping_terms(ix.pumping_plant_entries@, s, period, k + 1));
        }
        k = k + 1;
    }
    r.push(LayoutTerm { var: VarRef::Deficit { submarket: s, period }, coefficient: 1 });
    proof {
        assert(r@ =~= spec_demand_balance_terms(*ix, s, period));
    }
    r
}

// ---------------------------------------------------------------------------
// Operational limits.
// ---------------------------------------------------------------------------

/// Generation terms of the thermal unit entries among the first `n` whose plant has identifier `id`.
pub open spec fn thermal_plant_generation_terms(system: System, units: Seq<ThermalUnitIndex>, id: crate::ids::ThermalPlantId, period: usize, n: int) -> Seq<LayoutTerm>
    decreases n,
{
    if n <= 0 {
        Seq::empty()
    } else {
        thermal_plant_generation_terms(system, units, id, period, n - 1)
            + if system.thermal_plants@[units[n - 1].plant_idx as int].id == id {
            seq![lt(VarRef::ThermalGeneration { entry: (n - 1) as usize, period }, 1)]
        } else {
            Seq::<LayoutTerm>::empty()
        }
    }
}

/// Pumping terms of the pumping entries among the first `n` whose plant has identifier `id`.
pub open spec fn pumping_plant_terms(system: System, pumps: Seq<PumpingPlantIndex>, id: crate::ids::PumpingPlantId, period: usize, n: int) -> Seq<LayoutTerm>
    decreases n,
{
    if n <= 0 {
        Seq::empty()
    } else {
        pumping_plant_terms(system, pumps, id, period, n - 1) + if system.pumping_plants@[pumps[n - 1].plant_idx as int].id == id {
            seq![lt(VarRef::Pumping { entry: (n - 1) as usize, period }, 1)]
        } else {
            Seq::<LayoutTerm>::empty()
        }
    }
}

/// Generation (`turbining` false) or turbining (`turbining` true) terms of the
/// hydro unit entries among the first `n` whose plant has identifier `id`.
pub open spec fn hydro_plant_unit_terms(system: System, units: Seq<HydroUnitIndex>, id: HydroPlantId, turbining: bool, period: usize, n: int) -> Seq<LayoutTerm>
    decreases n,
{
    if n <= 0 {
        Seq::empty()
    } else {
        let entry = (n - 1) as usize;
        hydro_plant_unit_terms(system, units, id, turbining, period, n - 1)
            + if system.hydro_plants@[units[n - 1].plant_idx as int].id == id {
            seq![lt(if turbining { VarRef::HydroTurbining { entry, period } } else { VarRef::HydroGeneration { entry, period } }, 1)]
        } else {
            Seq::<LayoutTerm>::empty()
        }
    }
}

/// The unit and plant entries of the layout point at units and plants of the study.
pub open spec fn unit_entries_in_range(system: System, ix: Indexing) -> bool {
    &&& entries_in_range(system, ix)
    &&& forall|k: int| 0 <= k < ix.thermal_unit_entries@.len() ==> (#[trigger] ix.thermal_unit_entries@[k]).plant_idx < system.thermal_plants@.len()
    &&& forall|k: int| 0 <= k < ix.hydro_unit_entries@.len() ==> (#[trigger] ix.hydro_unit_entries@[k]).plant_idx < system.hydro_plants@.len()
}

/// What an operational limit bounds in `period`: the generation of the units of
/// the plant, its spillage, its volume at the end of the period, the turbining
/// of its units, its defluence (turbining plus spillage), the water it diverts
/// to another plant, or the water that a
/// pumping plant pumps. A thermal plant is only bounded in its generation and a
/// pumping plant in its pumping; other combinations bound nothing.
pub open spec fn spec_limit_terms(system: System, ix: Indexing, target: OperationalLimitTarget, variable: OperationalLimitVariable, period: usize) -> Seq<LayoutTerm> {
    let plants = ix.hydro_plant_entries@;
    let thermal_units = ix.thermal_unit_entries@;
    let hydro_units = ix.hydro_unit_entries@;
    match target {
        OperationalLimitTarget::ThermalPlant(id) => if variable == OperationalLimitVariable::Generation {
            thermal_plant_generation_terms(system, thermal_units, id, period, thermal_units.len() as int)
        } else {
            Seq::empty()
        },
        OperationalLimitTarget::PumpingPlant(id) => if variable == OperationalLimitVariable::Pumping {
            pumping_plant_terms(system, ix.pumping_plant_entries@, id, period, ix.pumping_plant_entries@.len() as int)
        } else {
            Seq::empty()
        },
        OperationalLimitTarget::HydroPlant(id) => {
            let q = plant_position(system, plants, id, 0);
            let spill = if q < plants.len() {
                seq![lt(VarRef::HydroSpillage { plant_entry: q as usize, period }, 1)]
            } else {
                Seq::<LayoutTerm>::empty()
            };
            match variable {
                OperationalLimitVariable::Generation => hydro_plant_unit_terms(system, hydro_units, id, false, period, hydro_units.len() as int),
                OperationalLimitVariable::Spillage => spill,
                OperationalLimitVariable::Volume => if q < plants.len() {
                    seq![lt(VarRef::HydroVolume { plant_entry: q as usize, boundary: (period + 1) as usize }, 1)]
                } else {
                    Seq::<LayoutTerm>::empty()
                },
                OperationalLimitVariable::Turbining => hydro_plant_unit_terms(system, hydro_units, id, true, period, hydro_units.len() as int),
                OperationalLimitVariable::Defluence => hydro_plant_unit_terms(system, hydro_units, id, true, period, hydro_units.len() as int) + spill,
                OperationalLimitVariable::Diversion => if q < plants.len() {
                    seq![lt(VarRef::HydroDiversion { plant_entry: q as usize, period }, 1)]
                } else {
                    Seq::<LayoutTerm>::empty()
                },
                OperationalLimitVariable::Pumping => Seq::empty(),
            }
        },
    }
}

fn push_hydro_plant_units(system: &System, units: &Vec<HydroUnitIndex>, id: HydroPlantId, turbining: bool, period: usize, out: &mut Vec<LayoutTerm>)
    requires
        forall|k: int| 0 <= k < units@.len() ==> (#[trigger] units@[k]).plant_idx < system.hydro_plants@.len(),
    ensures
        final(out)@ == old(out)@ + hydro_plant_unit_terms(*system, units@, id, turbining, period, units@.len() as int),
{
    let ghost start = out@;
    let mut k: usize = 0;
    while k < units.len()
        invariant
            k <= units@.len(),
            forall|j: int| 0 <= j < units@.len() ==> (#[trigger] units@[j]).plant_idx < system.hydro_plants@.len(),
            out@ == start + hydro_plant_unit_terms(*system, units@, id, turbining, period, k as int),
        decreases units@.len() - k,
    {
        if system.hydro_plants[units[k].plant_idx].id == id {
            let var = if turbining {
                VarRef::HydroTurbining { entry: k, period }
            } else {
                VarRef::HydroGeneration { entry: k, period }
            };
            out.push(LayoutTerm { var, coefficient: 1 });
        }
        proof {
            assert(out@ =~= start + hydro_plant_unit_terms(*system, units@, id, turbining, period, k + 1));
        }
        k = k + 1;
    }
}

/// Terms bounded by an operational limit on `variable` of `target` in `period`.
pub fn limit_terms(
    system: &System,
    ix: &Indexing,
    target: OperationalLimitTarget,
    variable: OperationalLimitVariable,
    period: usize,
) -> (r: Vec<LayoutTerm>)
    requires
        unit_entries_in_range(*system, *ix),
        period < usize::MAX,
    ensures
        r@ == spec_limit_terms(*system, *ix, target, variable, period),
{
    let mut r: Vec<LayoutTerm> = Vec::new();
    match target {
        OperationalLimitTarget::ThermalPlant(id) => {
            if variable == OperationalLimitVariable::Generation {
                let units = &ix.thermal_unit_entries;
                let mut k: usize = 0;
                while k < units.len()
                    invariant
                        k <= units@.len(),
                        units == &ix.thermal_unit_entries,
                        unit_entries_in_range(*system, *ix),
                        r@ == thermal_plant_generation_terms(*system, units@, id, period, k as int),
                    decreases units@.len() - k,
                {
                    if system.thermal_plants[units[k].plant_idx].id == id {
                        r.push(LayoutTerm { var: VarRef::ThermalGeneration { entry: k, period }, coefficient: 1 });
                    }
                    proof {
                        assert(r@ =~= thermal_plant_generation_terms(*system, units@, id, period, k + 1));
                    }
                    k = k + 1;
                }
            }
        },
        OperationalLimitTarget::PumpingPlant(id) => {
            if variable == OperationalLimitVariable::Pumping {
                let pumps = &ix.pumping_plant_entries;
                let mut k: usize = 0;
                while k < pumps.len()
                    invariant
                        k <= pumps@.len(),
                        pumps == &ix.pumping_plant_entries,
                        unit_entries_in_range(*system, *ix),
                        r@ == pumping_plant_terms(*system, pumps@, id, period, k as int),
                    decreases pumps@.len() - k,
                {
                    if system.pumping_plants[pumps[k].plant_idx].id == id {
                        r.push(LayoutTerm { var: VarRef::Pumping { entry: k, period }, coefficient: 1 });
                    }
                    proof {
                        assert(r@ =~= pumping_plant_terms(*system, pumps@, id, period, k + 1));
                    }
                    k = k + 1;
                }
            }
        },
        OperationalLimitTarget::HydroPlant(id) => {
            let plants = &ix.hydro_plant_entries;
            let q = find_plant_entry(system, plants, id);
            match variable {
                OperationalLimitVariable::Generation => {
                    push_hydro_plant_units(system, &ix.hydro_unit_entries, id, false, period, &mut r);
                },
                OperationalLimitVariable::Turbining => {
                    push_hydro_plant_units(system, &ix.hydro_unit_entries, id, true, period, &mut r);
                },
                OperationalLimitVariable::Spillage => {
                    if q < plants.len() {
                        r.push(LayoutTerm { var: VarRef::HydroSpillage { plant_entry: q, period }, coefficient: 1 });
                    }
                },
                OperationalLimitVariable::Volume => {
                    if q < plants.len() {
                        r.push(LayoutTerm { var: VarRef::HydroVolume { plant_entry: q, boundary: period + 1 }, coefficient: 1 });
                    }
                },
                OperationalLimitVariable::Defluence => {
                    push_hydro_plant_units(system, &ix.hydro_unit_entries, id, true, period, &mut r);
                    if q < plants.len() {
                        r.push(LayoutTerm { var: VarRef::HydroSpillage { plant_entry: q, period }, coefficient: 1 });
                    }
                },
                OperationalLimitVariable::Diversion => {
                    if q < plants.len() {
                        r.push(LayoutTerm { var: VarRef::HydroDiversion { plant_entry: q, period }, coefficient: 1 });
                    }
                },
                OperationalLimitVariable::Pumping => {},
            }
            proof {
                assert(r@ =~= spec_limit_terms(*system, *ix, target, variable, period));
            }
        },
    }
    r
}

/// Without FPHA cuts, the generation of a hydro unit follows its turbining:
/// `generation - productivity * turbining = 0`. The row holds the unit's
/// generation with coefficient 1 and its turbining with coefficient -1, the
/// latter to be scaled by the plant's productivity.
pub open spec fn spec_productivity_terms(entry: usize, period: usize) -> Seq<LayoutTerm> {
    seq![lt(VarRef::HydroGeneration { entry, period }, 1), lt(VarRef::HydroTurbining { entry, period }, -1)]
}

/// Terms of the productivity row of hydro unit entry `entry` in `period`.
pub fn productivity_terms(entry: usize, period: usize) -> (r: Vec<LayoutTerm>)
    ensures
        r@ == spec_productivity_terms(entry, period),
{
    let mut r: Vec<LayoutTerm> = Vec::new();
    r.push(LayoutTerm { var: VarRef::HydroGeneration { entry, period }, coefficient: 1 });
    r.push(LayoutTerm { var: VarRef::HydroTurbining { entry, period }, coefficient: -1 });
    proof {
        assert(r@ =~= spec_productivity_terms(entry, period));
    }
    r
}

} // verus!
