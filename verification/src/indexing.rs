//! Index layout of the optimization model: the combinations of plants, units,
//! submarkets and periods over which variables and constraints are built.

use vstd::prelude::*;
use crate::ids::SubmarketId;
use crate::system::System;

verus! {

#[derive(Debug, Clone, Copy, PartialEq, Eq, Structural)]
pub struct ThermalUnitIndex {
    pub plant_idx: usize,
    pub unit_idx: usize,
    pub submarket_idx: usize,
}

#[derive(Debug, Clone, Copy, PartialEq, Eq, Structural)]
pub struct HydroUnitIndex {
    pub plant_idx: usize,
    pub group_idx: usize,
    pub unit_idx: usize,
    pub submarket_idx: usize,
}

#[derive(Debug, Clone, Copy, PartialEq, Eq, Structural)]
pub struct RenewablePlantIndex {
    pub plant_idx: usize,
    pub submarket_idx: usize,
}

#[derive(Debug, Clone, Copy, PartialEq, Eq, Structural)]
pub struct HydroPlantIndex {
    pub plant_idx: usize,
    pub submarket_idx: usize,
}

#[derive(Debug, Clone, Copy, PartialEq, Eq, Structural)]
pub struct PumpingPlantIndex {
    pub plant_idx: usize,
    pub submarket_idx: usize,
}

#[derive(Debug, Clone, Copy, PartialEq, Eq, Structural)]
pub struct InterchangeIndex {
    pub from_submarket_idx: usize,
    pub to_submarket_idx: usize,
    pub period: usize,
}

#[derive(Debug, Clone)]
pub struct Indexing {
    pub hydro_plant_entries: Vec<HydroPlantIndex>,
    pub thermal_unit_entries: Vec<ThermalUnitIndex>,
    pub hydro_unit_entries: Vec<HydroUnitIndex>,
    pub renewable_plant_entries: Vec<RenewablePlantIndex>,
    pub pumping_plant_entries: Vec<PumpingPlantIndex>,
    pub interchange_entries: Vec<InterchangeIndex>,
    pub submarket_ids: Vec<SubmarketId>,
    pub thermal_units: usize,
    pub hydro_units: usize,
    pub renewable_plants: usize,
    pub pumping_plants: usize,
    pub buses: usize,
    pub submarkets: usize,
}

/// Position of the first occurrence of `id` in `ids` at or after `from`
/// (the length when there is none).
pub open spec fn first_position(ids: Seq<SubmarketId>, id: SubmarketId, from: int) -> int
    decreases ids.len() - from,
{
    if from < 0 || from >= ids.len() {
        ids.len() as int
    } else if ids[from] == id {
        from
    } else {
        first_position(ids, id, from + 1)
    }
}

proof fn lemma_first_position_found(ids: Seq<SubmarketId>, id: SubmarketId, from: int, k: int)
    requires
        0 <= from <= k < ids.len(),
        ids[k] == id,
    ensures
        from <= first_position(ids, id, from) <= k,
        ids[first_position(ids, id, from)] == id,
    decreases k - from,
{
    if ids[from] != id {
        lemma_first_position_found(ids, id, from + 1, k);
    }
}

/// Position of a submarket in the list of submarket identifiers.
pub fn submarket_position(submarket_ids: &Vec<SubmarketId>, submarket_id: SubmarketId) -> (r: usize)
    requires
        submarket_ids@.contains(submarket_id),
    ensures
        r == first_position(submarket_ids@, submarket_id, 0),
        r < submarket_ids@.len(),
        submarket_ids@[r as int] == submarket_id,
{
    let ghost k = choose|k: int| 0 <= k < submarket_ids@.len() && submarket_ids@[k] == submarket_id;
    proof {
        lemma_first_position_found(submarket_ids@, submarket_id, 0, k);
    }
    let mut i: usize = 0;
    while i < submarket_ids.len()
        invariant
            i <= submarket_ids@.len(),
            0 <= k < submarket_ids@.len(),
            submarket_ids@[k] == submarket_id,
            i <= k,
            first_position(submarket_ids@, submarket_id, 0) == first_position(submarket_ids@, submarket_id, i as int),
        decreases submarket_ids@.len() - i,
    {
        if submarket_ids[i] == submarket_id {
            return i;
        }
        i = i + 1;
    }
    i
}

/// Identifiers of the submarkets, in order.
pub open spec fn spec_submarket_ids(system: System) -> Seq<SubmarketId> {
    Seq::new(system.submarkets@.len(), |i: int| system.submarkets@[i].id)
}

/// Every plant of the study lies in a known submarket.
pub open spec fn plants_in_known_submarkets(system: System) -> bool {
    let ids = spec_submarket_ids(system);
    &&& forall|i: int| 0 <= i < system.thermal_plants@.len() ==> ids.contains(#[trigger] system.thermal_plants@[i].submarket_id)
    &&& forall|i: int| 0 <= i < system.hydro_plants@.len() ==> ids.contains(#[trigger] system.hydro_plants@[i].submarket_id)
    &&& forall|i: int| 0 <= i < system.renewable_plants@.len() ==> ids.contains(#[trigger] system.renewable_plants@[i].submarket_id)
    &&& forall|i: int| 0 <= i < system.pumping_plants@.len() ==> ids.contains(#[trigger] system.pumping_plants@[i].submarket_id)
}

/// Entries of the thermal units of the first `n` thermal plants, plant by plant
/// and unit by unit.
pub open spec fn thermal_unit_entries(system: System, n: int) -> Seq<ThermalUnitIndex>
    decreases n,
{
    if n <= 0 {
        Seq::empty()
    } else {
        let p = n - 1;
        let plant = system.thermal_plants@[p];
        let s = first_position(spec_submarket_ids(system), plant.submarket_id, 0);
        thermal_unit_entries(system, n - 1) + Seq::new(
            plant.units@.len(),
            |u: int| ThermalUnitIndex { plant_idx: p as usize, unit_idx: u as usize, submarket_idx: s as usize },
        )
    }
}

/// Entries of the units of the first `g` groups of hydro plant `p`.
pub open spec fn hydro_plant_unit_entries(system: System, p: int, g: int) -> Seq<HydroUnitIndex>
    decreases g,
{
    if g <= 0 {
        Seq::empty()
    } else {
        let plant = system.hydro_plants@[p];
        let group = plant.groups@[g - 1];
        let s = first_position(spec_submarket_ids(system), plant.submarket_id, 0);
        hydro_plant_unit_entries(system, p, g - 1) + Seq::new(
            group.units@.len(),
            |u: int| HydroUnitIndex { plant_idx: p as usize, group_idx: (g - 1) as usize, unit_idx: u as usize, submarket_idx: s as usize },
        )
    }
}

/// Entries of the hydro units of the first `n` hydro plants, plant by plant,
/// group by group and unit by unit.
pub open spec fn hydro_unit_entries(system: System, n: int) -> Seq<HydroUnitIndex>
    decreases n,
{
    if n <= 0 {
        Seq::empty()
    } else {
        hydro_unit_entries(system, n - 1) + hydro_plant_unit_entries(system, n - 1, system.hydro_plants@[n - 1].groups@.len() as int)
    }
}

/// Ordered pairs of distinct submarkets leaving submarket `from` in period `t`,
/// destinations in increasing order.
pub open spec fn interchange_block(from: int, submarkets: int, t: int) -> Seq<InterchangeIndex> {
    Seq::new(
        (submarkets - 1) as nat,
        |k: int| InterchangeIndex {
            from_submarket_idx: from as usize,
            to_submarket_idx: (if k < from { k } else { k + 1 }) as usize,
            period: t as usize,
        },
    )
}

/// Interchange entries of period `t` for the first `f` origin submarkets.
pub open spec fn interchange_period_entries(f: int, submarkets: int, t: int) -> Seq<InterchangeIndex>
    decreases f,
{
    if f <= 0 {
        Seq::empty()
    } else {
        interchange_period_entries(f - 1, submarkets, t) + interchange_block(f - 1, submarkets, t)
    }
}

/// Interchange entries of the first `n` periods: period by period, origin by
/// origin, destination by destination, skipping a submarket paired with itself.
pub open spec fn interchange_entries(n: int, submarkets: int) -> Seq<InterchangeIndex>
    decreases n,
{
    if n <= 0 {
        Seq::empty()
    } else {
        interchange_entries(n - 1, submarkets) + interchange_period_entries(submarkets, submarkets, n - 1)
    }
}

impl Indexing {
    /// The index layout that the study determines.
    pub open spec fn spec_from_system(self, system: System) -> bool {
        let ids = spec_submarket_ids(system);
        &&& self.submarket_ids@ == ids
        &&& self.thermal_unit_entries@ == thermal_unit_entries(system, system.thermal_plants@.len() as int)
        &&& self.hydro_unit_entries@ == hydro_unit_entries(system, system.hydro_plants@.len() as int)
        &&& self.hydro_plant_entries@ == Seq::new(
            system.hydro_plants@.len(),
            |i: int| HydroPlantIndex { plant_idx: i as usize, submarket_idx: first_position(ids, system.hydro_plants@[i].submarket_id, 0) as usize },
        )
        &&& self.renewable_plant_entries@ == Seq::new(
            system.renewable_plants@.len(),
            |i: int| RenewablePlantIndex { plant_idx: i as usize, submarket_idx: first_position(ids, system.renewable_plants@[i].submarket_id, 0) as usize },
        )
        &&& self.pumping_plant_entries@ == Seq::new(
            system.pumping_plants@.len(),
            |i: int| PumpingPlantIndex { plant_idx: i as usize, submarket_idx: first_position(ids, system.pumping_plants@[i].submarket_id, 0) as usize },
        )
        &&& self.interchange_entries@ == interchange_entries(system.horizon.periods as int, system.submarkets@.len() as int)
        &&& self.thermal_units == self.thermal_unit_entries@.len()
        &&& self.hydro_units == self.hydro_unit_entries@.len()
        &&& self.renewable_plants == system.renewable_plants@.len()
        &&& self.pumping_plants == system.pumping_plants@.len()
        &&& self.buses == system.buses@.len()
        &&& self.submarkets == system.submarkets@.len()
    }
}


// ---------------------------------------------------------------------------
// Order and completeness of the interchange entries.
// ---------------------------------------------------------------------------

/// Interchange entries are ordered by period, then origin, then destination.
pub open spec fn interchange_lt(a: InterchangeIndex, b: InterchangeIndex) -> bool {
    a.period < b.period || (a.period == b.period && (a.from_submarket_idx < b.from_submarket_idx
        || (a.from_submarket_idx == b.from_submarket_idx && a.to_submarket_idx < b.to_submarket_idx)))
}

pub open spec fn interchange_sorted(s: Seq<InterchangeIndex>) -> bool {
    forall|i: int, j: int| 0 <= i < j < s.len() ==> interchange_lt(#[trigger] s[i], #[trigger] s[j])
}

/// An entry joins two different submarkets among the first `m` in one of the
/// first `n` periods.
pub open spec fn interchange_valid(e: InterchangeIndex, n: int, m: int) -> bool {
    &&& e.period < n
    &&& e.from_submarket_idx < m
    &&& e.to_submarket_idx < m
    &&& e.from_submarket_idx != e.to_submarket_idx
}

proof fn lemma_interchange_concat(a: Seq<InterchangeIndex>, b: Seq<InterchangeIndex>)
    requires
        interchange_sorted(a),
        interchange_sorted(b),
        forall|i: int, j: int| 0 <= i < a.len() && 0 <= j < b.len() ==> interchange_lt(#[trigger] a[i], #[trigger] b[j]),
    ensures
        interchange_sorted(a + b),
{
    assert forall|i: int, j: int| 0 <= i < j < (a + b).len() implies interchange_lt(#[trigger] (a + b)[i], #[trigger] (a + b)[j]) by {
        if j < a.len() {
            assert((a + b)[i] == a[i] && (a + b)[j] == a[j]);
        } else if i >= a.len() {
            assert((a + b)[i] == b[i - a.len()] && (a + b)[j] == b[j - a.len()]);
        } else {
            assert((a + b)[i] == a[i] && (a + b)[j] == b[j - a.len()]);
        }
    }
}

proof fn lemma_interchange_block(from: int, m: int, t: int)
    requires
        0 <= from < m <= usize::MAX,
        0 <= t <= usize::MAX,
    ensures
        interchange_sorted(interchange_block(from, m, t)),
        forall|k: int| 0 <= k < interchange_block(from, m, t).len() ==> {
            &&& (#[trigger] interchange_block(from, m, t)[k]).period == t
            &&& interchange_block(from, m, t)[k].from_submarket_idx == from
            &&& interchange_block(from, m, t)[k].to_submarket_idx < m
            &&& interchange_block(from, m, t)[k].to_submarket_idx != from
        },
        forall|to: int| 0 <= to < m && to != from ==> #[trigger] interchange_block(from, m, t).contains(
            InterchangeIndex { from_submarket_idx: from as usize, to_submarket_idx: to as usize, period: t as usize }),
{
    let b = interchange_block(from, m, t);
    assert forall|to: int| 0 <= to < m && to != from implies #[trigger] b.contains(
        InterchangeIndex { from_submarket_idx: from as usize, to_submarket_idx: to as usize, period: t as usize }) by {
        let k = if to < from { to } else { to - 1 };
        assert(b[k].to_submarket_idx == to);
    }
}

proof fn lemma_interchange_period(f: int, m: int, t: int)
    requires
        0 <= f <= m <= usize::MAX,
        0 <= t <= usize::MAX,
    ensures
        interchange_sorted(interchange_period_entries(f, m, t)),
        forall|q: int| 0 <= q < interchange_period_entries(f, m, t).len() ==> {
            &&& (#[trigger] interchange_period_entries(f, m, t)[q]).period == t
            &&& interchange_period_entries(f, m, t)[q].from_submarket_idx < f
            &&& interchange_period_entries(f, m, t)[q].to_submarket_idx < m
            &&& interchange_period_entries(f, m, t)[q].from_submarket_idx != interchange_period_entries(f, m, t)[q].to_submarket_idx
        },
        forall|from: int, to: int| 0 <= from < f && 0 <= to < m && from != to ==> #[trigger] interchange_period_entries(f, m, t).contains(
            InterchangeIndex { from_submarket_idx: from as usize, to_submarket_idx: to as usize, period: t as usize }),
    decreases f,
{
    if f > 0 {
        let a = interchange_period_entries(f - 1, m, t);
        let b = interchange_block(f - 1, m, t);
        lemma_interchange_period(f - 1, m, t);
        lemma_interchange_block(f - 1, m, t);
        lemma_interchange_concat(a, b);
        assert forall|q: int| 0 <= q < (a + b).len() implies {
            &&& (#[trigger] (a + b)[q]).period == t
            &&& (a + b)[q].from_submarket_idx < f
            &&& (a + b)[q].to_submarket_idx < m
            &&& (a + b)[q].from_submarket_idx != (a + b)[q].to_submarket_idx
        } by {
            if q < a.len() {
                assert((a + b)[q] == a[q]);
            } else {
                assert((a + b)[q] == b[q - a.len()]);
            }
        }
        assert forall|from: int, to: int| 0 <= from < f && 0 <= to < m && from != to implies #[trigger] (a + b).contains(
            InterchangeIndex { from_submarket_idx: from as usize, to_submarket_idx: to as usize, period: t as usize }) by {
            let e = InterchangeIndex { from_submarket_idx: from as usize, to_submarket_idx: to as usize, period: t as usize };
            if from < f - 1 {
                assert(a.contains(e));
                let i = choose|i: int| 0 <= i < a.len() && a[i] == e;
                assert((a + b)[i] == e);
            } else {
                assert(b.contains(e));
                let j = choose|j: int| 0 <= j < b.len() && b[j] == e;
                assert((a + b)[a.len() + j] == e);
            }
        }
    }
}

/// The interchange entries of the first `n` periods over `m` submarkets are in
/// increasing order of period, origin and destination, each joins two different
/// submarkets among the `m` in one of the `n` periods, and every such pair of
/// every such period is there.
pub proof fn lemma_interchange_entries_ordered_complete(n: int, m: int)
    requires
        0 <= n <= usize::MAX,
        0 <= m <= usize::MAX,
    ensures
        interchange_sorted(interchange_entries(n, m)),
        forall|q: int| 0 <= q < interchange_entries(n, m).len()
            ==> interchange_valid(#[trigger] interchange_entries(n, m)[q], n, m),
        forall|t: int, from: int, to: int| 0 <= t < n && 0 <= from < m && 0 <= to < m && from != to
            ==> #[trigger] interchange_entries(n, m).contains(
                InterchangeIndex { from_submarket_idx: from as usize, to_submarket_idx: to as usize, period: t as usize }),
    decreases n,
{
    if n > 0 {
        let a = interchange_entries(n - 1, m);
        let b = interchange_period_entries(m, m, n - 1);
        lemma_interchange_entries_ordered_complete(n - 1, m);
        lemma_interchange_period(m, m, n - 1);
        assert forall|i: int, j: int| 0 <= i < a.len() && 0 <= j < b.len() implies interchange_lt(#[trigger] a[i], #[trigger] b[j]) by {
            assert(interchange_valid(a[i], n - 1, m));
        }
        lemma_interchange_concat(a, b);
        assert forall|q: int| 0 <= q < (a + b).len() implies interchange_valid(#[trigger] (a + b)[q], n, m) by {
            if q < a.len() {
                assert((a + b)[q] == a[q]);
                assert(interchange_valid(a[q], n - 1, m));
            } else {
                assert((a + b)[q] == b[q - a.len()]);
            }
        }
        assert forall|t: int, from: int, to: int| 0 <= t < n && 0 <= from < m && 0 <= to < m && from != to
            implies #[trigger] (a + b).contains(
                InterchangeIndex { from_submarket_idx: from as usize, to_submarket_idx: to as usize, period: t as usize }) by {
            let e = InterchangeIndex { from_submarket_idx: from as usize, to_submarket_idx: to as usize, period: t as usize };
            if t < n - 1 {
                assert(a.contains(e));
                let i = choose|i: int| 0 <= i < a.len() && a[i] == e;
                assert((a + b)[i] == e);
            } else {
                assert(b.contains(e));
                let j = choose|j: int| 0 <= j < b.len() && b[j] == e;
                assert((a + b)[a.len() + j] == e);
            }
        }
    }
}

// ---------------------------------------------------------------------------
// Order and completeness of the unit entries.
// ---------------------------------------------------------------------------

/// Thermal unit entries are ordered by plant, then unit.
pub open spec fn thermal_entry_lt(a: ThermalUnitIndex, b: ThermalUnitIndex) -> bool {
    a.plant_idx < b.plant_idx || (a.plant_idx == b.plant_idx && a.unit_idx < b.unit_idx)
}

pub open spec fn thermal_entries_sorted(s: Seq<ThermalUnitIndex>) -> bool {
    forall|i: int, j: int| 0 <= i < j < s.len() ==> thermal_entry_lt(#[trigger] s[i], #[trigger] s[j])
}

/// The entry of unit `u` of thermal plant `p`, in the submarket of the plant.
pub open spec fn thermal_entry(system: System, p: int, u: int) -> ThermalUnitIndex {
    ThermalUnitIndex {
        plant_idx: p as usize,
        unit_idx: u as usize,
        submarket_idx: first_position(spec_submarket_ids(system), system.thermal_plants@[p].submarket_id, 0) as usize,
    }
}

/// The layout's plant and unit counts fit in a `usize`.
pub open spec fn unit_counts_fit(system: System) -> bool {
    &&& system.thermal_plants@.len() <= usize::MAX
    &&& system.hydro_plants@.len() <= usize::MAX
    &&& forall|p: int| 0 <= p < system.thermal_plants@.len() ==> (#[trigger] system.thermal_plants@[p]).units@.len() <= usize::MAX
    &&& forall|p: int| 0 <= p < system.hydro_plants@.len() ==> (#[trigger] system.hydro_plants@[p]).groups@.len() <= usize::MAX
    &&& forall|p: int, g: int| 0 <= p < system.hydro_plants@.len() && 0 <= g < system.hydro_plants@[p].groups@.len()
        ==> (#[trigger] system.hydro_plants@[p].groups@[g]).units@.len() <= usize::MAX
}

/// The plant and unit lists of a study are vectors, so their lengths fit in a `usize`.
pub proof fn lemma_unit_counts_fit(system: System)
    ensures
        unit_counts_fit(system),
        system.submarkets@.len() <= usize::MAX,
{
    broadcast use vstd::std_specs::vec::axiom_spec_len;
    assert(system.submarkets.len() == system.submarkets@.len());
    assert(system.thermal_plants.len() == system.thermal_plants@.len());
    assert(system.hydro_plants.len() == system.hydro_plants@.len());
    assert forall|p: int| 0 <= p < system.thermal_plants@.len()
        implies (#[trigger] system.thermal_plants@[p]).units@.len() <= usize::MAX by {
        assert(system.thermal_plants@[p].units.len() == system.thermal_plants@[p].units@.len());
    }
    assert forall|p: int| 0 <= p < system.hydro_plants@.len()
        implies (#[trigger] system.hydro_plants@[p]).groups@.len() <= usize::MAX by {
        assert(system.hydro_plants@[p].groups.len() == system.hydro_plants@[p].groups@.len());
    }
    assert forall|p: int, g: int| 0 <= p < system.hydro_plants@.len() && 0 <= g < system.hydro_plants@[p].groups@.len()
        implies (#[trigger] system.hydro_plants@[p].groups@[g]).units@.len() <= usize::MAX by {
        assert(system.hydro_plants@[p].groups@[g].units.len() == system.hydro_plants@[p].groups@[g].units@.len());
    }
}

/// The thermal unit entries of the first `n` plants are in increasing order of
/// plant and unit, and they are exactly the entries of the units of those
/// plants, each in the submarket of its plant.
pub proof fn lemma_thermal_entries_ordered_complete(system: System, n: int)
    requires
        0 <= n <= system.thermal_plants@.len(),
    ensures
        thermal_entries_sorted(thermal_unit_entries(system, n)),
        forall|q: int| 0 <= q < thermal_unit_entries(system, n).len() ==> {
            let e = #[trigger] thermal_unit_entries(system, n)[q];
            &&& e.plant_idx < n
            &&& e.unit_idx < system.thermal_plants@[e.plant_idx as int].units@.len()
            &&& e == thermal_entry(system, e.plant_idx as int, e.unit_idx as int)
        },
        forall|p: int, u: int| 0 <= p < n && 0 <= u < system.thermal_plants@[p].units@.len()
            ==> #[trigger] thermal_unit_entries(system, n).contains(thermal_entry(system, p, u)),
    decreases n,
{
    lemma_unit_counts_fit(system);
    if n > 0 {
        let a = thermal_unit_entries(system, n - 1);
        lemma_thermal_entries_ordered_complete(system, n - 1);
        let all = thermal_unit_entries(system, n);
        assert forall|i: int, j: int| 0 <= i < j < all.len() implies thermal_entry_lt(#[trigger] all[i], #[trigger] all[j]) by {
            if j < a.len() {
                assert(all[i] == a[i] && all[j] == a[j]);
            } else if i < a.len() {
                assert(all[i] == a[i]);
            }
        }
        assert forall|q: int| 0 <= q < all.len() implies {
            let e = #[trigger] all[q];
            &&& e.plant_idx < n
            &&& e.unit_idx < system.thermal_plants@[e.plant_idx as int].units@.len()
            &&& e == thermal_entry(system, e.plant_idx as int, e.unit_idx as int)
        } by {
            if q < a.len() {
                assert(all[q] == a[q]);
            }
        }
        assert forall|p: int, u: int| 0 <= p < n && 0 <= u < system.thermal_plants@[p].units@.len()
            implies #[trigger] all.contains(thermal_entry(system, p, u)) by {
            if p < n - 1 {
                assert(a.contains(thermal_entry(system, p, u)));
                let i = choose|i: int| 0 <= i < a.len() && a[i] == thermal_entry(system, p, u);
                assert(all[i] == a[i]);
            } else {
                assert(all[a.len() + u] == thermal_entry(system, p, u));
            }
        }
    }
}

/// Hydro unit entries are ordered by plant, then group, then unit.
pub open spec fn hydro_entry_lt(a: HydroUnitIndex, b: HydroUnitIndex) -> bool {
    a.plant_idx < b.plant_idx || (a.plant_idx == b.plant_idx && (a.group_idx < b.group_idx
        || (a.group_idx == b.group_idx && a.unit_idx < b.unit_idx)))
}

pub open spec fn hydro_entries_sorted(s: Seq<HydroUnitIndex>) -> bool {
    forall|i: int, j: int| 0 <= i < j < s.len() ==> hydro_entry_lt(#[trigger] s[i], #[trigger] s[j])
}

/// The entry of unit `u` of group `g` of hydro plant `p`, in the submarket of the plant.
pub open spec fn hydro_entry(system: System, p: int, g: int, u: int) -> HydroUnitIndex {
    HydroUnitIndex {
        plant_idx: p as usize,
        group_idx: g as usize,
        unit_idx: u as usize,
        submarket_idx: first_position(spec_submarket_ids(system), system.hydro_plants@[p].submarket_id, 0) as usize,
    }
}

proof fn lemma_hydro_plant_entries_ordered_complete(system: System, p: int, g: int)
    requires
        0 <= p < system.hydro_plants@.len(),
        0 <= g <= system.hydro_plants@[p].groups@.len(),
    ensures
        hydro_entries_sorted(hydro_plant_unit_entries(system, p, g)),
        forall|q: int| 0 <= q < hydro_plant_unit_entries(system, p, g).len() ==> {
            let e = #[trigger] hydro_plant_unit_entries(system, p, g)[q];
            &&& e.plant_idx == p
            &&& e.group_idx < g
            &&& e.unit_idx < system.hydro_plants@[p].groups@[e.group_idx as int].units@.len()
            &&& e == hydro_entry(system, p, e.group_idx as int, e.unit_idx as int)
        },
        forall|h: int, u: int| 0 <= h < g && 0 <= u < system.hydro_plants@[p].groups@[h].units@.len()
            ==> #[trigger] hydro_plant_unit_entries(system, p, g).contains(hydro_entry(system, p, h, u)),
    decreases g,
{
    lemma_unit_counts_fit(system);
    if g > 0 {
        let a = hydro_plant_unit_entries(system, p, g - 1);
        let all = hydro_plant_unit_entries(system, p, g);
        lemma_hydro_plant_entries_ordered_complete(system, p, g - 1);
        assert(system.hydro_plants@[p].groups@[g - 1].units@.len() <= usize::MAX);
        assert forall|i: int, j: int| 0 <= i < j < all.len() implies hydro_entry_lt(#[trigger] all[i], #[trigger] all[j]) by {
            if j < a.len() {
                assert(all[i] == a[i] && all[j] == a[j]);
            } else if i < a.len() {
                assert(all[i] == a[i]);
            }
        }
        assert forall|q: int| 0 <= q < all.len() implies {
            let e = #[trigger] all[q];
            &&& e.plant_idx == p
            &&& e.group_idx < g
            &&& e.unit_idx < system.hydro_plants@[p].groups@[e.group_idx as int].units@.len()
            &&& e == hydro_entry(system, p, e.group_idx as int, e.unit_idx as int)
        } by {
            if q < a.len() {
                assert(all[q] == a[q]);
            }
        }
        assert forall|h: int, u: int| 0 <= h < g && 0 <= u < system.hydro_plants@[p].groups@[h].units@.len()
            implies #[trigger] all.contains(hydro_entry(system, p, h, u)) by {
            if h < g - 1 {
                assert(a.contains(hydro_entry(system, p, h, u)));
                let i = choose|i: int| 0 <= i < a.len() && a[i] == hydro_entry(system, p, h, u);
                assert(all[i] == a[i]);
            } else {
                assert(all[a.len() + u] == hydro_entry(system, p, h, u));
            }
        }
    }
}

/// The hydro unit entries of the first `n` plants are in increasing order of
/// plant, group and unit, and they are exactly the entries of the units of
/// those plants, each in the submarket of its plant.
pub proof fn lemma_hydro_entries_ordered_complete(system: System, n: int)
    requires
        0 <= n <= system.hydro_plants@.len(),
    ensures
        hydro_entries_sorted(hydro_unit_entries(system, n)),
        forall|q: int| 0 <= q < hydro_unit_entries(system, n).len() ==> {
            let e = #[trigger] hydro_unit_entries(system, n)[q];
            &&& e.plant_idx < n
            &&& e.group_idx < system.hydro_plants@[e.plant_idx as int].groups@.len()
            &&& e.unit_idx < system.hydro_plants@[e.plant_idx as int].groups@[e.group_idx as int].units@.len()
            &&& e == hydro_entry(system, e.plant_idx as int, e.group_idx as int, e.unit_idx as int)
        },
        forall|p: int, g: int, u: int| 0 <= p < n && 0 <= g < system.hydro_plants@[p].groups@.len()
            && 0 <= u < system.hydro_plants@[p].groups@[g].units@.len()
            ==> #[trigger] hydro_unit_entries(system, n).contains(hydro_entry(system, p, g, u)),
    decreases n,
{
    lemma_unit_counts_fit(system);
    if n > 0 {
        let a = hydro_unit_entries(system, n - 1);
        let gs = system.hydro_plants@[n - 1].groups@.len() as int;
        let b = hydro_plant_unit_entries(system, n - 1, gs);
        let all = hydro_unit_entries(system, n);
        lemma_hydro_entries_ordered_complete(system, n - 1);
        lemma_hydro_plant_entries_ordered_complete(system, n - 1, gs);
        assert(all == a + b);
        assert forall|i: int, j: int| 0 <= i < j < all.len() implies hydro_entry_lt(#[trigger] all[i], #[trigger] all[j]) by {
            if j < a.len() {
                assert(all[i] == a[i] && all[j] == a[j]);
            } else if i >= a.len() {
                assert(all[i] == b[i - a.len()] && all[j] == b[j - a.len()]);
            } else {
                assert(all[i] == a[i] && all[j] == b[j - a.len()]);
            }
        }
        assert forall|q: int| 0 <= q < all.len() implies {
            let e = #[trigger] all[q];
            &&& e.plant_idx < n
            &&& e.group_idx < system.hydro_plants@[e.plant_idx as int].groups@.len()
            &&& e.unit_idx < system.hydro_plants@[e.plant_idx as int].groups@[e.group_idx as int].units@.len()
            &&& e == hydro_entry(system, e.plant_idx as int, e.group_idx as int, e.unit_idx as int)
        } by {
            if q < a.len() {
                assert(all[q] == a[q]);
            } else {
                assert(all[q] == b[q - a.len()]);
            }
        }
        assert forall|p: int, g: int, u: int| 0 <= p < n && 0 <= g < system.hydro_plants@[p].groups@.len()
            && 0 <= u < system.hydro_plants@[p].groups@[g].units@.len()
            implies #[trigger] all.contains(hydro_entry(system, p, g, u)) by {
            let e = hydro_entry(system, p, g, u);
            if p < n - 1 {
                assert(a.contains(e));
                let i = choose|i: int| 0 <= i < a.len() && a[i] == e;
                assert(all[i] == e);
            } else {
                assert(b.contains(e));
                let j = choose|j: int| 0 <= j < b.len() && b[j] == e;
                assert(all[a.len() + j] == e);
            }
        }
    }
}

fn collect_submarket_ids(system: &System) -> (r: Vec<SubmarketId>)
    ensures
        r@ == spec_submarket_ids(*system),
{
    let mut r: Vec<SubmarketId> = Vec::new();
    let mut i: usize = 0;
    while i < system.submarkets.len()
        invariant
            i <= system.submarkets@.len(),
            r@ =~= Seq::new(i as nat, |k: int| system.submarkets@[k].id),
        decreases system.submarkets@.len() - i,
    {
        r.push(system.submarkets[i].id);
        i = i + 1;
    }
    r
}

fn build_thermal_unit_entries(system: &System, ids: &Vec<SubmarketId>) -> (r: Vec<ThermalUnitIndex>)
    requires
        ids@ == spec_submarket_ids(*system),
        plants_in_known_submarkets(*system),
    ensures
        r@ == thermal_unit_entries(*system, system.thermal_plants@.len() as int),
{
    let mut r: Vec<ThermalUnitIndex> = Vec::new();
    let mut p: usize = 0;
    while p < system.thermal_plants.len()
        invariant
            p <= system.thermal_plants@.len(),
            ids@ == spec_submarket_ids(*system),
            plants_in_known_submarkets(*system),
            r@ == thermal_unit_entries(*system, p as int),
        decreases system.thermal_plants@.len() - p,
    {
        let plant = &system.thermal_plants[p];
        let s = submarket_position(ids, plant.submarket_id);
        let ghost prefix = r@;
        let mut u: usize = 0;
        while u < plant.units.len()
            invariant
                u <= plant.units@.len(),
                r@ =~= prefix + Seq::new(
                    u as nat,
                    |k: int| ThermalUnitIndex { plant_idx: p, unit_idx: k as usize, submarket_idx: s },
                ),
            decreases plant.units@.len() - u,
        {
            r.push(ThermalUnitIndex { plant_idx: p, unit_idx: u, submarket_idx: s });
            u = u + 1;
        }
        assert(r@ =~= thermal_unit_entries(*system, p + 1));
        p = p + 1;
    }
    r
}

fn build_hydro_unit_entries(system: &System, ids: &Vec<SubmarketId>) -> (r: Vec<HydroUnitIndex>)
    requires
        ids@ == spec_submarket_ids(*system),
        plants_in_known_submarkets(*system),
    ensures
        r@ == hydro_unit_entries(*system, system.hydro_plants@.len() as int),
{
    let mut r: Vec<HydroUnitIndex> = Vec::new();
    let mut p: usize = 0;
    while p < system.hydro_plants.len()
        invariant
            p <= system.hydro_plants@.len(),
            ids@ == spec_submarket_ids(*system),
            plants_in_known_submarkets(*system),
            r@ == hydro_unit_entries(*system, p as int),
        decreases system.hydro_plants@.len() - p,
    {
        let plant = &system.hydro_plants[p];
        let s = submarket_position(ids, plant.submarket_id);
        let ghost before = r@;
        let mut g: usize = 0;
        while g < plant.groups.len()
            invariant
                p < system.hydro_plants@.len(),
                *plant == system.hydro_plants@[p as int],
                s == first_position(spec_submarket_ids(*system), plant.submarket_id, 0),
                g <= plant.groups@.len(),
                r@ == before + hydro_plant_unit_entries(*system, p as int, g as int),
            decreases plant.groups@.len() - g,
        {
            let group = &plant.groups[g];
            let ghost prefix = r@;
            let mut u: usize = 0;
            while u < group.units.len()
                invariant
                    u <= group.units@.len(),
                    r@ =~= prefix + Seq::new(
                        u as nat,
                        |k: int| HydroUnitIndex { plant_idx: p, group_idx: g, unit_idx: k as usize, submarket_idx: s },
                    ),
                decreases group.units@.len() - u,
            {
                r.push(HydroUnitIndex { plant_idx: p, group_idx: g, unit_idx: u, submarket_idx: s });
                u = u + 1;
            }
            assert(r@ =~= before + hydro_plant_unit_entries(*system, p as int, g + 1));
            g = g + 1;
        }
        assert(r@ =~= hydro_unit_entries(*system, p + 1));
        p = p + 1;
    }
    r
}

fn build_interchange_entries(periods: usize, submarkets: usize) -> (r: Vec<InterchangeIndex>)
    ensures
        r@ == interchange_entries(periods as int, submarkets as int),
{
    let mut r: Vec<InterchangeIndex> = Vec::new();
    let mut t: usize = 0;
    while t < periods
        invariant
            t <= periods,
            r@ == interchange_entries(t as int, submarkets as int),
        decreases periods - t,
    {
        let ghost before = r@;
        let mut f: usize = 0;
        while f < submarkets
            invariant
                t < periods,
                f <= submarkets,
                r@ == before + interchange_period_entries(f as int, submarkets as int, t as int),
            decreases submarkets - f,
        {
            let ghost prefix = r@;
            let mut to: usize = 0;
            while to < submarkets
                invariant
                    f < submarkets,
                    to <= submarkets,
                    r@ =~= prefix + interchange_block(f as int, submarkets as int, t as int).take(
                        if to <= f { to as int } else { to - 1 },
                    ),
                decreases submarkets - to,
            {
                if to != f {
                    r.push(InterchangeIndex { from_submarket_idx: f, to_submarket_idx: to, period: t });
                }
                to = to + 1;
            }
            assert(interchange_block(f as int, submarkets as int, t as int).take(submarkets - 1) =~= interchange_block(
                f as int,
                submarkets as int,
                t as int,
            ));
            assert(r@ =~= before + interchange_period_entries(f + 1, submarkets as int, t as int));
            f = f + 1;
        }
        assert(r@ =~= interchange_entries(t + 1, submarkets as int));
        t = t + 1;
    }
    r
}

impl Indexing {
    /// Builds the index layout of a study whose plants all lie in known submarkets.
    pub fn from_system(system: &System) -> (r: Indexing)
        requires
            plants_in_known_submarkets(*system),
        ensures
            r.spec_from_system(*system),
    {
        let submarket_ids = collect_submarket_ids(system);
        let thermal_unit_entries = build_thermal_unit_entries(system, &submarket_ids);
        let hydro_unit_entries = build_hydro_unit_entries(system, &submarket_ids);

        let mut hydro_plant_entries: Vec<HydroPlantIndex> = Vec::new();
        let mut i: usize = 0;
        while i < system.hydro_plants.len()
            invariant
                i <= system.hydro_plants@.len(),
                submarket_ids@ == spec_submarket_ids(*system),
                plants_in_known_submarkets(*system),
                hydro_plant_entries@ =~= Seq::new(
                    i as nat,
                    |k: int| HydroPlantIndex { plant_idx: k as usize, submarket_idx: first_position(submarket_ids@, system.hydro_plants@[k].submarket_id, 0) as usize },
                ),
            decreases system.hydro_plants@.len() - i,
        {
            let s = submarket_position(&submarket_ids, system.hydro_plants[i].submarket_id);
            hydro_plant_entries.push(HydroPlantIndex { plant_idx: i, submarket_idx: s });
            i = i + 1;
        }

        let mut renewable_plant_entries: Vec<RenewablePlantIndex> = Vec::new();
        let mut i: usize = 0;
        while i < system.renewable_plants.len()
            invariant
                i <= system.renewable_plants@.len(),
                submarket_ids@ == spec_submarket_ids(*system),
                plants_in_known_submarkets(*system),
                renewable_plant_entries@ =~= Seq::new(
                    i as nat,
                    |k: int| RenewablePlantIndex { plant_idx: k as usize, submarket_idx: first_position(submarket_ids@, system.renewable_plants@[k].submarket_id, 0) as usize },
                ),
            decreases system.renewable_plants@.len() - i,
        {
            let s = submarket_position(&submarket_ids, system.renewable_plants[i].submarket_id);
            renewable_plant_entries.push(RenewablePlantIndex { plant_idx: i, submarket_idx: s });
            i = i + 1;
        }

        let mut pumping_plant_entries: Vec<PumpingPlantIndex> = Vec::new();
        let mut i: usize = 0;
        while i < system.pumping_plants.len()
            invariant
                i <= system.pumping_plants@.len(),
                submarket_ids@ == spec_submarket_ids(*system),
                plants_in_known_submarkets(*system),
                pumping_plant_entries@ =~= Seq::new(
                    i as nat,
                    |k: int| PumpingPlantIndex { plant_idx: k as usize, submarket_idx: first_position(submarket_ids@, system.pumping_plants@[k].submarket_id, 0) as usize },
                ),
            decreases system.pumping_plants@.len() - i,
        {
            let s = submarket_position(&submarket_ids, system.pumping_plants[i].submarket_id);
            pumping_plant_entries.push(PumpingPlantIndex { plant_idx: i, submarket_idx: s });
            i = i + 1;
        }

        let interchange_entries = build_interchange_entries(system.horizon.periods, system.submarkets.len());

        Indexing {
            thermal_units: thermal_unit_entries.len(),
            hydro_units: hydro_unit_entries.len(),
            renewable_plants: renewable_plant_entries.len(),
            pumping_plants: pumping_plant_entries.len(),
            buses: system.buses.len(),
            submarkets: system.submarkets.len(),
            hydro_plant_entries,
            thermal_unit_entries,
            hydro_unit_entries,
            renewable_plant_entries,
            pumping_plant_entries,
            interchange_entries,
            submarket_ids,
        }
    }
}
} // verus!
