//! What the term layouts of the demand balance and of the operational limits
//! select: every unit or plant whose generation enters a submarket's balance is
//! a unit or plant of that submarket, and every one of them enters it; a limit
//! on a plant bounds the sum over all of that plant's units, and nothing else.

use vstd::prelude::*;
use crate::ids::{HydroPlantId, ThermalPlantId};
use crate::indexing::{HydroUnitIndex, Indexing, RenewablePlantIndex, ThermalUnitIndex, PumpingPlantIndex, InterchangeIndex};
use crate::layout::{
    LayoutTerm, VarRef, hydro_plant_unit_terms, lt, spec_demand_balance_terms, spec_limit_terms, submarket_hydro_terms,
    submarket_interchange_terms, submarket_pumping_terms, submarket_renewable_terms, submarket_thermal_terms,
    thermal_plant_generation_terms,
};
use crate::system::{OperationalLimitTarget, OperationalLimitVariable, System};

verus! {

// ---------------------------------------------------------------------------
// Selections: the terms `mk(k)` of the positions `k < n` that satisfy `pred`.
// ---------------------------------------------------------------------------

pub open spec fn chosen(pred: spec_fn(int) -> bool, mk: spec_fn(int) -> LayoutTerm, n: int) -> Seq<LayoutTerm>
    decreases n,
{
    if n <= 0 {
        Seq::empty()
    } else {
        chosen(pred, mk, n - 1) + if pred(n - 1) {
            seq![mk(n - 1)]
        } else {
            Seq::<LayoutTerm>::empty()
        }
    }
}

/// A term belongs to a selection exactly when some selected position makes it.
pub proof fn lemma_chosen_contains(pred: spec_fn(int) -> bool, mk: spec_fn(int) -> LayoutTerm, n: int, x: LayoutTerm)
    requires
        n >= 0,
    ensures
        chosen(pred, mk, n).contains(x) <==> exists|k: int| 0 <= k < n && pred(k) && #[trigger] mk(k) == x,
    decreases n,
{
    if n > 0 {
        let prev = chosen(pred, mk, n - 1);
        let last = if pred(n - 1) {
            seq![mk(n - 1)]
        } else {
            Seq::<LayoutTerm>::empty()
        };
        lemma_chosen_contains(pred, mk, n - 1, x);
        assert(chosen(pred, mk, n) == prev + last);
        if chosen(pred, mk, n).contains(x) {
            let i = choose|i: int| 0 <= i < (prev + last).len() && (prev + last)[i] == x;
            if i < prev.len() {
                assert(prev[i] == x);
                assert(prev.contains(x));
                let k = choose|k: int| 0 <= k < n - 1 && pred(k) && #[trigger] mk(k) == x;
                assert(0 <= k < n && pred(k) && mk(k) == x);
            } else {
                assert(last[i - prev.len()] == x);
                assert(pred(n - 1) && mk(n - 1) == x);
            }
        }
        if exists|k: int| 0 <= k < n && pred(k) && #[trigger] mk(k) == x {
            let k = choose|k: int| 0 <= k < n && pred(k) && #[trigger] mk(k) == x;
            if k < n - 1 {
                assert(prev.contains(x));
                let i = choose|i: int| 0 <= i < prev.len() && prev[i] == x;
                assert((prev + last)[i] == x);
            } else {
                assert((prev + last)[prev.len() as int] == x);
            }
        }
    }
}

proof fn lemma_concat_contains(a: Seq<LayoutTerm>, b: Seq<LayoutTerm>, x: LayoutTerm)
    ensures
        (a + b).contains(x) <==> (a.contains(x) || b.contains(x)),
{
    if (a + b).contains(x) {
        let i = choose|i: int| 0 <= i < (a + b).len() && (a + b)[i] == x;
        if i < a.len() {
            assert(a[i] == x);
        } else {
            assert(b[i - a.len()] == x);
        }
    }
    if a.contains(x) {
        let i = choose|i: int| 0 <= i < a.len() && a[i] == x;
        assert((a + b)[i] == x);
    }
    if b.contains(x) {
        let i = choose|i: int| 0 <= i < b.len() && b[i] == x;
        assert((a + b)[a.len() + i] == x);
    }
}

// ---------------------------------------------------------------------------
// The layouts as selections.
// ---------------------------------------------------------------------------

pub open spec fn thermal_in(units: Seq<ThermalUnitIndex>, s: usize) -> spec_fn(int) -> bool {
    |k: int| units[k].submarket_idx == s
}

pub open spec fn thermal_generation(period: usize) -> spec_fn(int) -> LayoutTerm {
    |k: int| lt(VarRef::ThermalGeneration { entry: k as usize, period }, 1)
}

pub open spec fn hydro_in(units: Seq<HydroUnitIndex>, s: usize) -> spec_fn(int) -> bool {
    |k: int| units[k].submarket_idx == s
}

pub open spec fn hydro_generation(period: usize) -> spec_fn(int) -> LayoutTerm {
    |k: int| lt(VarRef::HydroGeneration { entry: k as usize, period }, 1)
}

pub open spec fn renewable_in(plants: Seq<RenewablePlantIndex>, s: usize) -> spec_fn(int) -> bool {
    |k: int| plants[k].submarket_idx == s
}

pub open spec fn renewable_generation(period: usize) -> spec_fn(int) -> LayoutTerm {
    |k: int| lt(VarRef::RenewableGeneration { entry: k as usize, period }, 1)
}

pub open spec fn pumping_in(pumps: Seq<PumpingPlantIndex>, s: usize) -> spec_fn(int) -> bool {
    |k: int| pumps[k].submarket_idx == s
}

pub open spec fn pumping_consumption(period: usize) -> spec_fn(int) -> LayoutTerm {
    |k: int| lt(VarRef::Pumping { entry: k as usize, period }, -1)
}

pub open spec fn of_thermal_plant(system: System, units: Seq<ThermalUnitIndex>, id: ThermalPlantId) -> spec_fn(int) -> bool {
    |k: int| system.thermal_plants@[units[k].plant_idx as int].id == id
}

pub open spec fn of_hydro_plant(system: System, units: Seq<HydroUnitIndex>, id: HydroPlantId) -> spec_fn(int) -> bool {
    |k: int| system.hydro_plants@[units[k].plant_idx as int].id == id
}

/// The generation (or, with `turbining`, the turbining) of hydro unit entry `k`.
pub open spec fn hydro_unit_term(turbining: bool, k: int, period: usize) -> LayoutTerm {
    lt(
        if turbining {
            VarRef::HydroTurbining { entry: k as usize, period }
        } else {
            VarRef::HydroGeneration { entry: k as usize, period }
        },
        1,
    )
}

pub open spec fn hydro_unit_var(turbining: bool, period: usize) -> spec_fn(int) -> LayoutTerm {
    |k: int| hydro_unit_term(turbining, k, period)
}

proof fn lemma_thermal_balance_chosen(units: Seq<ThermalUnitIndex>, s: usize, period: usize, n: int)
    ensures
        submarket_thermal_terms(units, s, period, n) == chosen(thermal_in(units, s), thermal_generation(period), n),
    decreases n,
{
    if n > 0 {
        lemma_thermal_balance_chosen(units, s, period, n - 1);
    }
}

proof fn lemma_hydro_balance_chosen(units: Seq<HydroUnitIndex>, s: usize, period: usize, n: int)
    ensures
        submarket_hydro_terms(units, s, period, n) == chosen(hydro_in(units, s), hydro_generation(period), n),
    decreases n,
{
    if n > 0 {
        lemma_hydro_balance_chosen(units, s, period, n - 1);
    }
}

proof fn lemma_renewable_balance_chosen(plants: Seq<RenewablePlantIndex>, s: usize, period: usize, n: int)
    ensures
        submarket_renewable_terms(plants, s, period, n) == chosen(renewable_in(plants, s), renewable_generation(period), n),
    decreases n,
{
    if n > 0 {
        lemma_renewable_balance_chosen(plants, s, period, n - 1);
    }
}

proof fn lemma_pumping_balance_chosen(pumps: Seq<PumpingPlantIndex>, s: usize, period: usize, n: int)
    ensures
        submarket_pumping_terms(pumps, s, period, n) == chosen(pumping_in(pumps, s), pumping_consumption(period), n),
    decreases n,
{
    if n > 0 {
        lemma_pumping_balance_chosen(pumps, s, period, n - 1);
    }
}

proof fn lemma_thermal_plant_chosen(system: System, units: Seq<ThermalUnitIndex>, id: ThermalPlantId, period: usize, n: int)
    ensures
        thermal_plant_generation_terms(system, units, id, period, n) == chosen(of_thermal_plant(system, units, id), thermal_generation(period), n),
    decreases n,
{
    if n > 0 {
        lemma_thermal_plant_chosen(system, units, id, period, n - 1);
    }
}

proof fn lemma_hydro_plant_chosen(system: System, units: Seq<HydroUnitIndex>, id: HydroPlantId, turbining: bool, period: usize, n: int)
    ensures
        hydro_plant_unit_terms(system, units, id, turbining, period, n) == chosen(of_hydro_plant(system, units, id), hydro_unit_var(turbining, period), n),
    decreases n,
{
    if n > 0 {
        lemma_hydro_plant_chosen(system, units, id, turbining, period, n - 1);
    }
}

/// The interchange part of a balance holds interchange variables only.
proof fn lemma_interchange_part_only_interchange(entries: Seq<InterchangeIndex>, s: usize, period: usize, n: int, x: LayoutTerm)
    requires
        submarket_interchange_terms(entries, s, period, n).contains(x),
    ensures
        x.var is Interchange,
    decreases n,
{
    if n > 0 {
        let e = entries[n - 1];
        let v = VarRef::Interchange { entry: (n - 1) as usize };
        let prev = submarket_interchange_terms(entries, s, period, n - 1);
        let into = if e.to_submarket_idx == s {
            seq![lt(v, 1)]
        } else {
            Seq::<LayoutTerm>::empty()
        };
        let out = if e.from_submarket_idx == s {
            seq![lt(v, -1)]
        } else {
            Seq::<LayoutTerm>::empty()
        };
        let last = if e.period != period {
            Seq::<LayoutTerm>::empty()
        } else {
            into + out
        };
        assert(submarket_interchange_terms(entries, s, period, n) == prev + last);
        lemma_concat_contains(prev, last, x);
        if prev.contains(x) {
            lemma_interchange_part_only_interchange(entries, s, period, n - 1, x);
        } else {
            lemma_concat_contains(into, out, x);
            if into.contains(x) {
                let i = choose|i: int| 0 <= i < into.len() && into[i] == x;
            } else {
                assert(out.contains(x));
                let i = choose|i: int| 0 <= i < out.len() && out[i] == x;
            }
        }
    }
}

/// A term of the demand balance of submarket `s` in `period`, by the part of
/// the balance it belongs to.
proof fn lemma_balance_parts(ix: Indexing, s: usize, period: usize, x: LayoutTerm)
    ensures
        spec_demand_balance_terms(ix, s, period).contains(x) <==> {
            ||| chosen(thermal_in(ix.thermal_unit_entries@, s), thermal_generation(period), ix.thermal_unit_entries@.len() as int).contains(x)
            ||| chosen(hydro_in(ix.hydro_unit_entries@, s), hydro_generation(period), ix.hydro_unit_entries@.len() as int).contains(x)
            ||| chosen(renewable_in(ix.renewable_plant_entries@, s), renewable_generation(period), ix.renewable_plant_entries@.len() as int).contains(x)
            ||| submarket_interchange_terms(ix.interchange_entries@, s, period, ix.interchange_entries@.len() as int).contains(x)
            ||| chosen(pumping_in(ix.pumping_plant_entries@, s), pumping_consumption(period), ix.pumping_plant_entries@.len() as int).contains(x)
            ||| x == lt(VarRef::Deficit { submarket: s, period }, 1)
        },
{
    let t = submarket_thermal_terms(ix.thermal_unit_entries@, s, period, ix.thermal_unit_entries@.len() as int);
    let h = submarket_hydro_terms(ix.hydro_unit_entries@, s, period, ix.hydro_unit_entries@.len() as int);
    let r = submarket_renewable_terms(ix.renewable_plant_entries@, s, period, ix.renewable_plant_entries@.len() as int);
    let i = submarket_interchange_terms(ix.interchange_entries@, s, period, ix.interchange_entries@.len() as int);
    let p = submarket_pumping_terms(ix.pumping_plant_entries@, s, period, ix.pumping_plant_entries@.len() as int);
    let d = seq![lt(VarRef::Deficit { submarket: s, period }, 1)];
    lemma_thermal_balance_chosen(ix.thermal_unit_entries@, s, period, ix.thermal_unit_entries@.len() as int);
    lemma_hydro_balance_chosen(ix.hydro_unit_entries@, s, period, ix.hydro_unit_entries@.len() as int);
    lemma_renewable_balance_chosen(ix.renewable_plant_entries@, s, period, ix.renewable_plant_entries@.len() as int);
    lemma_pumping_balance_chosen(ix.pumping_plant_entries@, s, period, ix.pumping_plant_entries@.len() as int);
    assert(spec_demand_balance_terms(ix, s, period) == t + h + r + i + p + d);
    lemma_concat_contains(t + h + r + i + p, d, x);
    lemma_concat_contains(t + h + r + i, p, x);
    lemma_concat_contains(t + h + r, i, x);
    lemma_concat_contains(t + h, r, x);
    lemma_concat_contains(t, h, x);
    if d.contains(x) {
        let j = choose|j: int| 0 <= j < d.len() && d[j] == x;
    }
    if x == lt(VarRef::Deficit { submarket: s, period }, 1) {
        assert(d[0] == x);
    }
}

/// Generation enters the demand balance of its own submarket, and only that
/// one: in every period, the generation of thermal unit entry `k`, of hydro unit
/// entry `k` and of renewable plant entry `k` appears with sign +1 in the
/// balance of submarket `s` exactly when the entry lies in submarket `s`; a
/// generation variable never appears there with another sign.
pub proof fn lemma_generation_enters_its_submarket_balance(ix: Indexing, s: usize, period: usize, k: int)
    ensures
        0 <= k < ix.thermal_unit_entries@.len() ==> (spec_demand_balance_terms(ix, s, period).contains(
            lt(VarRef::ThermalGeneration { entry: k as usize, period }, 1)) <==> ix.thermal_unit_entries@[k].submarket_idx == s),
        0 <= k < ix.hydro_unit_entries@.len() ==> (spec_demand_balance_terms(ix, s, period).contains(
            lt(VarRef::HydroGeneration { entry: k as usize, period }, 1)) <==> ix.hydro_unit_entries@[k].submarket_idx == s),
        0 <= k < ix.renewable_plant_entries@.len() ==> (spec_demand_balance_terms(ix, s, period).contains(
            lt(VarRef::RenewableGeneration { entry: k as usize, period }, 1)) <==> ix.renewable_plant_entries@[k].submarket_idx == s),
        forall|x: LayoutTerm| #[trigger] spec_demand_balance_terms(ix, s, period).contains(x)
            && (x.var is ThermalGeneration || x.var is HydroGeneration || x.var is RenewableGeneration) ==> x.coefficient == 1,
{
    broadcast use vstd::std_specs::vec::axiom_spec_len;
    assert(ix.thermal_unit_entries.len() == ix.thermal_unit_entries@.len());
    assert(ix.hydro_unit_entries.len() == ix.hydro_unit_entries@.len());
    assert(ix.renewable_plant_entries.len() == ix.renewable_plant_entries@.len());
    assert(ix.pumping_plant_entries.len() == ix.pumping_plant_entries@.len());
    let nt = ix.thermal_unit_entries@.len() as int;
    let nh = ix.hydro_unit_entries@.len() as int;
    let nr = ix.renewable_plant_entries@.len() as int;
    let np = ix.pumping_plant_entries@.len() as int;
    let ni = ix.interchange_entries@.len() as int;
    let tp = thermal_in(ix.thermal_unit_entries@, s);
    let hp = hydro_in(ix.hydro_unit_entries@, s);
    let rp = renewable_in(ix.renewable_plant_entries@, s);
    let pp = pumping_in(ix.pumping_plant_entries@, s);
    let tm = thermal_generation(period);
    let hm = hydro_generation(period);
    let rm = renewable_generation(period);
    let pm = pumping_consumption(period);
    assert forall|x: LayoutTerm| #[trigger] spec_demand_balance_terms(ix, s, period).contains(x) implies {
        &&& (x.var is ThermalGeneration ==> exists|j: int| 0 <= j < nt && tp(j) && #[trigger] tm(j) == x)
        &&& (x.var is HydroGeneration ==> exists|j: int| 0 <= j < nh && hp(j) && #[trigger] hm(j) == x)
        &&& (x.var is RenewableGeneration ==> exists|j: int| 0 <= j < nr && rp(j) && #[trigger] rm(j) == x)
    } by {
        lemma_balance_parts(ix, s, period, x);
        lemma_chosen_contains(tp, tm, nt, x);
        lemma_chosen_contains(hp, hm, nh, x);
        lemma_chosen_contains(rp, rm, nr, x);
        lemma_chosen_contains(pp, pm, np, x);
        if submarket_interchange_terms(ix.interchange_entries@, s, period, ni).contains(x) {
            lemma_interchange_part_only_interchange(ix.interchange_entries@, s, period, ni, x);
        }
    }
    if 0 <= k < nt {
        let x = lt(VarRef::ThermalGeneration { entry: k as usize, period }, 1);
        lemma_balance_parts(ix, s, period, x);
        lemma_chosen_contains(tp, tm, nt, x);
        if tp(k) {
            assert(tm(k) == x);
        }
        if spec_demand_balance_terms(ix, s, period).contains(x) {
            let j = choose|j: int| 0 <= j < nt && tp(j) && #[trigger] tm(j) == x;
            assert(j == k);
        }
    }
    if 0 <= k < nh {
        let x = lt(VarRef::HydroGeneration { entry: k as usize, period }, 1);
        lemma_balance_parts(ix, s, period, x);
        lemma_chosen_contains(hp, hm, nh, x);
        if hp(k) {
            assert(hm(k) == x);
        }
        if spec_demand_balance_terms(ix, s, period).contains(x) {
            let j = choose|j: int| 0 <= j < nh && hp(j) && #[trigger] hm(j) == x;
            assert(j == k);
        }
    }
    if 0 <= k < nr {
        let x = lt(VarRef::RenewableGeneration { entry: k as usize, period }, 1);
        lemma_balance_parts(ix, s, period, x);
        lemma_chosen_contains(rp, rm, nr, x);
        if rp(k) {
            assert(rm(k) == x);
        }
        if spec_demand_balance_terms(ix, s, period).contains(x) {
            let j = choose|j: int| 0 <= j < nr && rp(j) && #[trigger] rm(j) == x;
            assert(j == k);
        }
    }
}

/// A limit on a thermal plant bounds the plant's generation, the sum over all of
/// its units: the terms are exactly the generation of every thermal unit entry
/// of a plant with that identifier, each with coefficient 1. A limit on any
/// other variable of a thermal plant bounds nothing.
pub proof fn lemma_thermal_limit_sums_plant_units(
    system: System,
    ix: Indexing,
    id: ThermalPlantId,
    variable: OperationalLimitVariable,
    period: usize,
    x: LayoutTerm,
)
    ensures
        variable != OperationalLimitVariable::Generation
            ==> spec_limit_terms(system, ix, OperationalLimitTarget::ThermalPlant(id), variable, period).len() == 0,
        variable == OperationalLimitVariable::Generation ==> (
            spec_limit_terms(system, ix, OperationalLimitTarget::ThermalPlant(id), variable, period).contains(x)
                <==> exists|k: int| 0 <= k < ix.thermal_unit_entries@.len()
                    && system.thermal_plants@[ix.thermal_unit_entries@[k].plant_idx as int].id == id
                    && x == #[trigger] lt(VarRef::ThermalGeneration { entry: k as usize, period }, 1)),
{
    let units = ix.thermal_unit_entries@;
    let n = units.len() as int;
    lemma_thermal_plant_chosen(system, units, id, period, n);
    lemma_chosen_contains(of_thermal_plant(system, units, id), thermal_generation(period), n, x);
    if variable == OperationalLimitVariable::Generation {
        let pred = of_thermal_plant(system, units, id);
        let mk = thermal_generation(period);
        if exists|k: int| 0 <= k < n && pred(k) && #[trigger] mk(k) == x {
            let k = choose|k: int| 0 <= k < n && pred(k) && #[trigger] mk(k) == x;
            assert(x == lt(VarRef::ThermalGeneration { entry: k as usize, period }, 1));
        }
        if exists|k: int| 0 <= k < n && system.thermal_plants@[units[k].plant_idx as int].id == id
            && x == #[trigger] lt(VarRef::ThermalGeneration { entry: k as usize, period }, 1) {
            let k = choose|k: int| 0 <= k < n && system.thermal_plants@[units[k].plant_idx as int].id == id
                && x == #[trigger] lt(VarRef::ThermalGeneration { entry: k as usize, period }, 1);
            assert(pred(k) && mk(k) == x);
        }
    }
}

/// A generation or turbining limit on a hydro plant bounds the sum over all of
/// the plant's units: the terms are exactly the generation (or turbining) of
/// every hydro unit entry of a plant with that identifier, each with
/// coefficient 1.
pub proof fn lemma_hydro_limit_sums_plant_units(
    system: System,
    ix: Indexing,
    id: HydroPlantId,
    turbining: bool,
    period: usize,
    x: LayoutTerm,
)
    ensures
        ({
            let variable = if turbining {
                OperationalLimitVariable::Turbining
            } else {
                OperationalLimitVariable::Generation
            };
            spec_limit_terms(system, ix, OperationalLimitTarget::HydroPlant(id), variable, period).contains(x)
                <==> exists|k: int| 0 <= k < ix.hydro_unit_entries@.len()
                    && system.hydro_plants@[ix.hydro_unit_entries@[k].plant_idx as int].id == id
                    && x == #[trigger] hydro_unit_term(turbining, k, period)
        }),
{
    let units = ix.hydro_unit_entries@;
    let n = units.len() as int;
    let pred = of_hydro_plant(system, units, id);
    let mk = hydro_unit_var(turbining, period);
    lemma_hydro_plant_chosen(system, units, id, turbining, period, n);
    lemma_chosen_contains(pred, mk, n, x);
    if exists|k: int| 0 <= k < n && pred(k) && #[trigger] mk(k) == x {
        let k = choose|k: int| 0 <= k < n && pred(k) && #[trigger] mk(k) == x;
        assert(x == mk(k));
    }
    if exists|k: int| 0 <= k < n && system.hydro_plants@[units[k].plant_idx as int].id == id
        && x == #[trigger] hydro_unit_term(turbining, k, period) {
        let k = choose|k: int| 0 <= k < n && system.hydro_plants@[units[k].plant_idx as int].id == id
            && x == #[trigger] hydro_unit_term(turbining, k, period);
        assert(pred(k) && mk(k) == x);
    }
}

} // verus!
