//! Properties that hold across the operations of the library.

use vstd::prelude::*;
use crate::commitment::{
    RowSpec, min_down_row, min_up_row, previous_status, residence, spec_min_up_down_rows, window, window_rows, window_terms,
};
use crate::indexing::{
    first_position, hydro_plant_unit_entries, hydro_unit_entries, interchange_block, interchange_entries,
    interchange_period_entries, plants_in_known_submarkets, spec_submarket_ids, thermal_unit_entries,
};
use crate::iteration::{
    ExecutionOption, FlowCutKey, IterativeProcess, LineViolation, ProcessPhase, StageOutcome, new_cut_count,
    IterationStage, phase_rank, produced, spec_advance, spec_current_stage, spec_start, violation_cut,
};
use crate::ids::HydroPlantId;
use crate::naming::{spec_operational_limit_constraint_name, spec_operational_limit_slack_name};
use crate::relaxation::{slack_of, spec_starts_with};
use crate::layout::{
    LayoutTerm, VarRef, lt, plant_position, spec_demand_balance_terms, submarket_interchange_terms, plant_turbining_terms, spec_hydro_balance_terms, unit_entries_in_range,
    upstream_terms,
};
use crate::indexing::{
    Indexing, InterchangeIndex, hydro_entries_sorted, hydro_entry, interchange_sorted, interchange_valid,
    lemma_hydro_entries_ordered_complete, lemma_interchange_entries_ordered_complete,
    lemma_thermal_entries_ordered_complete, lemma_unit_counts_fit, thermal_entries_sorted, thermal_entry,
};
use crate::study::spec_linked_from;
use crate::network::{
    lemma_column_absent, lemma_column_in_range, lemma_column_some, lemma_non_reference_in_range, lemma_non_reference_listed,
    spec_bus_column, spec_non_reference_buses,
};
use crate::validation::{distinct_ids, reference_bus_count};
use crate::system::{OperationalLimitVariable, System, first_error_upto, lemma_upto_all_ok};

verus! {

proof fn lemma_first_position_in_range(ids: Seq<crate::ids::SubmarketId>, id: crate::ids::SubmarketId, from: int)
    requires
        0 <= from <= ids.len(),
        exists|k: int| from <= k < ids.len() && ids[k] == id,
    ensures
        from <= first_position(ids, id, from) < ids.len(),
    decreases ids.len() - from,
{
    if ids[from] != id {
        lemma_first_position_in_range(ids, id, from + 1);
    }
}

/// A consistent study has every plant in a known submarket, so its index
/// layout can be built.
pub proof fn lemma_consistent_study_can_be_indexed(system: System)
    requires
        system.is_consistent(),
    ensures
        plants_in_known_submarkets(system),
{
    let ids = spec_submarket_ids(system);
    assert forall|i: int| 0 <= i < system.thermal_plants@.len() implies ids.contains(#[trigger] system.thermal_plants@[i].submarket_id) by {
        lemma_upto_all_ok(system.thermal_plants@.len() as int, system.thermal_checker(), i);
        let k = choose|k: int| 0 <= k < system.submarkets@.len() && #[trigger] system.submarkets@[k].id == system.thermal_plants@[i].submarket_id;
        assert(ids[k] == system.thermal_plants@[i].submarket_id);
    }
    assert forall|i: int| 0 <= i < system.hydro_plants@.len() implies ids.contains(#[trigger] system.hydro_plants@[i].submarket_id) by {
        lemma_upto_all_ok(system.hydro_plants@.len() as int, system.hydro_checker(), i);
        let k = choose|k: int| 0 <= k < system.submarkets@.len() && #[trigger] system.submarkets@[k].id == system.hydro_plants@[i].submarket_id;
        assert(ids[k] == system.hydro_plants@[i].submarket_id);
    }
    assert forall|i: int| 0 <= i < system.renewable_plants@.len() implies ids.contains(#[trigger] system.renewable_plants@[i].submarket_id) by {
        lemma_upto_all_ok(system.renewable_plants@.len() as int, system.renewable_checker(), i);
        let k = choose|k: int| 0 <= k < system.submarkets@.len() && #[trigger] system.submarkets@[k].id == system.renewable_plants@[i].submarket_id;
        assert(ids[k] == system.renewable_plants@[i].submarket_id);
    }
    assert forall|i: int| 0 <= i < system.pumping_plants@.len() implies ids.contains(#[trigger] system.pumping_plants@[i].submarket_id) by {
        lemma_upto_all_ok(system.pumping_plants@.len() as int, system.pumping_checker(), i);
        let k = choose|k: int| 0 <= k < system.submarkets@.len() && #[trigger] system.submarkets@[k].id == system.pumping_plants@[i].submarket_id;
        assert(ids[k] == system.pumping_plants@[i].submarket_id);
    }
}

/// In a consistent study the hydro cascade is mutual: plant `a` lists plant `b`
/// upstream exactly when `b` sends its outflow to `a`, and `a` lists `b` among the
/// plants diverting into it exactly when `b` diverts its water to `a`.
pub proof fn lemma_consistent_cascade_is_mutual(system: System, a: int, b: int)
    requires
        system.is_consistent(),
        0 <= a < system.hydro_plants@.len(),
        0 <= b < system.hydro_plants@.len(),
    ensures
        system.hydro_plants@[a].upstream_plant_ids@.contains(system.hydro_plants@[b].id)
            <==> system.hydro_plants@[b].downstream_plant_id == Some(system.hydro_plants@[a].id),
        system.hydro_plants@[a].diversion_upstream_plant_ids@.contains(system.hydro_plants@[b].id)
            <==> system.hydro_plants@[b].diversion_plant_id == Some(system.hydro_plants@[a].id),
{
    let pa = system.hydro_plants@[a];
    let pb = system.hydro_plants@[b];
    let n = system.hydro_plants@.len() as int;
    assert(system.ids_distinct());
    lemma_upto_all_ok(n, system.link_checker(), a);
    lemma_upto_all_ok(n, system.link_checker(), b);
    if pa.upstream_plant_ids@.contains(pb.id) {
        let j = choose|j: int| 0 <= j < pa.upstream_plant_ids@.len() && pa.upstream_plant_ids@[j] == pb.id;
        lemma_upto_all_ok(pa.upstream_plant_ids@.len() as int, system.upstream_link_checker(pa), j);
        let k = choose|k: int| 0 <= k < n && #[trigger] system.hydro_plants@[k].id == pb.id
            && system.hydro_plants@[k].downstream_plant_id == Some(pa.id);
        lemma_same_hydro_id(system, k, b);
    }
    if pb.downstream_plant_id == Some(pa.id) {
        let k = choose|k: int| 0 <= k < n && #[trigger] system.hydro_plants@[k].id == pa.id
            && system.hydro_plants@[k].upstream_plant_ids@.contains(pb.id);
        lemma_same_hydro_id(system, k, a);
    }
    if pa.diversion_upstream_plant_ids@.contains(pb.id) {
        let j = choose|j: int| 0 <= j < pa.diversion_upstream_plant_ids@.len() && pa.diversion_upstream_plant_ids@[j] == pb.id;
        lemma_upto_all_ok(pa.diversion_upstream_plant_ids@.len() as int, system.diversion_upstream_link_checker(pa), j);
        let k = choose|k: int| 0 <= k < n && #[trigger] system.hydro_plants@[k].id == pb.id
            && system.hydro_plants@[k].diversion_plant_id == Some(pa.id);
        lemma_same_hydro_id(system, k, b);
    }
    if pb.diversion_plant_id == Some(pa.id) {
        let k = choose|k: int| 0 <= k < n && #[trigger] system.hydro_plants@[k].id == pa.id
            && system.hydro_plants@[k].diversion_upstream_plant_ids@.contains(pb.id);
        lemma_same_hydro_id(system, k, a);
    }
}

proof fn lemma_same_hydro_id(system: System, a: int, b: int)
    requires
        system.ids_distinct(),
        0 <= a < system.hydro_plants@.len(),
        0 <= b < system.hydro_plants@.len(),
        system.hydro_plants@[a].id == system.hydro_plants@[b].id,
    ensures
        a == b,
{
    if a < b {
        assert(system.hydro_plant_ids()[a] != system.hydro_plant_ids()[b]);
    } else if b < a {
        assert(system.hydro_plant_ids()[b] != system.hydro_plant_ids()[a]);
    }
}

/// Every thermal unit entry of the index layout points at an existing plant, unit
/// and submarket.
pub proof fn lemma_thermal_entries_in_range(system: System, n: int, e: int)
    requires
        plants_in_known_submarkets(system),
        0 <= n <= system.thermal_plants@.len(),
        0 <= e < thermal_unit_entries(system, n).len(),
    ensures
        ({
            let entry = thermal_unit_entries(system, n)[e];
            &&& entry.plant_idx < n
            &&& entry.unit_idx < system.thermal_plants@[entry.plant_idx as int].units@.len()
            &&& entry.submarket_idx < system.submarkets@.len()
            &&& spec_submarket_ids(system)[entry.submarket_idx as int] == system.thermal_plants@[entry.plant_idx as int].submarket_id
        }),
    decreases n,
{
    let prev = thermal_unit_entries(system, n - 1);
    if e < prev.len() {
        lemma_thermal_entries_in_range(system, n - 1, e);
    } else {
        let ids = spec_submarket_ids(system);
        let plant = system.thermal_plants@[n - 1];
        let sid = plant.submarket_id;
        assert(ids.contains(sid));
        lemma_first_position_in_range(ids, sid, 0);
        lemma_first_position_is_match(ids, sid, 0);
        assert(system.thermal_plants.len() == system.thermal_plants@.len());
        assert(plant.units.len() == plant.units@.len());
        assert(system.submarkets.len() == system.submarkets@.len());
        let u = e - prev.len();
        let s = first_position(ids, sid, 0);
        assert(thermal_unit_entries(system, n)[e] == crate::indexing::ThermalUnitIndex {
            plant_idx: (n - 1) as usize,
            unit_idx: u as usize,
            submarket_idx: s as usize,
        });
    }
}

proof fn lemma_first_position_is_match(ids: Seq<crate::ids::SubmarketId>, id: crate::ids::SubmarketId, from: int)
    requires
        0 <= from <= ids.len(),
        exists|k: int| from <= k < ids.len() && ids[k] == id,
    ensures
        ids[first_position(ids, id, from)] == id,
    decreases ids.len() - from,
{
    if ids[from] != id {
        lemma_first_position_is_match(ids, id, from + 1);
    }
}

/// Every hydro unit entry of the index layout points at an existing plant,
/// group, unit and submarket.
pub proof fn lemma_hydro_entries_in_range(system: System, n: int, e: int)
    requires
        plants_in_known_submarkets(system),
        0 <= n <= system.hydro_plants@.len(),
        0 <= e < hydro_unit_entries(system, n).len(),
    ensures
        ({
            let entry = hydro_unit_entries(system, n)[e];
            &&& entry.plant_idx < n
            &&& entry.group_idx < system.hydro_plants@[entry.plant_idx as int].groups@.len()
            &&& entry.unit_idx < system.hydro_plants@[entry.plant_idx as int].groups@[entry.group_idx as int].units@.len()
            &&& entry.submarket_idx < system.submarkets@.len()
        }),
    decreases n,
{
    let prev = hydro_unit_entries(system, n - 1);
    if e < prev.len() {
        lemma_hydro_entries_in_range(system, n - 1, e);
    } else {
        let p = n - 1;
        lemma_hydro_plant_entries_in_range(system, p, system.hydro_plants@[p].groups@.len() as int, e - prev.len());
    }
}

proof fn lemma_hydro_plant_entries_in_range(system: System, p: int, g: int, e: int)
    requires
        plants_in_known_submarkets(system),
        0 <= p < system.hydro_plants@.len(),
        0 <= g <= system.hydro_plants@[p].groups@.len(),
        0 <= e < hydro_plant_unit_entries(system, p, g).len(),
    ensures
        ({
            let entry = hydro_plant_unit_entries(system, p, g)[e];
            &&& entry.plant_idx == p
            &&& entry.group_idx < g
            &&& entry.unit_idx < system.hydro_plants@[p].groups@[entry.group_idx as int].units@.len()
            &&& entry.submarket_idx < system.submarkets@.len()
        }),
    decreases g,
{
    let prev = hydro_plant_unit_entries(system, p, g - 1);
    if e < prev.len() {
        lemma_hydro_plant_entries_in_range(system, p, g - 1, e);
    } else {
        let ids = spec_submarket_ids(system);
        let plant = system.hydro_plants@[p];
        let sid = plant.submarket_id;
        assert(ids.contains(sid));
        lemma_first_position_in_range(ids, sid, 0);
        assert(system.hydro_plants.len() == system.hydro_plants@.len());
        assert(plant.groups.len() == plant.groups@.len());
        assert(plant.groups@[g - 1].units.len() == plant.groups@[g - 1].units@.len());
        assert(system.submarkets.len() == system.submarkets@.len());
        let u = e - prev.len();
        let s = first_position(ids, sid, 0);
        assert(hydro_plant_unit_entries(system, p, g)[e] == crate::indexing::HydroUnitIndex {
            plant_idx: p as usize,
            group_idx: (g - 1) as usize,
            unit_idx: u as usize,
            submarket_idx: s as usize,
        });
    }
}

proof fn lemma_interchange_period_entries(f: int, m: int, t: int, e: int)
    requires
        0 <= f <= m <= usize::MAX,
        0 <= t <= usize::MAX,
        0 <= e < interchange_period_entries(f, m, t).len(),
    ensures
        interchange_period_entries(f, m, t).len() == f * (m - 1),
        ({
            let entry = interchange_period_entries(f, m, t)[e];
            &&& entry.from_submarket_idx < f
            &&& entry.to_submarket_idx < m
            &&& entry.from_submarket_idx != entry.to_submarket_idx
            &&& entry.period == t as usize
        }),
    decreases f,
{
    lemma_interchange_period_len(f, m, t);
    let prev = interchange_period_entries(f - 1, m, t);
    lemma_interchange_period_len(f - 1, m, t);
    if e < prev.len() {
        lemma_interchange_period_entries(f - 1, m, t, e);
    } else {
        let k = e - prev.len();
        assert(interchange_period_entries(f, m, t)[e] == interchange_block(f - 1, m, t)[k]);
    }
}

proof fn lemma_interchange_period_len(f: int, m: int, t: int)
    requires
        0 <= f <= m,
    ensures
        interchange_period_entries(f, m, t).len() == f * (m - 1),
    decreases f,
{
    if f > 0 {
        lemma_interchange_period_len(f - 1, m, t);
        assert(interchange_block(f - 1, m, t).len() == m - 1);
        assert(interchange_period_entries(f, m, t).len() == interchange_period_entries(f - 1, m, t).len() + (m - 1));
        assert((f - 1) * (m - 1) + (m - 1) == f * (m - 1)) by (nonlinear_arith);
    } else {
        assert(f * (m - 1) == 0) by (nonlinear_arith)
            requires
                f == 0,
        ;
    }
}

/// Every interchange entry joins two different existing submarkets in a period
/// of the horizon, and there are `periods * m * (m - 1)` of them for `m`
/// submarkets.
pub proof fn lemma_interchange_entries_in_range(n: int, m: int, e: int)
    requires
        0 <= n <= usize::MAX,
        1 <= m <= usize::MAX,
        0 <= e < interchange_entries(n, m).len(),
    ensures
        ({
            let entry = interchange_entries(n, m)[e];
            &&& entry.from_submarket_idx < m
            &&& entry.to_submarket_idx < m
            &&& entry.from_submarket_idx != entry.to_submarket_idx
            &&& entry.period < n
        }),
    decreases n,
{
    let prev = interchange_entries(n - 1, m);
    if e < prev.len() {
        lemma_interchange_entries_in_range(n - 1, m, e);
    } else {
        lemma_interchange_period_entries(m, m, n - 1, e - prev.len());
    }
}

/// The number of interchange entries is `periods * m * (m - 1)`.
pub proof fn lemma_interchange_entries_len(n: int, m: int)
    requires
        0 <= n,
        1 <= m,
    ensures
        interchange_entries(n, m).len() == n * (m * (m - 1)),
    decreases n,
{
    if n > 0 {
        lemma_interchange_entries_len(n - 1, m);
        lemma_interchange_period_len(m, m, n - 1);
        assert(interchange_entries(n, m).len() == interchange_entries(n - 1, m).len() + interchange_period_entries(m, m, n - 1).len());
        assert((n - 1) * (m * (m - 1)) + m * (m - 1) == n * (m * (m - 1))) by (nonlinear_arith);
    } else {
        assert(n * (m * (m - 1)) == 0) by (nonlinear_arith)
            requires
                n == 0,
        ;
    }
}

/// In every period exactly one of the two residence counters is positive: the
/// one of the state the unit is in.
pub proof fn lemma_residence_positive(initially_on: bool, initial_time: nat, statuses: Seq<bool>, i: int)
    requires
        0 <= i < statuses.len(),
    ensures
        residence(initially_on, initial_time, statuses, i) >= 1,
        statuses[i] == previous_status(initially_on, statuses, i) ==> residence(initially_on, initial_time, statuses, i)
            == (if i == 0 {
            initial_time
        } else {
            residence(initially_on, initial_time, statuses, i - 1)
        }) + 1,
        statuses[i] != previous_status(initially_on, statuses, i) ==> residence(initially_on, initial_time, statuses, i) == 1,
{
}

/// The phase of the iterative process never goes back: linear relaxations with
/// cuts, then the single mixed-integer solve, then the fixed-commitment problems.
/// A phase repeats only when the stage brought new flow cuts, and then its
/// iteration number grows by one.
pub proof fn lemma_process_moves_forward(p: IterativeProcess, o: StageOutcome)
    requires
        p.phase != ProcessPhase::Finished,
        p.iteration < usize::MAX,
        spec_advance(p, o) is Ok,
    ensures
        phase_rank(spec_advance(p, o)->Ok_0.phase) >= phase_rank(p.phase),
        spec_advance(p, o)->Ok_0.phase == p.phase ==> o.new_cuts > 0 && p.network_enabled
            && spec_advance(p, o)->Ok_0.iteration == p.iteration + 1,
{
}

/// The mixed-integer stage is entered only from the linear relaxations: once
/// it has been solved, it is never solved again.
pub proof fn lemma_commitment_solved_once(p: IterativeProcess, o: StageOutcome)
    requires
        p.phase != ProcessPhase::Finished,
        p.phase != ProcessPhase::CutLoop,
        spec_advance(p, o) is Ok,
    ensures
        spec_advance(p, o)->Ok_0.phase != ProcessPhase::Commitment,
{
}


proof fn lemma_no_new_cut_prefix(system: System, before: Seq<FlowCutKey>, violations: Seq<LineViolation>, after: Seq<FlowCutKey>, m: int)
    requires
        0 <= m <= violations.len(),
        forall|k: FlowCutKey| after.contains(k) <==> produced(system, before, violations, violations.len() as int, k),
    ensures
        new_cut_count(system, after, violations, m) == 0,
    decreases m,
{
    if m > 0 {
        lemma_no_new_cut_prefix(system, before, violations, after, m - 1);
        match violation_cut(system, violations[m - 1]) {
            Some(c) => {
                reveal(produced);
                assert(produced(system, before, violations, violations.len() as int, c));
                assert(after.contains(c));
                assert(produced(system, after, violations, m - 1, c));
            },
            None => {},
        }
    }
}

/// In the iterative option the stages come in the order LP, MILP, LP-FIXED,
/// LP-CALC-CMO: the mixed-integer solve is always followed by the problems with
/// the commitment fixed, those are entered only from it (or repeat), and the
/// pricing stage is entered only from them. The pricing stage is the last one
/// solved: the process only finishes right after it. It is entered only once the
/// solution is stable, that is, with the network on, when the stage before it
/// brought no new flow cut or had no violated flow limit.
pub proof fn lemma_pricing_comes_last(p: IterativeProcess, o: StageOutcome)
    requires
        p.option == ExecutionOption::Iterative,
        p.phase != ProcessPhase::Finished,
        spec_advance(p, o) is Ok,
    ensures
        p.phase == ProcessPhase::Commitment ==> spec_advance(p, o)->Ok_0.phase == ProcessPhase::FixedCutLoop,
        spec_advance(p, o)->Ok_0.phase == ProcessPhase::FixedCutLoop ==> p.phase == ProcessPhase::Commitment
            || p.phase == ProcessPhase::FixedCutLoop,
        spec_advance(p, o)->Ok_0.phase == ProcessPhase::Pricing && p.phase != ProcessPhase::Pricing
            ==> p.phase == ProcessPhase::FixedCutLoop,
        spec_advance(p, o)->Ok_0.phase == ProcessPhase::Finished ==> p.phase == ProcessPhase::Pricing,
        spec_advance(p, o)->Ok_0.phase == ProcessPhase::Pricing && p.phase != ProcessPhase::Pricing
            && p.network_enabled ==> !o.has_violations || o.new_cuts == 0,
{
}

/// The single option solves one mixed-integer problem and finishes, whatever the
/// outcome of that solve.
pub proof fn lemma_single_milp_solves_once(network_enabled: bool, o: StageOutcome)
    ensures
        spec_start(network_enabled, ExecutionOption::SingleMilp).phase == ProcessPhase::Commitment,
        spec_advance(spec_start(network_enabled, ExecutionOption::SingleMilp), o)
            == Ok::<IterativeProcess, crate::iteration::ProcessError>(IterativeProcess {
                network_enabled,
                option: ExecutionOption::SingleMilp,
                phase: ProcessPhase::Finished,
                iteration: 1,
            }),
{
}

/// The index layout of a study fits the study: every unit, plant and pumping
/// entry points at an element of it.
pub proof fn lemma_layout_fits_study(system: System, ix: Indexing)
    requires
        plants_in_known_submarkets(system),
        ix.spec_from_system(system),
    ensures
        unit_entries_in_range(system, ix),
{
    assert forall|k: int| 0 <= k < ix.thermal_unit_entries@.len() implies (#[trigger] ix.thermal_unit_entries@[k]).plant_idx
        < system.thermal_plants@.len() by {
        lemma_thermal_entries_in_range(system, system.thermal_plants@.len() as int, k);
    }
    assert forall|k: int| 0 <= k < ix.hydro_unit_entries@.len() implies (#[trigger] ix.hydro_unit_entries@[k]).plant_idx
        < system.hydro_plants@.len() by {
        lemma_hydro_entries_in_range(system, system.hydro_plants@.len() as int, k);
    }
}

proof fn lemma_contains_left(a: Seq<LayoutTerm>, b: Seq<LayoutTerm>, x: LayoutTerm)
    requires
        a.contains(x),
    ensures
        (a + b).contains(x),
{
    let i = choose|i: int| 0 <= i < a.len() && a[i] == x;
    assert((a + b)[i] == x);
}

proof fn lemma_contains_right(a: Seq<LayoutTerm>, b: Seq<LayoutTerm>, x: LayoutTerm)
    requires
        b.contains(x),
    ensures
        (a + b).contains(x),
{
    let i = choose|i: int| 0 <= i < b.len() && b[i] == x;
    assert((a + b)[a.len() + i] == x);
}

proof fn lemma_turbining_terms_contain(units: Seq<crate::indexing::HydroUnitIndex>, plant_idx: usize, period: usize, c: int, n: int, e: int)
    requires
        0 <= e < n <= units.len(),
        units[e].plant_idx == plant_idx,
    ensures
        plant_turbining_terms(units, plant_idx, period, c, n).contains(lt(VarRef::HydroTurbining { entry: e as usize, period }, c)),
    decreases n,
{
    let x = lt(VarRef::HydroTurbining { entry: e as usize, period }, c);
    let prev = plant_turbining_terms(units, plant_idx, period, c, n - 1);
    if e < n - 1 {
        lemma_turbining_terms_contain(units, plant_idx, period, c, n - 1, e);
        lemma_contains_left(prev, if units[n - 1].plant_idx == plant_idx {
            seq![lt(VarRef::HydroTurbining { entry: (n - 1) as usize, period }, c)]
        } else {
            Seq::<LayoutTerm>::empty()
        }, x);
    } else {
        assert(seq![x][0] == x);
        lemma_contains_right(prev, seq![x], x);
    }
}

proof fn lemma_position_of_own_id(system: System, ix: Indexing, a: int, from: int)
    requires
        ix.spec_from_system(system),
        system.ids_distinct(),
        0 <= from <= a < system.hydro_plants@.len(),
    ensures
        plant_position(system, ix.hydro_plant_entries@, system.hydro_plants@[a].id, from) == a,
    decreases a - from,
{
    let plants = ix.hydro_plant_entries@;
    assert(system.hydro_plants.len() == system.hydro_plants@.len());
    assert(plants[from].plant_idx == from);
    if from < a {
        if system.hydro_plants@[from].id == system.hydro_plants@[a].id {
            lemma_same_hydro_id(system, from, a);
        }
        lemma_position_of_own_id(system, ix, a, from + 1);
    }
}

proof fn lemma_upstream_terms_contain(
    system: System,
    ix: Indexing,
    ids: Seq<HydroPlantId>,
    period: usize,
    n: int,
    j: int,
    x: LayoutTerm,
)
    requires
        0 <= j < n <= ids.len(),
        ({
            let q = plant_position(system, ix.hydro_plant_entries@, ids[j], 0);
            q < ix.hydro_plant_entries@.len() && plant_turbining_terms(
                ix.hydro_unit_entries@,
                ix.hydro_plant_entries@[q].plant_idx,
                period,
                -1,
                ix.hydro_unit_entries@.len() as int,
            ).push(lt(VarRef::HydroSpillage { plant_entry: q as usize, period }, -1)).contains(x)
        }),
    ensures
        upstream_terms(system, ix.hydro_unit_entries@, ix.hydro_plant_entries@, ids, period, n).contains(x),
    decreases n,
{
    let units = ix.hydro_unit_entries@;
    let plants = ix.hydro_plant_entries@;
    let prev = upstream_terms(system, units, plants, ids, period, n - 1);
    let q = plant_position(system, plants, ids[n - 1], 0);
    let last = if q < plants.len() {
        plant_turbining_terms(units, plants[q].plant_idx, period, -1, units.len() as int).push(
            lt(VarRef::HydroSpillage { plant_entry: q as usize, period }, -1),
        )
    } else {
        Seq::<LayoutTerm>::empty()
    };
    if j < n - 1 {
        lemma_upstream_terms_contain(system, ix, ids, period, n - 1, j, x);
        lemma_contains_left(prev, last, x);
    } else {
        lemma_contains_right(prev, last, x);
    }
}

/// Water released by a hydro plant reaches the plant below it: in a consistent
/// study, when plant `a` sends its outflow to plant `b`, the spillage of `a` and
/// the turbining of each of its units leave the water balance of `a` (sign +1)
/// and enter the water balance of `b` (sign -1), in every period.
pub proof fn lemma_released_water_reaches_downstream(system: System, ix: Indexing, a: int, b: int, period: usize, e: int)
    requires
        system.is_consistent(),
        ix.spec_from_system(system),
        0 <= a < system.hydro_plants@.len(),
        0 <= b < system.hydro_plants@.len(),
        system.hydro_plants@[a].downstream_plant_id == Some(system.hydro_plants@[b].id),
        0 <= e < ix.hydro_unit_entries@.len(),
        ix.hydro_unit_entries@[e].plant_idx == a,
    ensures
        spec_hydro_balance_terms(system, ix, a, period).contains(lt(VarRef::HydroSpillage { plant_entry: a as usize, period }, 1)),
        spec_hydro_balance_terms(system, ix, b, period).contains(lt(VarRef::HydroSpillage { plant_entry: a as usize, period }, -1)),
        spec_hydro_balance_terms(system, ix, a, period).contains(lt(VarRef::HydroTurbining { entry: e as usize, period }, 1)),
        spec_hydro_balance_terms(system, ix, b, period).contains(lt(VarRef::HydroTurbining { entry: e as usize, period }, -1)),
{
    let units = ix.hydro_unit_entries@;
    let plants = ix.hydro_plant_entries@;
    assert(system.ids_distinct());
    assert(system.hydro_plants.len() == system.hydro_plants@.len());
    assert(plants[a].plant_idx == a);
    assert(plants[b].plant_idx == b);
    let pa = system.hydro_plants@[a];
    let pb = system.hydro_plants@[b];

    // The balance of `a` holds its own outflow.
    let own_spill = lt(VarRef::HydroSpillage { plant_entry: a as usize, period }, 1);
    let own_turb = lt(VarRef::HydroTurbining { entry: e as usize, period }, 1);
    let head = seq![
        lt(VarRef::HydroVolume { plant_entry: a as usize, boundary: (period + 1) as usize }, 1),
        lt(VarRef::HydroVolume { plant_entry: a as usize, boundary: period }, -1),
    ];
    let turbs = plant_turbining_terms(units, a as usize, period, 1, units.len() as int);
    let mid = seq![own_spill, lt(VarRef::HydroDiversion { plant_entry: a as usize, period }, 1)];
    let ups_a = upstream_terms(system, units, plants, pa.upstream_plant_ids@, period, pa.upstream_plant_ids@.len() as int);
    let divs_a = crate::layout::diversion_upstream_terms(system, plants, pa.diversion_upstream_plant_ids@, period, pa.diversion_upstream_plant_ids@.len() as int);
    let pumps_a = crate::layout::pumping_balance_terms(system, ix.pumping_plant_entries@, pa.id, period, ix.pumping_plant_entries@.len() as int);
    assert(spec_hydro_balance_terms(system, ix, a, period) == head + turbs + mid + ups_a + divs_a + pumps_a);
    assert(mid[0] == own_spill);
    lemma_contains_right(head + turbs, mid, own_spill);
    lemma_contains_left(head + turbs + mid, ups_a, own_spill);
    lemma_contains_left(head + turbs + mid + ups_a, divs_a, own_spill);
    lemma_contains_left(head + turbs + mid + ups_a + divs_a, pumps_a, own_spill);
    lemma_turbining_terms_contain(units, a as usize, period, 1, units.len() as int, e);
    lemma_contains_right(head, turbs, own_turb);
    lemma_contains_left(head + turbs, mid, own_turb);
    lemma_contains_left(head + turbs + mid, ups_a, own_turb);
    lemma_contains_left(head + turbs + mid + ups_a, divs_a, own_turb);
    lemma_contains_left(head + turbs + mid + ups_a + divs_a, pumps_a, own_turb);

    // The balance of `b` subtracts the outflow of `a`.
    lemma_consistent_cascade_is_mutual(system, b, a);
    let ids = pb.upstream_plant_ids@;
    let j = choose|j: int| 0 <= j < ids.len() && ids[j] == pa.id;
    lemma_position_of_own_id(system, ix, a, 0);
    let in_spill = lt(VarRef::HydroSpillage { plant_entry: a as usize, period }, -1);
    let in_turb = lt(VarRef::HydroTurbining { entry: e as usize, period }, -1);
    let released = plant_turbining_terms(units, a as usize, period, -1, units.len() as int);
    assert(released.push(in_spill)[released.len() as int] == in_spill);
    lemma_upstream_terms_contain(system, ix, ids, period, ids.len() as int, j, in_spill);
    lemma_turbining_terms_contain(units, a as usize, period, -1, units.len() as int, e);
    let k = choose|k: int| 0 <= k < released.len() && released[k] == in_turb;
    assert(released.push(in_spill)[k] == in_turb);
    lemma_upstream_terms_contain(system, ix, ids, period, ids.len() as int, j, in_turb);
    let head_b = seq![
        lt(VarRef::HydroVolume { plant_entry: b as usize, boundary: (period + 1) as usize }, 1),
        lt(VarRef::HydroVolume { plant_entry: b as usize, boundary: period }, -1),
    ];
    let turbs_b = plant_turbining_terms(units, b as usize, period, 1, units.len() as int);
    let mid_b = seq![
        lt(VarRef::HydroSpillage { plant_entry: b as usize, period }, 1),
        lt(VarRef::HydroDiversion { plant_entry: b as usize, period }, 1),
    ];
    let ups_b = upstream_terms(system, units, plants, ids, period, ids.len() as int);
    let divs_b = crate::layout::diversion_upstream_terms(system, plants, pb.diversion_upstream_plant_ids@, period, pb.diversion_upstream_plant_ids@.len() as int);
    let pumps_b = crate::layout::pumping_balance_terms(system, ix.pumping_plant_entries@, pb.id, period, ix.pumping_plant_entries@.len() as int);
    assert(spec_hydro_balance_terms(system, ix, b, period) == head_b + turbs_b + mid_b + ups_b + divs_b + pumps_b);
    lemma_contains_right(head_b + turbs_b + mid_b, ups_b, in_spill);
    lemma_contains_left(head_b + turbs_b + mid_b + ups_b, divs_b, in_spill);
    lemma_contains_left(head_b + turbs_b + mid_b + ups_b + divs_b, pumps_b, in_spill);
    lemma_contains_right(head_b + turbs_b + mid_b, ups_b, in_turb);
    lemma_contains_left(head_b + turbs_b + mid_b + ups_b, divs_b, in_turb);
    lemma_contains_left(head_b + turbs_b + mid_b + ups_b + divs_b, pumps_b, in_turb);
}

proof fn lemma_diversion_terms_contain(system: System, ix: Indexing, ids: Seq<HydroPlantId>, period: usize, n: int, j: int, q: int)
    requires
        0 <= j < n <= ids.len(),
        q == plant_position(system, ix.hydro_plant_entries@, ids[j], 0),
        q < ix.hydro_plant_entries@.len(),
    ensures
        crate::layout::diversion_upstream_terms(system, ix.hydro_plant_entries@, ids, period, n).contains(
            lt(VarRef::HydroDiversion { plant_entry: q as usize, period }, -1),
        ),
    decreases n,
{
    let plants = ix.hydro_plant_entries@;
    let x = lt(VarRef::HydroDiversion { plant_entry: q as usize, period }, -1);
    let prev = crate::layout::diversion_upstream_terms(system, plants, ids, period, n - 1);
    let qn = plant_position(system, plants, ids[n - 1], 0);
    let last = if qn < plants.len() {
        seq![lt(VarRef::HydroDiversion { plant_entry: qn as usize, period }, -1)]
    } else {
        Seq::<LayoutTerm>::empty()
    };
    if j < n - 1 {
        lemma_diversion_terms_contain(system, ix, ids, period, n - 1, j, q);
        lemma_contains_left(prev, last, x);
    } else {
        assert(last[0] == x);
        lemma_contains_right(prev, last, x);
    }
}

/// Diverted water reaches its destination: in a consistent study, when plant `a`
/// diverts water to plant `b`, the diversion of `a` leaves the water balance of
/// `a` (sign +1) and enters the water balance of `b` (sign -1), in every period.
pub proof fn lemma_diverted_water_reaches_destination(system: System, ix: Indexing, a: int, b: int, period: usize)
    requires
        system.is_consistent(),
        ix.spec_from_system(system),
        0 <= a < system.hydro_plants@.len(),
        0 <= b < system.hydro_plants@.len(),
        system.hydro_plants@[a].diversion_plant_id == Some(system.hydro_plants@[b].id),
    ensures
        spec_hydro_balance_terms(system, ix, a, period).contains(lt(VarRef::HydroDiversion { plant_entry: a as usize, period }, 1)),
        spec_hydro_balance_terms(system, ix, b, period).contains(lt(VarRef::HydroDiversion { plant_entry: a as usize, period }, -1)),
{
    let units = ix.hydro_unit_entries@;
    let plants = ix.hydro_plant_entries@;
    assert(system.ids_distinct());
    assert(system.hydro_plants.len() == system.hydro_plants@.len());
    assert(plants[a].plant_idx == a);
    assert(plants[b].plant_idx == b);
    let pa = system.hydro_plants@[a];
    let pb = system.hydro_plants@[b];
    let own = lt(VarRef::HydroDiversion { plant_entry: a as usize, period }, 1);
    let head = seq![
        lt(VarRef::HydroVolume { plant_entry: a as usize, boundary: (period + 1) as usize }, 1),
        lt(VarRef::HydroVolume { plant_entry: a as usize, boundary: period }, -1),
    ];
    let turbs = plant_turbining_terms(units, a as usize, period, 1, units.len() as int);
    let mid = seq![lt(VarRef::HydroSpillage { plant_entry: a as usize, period }, 1), own];
    let ups_a = upstream_terms(system, units, plants, pa.upstream_plant_ids@, period, pa.upstream_plant_ids@.len() as int);
    let divs_a = crate::layout::diversion_upstream_terms(system, plants, pa.diversion_upstream_plant_ids@, period, pa.diversion_upstream_plant_ids@.len() as int);
    let pumps_a = crate::layout::pumping_balance_terms(system, ix.pumping_plant_entries@, pa.id, period, ix.pumping_plant_entries@.len() as int);
    assert(spec_hydro_balance_terms(system, ix, a, period) == head + turbs + mid + ups_a + divs_a + pumps_a);
    assert(mid[1] == own);
    lemma_contains_right(head + turbs, mid, own);
    lemma_contains_left(head + turbs + mid, ups_a, own);
    lemma_contains_left(head + turbs + mid + ups_a, divs_a, own);
    lemma_contains_left(head + turbs + mid + ups_a + divs_a, pumps_a, own);

    lemma_consistent_cascade_is_mutual(system, b, a);
    let ids = pb.diversion_upstream_plant_ids@;
    let j = choose|j: int| 0 <= j < ids.len() && ids[j] == pa.id;
    lemma_position_of_own_id(system, ix, a, 0);
    lemma_diversion_terms_contain(system, ix, ids, period, ids.len() as int, j, a);
    let incoming = lt(VarRef::HydroDiversion { plant_entry: a as usize, period }, -1);
    let head_b = seq![
        lt(VarRef::HydroVolume { plant_entry: b as usize, boundary: (period + 1) as usize }, 1),
        lt(VarRef::HydroVolume { plant_entry: b as usize, boundary: period }, -1),
    ];
    let turbs_b = plant_turbining_terms(units, b as usize, period, 1, units.len() as int);
    let mid_b = seq![
        lt(VarRef::HydroSpillage { plant_entry: b as usize, period }, 1),
        lt(VarRef::HydroDiversion { plant_entry: b as usize, period }, 1),
    ];
    let ups_b = upstream_terms(system, units, plants, pb.upstream_plant_ids@, period, pb.upstream_plant_ids@.len() as int);
    let divs_b = crate::layout::diversion_upstream_terms(system, plants, ids, period, ids.len() as int);
    let pumps_b = crate::layout::pumping_balance_terms(system, ix.pumping_plant_entries@, pb.id, period, ix.pumping_plant_entries@.len() as int);
    assert(spec_hydro_balance_terms(system, ix, b, period) == head_b + turbs_b + mid_b + ups_b + divs_b + pumps_b);
    lemma_contains_right(head_b + turbs_b + mid_b + ups_b, divs_b, incoming);
    lemma_contains_left(head_b + turbs_b + mid_b + ups_b + divs_b, pumps_b, incoming);
}

proof fn lemma_interchange_terms_contain(entries: Seq<crate::indexing::InterchangeIndex>, s: usize, period: usize, n: int, k: int, c: int)
    requires
        0 <= k < n <= entries.len(),
        entries[k].period == period,
        entries[k].from_submarket_idx != entries[k].to_submarket_idx,
        (c == 1 && entries[k].to_submarket_idx == s) || (c == -1 && entries[k].from_submarket_idx == s),
    ensures
        submarket_interchange_terms(entries, s, period, n).contains(lt(VarRef::Interchange { entry: k as usize }, c)),
    decreases n,
{
    let x = lt(VarRef::Interchange { entry: k as usize }, c);
    let e = entries[n - 1];
    let v = VarRef::Interchange { entry: (n - 1) as usize };
    let prev = submarket_interchange_terms(entries, s, period, n - 1);
    let into = if e.to_submarket_idx == s { seq![lt(v, 1)] } else { Seq::<LayoutTerm>::empty() };
    let out = if e.from_submarket_idx == s { seq![lt(v, -1)] } else { Seq::<LayoutTerm>::empty() };
    let last = if e.period != period { Seq::<LayoutTerm>::empty() } else { into + out };
    assert(submarket_interchange_terms(entries, s, period, n) == prev + last);
    if k < n - 1 {
        lemma_interchange_terms_contain(entries, s, period, n - 1, k, c);
        lemma_contains_left(prev, last, x);
    } else {
        if c == 1 {
            assert(into[0] == x);
            lemma_contains_left(into, out, x);
        } else {
            assert(out[0] == x);
            lemma_contains_right(into, out, x);
        }
        lemma_contains_right(prev, last, x);
    }
}

/// What one submarket exports another imports: every interchange variable of a
/// period enters the demand balance of its destination submarket with sign +1
/// and that of its origin with sign -1, in the layout that the study determines.
pub proof fn lemma_interchange_balances_submarkets(system: System, ix: Indexing, k: int)
    requires
        ix.spec_from_system(system),
        0 <= k < ix.interchange_entries@.len(),
    ensures
        ({
            let e = ix.interchange_entries@[k];
            &&& spec_demand_balance_terms(ix, e.to_submarket_idx, e.period).contains(lt(VarRef::Interchange { entry: k as usize }, 1))
            &&& spec_demand_balance_terms(ix, e.from_submarket_idx, e.period).contains(lt(VarRef::Interchange { entry: k as usize }, -1))
        }),
{
    let e = ix.interchange_entries@[k];
    let n = system.horizon.periods as int;
    let m = system.submarkets@.len() as int;
    assert(system.submarkets.len() == system.submarkets@.len());
    if m == 0 {
        lemma_no_interchange_without_submarkets(n);
        assert(false);
    }
    lemma_interchange_entries_in_range(n, m, k);
    lemma_interchange_in_balance(ix, k, 1, e.to_submarket_idx);
    lemma_interchange_in_balance(ix, k, -1, e.from_submarket_idx);
}

proof fn lemma_no_interchange_without_submarkets(n: int)
    ensures
        interchange_entries(n, 0).len() == 0,
    decreases n,
{
    if n > 0 {
        lemma_no_interchange_without_submarkets(n - 1);
        lemma_interchange_period_len(0, 0, n - 1);
    }
}

proof fn lemma_interchange_in_balance(ix: Indexing, k: int, c: int, s: usize)
    requires
        0 <= k < ix.interchange_entries@.len(),
        ix.interchange_entries@[k].from_submarket_idx != ix.interchange_entries@[k].to_submarket_idx,
        (c == 1 && ix.interchange_entries@[k].to_submarket_idx == s) || (c == -1 && ix.interchange_entries@[k].from_submarket_idx == s),
    ensures
        spec_demand_balance_terms(ix, s, ix.interchange_entries@[k].period).contains(lt(VarRef::Interchange { entry: k as usize }, c)),
{
    let t = ix.interchange_entries@[k].period;
    let x = lt(VarRef::Interchange { entry: k as usize }, c);
    let a = crate::layout::submarket_thermal_terms(ix.thermal_unit_entries@, s, t, ix.thermal_unit_entries@.len() as int)
        + crate::layout::submarket_hydro_terms(ix.hydro_unit_entries@, s, t, ix.hydro_unit_entries@.len() as int)
        + crate::layout::submarket_renewable_terms(ix.renewable_plant_entries@, s, t, ix.renewable_plant_entries@.len() as int);
    let b = submarket_interchange_terms(ix.interchange_entries@, s, t, ix.interchange_entries@.len() as int);
    let p = crate::layout::submarket_pumping_terms(ix.pumping_plant_entries@, s, t, ix.pumping_plant_entries@.len() as int);
    let d = seq![lt(VarRef::Deficit { submarket: s, period: t }, 1)];
    assert(spec_demand_balance_terms(ix, s, t) == a + b + p + d);
    lemma_interchange_terms_contain(ix.interchange_entries@, s, t, ix.interchange_entries@.len() as int, k, c);
    lemma_contains_right(a, b, x);
    lemma_contains_left(a + b, p, x);
    lemma_contains_left(a + b + p, d, x);
}

/// A row whose own period and whose terms all lie in the first `horizon` periods.
pub open spec fn row_in_horizon(row: RowSpec, horizon: nat) -> bool {
    &&& 0 <= row.1 < horizon
    &&& forall|j: int| 0 <= j < row.2.len() ==> (#[trigger] row.2[j]).period < horizon
}

proof fn lemma_window_terms_in_range(minimum: nat, horizon: nat, p: int)
    requires
        0 <= p < horizon <= usize::MAX,
    ensures
        forall|j: int| 0 <= j < window_terms(p, window(minimum, horizon, p)).len()
            ==> (#[trigger] window_terms(p, window(minimum, horizon, p))[j]).period < horizon,
{
    let w = window(minimum, horizon, p);
    let head = Seq::new(w as nat, |j: int| crate::commitment::term(p + j, 1)).push(crate::commitment::term(p, -w));
    let tail = if p == 0 { Seq::<crate::commitment::CommitmentTerm>::empty() } else { seq![crate::commitment::term(p - 1, w)] };
    assert(window_terms(p, w) == head + tail);
    assert forall|j: int| 0 <= j < (head + tail).len() implies (#[trigger] (head + tail)[j]).period < horizon by {
        if j < w {
            assert((head + tail)[j] == crate::commitment::term(p + j, 1));
        } else if j == w {
            assert((head + tail)[j] == crate::commitment::term(p, -w));
        } else {
            assert((head + tail)[j] == crate::commitment::term(p - 1, w));
        }
    }
}

proof fn lemma_window_rows_in_range(min_up: nat, min_down: nat, initially_on: bool, horizon: nat, n: int)
    requires
        0 <= n <= horizon <= usize::MAX,
    ensures
        forall|i: int| 0 <= i < window_rows(min_up, min_down, initially_on, horizon, n).len()
            ==> row_in_horizon(#[trigger] window_rows(min_up, min_down, initially_on, horizon, n)[i], horizon),
    decreases n,
{
    if n > 0 {
        lemma_window_rows_in_range(min_up, min_down, initially_on, horizon, n - 1);
        let prev = window_rows(min_up, min_down, initially_on, horizon, n - 1);
        let last = seq![min_up_row(min_up, initially_on, horizon, n - 1), min_down_row(min_down, initially_on, horizon, n - 1)];
        lemma_window_terms_in_range(min_up, horizon, n - 1);
        lemma_window_terms_in_range(min_down, horizon, n - 1);
        assert(row_in_horizon(last[0], horizon));
        assert(row_in_horizon(last[1], horizon));
        assert forall|i: int| 0 <= i < (prev + last).len() implies row_in_horizon(#[trigger] (prev + last)[i], horizon) by {
            if i >= prev.len() {
                assert((prev + last)[i] == last[i - prev.len()]);
            } else {
                assert((prev + last)[i] == prev[i]);
            }
        }
        assert(window_rows(min_up, min_down, initially_on, horizon, n) == prev + last);
    }
}

/// Every minimum up/down time constraint of a unit, its initial fixes included,
/// is written for a period of the horizon and holds only on/off variables of
/// periods of the horizon.
pub proof fn lemma_commitment_rows_in_range(min_up: nat, min_down: nat, initially_on: bool, time_in_state: nat, periods: usize)
    ensures
        forall|i: int| 0 <= i < spec_min_up_down_rows(min_up, min_down, initially_on, time_in_state, periods as nat).len()
            ==> row_in_horizon(#[trigger] spec_min_up_down_rows(min_up, min_down, initially_on, time_in_state, periods as nat)[i], periods as nat),
{
    let horizon = periods as nat;
    let on_fixes = Seq::new(
        crate::commitment::initial_fix_count(initially_on, min_up, time_in_state, horizon),
        |p: int| (crate::commitment::CommitmentRowKind::InitialOnFix, p, seq![crate::commitment::term(p, 1)], crate::model::ConstraintSense::Equal, 1int),
    );
    let off_fixes = Seq::new(
        crate::commitment::initial_fix_count(!initially_on, min_down, time_in_state, horizon),
        |p: int| (crate::commitment::CommitmentRowKind::InitialOffFix, p, seq![crate::commitment::term(p, 1)], crate::model::ConstraintSense::Equal, 0int),
    );
    let windows = window_rows(min_up, min_down, initially_on, horizon, horizon as int);
    lemma_window_rows_in_range(min_up, min_down, initially_on, horizon, horizon as int);
    let all = spec_min_up_down_rows(min_up, min_down, initially_on, time_in_state, horizon);
    assert(all == on_fixes + off_fixes + windows);
    assert forall|i: int| 0 <= i < all.len() implies row_in_horizon(#[trigger] all[i], horizon) by {
        if i < on_fixes.len() {
            assert(all[i] == on_fixes[i]);
            assert(all[i].2[0] == crate::commitment::term(i, 1));
        } else if i < on_fixes.len() + off_fixes.len() {
            assert(all[i] == off_fixes[i - on_fixes.len()]);
            assert(all[i].2[0] == crate::commitment::term(i - on_fixes.len(), 1));
        } else {
            assert(all[i] == windows[i - on_fixes.len() - off_fixes.len()]);
        }
    }
}

/// Reporting the same violations a second time adds no flow cut: once the cut
/// set holds what a list of violations produced from it, the same list brings
/// no new cut and leaves the set as it is.
pub proof fn lemma_cut_extension_idempotent(
    system: System,
    before: Seq<FlowCutKey>,
    violations: Seq<LineViolation>,
    after: Seq<FlowCutKey>,
)
    requires
        forall|k: FlowCutKey| after.contains(k) <==> produced(system, before, violations, violations.len() as int, k),
    ensures
        new_cut_count(system, after, violations, violations.len() as int) == 0,
        forall|k: FlowCutKey| produced(system, after, violations, violations.len() as int, k) <==> after.contains(k),
{
    lemma_no_new_cut_prefix(system, before, violations, after, violations.len() as int);
    reveal(produced);
    assert forall|k: FlowCutKey| produced(system, after, violations, violations.len() as int, k) implies after.contains(k) by {
        if !after.contains(k) {
            let j = choose|j: int| 0 <= j < violations.len() && violation_cut(system, #[trigger] violations[j]) == Some(k);
            assert(produced(system, before, violations, violations.len() as int, k));
        }
    }
}

/// The slack that relaxation gives to an operational limit constraint is the
/// variable that the infeasibility report reads for that limit and period:
/// relaxing the constraint of period `t` (counted from 0) yields the slack
/// named for period `t + 1`, on the same side of the limit.
pub proof fn lemma_slack_names_match_report(is_lower: bool, plant: Seq<char>, variable: OperationalLimitVariable, t: nat)
    ensures
        slack_of(spec_operational_limit_constraint_name(is_lower, plant, variable, t))
            == Some((spec_operational_limit_slack_name(is_lower, plant, variable, t + 1), is_lower)),
{
    let lower = "operational_limit_lower"@;
    let upper = "operational_limit_upper"@;
    reveal_strlit("operational_limit_lower");
    reveal_strlit("operational_limit_upper");
    let name = spec_operational_limit_constraint_name(is_lower, plant, variable, t);
    let prefix = if is_lower { lower } else { upper };
    let rest = "[p="@ + plant + ",var="@ + crate::naming::spec_operational_limit_variable_label(variable) + ",t="@
        + crate::naming::period_text(t) + "]"@;
    assert(name =~= prefix + rest);
    assert(name.take(prefix.len() as int) =~= prefix);
    assert(name.skip(prefix.len() as int) =~= rest);
    if !is_lower {
        assert(name[18] != lower[18]);
        assert(!spec_starts_with(name, lower)) by {
            if spec_starts_with(name, lower) {
                assert(name.take(lower.len() as int)[18] == lower[18]);
            }
        }
    }
    assert(spec_operational_limit_slack_name(is_lower, plant, variable, t + 1) =~= (if is_lower {
        "operational_limit_slack_lower"@
    } else {
        "operational_limit_slack_upper"@
    }) + rest);
}

proof fn lemma_linked_from_contains(codes: Seq<usize>, targets: Seq<Option<HydroPlantId>>, c: usize, n: int, j: int)
    requires
        codes.len() == targets.len(),
        0 <= n <= codes.len(),
        0 <= j < codes.len(),
        forall|a: int, b: int| 0 <= a < b < codes.len() ==> codes[a] != codes[b],
    ensures
        spec_linked_from(codes, targets, c, n).contains(HydroPlantId(codes[j]))
            <==> (j < n && targets[j] == Some(HydroPlantId(c))),
    decreases n,
{
    if n > 0 {
        lemma_linked_from_contains(codes, targets, c, n - 1, j);
        let prev = spec_linked_from(codes, targets, c, n - 1);
        let cur = spec_linked_from(codes, targets, c, n);
        if targets[n - 1] == Some(HydroPlantId(c)) {
            assert(cur =~= prev.push(HydroPlantId(codes[n - 1])));
            if cur.contains(HydroPlantId(codes[j])) && j != n - 1 {
                let k = choose|k: int| 0 <= k < cur.len() && cur[k] == HydroPlantId(codes[j]);
                if k == cur.len() - 1 {
                    if j < n - 1 {
                        assert(codes[j] != codes[n - 1]);
                    } else {
                        assert(codes[n - 1] != codes[j]);
                    }
                } else {
                    assert(prev[k] == HydroPlantId(codes[j]));
                }
            }
            if j == n - 1 {
                assert(cur[cur.len() - 1] == HydroPlantId(codes[j]));
            }
            if prev.contains(HydroPlantId(codes[j])) {
                let k = choose|k: int| 0 <= k < prev.len() && prev[k] == HydroPlantId(codes[j]);
                assert(cur[k] == HydroPlantId(codes[j]));
            }
        } else {
            assert(cur =~= prev);
        }
    }
}

/// With distinct plant codes, the lists built from the plant table describe the
/// same cascade as the table's links: the list of plant `i` holds plant `j`
/// exactly when the link of plant `j` points at plant `i`. This is the mutual
/// linkage that study validation demands.
pub proof fn lemma_cascade_lists_mirror_links(codes: Seq<usize>, targets: Seq<Option<HydroPlantId>>, i: int, j: int)
    requires
        codes.len() == targets.len(),
        0 <= i < codes.len(),
        0 <= j < codes.len(),
        forall|a: int, b: int| 0 <= a < b < codes.len() ==> codes[a] != codes[b],
    ensures
        spec_linked_from(codes, targets, codes[i], codes.len() as int).contains(HydroPlantId(codes[j]))
            <==> targets[j] == Some(HydroPlantId(codes[i])),
{
    lemma_linked_from_contains(codes, targets, codes[i], codes.len() as int, j);
}
/// With distinct bus identifiers, the angle reference bus takes no column of
/// the reduced DC network, and every other bus takes the column at which the
/// list of non-reference buses holds it.
pub proof fn lemma_reduced_network_columns(system: System, i: int)
    requires
        distinct_ids(system.bus_ids()),
        0 <= i < system.buses@.len(),
    ensures
        system.buses@[i].angle_reference ==> spec_bus_column(system.buses@, system.buses@[i].id) is None,
        !system.buses@[i].angle_reference ==> (spec_bus_column(system.buses@, system.buses@[i].id) matches Some(p)
            && spec_non_reference_buses(system.buses@)[p] == i),
{
    let buses = system.buses@;
    let nr = spec_non_reference_buses(buses);
    let id = buses[i].id;
    lemma_non_reference_in_range(buses);
    lemma_column_in_range(buses, nr, id);
    // Two buses with the same identifier are the same bus.
    assert forall|j: int| 0 <= j < buses.len() && #[trigger] buses[j].id == id implies j == i by {
        if j != i {
            assert(system.bus_ids()[j] == buses[j].id.0);
            assert(system.bus_ids()[i] == buses[i].id.0);
            if j < i {
                assert(system.bus_ids()[j] != system.bus_ids()[i]);
            } else {
                assert(system.bus_ids()[i] != system.bus_ids()[j]);
            }
        }
    }
    if buses[i].angle_reference {
        assert forall|k: int| 0 <= k < nr.len() implies buses[#[trigger] nr[k]].id != id by {
            if buses[nr[k]].id == id {
                assert(nr[k] == i);
            }
        }
        lemma_column_absent(buses, nr, id);
    } else {
        lemma_non_reference_listed(buses, i);
        let p = choose|p: int| 0 <= p < nr.len() && #[trigger] nr[p] == i;
        lemma_column_some(buses, nr, id, p);
        let k = spec_bus_column(buses, id)->0;
        assert(buses[nr[k]].id == id);
    }
}

/// A study that passes validation is structurally sound: its horizon has a
/// period, it has submarkets and buses, identifiers are unique within each kind
/// of entity, exactly one bus is the angle reference, every bus lies in a known
/// submarket, every branch joins two different known buses, every plant sits on
/// a known bus of a known submarket and the first bus with that identifier
/// belongs to that submarket, every pumping plant pumps between two existing
/// hydro plants, and every demand, inflow, withdrawal and
/// availability series covers the horizon.
pub proof fn lemma_consistent_study_is_sound(system: System)
    requires
        system.is_consistent(),
    ensures
        system.horizon.periods >= 1,
        system.submarkets@.len() > 0,
        system.buses@.len() > 0,
        distinct_ids(system.submarket_ids()),
        distinct_ids(system.bus_ids()),
        distinct_ids(system.branch_ids()),
        distinct_ids(system.thermal_plant_ids()),
        distinct_ids(system.hydro_plant_ids()),
        distinct_ids(system.renewable_plant_ids()),
        reference_bus_count(system.buses@) == 1,
        forall|i: int| 0 <= i < system.submarkets@.len()
            ==> (#[trigger] system.submarkets@[i]).demand_periods == system.horizon.periods,
        forall|i: int| 0 <= i < system.buses@.len() ==> {
            &&& system.has_submarket((#[trigger] system.buses@[i]).submarket_id)
            &&& system.buses@[i].demand_periods == system.horizon.periods
        },
        forall|i: int| 0 <= i < system.branches@.len() ==> {
            &&& (#[trigger] system.branches@[i]).from_bus_id != system.branches@[i].to_bus_id
            &&& system.has_bus(system.branches@[i].from_bus_id)
            &&& system.has_bus(system.branches@[i].to_bus_id)
        },
        forall|i: int| 0 <= i < system.thermal_plants@.len() ==> {
            &&& system.has_bus((#[trigger] system.thermal_plants@[i]).bus_id)
            &&& system.has_submarket(system.thermal_plants@[i].submarket_id)
            &&& system.bus_in_submarket(system.thermal_plants@[i].bus_id, system.thermal_plants@[i].submarket_id)
        },
        forall|i: int| 0 <= i < system.hydro_plants@.len() ==> {
            &&& system.has_bus((#[trigger] system.hydro_plants@[i]).bus_id)
            &&& system.has_submarket(system.hydro_plants@[i].submarket_id)
            &&& system.bus_in_submarket(system.hydro_plants@[i].bus_id, system.hydro_plants@[i].submarket_id)
            &&& system.hydro_plants@[i].inflow_periods == system.horizon.periods
            &&& system.hydro_plants@[i].withdrawal_periods == system.horizon.periods
        },
        forall|i: int| 0 <= i < system.renewable_plants@.len() ==> {
            &&& system.has_bus((#[trigger] system.renewable_plants@[i]).bus_id)
            &&& system.has_submarket(system.renewable_plants@[i].submarket_id)
            &&& system.bus_in_submarket(system.renewable_plants@[i].bus_id, system.renewable_plants@[i].submarket_id)
            &&& system.renewable_plants@[i].available_periods == system.horizon.periods
        },
        forall|i: int| 0 <= i < system.pumping_plants@.len() ==> {
            &&& system.has_bus((#[trigger] system.pumping_plants@[i]).bus_id)
            &&& system.has_submarket(system.pumping_plants@[i].submarket_id)
            &&& system.bus_in_submarket(system.pumping_plants@[i].bus_id, system.pumping_plants@[i].submarket_id)
            &&& system.has_hydro_plant(system.pumping_plants@[i].upstream_hydro_id)
            &&& system.has_hydro_plant(system.pumping_plants@[i].downstream_hydro_id)
        },
{
    let periods = system.horizon.periods;
    assert forall|i: int| 0 <= i < system.submarkets@.len()
        implies (#[trigger] system.submarkets@[i]).demand_periods == periods by {
        lemma_upto_all_ok(system.submarkets@.len() as int, system.submarket_checker(), i);
    }
    assert forall|i: int| 0 <= i < system.buses@.len() implies {
        &&& system.has_submarket((#[trigger] system.buses@[i]).submarket_id)
        &&& system.buses@[i].demand_periods == periods
    } by {
        lemma_upto_all_ok(system.buses@.len() as int, system.bus_checker(), i);
    }
    assert forall|i: int| 0 <= i < system.branches@.len() implies {
        &&& (#[trigger] system.branches@[i]).from_bus_id != system.branches@[i].to_bus_id
        &&& system.has_bus(system.branches@[i].from_bus_id)
        &&& system.has_bus(system.branches@[i].to_bus_id)
    } by {
        lemma_upto_all_ok(system.branches@.len() as int, system.branch_checker(), i);
    }
    assert forall|i: int| 0 <= i < system.thermal_plants@.len() implies {
        &&& system.has_bus((#[trigger] system.thermal_plants@[i]).bus_id)
        &&& system.has_submarket(system.thermal_plants@[i].submarket_id)
        &&& system.bus_in_submarket(system.thermal_plants@[i].bus_id, system.thermal_plants@[i].submarket_id)
    } by {
        lemma_upto_all_ok(system.thermal_plants@.len() as int, system.thermal_checker(), i);
    }
    assert forall|i: int| 0 <= i < system.hydro_plants@.len() implies {
        &&& system.has_bus((#[trigger] system.hydro_plants@[i]).bus_id)
        &&& system.has_submarket(system.hydro_plants@[i].submarket_id)
        &&& system.bus_in_submarket(system.hydro_plants@[i].bus_id, system.hydro_plants@[i].submarket_id)
        &&& system.hydro_plants@[i].inflow_periods == periods
        &&& system.hydro_plants@[i].withdrawal_periods == periods
    } by {
        lemma_upto_all_ok(system.hydro_plants@.len() as int, system.hydro_checker(), i);
    }
    assert forall|i: int| 0 <= i < system.renewable_plants@.len() implies {
        &&& system.has_bus((#[trigger] system.renewable_plants@[i]).bus_id)
        &&& system.has_submarket(system.renewable_plants@[i].submarket_id)
        &&& system.bus_in_submarket(system.renewable_plants@[i].bus_id, system.renewable_plants@[i].submarket_id)
        &&& system.renewable_plants@[i].available_periods == periods
    } by {
        lemma_upto_all_ok(system.renewable_plants@.len() as int, system.renewable_checker(), i);
    }
    assert forall|i: int| 0 <= i < system.pumping_plants@.len() implies {
        &&& system.has_bus((#[trigger] system.pumping_plants@[i]).bus_id)
        &&& system.has_submarket(system.pumping_plants@[i].submarket_id)
        &&& system.bus_in_submarket(system.pumping_plants@[i].bus_id, system.pumping_plants@[i].submarket_id)
        &&& system.has_hydro_plant(system.pumping_plants@[i].upstream_hydro_id)
        &&& system.has_hydro_plant(system.pumping_plants@[i].downstream_hydro_id)
    } by {
        lemma_upto_all_ok(system.pumping_plants@.len() as int, system.pumping_checker(), i);
    }
}

/// A study that passes validation has sound exchanges, residual costs and
/// limits: every interchange limit joins two different known submarkets and no
/// two limits share a direction (opposite directions may both be limited); each
/// residual cost names a known submarket, no submarket has two, and with the
/// residual treatment on every submarket has one; every operational limit
/// covers periods within the horizon, has a bound, bounds a variable its kind
/// of plant has, and names an existing plant of that kind under its own name.
pub proof fn lemma_consistent_study_exchanges_and_limits(system: System)
    requires
        system.is_consistent(),
    ensures
        forall|i: int| 0 <= i < system.interchange_limits@.len() ==> {
            &&& (#[trigger] system.interchange_limits@[i]).from_submarket_id != system.interchange_limits@[i].to_submarket_id
            &&& system.has_submarket(system.interchange_limits@[i].from_submarket_id)
            &&& system.has_submarket(system.interchange_limits@[i].to_submarket_id)
        },
        forall|i: int, j: int| 0 <= i < j < system.interchange_limits@.len()
            ==> !((#[trigger] system.interchange_limits@[i]).from_submarket_id == (#[trigger] system.interchange_limits@[j]).from_submarket_id
                && system.interchange_limits@[i].to_submarket_id == system.interchange_limits@[j].to_submarket_id),
        forall|i: int| 0 <= i < system.residual_costs@.len()
            ==> system.has_submarket((#[trigger] system.residual_costs@[i]).submarket_id),
        forall|i: int, j: int| 0 <= i < j < system.residual_costs@.len()
            ==> (#[trigger] system.residual_costs@[i]).submarket_id != (#[trigger] system.residual_costs@[j]).submarket_id,
        system.ton_residual_enabled ==> system.residual_costs@.len() == system.submarkets@.len(),
        forall|i: int| 0 <= i < system.operational_limits@.len() ==> {
            &&& 1 <= (#[trigger] system.operational_limits@[i]).start_period <= system.operational_limits@[i].end_period
            &&& system.operational_limits@[i].end_period <= system.horizon.periods
            &&& (system.operational_limits@[i].has_lower_bound || system.operational_limits@[i].has_upper_bound)
            &&& crate::system::target_accepts(system.operational_limits@[i].target, system.operational_limits@[i].variable)
            &&& system.spec_limit_target(system.operational_limits@[i]) is Ok
        },
{
    let n = system.interchange_limits@.len() as int;
    assert forall|i: int| 0 <= i < n implies {
        &&& (#[trigger] system.interchange_limits@[i]).from_submarket_id != system.interchange_limits@[i].to_submarket_id
        &&& system.has_submarket(system.interchange_limits@[i].from_submarket_id)
        &&& system.has_submarket(system.interchange_limits@[i].to_submarket_id)
    } by {
        lemma_upto_all_ok(n, system.interchange_checker(), i);
    }
    assert forall|i: int, j: int| 0 <= i < j < n
        implies !((#[trigger] system.interchange_limits@[i]).from_submarket_id == (#[trigger] system.interchange_limits@[j]).from_submarket_id
            && system.interchange_limits@[i].to_submarket_id == system.interchange_limits@[j].to_submarket_id) by {
        lemma_upto_all_ok(n, system.interchange_checker(), j);
    }
    let m = system.residual_costs@.len() as int;
    assert forall|i: int| 0 <= i < m implies system.has_submarket((#[trigger] system.residual_costs@[i]).submarket_id) by {
        lemma_upto_all_ok(m, system.residual_cost_checker(), i);
    }
    assert forall|i: int, j: int| 0 <= i < j < m
        implies (#[trigger] system.residual_costs@[i]).submarket_id != (#[trigger] system.residual_costs@[j]).submarket_id by {
        lemma_upto_all_ok(m, system.residual_cost_checker(), j);
    }
    let q = system.operational_limits@.len() as int;
    assert forall|i: int| 0 <= i < q implies {
        &&& 1 <= (#[trigger] system.operational_limits@[i]).start_period <= system.operational_limits@[i].end_period
        &&& system.operational_limits@[i].end_period <= system.horizon.periods
        &&& (system.operational_limits@[i].has_lower_bound || system.operational_limits@[i].has_upper_bound)
        &&& crate::system::target_accepts(system.operational_limits@[i].target, system.operational_limits@[i].variable)
        &&& system.spec_limit_target(system.operational_limits@[i]) is Ok
    } by {
        lemma_upto_all_ok(q, system.limit_checker(), i);
    }
}

/// The index layout that `Indexing::from_system` builds leaves nothing out and
/// follows a fixed order: interchange entries go by period, then origin, then
/// destination, and hold every ordered pair of different submarkets in every
/// period of the horizon and nothing else; thermal unit entries go by plant then
/// unit, hydro unit entries by plant, group and unit, and each holds every unit
/// of the study exactly once, in the submarket of its plant.
pub proof fn lemma_index_layout_ordered_complete(system: System, ix: Indexing)
    requires
        ix.spec_from_system(system),
    ensures
        interchange_sorted(ix.interchange_entries@),
        forall|q: int| 0 <= q < ix.interchange_entries@.len()
            ==> interchange_valid(#[trigger] ix.interchange_entries@[q], system.horizon.periods as int, system.submarkets@.len() as int),
        forall|t: int, from: int, to: int| 0 <= t < system.horizon.periods && 0 <= from < system.submarkets@.len()
            && 0 <= to < system.submarkets@.len() && from != to
            ==> #[trigger] ix.interchange_entries@.contains(
                InterchangeIndex { from_submarket_idx: from as usize, to_submarket_idx: to as usize, period: t as usize }),
        thermal_entries_sorted(ix.thermal_unit_entries@),
        forall|q: int| 0 <= q < ix.thermal_unit_entries@.len() ==> {
            let e = #[trigger] ix.thermal_unit_entries@[q];
            &&& e.plant_idx < system.thermal_plants@.len()
            &&& e.unit_idx < system.thermal_plants@[e.plant_idx as int].units@.len()
            &&& e == thermal_entry(system, e.plant_idx as int, e.unit_idx as int)
        },
        forall|p: int, u: int| 0 <= p < system.thermal_plants@.len() && 0 <= u < system.thermal_plants@[p].units@.len()
            ==> #[trigger] ix.thermal_unit_entries@.contains(thermal_entry(system, p, u)),
        hydro_entries_sorted(ix.hydro_unit_entries@),
        forall|q: int| 0 <= q < ix.hydro_unit_entries@.len() ==> {
            let e = #[trigger] ix.hydro_unit_entries@[q];
            &&& e.plant_idx < system.hydro_plants@.len()
            &&& e.group_idx < system.hydro_plants@[e.plant_idx as int].groups@.len()
            &&& e.unit_idx < system.hydro_plants@[e.plant_idx as int].groups@[e.group_idx as int].units@.len()
            &&& e == hydro_entry(system, e.plant_idx as int, e.group_idx as int, e.unit_idx as int)
        },
        forall|p: int, g: int, u: int| 0 <= p < system.hydro_plants@.len() && 0 <= g < system.hydro_plants@[p].groups@.len()
            && 0 <= u < system.hydro_plants@[p].groups@[g].units@.len()
            ==> #[trigger] ix.hydro_unit_entries@.contains(hydro_entry(system, p, g, u)),
        ix.thermal_units == ix.thermal_unit_entries@.len(),
        ix.hydro_units == ix.hydro_unit_entries@.len(),
        ix.submarkets == system.submarkets@.len(),
{
    lemma_unit_counts_fit(system);
    lemma_interchange_entries_ordered_complete(system.horizon.periods as int, system.submarkets@.len() as int);
    lemma_thermal_entries_ordered_complete(system, system.thermal_plants@.len() as int);
    lemma_hydro_entries_ordered_complete(system, system.hydro_plants@.len() as int);
}

/// A complete run of the iterative option: it starts as the option starts, each
/// state follows from the one before by the outcome of the stage solved in it,
/// and the last state has nothing left to solve.
pub open spec fn is_complete_run(states: Seq<IterativeProcess>, outcomes: Seq<StageOutcome>, network_enabled: bool) -> bool {
    &&& states.len() == outcomes.len() + 1
    &&& states[0] == spec_start(network_enabled, ExecutionOption::Iterative)
    &&& forall|k: int| 0 <= k < outcomes.len() ==> {
        &&& states[k].phase != ProcessPhase::Finished
        &&& spec_advance(states[k], #[trigger] outcomes[k]) == Ok::<IterativeProcess, crate::iteration::ProcessError>(states[k + 1])
    }
    &&& states.last().phase == ProcessPhase::Finished
}

/// The state solves a stage of kind `stage` next.
pub open spec fn stage_is(p: IterativeProcess, stage: IterationStage) -> bool {
    match spec_current_stage(p) {
        Some((s, _)) => s == stage,
        None => false,
    }
}

pub open spec fn rank_at(states: Seq<IterativeProcess>, k: int) -> int {
    phase_rank(states[k].phase)
}

proof fn lemma_run_steps(states: Seq<IterativeProcess>, outcomes: Seq<StageOutcome>, network_enabled: bool, k: int)
    requires
        is_complete_run(states, outcomes, network_enabled),
        0 <= k < states.len(),
    ensures
        states[k].option == ExecutionOption::Iterative,
        states[k].network_enabled == network_enabled,
        k < outcomes.len() ==> {
            &&& states[k].phase != ProcessPhase::Finished
            &&& rank_at(states, k + 1) == rank_at(states, k) || rank_at(states, k + 1) == rank_at(states, k) + 1
            &&& (states[k].phase == ProcessPhase::Commitment || states[k].phase == ProcessPhase::Pricing)
                ==> rank_at(states, k + 1) == rank_at(states, k) + 1
        },
    decreases k,
{
    if k > 0 {
        lemma_run_steps(states, outcomes, network_enabled, k - 1);
        assert(spec_advance(states[k - 1], outcomes[k - 1]) == Ok::<IterativeProcess, crate::iteration::ProcessError>(states[k]));
    }
    if k < outcomes.len() {
        assert(spec_advance(states[k], outcomes[k]) == Ok::<IterativeProcess, crate::iteration::ProcessError>(states[k + 1]));
    }
}

proof fn lemma_run_monotone(states: Seq<IterativeProcess>, outcomes: Seq<StageOutcome>, network_enabled: bool, j: int, k: int)
    requires
        is_complete_run(states, outcomes, network_enabled),
        0 <= j <= k < states.len(),
    ensures
        rank_at(states, j) <= rank_at(states, k),
    decreases k - j,
{
    if j < k {
        lemma_run_steps(states, outcomes, network_enabled, k - 1);
        lemma_run_monotone(states, outcomes, network_enabled, j, k - 1);
    }
}

proof fn lemma_run_reaches(states: Seq<IterativeProcess>, outcomes: Seq<StageOutcome>, network_enabled: bool, k: int, v: int)
    requires
        is_complete_run(states, outcomes, network_enabled),
        0 <= k < states.len(),
        0 <= v <= rank_at(states, k),
    ensures
        exists|j: int| 0 <= j <= k && rank_at(states, j) == v,
    decreases k,
{
    if k == 0 {
        assert(rank_at(states, 0) == v);
    } else {
        lemma_run_steps(states, outcomes, network_enabled, k - 1);
        if v == rank_at(states, k) {
            assert(rank_at(states, k) == v);
        } else {
            lemma_run_reaches(states, outcomes, network_enabled, k - 1, v);
        }
    }
}

/// A rank taken by the mixed-integer or the pricing stage is taken once.
proof fn lemma_run_single(states: Seq<IterativeProcess>, outcomes: Seq<StageOutcome>, network_enabled: bool, i: int, j: int)
    requires
        is_complete_run(states, outcomes, network_enabled),
        0 <= i < j < states.len(),
        rank_at(states, i) == 1 || rank_at(states, i) == 3,
    ensures
        rank_at(states, i) < rank_at(states, j),
{
    lemma_run_steps(states, outcomes, network_enabled, i);
    assert(i < outcomes.len());
    lemma_run_monotone(states, outcomes, network_enabled, i + 1, j);
}

/// Over a whole run of the iterative option the stages come as the option
/// promises: one or more linear relaxations (LP), then a single mixed-integer
/// solve (MILP), then one or more linear problems with the commitment fixed
/// (LP-FIXED), then the pricing problem (LP-CALC-CMO), after which nothing is
/// left to solve: states `0..m` solve LP, state `m` the MILP, states `m+1..p`
/// LP-FIXED and state `p` LP-CALC-CMO. With the network on, the pricing problem
/// comes only once the last fixed problem violated no flow limit or was solved
/// with slacks.
pub proof fn lemma_iterative_run_order(states: Seq<IterativeProcess>, outcomes: Seq<StageOutcome>, network_enabled: bool)
    requires
        is_complete_run(states, outcomes, network_enabled),
    ensures
        exists|m: int, p: int| {
            &&& 1 <= m
            &&& m + 2 <= p
            &&& states.len() == p + 2
            &&& forall|k: int| 0 <= k < m ==> #[trigger] stage_is(states[k], IterationStage::LinearProgramming)
            &&& #[trigger] stage_is(states[m], IterationStage::MixedIntegerLinearProgramming)
            &&& forall|k: int| m < k < p ==> #[trigger] stage_is(states[k], IterationStage::LinearProgrammingWithFixedCommitment)
            &&& #[trigger] stage_is(states[p], IterationStage::LinearProgrammingForMarginalCost)
            &&& states[p + 1].phase == ProcessPhase::Finished
            &&& (network_enabled ==> !outcomes[p - 1].has_violations || outcomes[p - 1].used_slacks)
        },
{
    let last = states.len() - 1;
    assert(rank_at(states, 0) == 0);
    assert(rank_at(states, last) == 4);
    lemma_run_reaches(states, outcomes, network_enabled, last, 1);
    lemma_run_reaches(states, outcomes, network_enabled, last, 3);
    let m = choose|j: int| 0 <= j <= last && rank_at(states, j) == 1;
    let p = choose|j: int| 0 <= j <= last && rank_at(states, j) == 3;
    // Ranks around the mixed-integer and the pricing stages.
    if p < m {
        lemma_run_monotone(states, outcomes, network_enabled, p, m);
    }
    lemma_run_steps(states, outcomes, network_enabled, m);
    lemma_run_steps(states, outcomes, network_enabled, p);
    assert(m < outcomes.len());
    assert(p < outcomes.len());
    assert(rank_at(states, m + 1) == 2);
    assert(rank_at(states, p + 1) == 4);
    if p < m + 1 {
        lemma_run_monotone(states, outcomes, network_enabled, p, m + 1);
    }
    if p == m + 1 {
        assert(false);
    }
    assert forall|k: int| 0 <= k < m implies #[trigger] stage_is(states[k], IterationStage::LinearProgramming) by {
        lemma_run_monotone(states, outcomes, network_enabled, k, m);
        if rank_at(states, k) == 1 {
            lemma_run_single(states, outcomes, network_enabled, k, m);
        }
    }
    assert forall|k: int| m < k <= p - 1 implies #[trigger] stage_is(states[k], IterationStage::LinearProgrammingWithFixedCommitment) by {
        lemma_run_monotone(states, outcomes, network_enabled, m + 1, k);
        lemma_run_monotone(states, outcomes, network_enabled, k, p);
        if rank_at(states, k) == 3 {
            lemma_run_single(states, outcomes, network_enabled, k, p);
        }
    }
    // Nothing follows the pricing stage but the finished state.
    if p + 1 < last {
        lemma_run_steps(states, outcomes, network_enabled, p + 1);
    }
    assert(p + 1 == last);
    assert(spec_advance(states[p - 1], outcomes[p - 1]) == Ok::<IterativeProcess, crate::iteration::ProcessError>(states[p]));
    lemma_run_steps(states, outcomes, network_enabled, p - 1);
    assert(rank_at(states, p - 1) == 2) by {
        lemma_run_monotone(states, outcomes, network_enabled, m + 1, p - 1);
    }
    assert(stage_is(states[m], IterationStage::MixedIntegerLinearProgramming));
    assert(stage_is(states[p], IterationStage::LinearProgrammingForMarginalCost));
}

/// A unit that starts the study ramping goes on along its trajectory one step
/// per period until the trajectory ends, whatever step it starts at: from step
/// `step` of a trajectory of `steps` steps, period `p` is driven by step
/// `step + 1 + p` while that step exists and by no step afterwards, and two
/// consecutive periods are driven by consecutive steps.
pub proof fn lemma_initial_ramp_continues(step: nat, steps: nat, period: nat)
    requires
        step < steps,
    ensures
        crate::commitment::spec_initial_ramp_step(step, steps, period) is Some <==> step + 1 + period < steps,
        crate::commitment::spec_initial_ramp_step(step, steps, period) matches Some(k) ==> k == step + 1 + period && k < steps,
        crate::commitment::spec_initial_ramp_step(step, steps, period + 1) matches Some(k)
            ==> crate::commitment::spec_initial_ramp_step(step, steps, period) == Some((k - 1) as nat),
        step + 1 < steps ==> crate::commitment::spec_initial_ramp_step(step, steps, 0) == Some(step + 1),
{
}

/// The ramp of a unit that starts the study `time_in_ramp` periods into its
/// trajectory: the step it is at is `time_in_ramp - 1`, so period `p` is driven
/// by step `time_in_ramp + p` of the trajectory, the steps after the current
/// one, until the trajectory ends.
pub proof fn lemma_initial_ramp_from_time_in_ramp(
    unit: crate::ids::ThermalUnitId,
    kind: crate::system::TrajectoryKind,
    steps: usize,
    time_in_ramp: usize,
    period: nat,
)
    requires
        1 <= time_in_ramp <= steps,
    ensures
        crate::system::spec_ramp_step(unit, kind, steps, time_in_ramp) matches Ok(s)
            && crate::commitment::spec_initial_ramp_step(s as nat, steps as nat, period) == if time_in_ramp + period < steps {
                Some((time_in_ramp + period) as nat)
            } else {
                None::<nat>
            },
{
    lemma_initial_ramp_continues((time_in_ramp - 1) as nat, steps as nat, period);
}

/// A stage whose solve fails as infeasible is solved again with slacks whenever
/// the study has operational limits, with or without the network and whatever
/// the flow cuts; with the network, flow cuts alone also allow it; without the
/// network, flow cuts never do; and a stage that did not fail is never relaxed.
pub proof fn lemma_relaxation_after_failure(network_enabled: bool, infeasible: bool, cut_count: nat, limit_count: nat)
    ensures
        infeasible && limit_count > 0 ==> crate::iteration::spec_relax_after_failure(network_enabled, infeasible, cut_count, limit_count),
        infeasible && network_enabled && cut_count > 0
            ==> crate::iteration::spec_relax_after_failure(network_enabled, infeasible, cut_count, limit_count),
        !network_enabled ==> (crate::iteration::spec_relax_after_failure(network_enabled, infeasible, cut_count, limit_count)
            <==> infeasible && limit_count > 0),
        crate::iteration::spec_relax_after_failure(network_enabled, infeasible, cut_count, limit_count)
            ==> infeasible && (limit_count > 0 || cut_count > 0),
        crate::iteration::spec_relax_after_failure(network_enabled, infeasible, cut_count, limit_count)
            == crate::iteration::spec_relax_after_failure(network_enabled, infeasible, cut_count + 1, limit_count)
            || (network_enabled && cut_count == 0 && limit_count == 0),
{
}

/// Which commitment blocks a model carries, mode by mode: none in the linear
/// relaxation; in the mixed-integer problem and in the linear problem with the
/// commitment fixed, the thermal blocks exactly when thermal commitment is on
/// and the hydro blocks exactly when hydro commitment is on; they are fixed only
/// in the problem with the commitment fixed.
pub proof fn lemma_commitment_blocks_by_mode(thermal_enabled: bool, hydro_enabled: bool)
    ensures
        crate::model::spec_commitment_scope(crate::model::SolveMode::LinearProgramming, thermal_enabled, hydro_enabled)
            == (crate::model::CommitmentScope { thermal: false, hydro: false, fixed: false }),
        crate::model::spec_commitment_scope(crate::model::SolveMode::MixedIntegerLinearProgramming, thermal_enabled, hydro_enabled)
            == (crate::model::CommitmentScope { thermal: thermal_enabled, hydro: hydro_enabled, fixed: false }),
        crate::model::spec_commitment_scope(crate::model::SolveMode::LinearProgrammingWithFixedCommitment, thermal_enabled, hydro_enabled)
            == (crate::model::CommitmentScope { thermal: thermal_enabled, hydro: hydro_enabled, fixed: true }),
{
}

} // verus!
