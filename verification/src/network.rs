//! Structure of the DC power-flow model: the buses that keep an angle variable
//! (all but the angle reference), the column each of them takes, and the
//! incidence of every branch on those columns.

use vstd::prelude::*;
use crate::ids::BusId;
use crate::system::{Bus, System};

verus! {

/// Indices of the buses that are not an angle reference, in bus order.
pub open spec fn spec_non_reference_buses(buses: Seq<Bus>) -> Seq<int>
    decreases buses.len(),
{
    if buses.len() == 0 {
        Seq::<int>::empty()
    } else {
        let rest = spec_non_reference_buses(buses.drop_last());
        if buses.last().angle_reference {
            rest
        } else {
            rest.push(buses.len() - 1)
        }
    }
}

/// Column of the bus with identifier `id` among the first `columns` columns:
/// the last column whose bus has that identifier.
pub open spec fn spec_column_among(buses: Seq<Bus>, columns: Seq<int>, id: BusId) -> Option<int>
    decreases columns.len(),
{
    if columns.len() == 0 {
        None
    } else if buses[columns.last()].id == id {
        Some(columns.len() - 1)
    } else {
        spec_column_among(buses, columns.drop_last(), id)
    }
}

/// Column of a bus in the reduced network, or `None` for the angle reference
/// and for an unknown identifier.
pub open spec fn spec_bus_column(buses: Seq<Bus>, id: BusId) -> Option<int> {
    spec_column_among(buses, spec_non_reference_buses(buses), id)
}

/// Columns of the two ends of a branch in the reduced network.
#[derive(Debug, Clone, Copy, PartialEq, Eq, Structural)]
pub struct BranchTerminals {
    pub from_column: Option<usize>,
    pub to_column: Option<usize>,
}

pub open spec fn same_column(c: Option<usize>, s: Option<int>) -> bool {
    match s {
        Some(k) => c == Some(k as usize),
        None => c is None,
    }
}

/// Entry of the reduced incidence matrix: `-1` at the column of the receiving
/// bus, `1` at that of the sending bus (the receiving end is written last, so
/// it wins when both ends share a column), `0` elsewhere.
pub open spec fn spec_incidence(t: BranchTerminals, column: int) -> int {
    if t.to_column == Some(column as usize) {
        -1
    } else if t.from_column == Some(column as usize) {
        1
    } else {
        0
    }
}

pub proof fn lemma_non_reference_in_range(buses: Seq<Bus>)
    ensures
        spec_non_reference_buses(buses).len() <= buses.len(),
        forall|p: int| 0 <= p < spec_non_reference_buses(buses).len()
            ==> 0 <= #[trigger] spec_non_reference_buses(buses)[p] < buses.len()
                && !buses[spec_non_reference_buses(buses)[p]].angle_reference,
    decreases buses.len(),
{
    if buses.len() > 0 {
        lemma_non_reference_in_range(buses.drop_last());
    }
}

pub proof fn lemma_column_in_range(buses: Seq<Bus>, columns: Seq<int>, id: BusId)
    ensures
        match spec_column_among(buses, columns, id) {
            Some(k) => 0 <= k < columns.len() && buses[columns[k]].id == id,
            None => true,
        },
    decreases columns.len(),
{
    if columns.len() > 0 && buses[columns.last()].id != id {
        lemma_column_in_range(buses, columns.drop_last(), id);
    }
}

pub proof fn lemma_column_absent(buses: Seq<Bus>, columns: Seq<int>, id: BusId)
    requires
        forall|k: int| 0 <= k < columns.len() ==> buses[#[trigger] columns[k]].id != id,
    ensures
        spec_column_among(buses, columns, id) is None,
    decreases columns.len(),
{
    if columns.len() > 0 {
        assert(buses[columns[columns.len() - 1]].id != id);
        assert forall|k: int| 0 <= k < columns.drop_last().len() implies buses[#[trigger] columns.drop_last()[k]].id != id by {
            assert(columns.drop_last()[k] == columns[k]);
        }
        lemma_column_absent(buses, columns.drop_last(), id);
    }
}

pub proof fn lemma_column_some(buses: Seq<Bus>, columns: Seq<int>, id: BusId, p: int)
    requires
        0 <= p < columns.len(),
        buses[columns[p]].id == id,
    ensures
        spec_column_among(buses, columns, id) is Some,
    decreases columns.len(),
{
    if buses[columns.last()].id != id {
        assert(columns.drop_last()[p] == columns[p]);
        lemma_column_some(buses, columns.drop_last(), id, p);
    }
}

pub proof fn lemma_non_reference_listed(buses: Seq<Bus>, i: int)
    requires
        0 <= i < buses.len(),
        !buses[i].angle_reference,
    ensures
        exists|p: int| 0 <= p < spec_non_reference_buses(buses).len() && #[trigger] spec_non_reference_buses(buses)[p] == i,
    decreases buses.len(),
{
    let rest = spec_non_reference_buses(buses.drop_last());
    if i == buses.len() - 1 {
        assert(spec_non_reference_buses(buses)[rest.len() as int] == i);
    } else {
        assert(buses.drop_last()[i] == buses[i]);
        lemma_non_reference_listed(buses.drop_last(), i);
        let p = choose|p: int| 0 <= p < rest.len() && #[trigger] rest[p] == i;
        assert(spec_non_reference_buses(buses)[p] == i);
    }
}

/// Indices of the buses that keep an angle variable, in bus order; the
/// position of a bus in this list is its column in the reduced network.
pub fn non_reference_buses(system: &System) -> (r: Vec<usize>)
    ensures
        r@.len() == spec_non_reference_buses(system.buses@).len(),
        forall|p: int| 0 <= p < r@.len() ==> r@[p] as int == #[trigger] spec_non_reference_buses(system.buses@)[p],
{
    let mut r: Vec<usize> = Vec::new();
    let mut i: usize = 0;
    while i < system.buses.len()
        invariant
            i <= system.buses@.len(),
            r@.len() == spec_non_reference_buses(system.buses@.take(i as int)).len(),
            forall|p: int| 0 <= p < r@.len()
                ==> r@[p] as int == #[trigger] spec_non_reference_buses(system.buses@.take(i as int))[p],
        decreases system.buses@.len() - i,
    {
        proof {
            assert(system.buses@.take(i as int + 1).drop_last() =~= system.buses@.take(i as int));
        }
        if !system.buses[i].angle_reference {
            r.push(i);
        }
        i = i + 1;
    }
    proof {
        assert(system.buses@.take(i as int) =~= system.buses@);
    }
    r
}

/// Column of the bus with identifier `id` in the reduced network, given the
/// list of non-reference buses.
pub fn bus_column(system: &System, columns: &Vec<usize>, id: BusId) -> (r: Option<usize>)
    requires
        columns@.len() == spec_non_reference_buses(system.buses@).len(),
        forall|p: int| 0 <= p < columns@.len()
            ==> columns@[p] as int == #[trigger] spec_non_reference_buses(system.buses@)[p],
    ensures
        same_column(r, spec_bus_column(system.buses@, id)),
        r matches Some(k) ==> k < columns@.len(),
{
    let ghost nr = spec_non_reference_buses(system.buses@);
    proof {
        lemma_non_reference_in_range(system.buses@);
    }
    let mut r: Option<usize> = None;
    let mut j: usize = 0;
    while j < columns.len()
        invariant
            j <= columns@.len(),
            columns@.len() == nr.len(),
            nr == spec_non_reference_buses(system.buses@),
            forall|p: int| 0 <= p < columns@.len() ==> columns@[p] as int == #[trigger] nr[p],
            forall|p: int| 0 <= p < nr.len() ==> 0 <= #[trigger] nr[p] < system.buses@.len(),
            same_column(r, spec_column_among(system.buses@, nr.take(j as int), id)),
            r matches Some(k) ==> k < j,
        decreases columns@.len() - j,
    {
        proof {
            assert(nr.take(j as int + 1).drop_last() =~= nr.take(j as int));
            assert(nr.take(j as int + 1).last() == nr[j as int]);
            assert(columns@[j as int] as int == nr[j as int]);
        }
        let bus = columns[j];
        if system.buses[bus].id == id {
            r = Some(j);
        }
        j = j + 1;
    }
    proof {
        assert(nr.take(j as int) =~= nr);
    }
    r
}

/// Columns of the two ends of every branch, in branch order.
pub fn branch_terminals(system: &System, columns: &Vec<usize>) -> (r: Vec<BranchTerminals>)
    requires
        columns@.len() == spec_non_reference_buses(system.buses@).len(),
        forall|p: int| 0 <= p < columns@.len()
            ==> columns@[p] as int == #[trigger] spec_non_reference_buses(system.buses@)[p],
    ensures
        r@.len() == system.branches@.len(),
        forall|b: int| 0 <= b < r@.len() ==> {
            &&& same_column((#[trigger] r@[b]).from_column, spec_bus_column(system.buses@, system.branches@[b].from_bus_id))
            &&& same_column(r@[b].to_column, spec_bus_column(system.buses@, system.branches@[b].to_bus_id))
        },
        forall|b: int| 0 <= b < r@.len() ==> {
            &&& ((#[trigger] r@[b]).from_column matches Some(k) ==> k < columns@.len())
            &&& (r@[b].to_column matches Some(k) ==> k < columns@.len())
        },
{
    let mut r: Vec<BranchTerminals> = Vec::new();
    let mut b: usize = 0;
    while b < system.branches.len()
        invariant
            b <= system.branches@.len(),
            r@.len() == b,
            columns@.len() == spec_non_reference_buses(system.buses@).len(),
            forall|p: int| 0 <= p < columns@.len()
                ==> columns@[p] as int == #[trigger] spec_non_reference_buses(system.buses@)[p],
            forall|q: int| 0 <= q < b ==> {
                &&& same_column((#[trigger] r@[q]).from_column, spec_bus_column(system.buses@, system.branches@[q].from_bus_id))
                &&& same_column(r@[q].to_column, spec_bus_column(system.buses@, system.branches@[q].to_bus_id))
            },
            forall|q: int| 0 <= q < b ==> {
                &&& ((#[trigger] r@[q]).from_column matches Some(k) ==> k < columns@.len())
                &&& (r@[q].to_column matches Some(k) ==> k < columns@.len())
            },
        decreases system.branches@.len() - b,
    {
        let from_column = bus_column(system, columns, system.branches[b].from_bus_id);
        let to_column = bus_column(system, columns, system.branches[b].to_bus_id);
        r.push(BranchTerminals { from_column, to_column });
        b = b + 1;
    }
    r
}

/// Reduced incidence matrix: one row per branch, one column per non-reference
/// bus, with `1` at the sending bus and `-1` at the receiving bus.
pub fn reduced_incidence(terminals: &Vec<BranchTerminals>, column_count: usize) -> (r: Vec<Vec<i64>>)
    ensures
        r@.len() == terminals@.len(),
        forall|b: int| 0 <= b < r@.len() ==> (#[trigger] r@[b])@.len() == column_count,
        forall|b: int, c: int| 0 <= b < r@.len() && 0 <= c < column_count
            ==> #[trigger] r@[b]@[c] == spec_incidence(terminals@[b], c),
{
    let mut r: Vec<Vec<i64>> = Vec::new();
    let mut b: usize = 0;
    while b < terminals.len()
        invariant
            b <= terminals@.len(),
            r@.len() == b,
            forall|q: int| 0 <= q < b ==> (#[trigger] r@[q])@.len() == column_count,
            forall|q: int, c: int| 0 <= q < b && 0 <= c < column_count
                ==> #[trigger] r@[q]@[c] == spec_incidence(terminals@[q], c),
        decreases terminals@.len() - b,
    {
        let t = terminals[b];
        let mut row: Vec<i64> = Vec::new();
        let mut c: usize = 0;
        while c < column_count
            invariant
                c <= column_count,
                row@.len() == c,
                t == terminals@[b as int],
                forall|k: int| 0 <= k < c ==> row@[k] == spec_incidence(t, k),
            decreases column_count - c,
        {
            let entry: i64 = if t.to_column == Some(c) {
                -1
            } else if t.from_column == Some(c) {
                1
            } else {
                0
            };
            row.push(entry);
            c = c + 1;
        }
        r.push(row);
        b = b + 1;
    }
    r
}

} // verus!
