//! Unit commitment logic that depends only on integer data: the layout of the
//! minimum up/down time constraints of a unit and the residence times of a
//! sequence of on/off states.

use vstd::prelude::*;
use crate::model::ConstraintSense;

verus! {

/// Family of a commitment constraint.
#[derive(Debug, Clone, Copy, PartialEq, Eq, Structural)]
pub enum CommitmentRowKind {
    /// The unit must stay on in an early period to honour its remaining up time.
    InitialOnFix,
    /// The unit must stay off in an early period to honour its remaining down time.
    InitialOffFix,
    /// Once started, the unit stays on for its minimum up time.
    MinUp,
    /// Once stopped, the unit stays off for its minimum down time.
    MinDown,
}

/// A term of a commitment constraint: `coefficient` times the on/off variable
/// of the unit in `period` (periods counted from 0).
#[derive(Debug, Clone, Copy, PartialEq, Eq, Structural)]
pub struct CommitmentTerm {
    pub period: usize,
    pub coefficient: i128,
}

/// A linear constraint over the on/off variables of one unit.
#[derive(Debug, Clone)]
pub struct CommitmentRow {
    pub kind: CommitmentRowKind,
    /// Period the constraint is written for (counted from 0).
    pub period: usize,
    pub terms: Vec<CommitmentTerm>,
    pub sense: ConstraintSense,
    pub rhs: i128,
}

/// Mathematical content of a commitment constraint.
pub type RowSpec = (CommitmentRowKind, int, Seq<CommitmentTerm>, ConstraintSense, int);

pub open spec fn row_view(row: CommitmentRow) -> RowSpec {
    (row.kind, row.period as int, row.terms@, row.sense, row.rhs as int)
}

pub open spec fn term(period: int, coefficient: int) -> CommitmentTerm {
    CommitmentTerm { period: period as usize, coefficient: coefficient as i128 }
}

/// Periods of the horizon in which the initial state is still binding:
/// `minimum - time_in_state` (when positive) for a unit in the matching state,
/// cut at the horizon.
pub open spec fn initial_fix_count(in_state: bool, minimum: nat, time_in_state: nat, horizon: nat) -> nat {
    if in_state && minimum > time_in_state {
        let remaining = (minimum - time_in_state) as nat;
        if remaining < horizon {
            remaining
        } else {
            horizon
        }
    } else {
        0
    }
}

/// Length of the window that starts in period `p`: the minimum time, cut at the end
/// of the horizon.
pub open spec fn window(minimum: nat, horizon: nat, p: int) -> int {
    if minimum < horizon - p {
        minimum as int
    } else {
        horizon - p
    }
}

/// Terms of a window constraint: the on/off variables of the `w` periods from
/// `p`, minus `w` times the variable of `p`, plus `w` times the variable of the
/// period before (when there is one).
pub open spec fn window_terms(p: int, w: int) -> Seq<CommitmentTerm> {
    Seq::new(w as nat, |j: int| term(p + j, 1)).push(term(p, -w)) + if p == 0 {
        Seq::<CommitmentTerm>::empty()
    } else {
        seq![term(p - 1, w)]
    }
}

pub open spec fn min_up_row(min_up: nat, initially_on: bool, horizon: nat, p: int) -> RowSpec {
    let w = window(min_up, horizon, p);
    (
        CommitmentRowKind::MinUp,
        p,
        window_terms(p, w),
        ConstraintSense::GreaterOrEqual,
        if p == 0 && initially_on {
            -w
        } else {
            0
        },
    )
}

pub open spec fn min_down_row(min_down: nat, initially_on: bool, horizon: nat, p: int) -> RowSpec {
    let w = window(min_down, horizon, p);
    (
        CommitmentRowKind::MinDown,
        p,
        window_terms(p, w),
        ConstraintSense::LessOrEqual,
        if p == 0 && initially_on {
            0
        } else {
            w
        },
    )
}

/// The minimum up and minimum down rows of the first `n` periods, alternating.
pub open spec fn window_rows(min_up: nat, min_down: nat, initially_on: bool, horizon: nat, n: int) -> Seq<RowSpec>
    decreases n,
{
    if n <= 0 {
        Seq::empty()
    } else {
        window_rows(min_up, min_down, initially_on, horizon, n - 1)
            + seq![min_up_row(min_up, initially_on, horizon, n - 1), min_down_row(min_down, initially_on, horizon, n - 1)]
    }
}

/// All commitment constraints of a unit: the initial on fixes, the initial off
/// fixes, then the minimum up and minimum down rows of every period.
pub open spec fn spec_min_up_down_rows(
    min_up: nat,
    min_down: nat,
    initially_on: bool,
    time_in_state: nat,
    horizon: nat,
) -> Seq<RowSpec> {
    Seq::new(
        initial_fix_count(initially_on, min_up, time_in_state, horizon),
        |p: int| (CommitmentRowKind::InitialOnFix, p, seq![term(p, 1)], ConstraintSense::Equal, 1int),
    ) + Seq::new(
        initial_fix_count(!initially_on, min_down, time_in_state, horizon),
        |p: int| (CommitmentRowKind::InitialOffFix, p, seq![term(p, 1)], ConstraintSense::Equal, 0int),
    ) + window_rows(min_up, min_down, initially_on, horizon, horizon as int)
}

fn window_row(
    kind: CommitmentRowKind,
    minimum: usize,
    initially_on: bool,
    horizon: usize,
    p: usize,
) -> (r: CommitmentRow)
    requires
        p < horizon,
        kind == CommitmentRowKind::MinUp || kind == CommitmentRowKind::MinDown,
    ensures
        kind == CommitmentRowKind::MinUp ==> row_view(r) == min_up_row(minimum as nat, initially_on, horizon as nat, p as int),
        kind == CommitmentRowKind::MinDown ==> row_view(r) == min_down_row(minimum as nat, initially_on, horizon as nat, p as int),
{
    let w: usize = if minimum < horizon - p {
        minimum
    } else {
        horizon - p
    };
    let mut terms: Vec<CommitmentTerm> = Vec::new();
    let mut j: usize = 0;
    while j < w
        invariant
            j <= w,
            w <= horizon - p,
            p < horizon,
                terms@ =~= Seq::new(j as nat, |k: int| term(p + k, 1)),
        decreases w - j,
    {
        terms.push(CommitmentTerm { period: p + j, coefficient: 1 });
        j = j + 1;
    }
    let wi = w as i128;
    terms.push(CommitmentTerm { period: p, coefficient: -wi });
    if p > 0 {
        terms.push(CommitmentTerm { period: p - 1, coefficient: wi });
    }
    proof {
        assert(terms@ =~= window_terms(p as int, w as int));
    }
    match kind {
        CommitmentRowKind::MinUp => {
            let rhs: i128 = if p == 0 && initially_on {
                -wi
            } else {
                0
            };
            CommitmentRow { kind, period: p, terms, sense: ConstraintSense::GreaterOrEqual, rhs }
        },
        _ => {
            let rhs: i128 = if p == 0 && initially_on {
                0
            } else {
                wi
            };
            CommitmentRow { kind, period: p, terms, sense: ConstraintSense::LessOrEqual, rhs }
        },
    }
}

fn fix_count(in_state: bool, minimum: usize, time_in_state: usize, horizon: usize) -> (r: usize)
    ensures
        r == initial_fix_count(in_state, minimum as nat, time_in_state as nat, horizon as nat),
        r <= horizon,
{
    let remaining: usize = if in_state {
        minimum.saturating_sub(time_in_state)
    } else {
        0
    };
    if remaining < horizon {
        remaining
    } else {
        horizon
    }
}

/// Minimum up/down time constraints of a unit over a horizon of `horizon`
/// periods, given its minimum times, its initial state and how long it has
/// been in that state.
#[verifier::loop_isolation(false)]
pub fn min_up_down_rows(
    min_up_time: usize,
    min_down_time: usize,
    initially_on: bool,
    time_in_state: usize,
    horizon: usize,
) -> (r: Vec<CommitmentRow>)
    requires
    ensures
        r@.len() == spec_min_up_down_rows(min_up_time as nat, min_down_time as nat, initially_on, time_in_state as nat, horizon as nat).len(),
        forall|i: int| 0 <= i < r@.len() ==> row_view(#[trigger] r@[i])
            == spec_min_up_down_rows(min_up_time as nat, min_down_time as nat, initially_on, time_in_state as nat, horizon as nat)[i],
{
    let ghost full = spec_min_up_down_rows(min_up_time as nat, min_down_time as nat, initially_on, time_in_state as nat, horizon as nat);
    let ghost on_fixes = Seq::new(
        initial_fix_count(initially_on, min_up_time as nat, time_in_state as nat, horizon as nat),
        |p: int| (CommitmentRowKind::InitialOnFix, p, seq![term(p, 1)], ConstraintSense::Equal, 1int),
    );
    let ghost off_fixes = Seq::new(
        initial_fix_count(!initially_on, min_down_time as nat, time_in_state as nat, horizon as nat),
        |p: int| (CommitmentRowKind::InitialOffFix, p, seq![term(p, 1)], ConstraintSense::Equal, 0int),
    );
    let mut rows: Vec<CommitmentRow> = Vec::new();

    let on_count = fix_count(initially_on, min_up_time, time_in_state, horizon);
    let mut p: usize = 0;
    while p < on_count
        invariant
            on_count == on_fixes.len(),
            p <= on_count,
            on_count <= horizon,
                rows@.len() == p,
            forall|i: int| 0 <= i < p ==> row_view(#[trigger] rows@[i]) == on_fixes[i],
        decreases on_count - p,
    {
        let mut terms: Vec<CommitmentTerm> = Vec::new();
        terms.push(CommitmentTerm { period: p, coefficient: 1 });
        proof {
            assert(terms@ =~= seq![term(p as int, 1)]);
        }
        rows.push(CommitmentRow { kind: CommitmentRowKind::InitialOnFix, period: p, terms, sense: ConstraintSense::Equal, rhs: 1 });
        p = p + 1;
    }

    let off_count = fix_count(!initially_on, min_down_time, time_in_state, horizon);
    let mut p: usize = 0;
    while p < off_count
        invariant
            on_count == on_fixes.len(),
            off_count == off_fixes.len(),
            p <= off_count,
            off_count <= horizon,
                rows@.len() == on_count + p,
            forall|i: int| 0 <= i < on_count ==> row_view(#[trigger] rows@[i]) == on_fixes[i],
            forall|i: int| on_count <= i < on_count + p ==> row_view(#[trigger] rows@[i]) == off_fixes[i - on_count],
        decreases off_count - p,
    {
        let mut terms: Vec<CommitmentTerm> = Vec::new();
        terms.push(CommitmentTerm { period: p, coefficient: 1 });
        proof {
            assert(terms@ =~= seq![term(p as int, 1)]);
        }
        rows.push(CommitmentRow { kind: CommitmentRowKind::InitialOffFix, period: p, terms, sense: ConstraintSense::Equal, rhs: 0 });
        p = p + 1;
    }

    let ghost fixed = on_fixes + off_fixes;
    let mut p: usize = 0;
    while p < horizon
        invariant
            fixed == on_fixes + off_fixes,
            fixed.len() == on_count + off_count,
            p <= horizon,
                rows@.len() == fixed.len() + 2 * p,
            forall|i: int| 0 <= i < fixed.len() ==> row_view(#[trigger] rows@[i]) == fixed[i],
            forall|i: int| fixed.len() <= i < rows@.len() ==> row_view(#[trigger] rows@[i])
                == window_rows(min_up_time as nat, min_down_time as nat, initially_on, horizon as nat, p as int)[i - fixed.len()],
        decreases horizon - p,
    {
        let ghost before = window_rows(min_up_time as nat, min_down_time as nat, initially_on, horizon as nat, p as int);
        assert(before.len() == 2 * p) by {
            lemma_window_rows_len(min_up_time as nat, min_down_time as nat, initially_on, horizon as nat, p as int);
        }
        rows.push(window_row(CommitmentRowKind::MinUp, min_up_time, initially_on, horizon, p));
        rows.push(window_row(CommitmentRowKind::MinDown, min_down_time, initially_on, horizon, p));
        p = p + 1;
    }
    proof {
        lemma_window_rows_len(min_up_time as nat, min_down_time as nat, initially_on, horizon as nat, horizon as int);
        assert(full =~= fixed + window_rows(min_up_time as nat, min_down_time as nat, initially_on, horizon as nat, horizon as int));
    }
    rows
}

proof fn lemma_window_rows_len(min_up: nat, min_down: nat, initially_on: bool, horizon: nat, n: int)
    requires
        n >= 0,
    ensures
        window_rows(min_up, min_down, initially_on, horizon, n).len() == 2 * n,
    decreases n,
{
    if n > 0 {
        lemma_window_rows_len(min_up, min_down, initially_on, horizon, n - 1);
    }
}

// ---------------------------------------------------------------------------
// Meaning of the rows over an assignment of on/off values.
// ---------------------------------------------------------------------------

/// Value of a sum of terms when the on/off variable of period `p` takes `on(p)`.
pub open spec fn terms_value(terms: Seq<CommitmentTerm>, on: spec_fn(int) -> int) -> int
    decreases terms.len(),
{
    if terms.len() == 0 {
        0
    } else {
        terms_value(terms.drop_last(), on) + terms.last().coefficient * on(terms.last().period as int)
    }
}

/// `on(t) + on(t + 1) + ... + on(t + w - 1)`.
pub open spec fn window_sum(on: spec_fn(int) -> int, t: int, w: int) -> int
    decreases w,
{
    if w <= 0 {
        0
    } else {
        window_sum(on, t, w - 1) + on(t + w - 1)
    }
}

/// Status of the unit before period `t`: the initial status before the first
/// period, the value of the previous period otherwise.
pub open spec fn status_before(on: spec_fn(int) -> int, initially_on: bool, t: int) -> int {
    if t == 0 {
        if initially_on {
            1
        } else {
            0
        }
    } else {
        on(t - 1)
    }
}

proof fn lemma_terms_value_push(s: Seq<CommitmentTerm>, x: CommitmentTerm, on: spec_fn(int) -> int)
    ensures
        terms_value(s.push(x), on) == terms_value(s, on) + x.coefficient * on(x.period as int),
{
    assert(s.push(x).drop_last() =~= s);
}

proof fn lemma_window_value(on: spec_fn(int) -> int, t: int, w: int)
    requires
        0 <= t,
        0 <= w,
        t + w <= usize::MAX,
    ensures
        terms_value(Seq::new(w as nat, |j: int| term(t + j, 1)), on) == window_sum(on, t, w),
    decreases w,
{
    if w > 0 {
        let s = Seq::new(w as nat, |j: int| term(t + j, 1));
        assert(s.drop_last() =~= Seq::new((w - 1) as nat, |j: int| term(t + j, 1)));
        lemma_window_value(on, t, w - 1);
        assert(s.last() == term(t + w - 1, 1));
        assert(s.last().period as int == t + w - 1);
        assert(s.last().coefficient == 1);
    } else {
        assert(Seq::new(w as nat, |j: int| term(t + j, 1)).len() == 0);
    }
}

proof fn lemma_window_terms_value(on: spec_fn(int) -> int, t: int, w: int)
    requires
        0 <= t,
        0 <= w <= i128::MAX,
        t + w <= usize::MAX,
    ensures
        terms_value(window_terms(t, w), on) == window_sum(on, t, w) - w * on(t) + if t == 0 {
            0
        } else {
            w * on(t - 1)
        },
{
    let ones = Seq::new(w as nat, |j: int| term(t + j, 1));
    lemma_window_value(on, t, w);
    lemma_terms_value_push(ones, term(t, -w), on);
    let x = term(t, -w);
    assert(x.coefficient * on(t) == -(w * on(t))) by (nonlinear_arith)
        requires
            x.coefficient == -w;
    if t == 0 {
        assert(window_terms(t, w) =~= ones.push(x));
    } else {
        let y = term(t - 1, w);
        assert(window_terms(t, w) =~= ones.push(x).push(y));
        lemma_terms_value_push(ones.push(x), y, on);
    }
}

proof fn lemma_window_rows_at(min_up: nat, min_down: nat, initially_on: bool, horizon: nat, n: int, t: int)
    requires
        0 <= t < n,
    ensures
        window_rows(min_up, min_down, initially_on, horizon, n).len() == 2 * n,
        window_rows(min_up, min_down, initially_on, horizon, n)[2 * t] == min_up_row(min_up, initially_on, horizon, t),
        window_rows(min_up, min_down, initially_on, horizon, n)[2 * t + 1] == min_down_row(min_down, initially_on, horizon, t),
    decreases n,
{
    lemma_window_rows_len(min_up, min_down, initially_on, horizon, n);
    lemma_window_rows_len(min_up, min_down, initially_on, horizon, n - 1);
    if t < n - 1 {
        lemma_window_rows_at(min_up, min_down, initially_on, horizon, n - 1, t);
    }
}

/// What the commitment rows of a unit say: first, for each of the periods in
/// which the initial state still binds, the unit is held on (or off); then, for
/// every period `t`, the unit started in `t` stays on over the next `w` periods
/// (`on(t) + ... + on(t + w - 1) >= w * (on(t) - on(t - 1))`, `w` the minimum up
/// time cut at the horizon) and the unit stopped in `t` stays off over the next
/// `w'` periods (`on(t) + ... + on(t + w' - 1) <= w' * (1 + on(t) - on(t - 1))`),
/// where `on(-1)` is the initial status.
pub proof fn lemma_min_up_down_rows_meaning(
    min_up: nat,
    min_down: nat,
    initially_on: bool,
    time_in_state: nat,
    periods: usize,
    on: spec_fn(int) -> int,
    t: int,
)
    requires
        0 <= t < periods,
    ensures
        ({
            let horizon = periods as nat;
            let rows = spec_min_up_down_rows(min_up, min_down, initially_on, time_in_state, horizon);
            let k_on = initial_fix_count(initially_on, min_up, time_in_state, horizon);
            let k_off = initial_fix_count(!initially_on, min_down, time_in_state, horizon);
            let base = k_on + k_off;
            let up = rows[base + 2 * t];
            let down = rows[base + 2 * t + 1];
            let wu = window(min_up, horizon, t);
            let wd = window(min_down, horizon, t);
            let before = status_before(on, initially_on, t);
            &&& rows.len() == base + 2 * horizon
            &&& forall|i: int| 0 <= i < k_on ==> #[trigger] rows[i]
                == (CommitmentRowKind::InitialOnFix, i, seq![term(i, 1)], ConstraintSense::Equal, 1int)
            &&& forall|i: int| 0 <= i < k_off ==> #[trigger] rows[k_on + i]
                == (CommitmentRowKind::InitialOffFix, i, seq![term(i, 1)], ConstraintSense::Equal, 0int)
            &&& up.0 == CommitmentRowKind::MinUp && up.1 == t && up.3 == ConstraintSense::GreaterOrEqual
            &&& (terms_value(up.2, on) >= up.4 <==> window_sum(on, t, wu) >= wu * on(t) - wu * before)
            &&& down.0 == CommitmentRowKind::MinDown && down.1 == t && down.3 == ConstraintSense::LessOrEqual
            &&& (terms_value(down.2, on) <= down.4 <==> window_sum(on, t, wd) <= wd + wd * on(t) - wd * before)
        }),
{
    let horizon = periods as nat;
    let rows = spec_min_up_down_rows(min_up, min_down, initially_on, time_in_state, horizon);
    let k_on = initial_fix_count(initially_on, min_up, time_in_state, horizon);
    let k_off = initial_fix_count(!initially_on, min_down, time_in_state, horizon);
    let ons = Seq::new(k_on, |p: int| (CommitmentRowKind::InitialOnFix, p, seq![term(p, 1)], ConstraintSense::Equal, 1int));
    let offs = Seq::new(k_off, |p: int| (CommitmentRowKind::InitialOffFix, p, seq![term(p, 1)], ConstraintSense::Equal, 0int));
    let wins = window_rows(min_up, min_down, initially_on, horizon, horizon as int);
    lemma_window_rows_at(min_up, min_down, initially_on, horizon, horizon as int, t);
    assert(rows == ons + offs + wins);
    assert(rows[k_on + k_off + 2 * t] == wins[2 * t]);
    assert(rows[k_on + k_off + 2 * t + 1] == wins[2 * t + 1]);
    assert forall|i: int| 0 <= i < k_on implies #[trigger] rows[i]
        == (CommitmentRowKind::InitialOnFix, i, seq![term(i, 1)], ConstraintSense::Equal, 1int) by {
        assert(rows[i] == ons[i]);
    }
    assert forall|i: int| 0 <= i < k_off implies #[trigger] rows[k_on + i]
        == (CommitmentRowKind::InitialOffFix, i, seq![term(i, 1)], ConstraintSense::Equal, 0int) by {
        assert(rows[k_on + i] == offs[i]);
    }
    let wu = window(min_up, horizon, t);
    let wd = window(min_down, horizon, t);
    lemma_window_terms_value(on, t, wu);
    lemma_window_terms_value(on, t, wd);
    let before = status_before(on, initially_on, t);
    if t == 0 {
        if initially_on {
            assert(wu * before == wu && wd * before == wd) by (nonlinear_arith)
                requires
                    before == 1;
        } else {
            assert(wu * before == 0 && wd * before == 0) by (nonlinear_arith)
                requires
                    before == 0;
        }
    }
}

// ---------------------------------------------------------------------------
// Residence times.
// ---------------------------------------------------------------------------

/// State before period `i`: the initial state for the first period, the
/// previous status otherwise.
pub open spec fn previous_status(initially_on: bool, statuses: Seq<bool>, i: int) -> bool {
    if i == 0 {
        initially_on
    } else {
        statuses[i - 1]
    }
}

/// Number of consecutive periods, up to and including period `i`, that the unit
/// has been in its current state, counting the time it already had at the start.
pub open spec fn residence(initially_on: bool, initial_time: nat, statuses: Seq<bool>, i: int) -> nat
    decreases i,
{
    if i < 0 {
        initial_time
    } else {
        let before = if i == 0 {
            initial_time
        } else {
            residence(initially_on, initial_time, statuses, i - 1)
        };
        if statuses[i] == previous_status(initially_on, statuses, i) {
            before + 1
        } else {
            1
        }
    }
}

proof fn lemma_residence_bounds(initially_on: bool, initial_time: nat, statuses: Seq<bool>, i: int)
    requires
        0 <= i < statuses.len(),
    ensures
        1 <= residence(initially_on, initial_time, statuses, i) <= initial_time + i + 1,
    decreases i,
{
    if i > 0 {
        lemma_residence_bounds(initially_on, initial_time, statuses, i - 1);
    }
}

/// For each period, the time spent on (zero when off) and the time spent off
/// (zero when on) up to and including that period.
pub fn thermal_residence_times(initial_is_on: bool, initial_time_in_state: usize, statuses: &[bool]) -> (r: (Vec<usize>, Vec<usize>))
    requires
        initial_time_in_state + statuses@.len() <= usize::MAX,
    ensures
        r.0@.len() == statuses@.len(),
        r.1@.len() == statuses@.len(),
        forall|i: int| 0 <= i < statuses@.len() ==> {
            &&& #[trigger] r.0@[i] == if statuses@[i] {
                residence(initial_is_on, initial_time_in_state as nat, statuses@, i)
            } else {
                0
            }
            &&& r.1@[i] == if statuses@[i] {
                0
            } else {
                residence(initial_is_on, initial_time_in_state as nat, statuses@, i)
            }
        },
{
    let mut times_on: Vec<usize> = Vec::new();
    let mut times_off: Vec<usize> = Vec::new();
    let mut previous = initial_is_on;
    let mut current: usize = initial_time_in_state;
    let n = statuses.len();
    let mut i: usize = 0;
    while i < n
        invariant
            n == statuses@.len(),
            i <= n,
            initial_time_in_state + n <= usize::MAX,
            times_on@.len() == i,
            times_off@.len() == i,
            previous == previous_status(initial_is_on, statuses@, i as int),
            i == 0 ==> current == initial_time_in_state,
            i > 0 ==> current == residence(initial_is_on, initial_time_in_state as nat, statuses@, i - 1),
            current <= initial_time_in_state + i,
            forall|k: int| 0 <= k < i ==> {
                &&& #[trigger] times_on@[k] == if statuses@[k] {
                    residence(initial_is_on, initial_time_in_state as nat, statuses@, k)
                } else {
                    0
                }
                &&& times_off@[k] == if statuses@[k] {
                    0
                } else {
                    residence(initial_is_on, initial_time_in_state as nat, statuses@, k)
                }
            },
        decreases n - i,
    {
        let status = statuses[i];
        if status == previous {
            current = current + 1;
        } else {
            current = 1;
            previous = status;
        }
        proof {
            lemma_residence_bounds(initial_is_on, initial_time_in_state as nat, statuses@, i as int);
            assert(current == residence(initial_is_on, initial_time_in_state as nat, statuses@, i as int));
        }
        let ghost old_on = times_on@;
        let ghost old_off = times_off@;
        if status {
            times_on.push(current);
            times_off.push(0);
        } else {
            times_on.push(0);
            times_off.push(current);
        }
        proof {
            assert forall|k: int| 0 <= k < i implies times_on@[k] == old_on[k] && times_off@[k] == old_off[k] by {}
        }
        i = i + 1;
    }
    proof {
        assert forall|k: int| 0 <= k < statuses@.len() implies {
            &&& times_on@[k] == if statuses@[k] {
                residence(initial_is_on, initial_time_in_state as nat, statuses@, k)
            } else {
                0
            }
            &&& times_off@[k] == if statuses@[k] {
                0
            } else {
                residence(initial_is_on, initial_time_in_state as nat, statuses@, k)
            }
        } by {}
    }
    (times_on, times_off)
}


// ---------------------------------------------------------------------------
// Ramp trajectories.
// ---------------------------------------------------------------------------

/// A startup (or shutdown) decision of `period` that still drives the unit
/// along its trajectory, at trajectory step `step` (counted from 0).
#[derive(Debug, Clone, Copy, PartialEq, Eq, Structural)]
pub struct TrajectoryTerm {
    pub period: usize,
    pub step: usize,
}

/// Startups that place the unit on its startup trajectory in period `p`: a
/// startup `k` periods earlier (0 <= k <= p) puts it on step `k`, for every step
/// of the trajectory, in increasing `k`.
pub open spec fn spec_startup_terms(p: nat, startup_steps: nat) -> Seq<TrajectoryTerm> {
    let n = if startup_steps < p + 1 {
        startup_steps
    } else {
        p + 1
    };
    Seq::new(n, |k: int| TrajectoryTerm { period: (p - k) as usize, step: k as usize })
}

/// Shutdowns that place the unit on its shutdown trajectory in period `p`: a
/// shutdown `k` periods later (1 <= k <= steps, inside the horizon) means that
/// the unit is `k` steps before the end of the trajectory, in increasing `k`.
pub open spec fn spec_shutdown_terms(p: nat, horizon: nat, shutdown_steps: nat) -> Seq<TrajectoryTerm> {
    let room = horizon - p - 1;
    let n = if shutdown_steps < room {
        shutdown_steps as int
    } else {
        room
    };
    Seq::new(
        n as nat,
        |j: int| TrajectoryTerm { period: (p + j + 1) as usize, step: (shutdown_steps - (j + 1)) as usize },
    )
}

/// The startup decisions that drive the unit in period `period`.
pub fn startup_trajectory_terms(period: usize, startup_steps: usize) -> (r: Vec<TrajectoryTerm>)
    ensures
        r@ == spec_startup_terms(period as nat, startup_steps as nat),
{
    let mut r: Vec<TrajectoryTerm> = Vec::new();
    let mut k: usize = 0;
    while k < startup_steps
        invariant
            k <= startup_steps,
            r@ =~= Seq::new(
                if k <= period + 1 {
                    k as nat
                } else {
                    (period + 1) as nat
                },
                |m: int| TrajectoryTerm { period: (period - m) as usize, step: m as usize },
            ),
        decreases startup_steps - k,
    {
        if period >= k {
            r.push(TrajectoryTerm { period: period - k, step: k });
        }
        k = k + 1;
    }
    r
}

/// The shutdown decisions that drive the unit in period `period` of a horizon
/// of `horizon` periods.
pub fn shutdown_trajectory_terms(period: usize, horizon: usize, shutdown_steps: usize) -> (r: Vec<TrajectoryTerm>)
    requires
        period < horizon,
    ensures
        r@ == spec_shutdown_terms(period as nat, horizon as nat, shutdown_steps as nat),
{
    let mut r: Vec<TrajectoryTerm> = Vec::new();
    let room: usize = horizon - period - 1;
    let mut j: usize = 0;
    while j < shutdown_steps
        invariant
            j <= shutdown_steps,
            period < horizon,
            room == horizon - period - 1,
            r@ =~= Seq::new(
                if j <= room {
                    j as nat
                } else {
                    room as nat
                },
                |m: int| TrajectoryTerm { period: (period + m + 1) as usize, step: (shutdown_steps - (m + 1)) as usize },
            ),
        decreases shutdown_steps - j,
    {
        if j < room {
            r.push(TrajectoryTerm { period: period + j + 1, step: shutdown_steps - (j + 1) });
        }
        j = j + 1;
    }
    r
}

/// Where the part of a ramp profile that falls after the end of the horizon
/// begins, for a startup in `startup_period`: the profile covers the periods
/// left in the horizon first, and what remains lies beyond it.
pub open spec fn spec_post_horizon_start(profile_len: nat, horizon: nat, startup_period: nat) -> nat {
    let inside = if horizon > startup_period {
        (horizon - startup_period) as nat
    } else {
        0
    };
    if inside < profile_len {
        inside
    } else {
        profile_len
    }
}

/// Length of the profile that a startup commits the unit to: its startup
/// trajectory, then its minimum generation until the minimum up time is
/// reached, then (when `with_shutdown`) its shutdown trajectory.
pub open spec fn spec_committed_profile_len(startup_steps: nat, min_up_time: nat, shutdown_steps: nat, with_shutdown: bool) -> nat {
    (if min_up_time > startup_steps {
        min_up_time
    } else {
        startup_steps
    }) + if with_shutdown {
        shutdown_steps
    } else {
        0
    }
}

/// The steps of the committed profile of a startup in `startup_period` that lie
/// beyond the horizon: the index of the first one and how many there are.
pub fn post_horizon_steps(
    startup_steps: usize,
    min_up_time: usize,
    shutdown_steps: usize,
    with_shutdown: bool,
    horizon: usize,
    startup_period: usize,
) -> (r: (usize, usize))
    requires
        spec_committed_profile_len(startup_steps as nat, min_up_time as nat, shutdown_steps as nat, with_shutdown) <= usize::MAX,
    ensures
        ({
            let len = spec_committed_profile_len(startup_steps as nat, min_up_time as nat, shutdown_steps as nat, with_shutdown);
            let start = spec_post_horizon_start(len, horizon as nat, startup_period as nat);
            r.0 == start && r.1 == len - start
        }),
{
    let base = if min_up_time > startup_steps {
        min_up_time
    } else {
        startup_steps
    };
    let len = if with_shutdown {
        base + shutdown_steps
    } else {
        base
    };
    let inside = horizon.saturating_sub(startup_period);
    let start = if inside < len {
        inside
    } else {
        len
    };
    (start, len - start)
}
// ---------------------------------------------------------------------------
// Generation envelope of a ramping unit.
// ---------------------------------------------------------------------------

/// Variable of a unit in a row of its generation envelope.
#[derive(Debug, Clone, Copy, PartialEq, Eq, Structural)]
pub enum EnvelopeVar {
    Generation,
    On,
    Startup,
    Shutdown,
}

/// Coefficient of a term of the generation envelope: `1`, minus or plus the
/// generation limit of the row (the minimum generation in the lower row, the
/// maximum in the upper one), or minus the level of a trajectory step.
#[derive(Debug, Clone, Copy, PartialEq, Eq, Structural)]
pub enum EnvelopeCoefficient {
    One,
    MinusLimit,
    PlusLimit,
    MinusStartupLevel,
    MinusShutdownLevel,
}

/// A term of the envelope: `var` of `period`, with `coefficient`; `step` is the
/// trajectory step whose level a level coefficient reads.
#[derive(Debug, Clone, Copy, PartialEq, Eq, Structural)]
pub struct EnvelopeTerm {
    pub var: EnvelopeVar,
    pub period: usize,
    pub coefficient: EnvelopeCoefficient,
    pub step: usize,
}

pub open spec fn et(var: EnvelopeVar, period: usize, coefficient: EnvelopeCoefficient, step: usize) -> EnvelopeTerm {
    EnvelopeTerm { var, period, coefficient, step }
}

pub open spec fn mapped_terms(ts: Seq<TrajectoryTerm>, var: EnvelopeVar, coefficient: EnvelopeCoefficient) -> Seq<EnvelopeTerm> {
    ts.map_values(|t: TrajectoryTerm| et(var, t.period, coefficient, t.step))
}

/// Terms of the lower and upper generation rows of a unit in period `p`:
/// `generation - limit * on + sum(limit * startup) + sum(limit * shutdown)
/// - sum(level * startup) - sum(level * shutdown)` over the startups and
/// shutdowns that place the unit on a trajectory step in `p`. Outside its
/// trajectories the unit generates between its limits when on; on a step, it
/// generates that step's level.
pub open spec fn spec_envelope_terms(p: nat, horizon: nat, startup_steps: nat, shutdown_steps: nat) -> Seq<EnvelopeTerm> {
    let ups = spec_startup_terms(p, startup_steps);
    let downs = spec_shutdown_terms(p, horizon, shutdown_steps);
    seq![et(EnvelopeVar::Generation, p as usize, EnvelopeCoefficient::One, 0), et(EnvelopeVar::On, p as usize, EnvelopeCoefficient::MinusLimit, 0)]
        + mapped_terms(ups, EnvelopeVar::Startup, EnvelopeCoefficient::PlusLimit)
        + mapped_terms(downs, EnvelopeVar::Shutdown, EnvelopeCoefficient::PlusLimit)
        + mapped_terms(ups, EnvelopeVar::Startup, EnvelopeCoefficient::MinusStartupLevel)
        + mapped_terms(downs, EnvelopeVar::Shutdown, EnvelopeCoefficient::MinusShutdownLevel)
}

fn push_mapped(out: &mut Vec<EnvelopeTerm>, ts: &Vec<TrajectoryTerm>, var: EnvelopeVar, coefficient: EnvelopeCoefficient)
    ensures
        final(out)@ == old(out)@ + mapped_terms(ts@, var, coefficient),
{
    let ghost start = out@;
    let mut i: usize = 0;
    while i < ts.len()
        invariant
            i <= ts@.len(),
            out@ == start + mapped_terms(ts@.take(i as int), var, coefficient),
        decreases ts@.len() - i,
    {
        let t = ts[i];
        out.push(EnvelopeTerm { var, period: t.period, coefficient, step: t.step });
        proof {
            assert(mapped_terms(ts@.take(i as int + 1), var, coefficient)
                =~= mapped_terms(ts@.take(i as int), var, coefficient).push(et(var, t.period, coefficient, t.step)));
            assert(out@ =~= start + mapped_terms(ts@.take(i as int + 1), var, coefficient));
        }
        i = i + 1;
    }
    proof {
        assert(ts@.take(i as int) =~= ts@);
    }
}

/// Terms of the generation envelope rows of a unit in `period`.
pub fn envelope_terms(period: usize, horizon: usize, startup_steps: usize, shutdown_steps: usize) -> (r: Vec<EnvelopeTerm>)
    requires
        period < horizon,
    ensures
        r@ == spec_envelope_terms(period as nat, horizon as nat, startup_steps as nat, shutdown_steps as nat),
{
    let ups = startup_trajectory_terms(period, startup_steps);
    let downs = shutdown_trajectory_terms(period, horizon, shutdown_steps);
    let mut r: Vec<EnvelopeTerm> = Vec::new();
    r.push(EnvelopeTerm { var: EnvelopeVar::Generation, period, coefficient: EnvelopeCoefficient::One, step: 0 });
    r.push(EnvelopeTerm { var: EnvelopeVar::On, period, coefficient: EnvelopeCoefficient::MinusLimit, step: 0 });
    push_mapped(&mut r, &ups, EnvelopeVar::Startup, EnvelopeCoefficient::PlusLimit);
    push_mapped(&mut r, &downs, EnvelopeVar::Shutdown, EnvelopeCoefficient::PlusLimit);
    push_mapped(&mut r, &ups, EnvelopeVar::Startup, EnvelopeCoefficient::MinusStartupLevel);
    push_mapped(&mut r, &downs, EnvelopeVar::Shutdown, EnvelopeCoefficient::MinusShutdownLevel);
    proof {
        assert(r@ =~= spec_envelope_terms(period as nat, horizon as nat, startup_steps as nat, shutdown_steps as nat));
    }
    r
}

// ---------------------------------------------------------------------------
// Status transitions.
// ---------------------------------------------------------------------------

/// A commitment decision of a unit in a period.
#[derive(Debug, Clone, Copy, PartialEq, Eq, Structural)]
pub enum UnitDecision {
    On,
    Startup,
    Shutdown,
}

/// A decision variable of a unit (period counted from 0) with its coefficient.
#[derive(Debug, Clone, Copy, PartialEq, Eq, Structural)]
pub struct DecisionTerm {
    pub decision: UnitDecision,
    pub period: usize,
    pub coefficient: i64,
}

pub open spec fn dt(decision: UnitDecision, period: int, coefficient: int) -> DecisionTerm {
    DecisionTerm { decision, period: period as usize, coefficient: coefficient as i64 }
}

/// Status transition of period `p`: the unit is on when it was on before or
/// starts, and not when it shuts down, so `on(p) - startup(p) + shutdown(p) -
/// on(p - 1) = 0`; in the first period the previous status is the initial one
/// and moves to the right-hand side.
pub open spec fn spec_transition_terms(p: nat) -> Seq<DecisionTerm> {
    seq![dt(UnitDecision::On, p as int, 1), dt(UnitDecision::Startup, p as int, -1), dt(UnitDecision::Shutdown, p as int, 1)]
        + if p == 0 {
        Seq::<DecisionTerm>::empty()
    } else {
        seq![dt(UnitDecision::On, p - 1, -1)]
    }
}

pub open spec fn spec_transition_rhs(p: nat, initially_on: bool) -> int {
    if p == 0 && initially_on {
        1
    } else {
        0
    }
}

/// Terms and right-hand side of the status transition of `period`.
pub fn transition_row(period: usize, initially_on: bool) -> (r: (Vec<DecisionTerm>, i64))
    ensures
        r.0@ == spec_transition_terms(period as nat),
        r.1 == spec_transition_rhs(period as nat, initially_on),
{
    let mut terms: Vec<DecisionTerm> = Vec::new();
    terms.push(DecisionTerm { decision: UnitDecision::On, period, coefficient: 1 });
    terms.push(DecisionTerm { decision: UnitDecision::Startup, period, coefficient: -1 });
    terms.push(DecisionTerm { decision: UnitDecision::Shutdown, period, coefficient: 1 });
    let rhs: i64 = if period == 0 {
        if initially_on {
            1
        } else {
            0
        }
    } else {
        terms.push(DecisionTerm { decision: UnitDecision::On, period: period - 1, coefficient: -1 });
        0
    };
    proof {
        assert(terms@ =~= spec_transition_terms(period as nat));
    }
    (terms, rhs)
}

/// Step of its trajectory that a unit starting the study at step `step` (counted
/// from 0) of a trajectory of `steps` steps is at in `period`: the steps after
/// the current one, one per period, until the trajectory ends.
pub open spec fn spec_initial_ramp_step(step: nat, steps: nat, period: nat) -> Option<nat> {
    if step + 1 + period < steps {
        Some(step + 1 + period)
    } else {
        None
    }
}

/// The trajectory step that drives a unit that starts the study ramping, in
/// `period`, if its trajectory has not ended by then.
pub fn initial_ramp_step(step: usize, steps: usize, period: usize) -> (r: Option<usize>)
    ensures
        match spec_initial_ramp_step(step as nat, steps as nat, period as nat) {
            Some(k) => r == Some(k as usize),
            None => r is None,
        },
{
    if step < steps && period < steps - step - 1 {
        Some(step + 1 + period)
    } else {
        None
    }
}

} // verus!
