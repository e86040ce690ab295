//! The iterative solution process with network flow cuts: the stages that are
//! solved, the set of flow cuts that grows from one stage to the next, and the
//! decision taken after each stage.

use vstd::prelude::*;
use crate::ids::BranchId;
use crate::study::StudyInputError;
use crate::system::System;

verus! {

/// Stage of the iterative process.
#[derive(Debug, Clone, Copy, PartialEq, Eq, Structural)]
pub enum IterationStage {
    LinearProgramming,
    MixedIntegerLinearProgramming,
    LinearProgrammingWithFixedCommitment,
    /// Linear problem with the commitment fixed, solved once at the end to price
    /// the solution (marginal costs and water values).
    LinearProgrammingForMarginalCost,
}

pub open spec fn spec_stage_label(stage: IterationStage) -> Seq<char> {
    match stage {
        IterationStage::LinearProgramming => "LP"@,
        IterationStage::MixedIntegerLinearProgramming => "MILP"@,
        IterationStage::LinearProgrammingWithFixedCommitment => "LP-FIXED"@,
        IterationStage::LinearProgrammingForMarginalCost => "LP-CALC-CMO"@,
    }
}

impl IterationStage {
    /// Short label of the stage used in progress messages and reports.
    pub fn label(&self) -> (r: &'static str)
        ensures
            r@ == spec_stage_label(*self),
    {
        match self {
            IterationStage::LinearProgramming => "LP",
            IterationStage::MixedIntegerLinearProgramming => "MILP",
            IterationStage::LinearProgrammingWithFixedCommitment => "LP-FIXED",
            IterationStage::LinearProgrammingForMarginalCost => "LP-CALC-CMO",
        }
    }
}

/// A flow cut: the flow limit of branch `branch_idx` (position in the study's
/// branch list) enforced in `period` (counted from 0).
#[derive(Debug, Clone, Copy, PartialEq, Eq, Structural)]
pub struct FlowCutKey {
    pub branch_idx: usize,
    pub period: usize,
}

/// Cuts are ordered by branch, then by period.
pub open spec fn key_lt(a: FlowCutKey, b: FlowCutKey) -> bool {
    a.branch_idx < b.branch_idx || (a.branch_idx == b.branch_idx && a.period < b.period)
}

pub open spec fn strictly_sorted(s: Seq<FlowCutKey>) -> bool {
    forall|i: int, j: int| 0 <= i < j < s.len() ==> key_lt(s[i], s[j])
}

fn key_less(a: FlowCutKey, b: FlowCutKey) -> (r: bool)
    ensures
        r == key_lt(a, b),
{
    a.branch_idx < b.branch_idx || (a.branch_idx == b.branch_idx && a.period < b.period)
}

/// Set of flow cuts, kept in increasing order without repetition.
pub struct FlowCutSet {
    keys: Vec<FlowCutKey>,
}

impl View for FlowCutSet {
    type V = Seq<FlowCutKey>;

    closed spec fn view(&self) -> Seq<FlowCutKey> {
        self.keys@
    }
}

impl FlowCutSet {
    #[verifier::type_invariant]
    spec fn sorted(&self) -> bool {
        strictly_sorted(self.keys@)
    }

    /// The empty set.
    pub fn new() -> (r: FlowCutSet)
        ensures
            r@ == Seq::<FlowCutKey>::empty(),
    {
        FlowCutSet { keys: Vec::new() }
    }

    /// Number of cuts.
    pub fn len(&self) -> (r: usize)
        ensures
            r == self@.len(),
    {
        self.keys.len()
    }

    /// Whether the set holds no cut.
    pub fn is_empty(&self) -> (r: bool)
        ensures
            r == (self@.len() == 0),
    {
        self.keys.len() == 0
    }

    /// The cuts, in increasing order.
    pub fn keys(&self) -> (r: &Vec<FlowCutKey>)
        ensures
            r@ == self@,
            strictly_sorted(r@),
    {
        proof {
            use_type_invariant(self);
        }
        &self.keys
    }

    /// Whether the set holds the cut.
    pub fn contains(&self, key: FlowCutKey) -> (r: bool)
        ensures
            r == self@.contains(key),
    {
        let mut i: usize = 0;
        while i < self.keys.len()
            invariant
                i <= self.keys@.len(),
                forall|k: int| 0 <= k < i ==> self.keys@[k] != key,
            decreases self.keys@.len() - i,
        {
            if self.keys[i] == key {
                return true;
            }
            i = i + 1;
        }
        false
    }

    /// Adds a cut; returns whether it was not already present.
    pub fn insert(&mut self, key: FlowCutKey) -> (r: bool)
        ensures
            r == !old(self)@.contains(key),
            forall|k: FlowCutKey| final(self)@.contains(k) <==> (old(self)@.contains(k) || k == key),
            final(self)@.len() == old(self)@.len() + if r {
                1int
            } else {
                0int
            },
    {
        proof {
            use_type_invariant(&*self);
        }
        let n = self.keys.len();
        let mut i: usize = 0;
        while i < n && key_less(self.keys[i], key)
            invariant
                n == self.keys@.len(),
                i <= n,
                strictly_sorted(self.keys@),
                forall|k: int| 0 <= k < i ==> key_lt(self.keys@[k], key),
            decreases n - i,
        {
            i = i + 1;
        }
        if i < n && self.keys[i] == key {
            proof {
                assert(self.keys@.contains(key));
            }
            return false;
        }
        proof {
            assert forall|k: int| i <= k < n implies key_lt(key, self.keys@[k]) by {
                if k > i {
                    assert(key_lt(self.keys@[i as int], self.keys@[k]));
                }
            }
            assert(!self.keys@.contains(key)) by {
                if self.keys@.contains(key) {
                    let k = choose|k: int| 0 <= k < n && self.keys@[k] == key;
                    if k < i {
                        assert(key_lt(self.keys@[k], key));
                    } else {
                        assert(key_lt(key, self.keys@[k]));
                    }
                }
            }
        }
        let ghost before = self.keys@;
        let mut keys = Vec::new();
        std::mem::swap(&mut keys, &mut self.keys);
        keys.insert(i, key);
        proof {
            assert(keys@ == before.insert(i as int, key));
            assert forall|a: int, b: int| 0 <= a < b < keys@.len() implies key_lt(keys@[a], keys@[b]) by {
                if a < i && b == i {
                } else if a == i && b > i {
                } else if a < i && b > i {
                    assert(key_lt(before[a], before[b - 1]));
                } else if a > i {
                    assert(key_lt(before[a - 1], before[b - 1]));
                } else {
                    assert(key_lt(before[a], before[b]));
                }
            }
            assert forall|k: FlowCutKey| keys@.contains(k) <==> (before.contains(k) || k == key) by {
                if keys@.contains(k) {
                    let m = choose|m: int| 0 <= m < keys@.len() && keys@[m] == k;
                    if m < i {
                        assert(before[m] == k);
                    } else if m > i {
                        assert(before[m - 1] == k);
                    }
                }
                if before.contains(k) {
                    let m = choose|m: int| 0 <= m < before.len() && before[m] == k;
                    if m < i {
                        assert(keys@[m] == k);
                    } else {
                        assert(keys@[m + 1] == k);
                    }
                }
                if k == key {
                    assert(keys@[i as int] == k);
                }
            }
        }
        self.keys = keys;
        true
    }
}

/// A branch whose flow exceeded its limit in a period (counted from 1).
#[derive(Debug, Clone, Copy, PartialEq, Eq, Structural)]
pub struct LineViolation {
    pub branch_id: BranchId,
    pub period: usize,
}

/// Position of the first branch of the study with this identifier at or after
/// `from` (the number of branches when there is none).
pub open spec fn branch_position(system: System, id: BranchId, from: int) -> int
    decreases system.branches@.len() - from,
{
    if from < 0 || from >= system.branches@.len() {
        system.branches@.len() as int
    } else if system.branches@[from].id == id {
        from
    } else {
        branch_position(system, id, from + 1)
    }
}

/// The cut that a violation asks for, when its branch belongs to the study.
pub open spec fn violation_cut(system: System, v: LineViolation) -> Option<FlowCutKey> {
    let k = branch_position(system, v.branch_id, 0);
    if k < system.branches@.len() {
        Some(FlowCutKey { branch_idx: k as usize, period: (v.period - 1) as usize })
    } else {
        None
    }
}

fn find_branch(system: &System, id: BranchId) -> (r: Option<usize>)
    ensures
        match r {
            Some(k) => branch_position(*system, id, 0) == k && k < system.branches@.len(),
            None => branch_position(*system, id, 0) == system.branches@.len(),
        },
{
    let mut i: usize = 0;
    while i < system.branches.len()
        invariant
            i <= system.branches@.len(),
            branch_position(*system, id, 0) == branch_position(*system, id, i as int),
        decreases system.branches@.len() - i,
    {
        if system.branches[i].id == id {
            return Some(i);
        }
        i = i + 1;
    }
    None
}

/// The cut `k` is in `before` or is asked for by one of the first `n` violations.
#[verifier::opaque]
pub open spec fn produced(system: System, before: Seq<FlowCutKey>, violations: Seq<LineViolation>, n: int, k: FlowCutKey) -> bool {
    before.contains(k) || exists|j: int| 0 <= j < n && violation_cut(system, #[trigger] violations[j]) == Some(k)
}

/// Number of violations among the first `n` that bring a cut absent from `before`
/// and from the cuts of the earlier violations.
pub open spec fn new_cut_count(system: System, before: Seq<FlowCutKey>, violations: Seq<LineViolation>, n: int) -> nat
    decreases n,
{
    if n <= 0 {
        0
    } else {
        new_cut_count(system, before, violations, n - 1) + match violation_cut(system, violations[n - 1]) {
            Some(c) => if produced(system, before, violations, n - 1, c) {
                0nat
            } else {
                1nat
            },
            None => 0nat,
        }
    }
}

proof fn lemma_produced_step(system: System, before: Seq<FlowCutKey>, violations: Seq<LineViolation>, i: int, k: FlowCutKey)
    requires
        0 <= i < violations.len(),
    ensures
        produced(system, before, violations, i + 1, k) <==> (produced(system, before, violations, i, k)
            || violation_cut(system, violations[i]) == Some(k)),
{
    reveal(produced);
    if exists|j: int| 0 <= j < i + 1 && violation_cut(system, #[trigger] violations[j]) == Some(k) {
        let j = choose|j: int| 0 <= j < i + 1 && violation_cut(system, #[trigger] violations[j]) == Some(k);
        if j < i {
            assert(produced(system, before, violations, i, k));
        }
    }
}

proof fn lemma_produced_start(system: System, before: Seq<FlowCutKey>, violations: Seq<LineViolation>, k: FlowCutKey)
    ensures
        produced(system, before, violations, 0, k) <==> before.contains(k),
{
    reveal(produced);
}

/// The cuts asked for by the first `n` violations whose branch belongs to the study.
pub open spec fn cuts_asked(system: System, violations: Seq<LineViolation>, n: int) -> Set<FlowCutKey>
    decreases n,
{
    if n <= 0 {
        Set::empty()
    } else {
        let earlier = cuts_asked(system, violations, n - 1);
        match violation_cut(system, violations[n - 1]) {
            Some(c) => earlier.insert(c),
            None => earlier,
        }
    }
}

proof fn lemma_produced_is_union(system: System, before: Seq<FlowCutKey>, violations: Seq<LineViolation>, n: int, k: FlowCutKey)
    requires
        0 <= n <= violations.len(),
    ensures
        produced(system, before, violations, n, k) <==> (before.contains(k) || cuts_asked(system, violations, n).contains(k)),
        cuts_asked(system, violations, n).finite(),
    decreases n,
{
    if n == 0 {
        lemma_produced_start(system, before, violations, k);
    } else {
        lemma_produced_is_union(system, before, violations, n - 1, k);
        lemma_produced_step(system, before, violations, n - 1, k);
    }
}

/// The number of new cuts counted over the first `n` violations is the number of
/// distinct cuts they ask for that `before` does not hold.
pub proof fn lemma_new_cut_count_is_new_cuts(system: System, before: Seq<FlowCutKey>, violations: Seq<LineViolation>, n: int)
    requires
        0 <= n <= violations.len(),
    ensures
        cuts_asked(system, violations, n).difference(before.to_set()).finite(),
        new_cut_count(system, before, violations, n) == cuts_asked(system, violations, n).difference(before.to_set()).len(),
    decreases n,
{
    let b = before.to_set();
    if n == 0 {
        assert(cuts_asked(system, violations, 0).difference(b) =~= Set::<FlowCutKey>::empty());
    } else {
        lemma_new_cut_count_is_new_cuts(system, before, violations, n - 1);
        let earlier = cuts_asked(system, violations, n - 1).difference(b);
        let now = cuts_asked(system, violations, n).difference(b);
        match violation_cut(system, violations[n - 1]) {
            Some(c) => {
                lemma_produced_is_union(system, before, violations, n - 1, c);
                if produced(system, before, violations, n - 1, c) {
                    assert(now =~= earlier);
                } else {
                    assert(!earlier.contains(c));
                    assert(now =~= earlier.insert(c));
                }
            },
            None => {
                assert(now =~= earlier);
            },
        }
    }
}

/// Adds to `cut_set` the cut of every violation whose branch belongs to the
/// study and returns how many cuts were not there before.
pub fn extend_cut_set(cut_set: &mut FlowCutSet, system: &System, violations: &Vec<LineViolation>) -> (r: usize)
    requires
        forall|i: int| 0 <= i < violations@.len() && branch_position(*system, (#[trigger] violations@[i]).branch_id, 0)
            < system.branches@.len() ==> violations@[i].period >= 1,
    ensures
        forall|k: FlowCutKey| final(cut_set)@.contains(k) <==> produced(*system, old(cut_set)@, violations@, violations@.len() as int, k),
        r == new_cut_count(*system, old(cut_set)@, violations@, violations@.len() as int),
        final(cut_set)@.len() == old(cut_set)@.len() + r,
        final(cut_set)@.to_set() == old(cut_set)@.to_set().union(cuts_asked(*system, violations@, violations@.len() as int)),
        r == cuts_asked(*system, violations@, violations@.len() as int).difference(old(cut_set)@.to_set()).len(),
{
    let ghost start = cut_set@;
    proof {
        assert forall|k: FlowCutKey| cut_set@.contains(k) <==> produced(*system, start, violations@, 0, k) by {
            lemma_produced_start(*system, start, violations@, k);
        }
    }
    let mut new_cuts: usize = 0;
    let mut i: usize = 0;
    while i < violations.len()
        invariant
            i <= violations@.len(),
            forall|j: int| 0 <= j < violations@.len() && branch_position(*system, (#[trigger] violations@[j]).branch_id, 0)
                < system.branches@.len() ==> violations@[j].period >= 1,
            forall|k: FlowCutKey| cut_set@.contains(k) <==> produced(*system, start, violations@, i as int, k),
            new_cuts == new_cut_count(*system, start, violations@, i as int),
            cut_set@.len() == start.len() + new_cuts,
        decreases violations@.len() - i,
    {
        let v = violations[i];
        proof {
            assert forall|k: FlowCutKey| produced(*system, start, violations@, i + 1, k) <==> (produced(*system, start, violations@, i as int, k)
                || violation_cut(*system, violations@[i as int]) == Some(k)) by {
                lemma_produced_step(*system, start, violations@, i as int, k);
            }
        }
        match find_branch(system, v.branch_id) {
            Some(branch_idx) => {
                let key = FlowCutKey { branch_idx, period: v.period - 1 };
                let inserted = cut_set.insert(key);
                if inserted {
                    // The count stays below the size of the set, so it cannot overflow.
                    let size = cut_set.len();
                    assert(new_cuts < size);
                    new_cuts = new_cuts + 1;
                }
            },
            None => {},
        }
        i = i + 1;
    }
    proof {
        let n = violations@.len() as int;
        lemma_new_cut_count_is_new_cuts(*system, start, violations@, n);
        assert forall|k: FlowCutKey| cut_set@.to_set().contains(k)
            <==> start.to_set().union(cuts_asked(*system, violations@, n)).contains(k) by {
            lemma_produced_is_union(*system, start, violations@, n, k);
        }
        assert(cut_set@.to_set() =~= start.to_set().union(cuts_asked(*system, violations@, n)));
    }
    new_cuts
}


/// The periods (counted from 1) in which a branch has a flow cut.
#[derive(Debug, Clone)]
pub struct BranchCutPeriods {
    pub branch_idx: usize,
    pub periods: Vec<usize>,
}

/// Cuts grouped by branch: one entry per branch that has a cut, in the order
/// of `keys`, with the periods of its cuts counted from 1, in the same order.
pub open spec fn spec_cut_groups(keys: Seq<FlowCutKey>) -> Seq<(usize, Seq<usize>)>
    decreases keys.len(),
{
    if keys.len() == 0 {
        Seq::empty()
    } else {
        let rest = spec_cut_groups(keys.drop_last());
        let k = keys.last();
        if rest.len() > 0 && rest.last().0 == k.branch_idx {
            rest.update(rest.len() - 1, (k.branch_idx, rest.last().1.push((k.period + 1) as usize)))
        } else {
            rest.push((k.branch_idx, seq![(k.period + 1) as usize]))
        }
    }
}

proof fn lemma_cut_groups_increasing(keys: Seq<FlowCutKey>)
    requires
        strictly_sorted(keys),
    ensures
        forall|i: int, j: int| 0 <= i < j < spec_cut_groups(keys).len()
            ==> #[trigger] spec_cut_groups(keys)[i].0 < #[trigger] spec_cut_groups(keys)[j].0,
        keys.len() > 0 ==> spec_cut_groups(keys).len() > 0
            && spec_cut_groups(keys).last().0 == keys.last().branch_idx,
    decreases keys.len(),
{
    if keys.len() > 0 {
        let rest = keys.drop_last();
        assert(strictly_sorted(rest));
        lemma_cut_groups_increasing(rest);
        if rest.len() > 0 {
            assert(key_lt(rest.last(), keys.last()));
        }
    }
}

/// The cut periods of every branch with a cut, branches in increasing order.
pub fn cut_periods_by_branch(cuts: &FlowCutSet) -> (r: Vec<BranchCutPeriods>)
    requires
        forall|i: int| 0 <= i < cuts@.len() ==> (#[trigger] cuts@[i]).period < usize::MAX,
    ensures
        r@.len() == spec_cut_groups(cuts@).len(),
        forall|i: int| 0 <= i < r@.len() ==> {
            &&& (#[trigger] r@[i]).branch_idx == spec_cut_groups(cuts@)[i].0
            &&& r@[i].periods@ == spec_cut_groups(cuts@)[i].1
        },
        forall|i: int, j: int| 0 <= i < j < r@.len() ==> (#[trigger] r@[i]).branch_idx < (#[trigger] r@[j]).branch_idx,
{
    let keys = cuts.keys();
    proof {
        lemma_cut_groups_increasing(keys@);
    }
    let mut r: Vec<BranchCutPeriods> = Vec::new();
    let mut i: usize = 0;
    while i < keys.len()
        invariant
            i <= keys@.len(),
            keys@ == cuts@,
            forall|j: int| 0 <= j < keys@.len() ==> (#[trigger] keys@[j]).period < usize::MAX,
            r@.len() == spec_cut_groups(keys@.take(i as int)).len(),
            forall|j: int| 0 <= j < r@.len() ==> {
                &&& (#[trigger] r@[j]).branch_idx == spec_cut_groups(keys@.take(i as int))[j].0
                &&& r@[j].periods@ == spec_cut_groups(keys@.take(i as int))[j].1
            },
        decreases keys@.len() - i,
    {
        let key = keys[i];
        let ghost before = spec_cut_groups(keys@.take(i as int));
        proof {
            assert(keys@.take(i as int + 1).drop_last() =~= keys@.take(i as int));
            assert(keys@.take(i as int + 1).last() == key);
        }
        let n = r.len();
        if n > 0 && r[n - 1].branch_idx == key.branch_idx {
            let ghost r0 = r@;
            let mut last = r.pop().unwrap();
            last.periods.push(key.period + 1);
            r.push(last);
            proof {
                assert forall|j: int| 0 <= j < r@.len() implies {
                    &&& (#[trigger] r@[j]).branch_idx == spec_cut_groups(keys@.take(i as int + 1))[j].0
                    &&& r@[j].periods@ == spec_cut_groups(keys@.take(i as int + 1))[j].1
                } by {
                    if j < n - 1 {
                        assert(r@[j] == r0[j]);
                    }
                }
            }
        } else {
            let mut periods: Vec<usize> = Vec::new();
            periods.push(key.period + 1);
            r.push(BranchCutPeriods { branch_idx: key.branch_idx, periods });
            proof {
                assert(periods@ =~= seq![(key.period + 1) as usize]);
            }
        }
        i = i + 1;
    }
    proof {
        assert(keys@.take(i as int) =~= keys@);
    }
    r
}


// ---------------------------------------------------------------------------
// Decisions of the iterative process.
// ---------------------------------------------------------------------------

/// How a study is solved.
#[derive(Debug, Clone, Copy, PartialEq, Eq, Structural)]
pub enum ExecutionOption {
    /// Linear relaxations with flow cuts, the mixed-integer solve, linear problems
    /// with the commitment fixed, and a final pricing problem.
    Iterative,
    /// A single mixed-integer solve.
    SingleMilp,
}

pub open spec fn spec_execution_option(value: u8) -> Option<ExecutionOption> {
    if value == 1 {
        Some(ExecutionOption::Iterative)
    } else if value == 2 {
        Some(ExecutionOption::SingleMilp)
    } else {
        None
    }
}

pub open spec fn spec_option_description(option: ExecutionOption) -> Seq<char> {
    match option {
        ExecutionOption::Iterative => "LP -> MILP -> LP-FIXED -> LP-CALC-CMO"@,
        ExecutionOption::SingleMilp => "MILP unico"@,
    }
}

impl ExecutionOption {
    /// Reads the execution option of the study settings: 1 for the iterative
    /// process, 2 for a single mixed-integer solve.
    pub fn from_config_value(value: u8) -> (r: Result<ExecutionOption, StudyInputError>)
        ensures
            match spec_execution_option(value) {
                Some(option) => r == Ok::<ExecutionOption, StudyInputError>(option),
                None => r == Err::<ExecutionOption, StudyInputError>(StudyInputError::UnknownExecutionOption(value)),
            },
    {
        if value == 1 {
            Ok(ExecutionOption::Iterative)
        } else if value == 2 {
            Ok(ExecutionOption::SingleMilp)
        } else {
            Err(StudyInputError::UnknownExecutionOption(value))
        }
    }

    /// The sequence of stages that the option solves.
    pub fn description(&self) -> (r: &'static str)
        ensures
            r@ == spec_option_description(*self),
    {
        match self {
            ExecutionOption::Iterative => "LP -> MILP -> LP-FIXED -> LP-CALC-CMO",
            ExecutionOption::SingleMilp => "MILP unico",
        }
    }
}

/// Phase of the iterative process.
#[derive(Debug, Clone, Copy, PartialEq, Eq, Structural)]
pub enum ProcessPhase {
    /// Linear relaxations, adding flow cuts until no flow limit is violated.
    CutLoop,
    /// The single mixed-integer solve that decides the commitment.
    Commitment,
    /// Linear problems with the commitment fixed, adding flow cuts.
    FixedCutLoop,
    /// The final linear problem with the commitment fixed that prices the solution.
    Pricing,
    /// Nothing left to solve: the last solved stage gives the final result.
    Finished,
}

/// Why the iterative process stops without a result.
#[derive(Debug, Clone, Copy, PartialEq, Eq, Structural)]
pub enum ProcessError {
    /// The linear relaxation keeps violating flow limits without any new cut.
    CutLoopStalled,
    /// With the commitment fixed, flow limits stay violated without any new cut.
    FixedCommitmentStalled,
}

/// What a solved stage reports to the process.
#[derive(Debug, Clone, Copy, PartialEq, Eq, Structural)]
pub struct StageOutcome {
    /// Some flow limit is violated by the solution.
    pub has_violations: bool,
    /// Number of flow cuts that the violations added to the cut set.
    pub new_cuts: usize,
    /// The stage was only solved after relaxing cuts and limits with slacks.
    pub used_slacks: bool,
}

/// State of the solution process: how the study is solved, the phase and the
/// iteration inside it (counted from 1).
#[derive(Debug, Clone, Copy, PartialEq, Eq, Structural)]
pub struct IterativeProcess {
    pub network_enabled: bool,
    pub option: ExecutionOption,
    pub phase: ProcessPhase,
    pub iteration: usize,
}

pub open spec fn phase_rank(phase: ProcessPhase) -> int {
    match phase {
        ProcessPhase::CutLoop => 0,
        ProcessPhase::Commitment => 1,
        ProcessPhase::FixedCutLoop => 2,
        ProcessPhase::Pricing => 3,
        ProcessPhase::Finished => 4,
    }
}

pub open spec fn process(network_enabled: bool, option: ExecutionOption, phase: ProcessPhase, iteration: usize) -> IterativeProcess {
    IterativeProcess { network_enabled, option, phase, iteration }
}

/// The state that follows a solved stage, or the reason to stop.
pub open spec fn spec_advance(p: IterativeProcess, o: StageOutcome) -> Result<IterativeProcess, ProcessError> {
    let net = p.network_enabled;
    let opt = p.option;
    if opt == ExecutionOption::SingleMilp || p.phase == ProcessPhase::Pricing {
        Ok(process(net, opt, ProcessPhase::Finished, p.iteration))
    } else if !net {
        match p.phase {
            ProcessPhase::CutLoop => Ok(process(net, opt, ProcessPhase::Commitment, 1)),
            ProcessPhase::Commitment => Ok(process(net, opt, ProcessPhase::FixedCutLoop, 1)),
            _ => Ok(process(net, opt, ProcessPhase::Pricing, 1)),
        }
    } else {
        match p.phase {
            ProcessPhase::CutLoop => if !o.has_violations {
                Ok(process(net, opt, ProcessPhase::Commitment, 1))
            } else if o.new_cuts == 0 {
                if o.used_slacks {
                    Ok(process(net, opt, ProcessPhase::Commitment, 1))
                } else {
                    Err(ProcessError::CutLoopStalled)
                }
            } else {
                Ok(process(net, opt, ProcessPhase::CutLoop, (p.iteration + 1) as usize))
            },
            ProcessPhase::Commitment => Ok(process(net, opt, ProcessPhase::FixedCutLoop, 1)),
            _ => if !o.has_violations {
                Ok(process(net, opt, ProcessPhase::Pricing, 1))
            } else if o.new_cuts == 0 {
                if o.used_slacks {
                    Ok(process(net, opt, ProcessPhase::Pricing, 1))
                } else {
                    Err(ProcessError::FixedCommitmentStalled)
                }
            } else {
                Ok(process(net, opt, ProcessPhase::FixedCutLoop, (p.iteration + 1) as usize))
            },
        }
    }
}

pub open spec fn spec_current_stage(p: IterativeProcess) -> Option<(IterationStage, usize)> {
    match p.phase {
        ProcessPhase::CutLoop => Some((IterationStage::LinearProgramming, p.iteration)),
        ProcessPhase::Commitment => Some((IterationStage::MixedIntegerLinearProgramming, p.iteration)),
        ProcessPhase::FixedCutLoop => Some((IterationStage::LinearProgrammingWithFixedCommitment, p.iteration)),
        ProcessPhase::Pricing => Some((IterationStage::LinearProgrammingForMarginalCost, p.iteration)),
        ProcessPhase::Finished => None,
    }
}

pub open spec fn spec_start(network_enabled: bool, option: ExecutionOption) -> IterativeProcess {
    match option {
        ExecutionOption::Iterative => process(network_enabled, option, ProcessPhase::CutLoop, 1),
        ExecutionOption::SingleMilp => process(network_enabled, option, ProcessPhase::Commitment, 1),
    }
}

impl IterativeProcess {
    /// The iterative option starts with the first linear relaxation, the single
    /// option with its mixed-integer solve.
    pub fn start(network_enabled: bool, option: ExecutionOption) -> (r: IterativeProcess)
        ensures
            r == spec_start(network_enabled, option),
    {
        match option {
            ExecutionOption::Iterative => IterativeProcess {
                network_enabled,
                option,
                phase: ProcessPhase::CutLoop,
                iteration: 1,
            },
            ExecutionOption::SingleMilp => IterativeProcess {
                network_enabled,
                option,
                phase: ProcessPhase::Commitment,
                iteration: 1,
            },
        }
    }

    /// The stage to solve next and its iteration, or nothing once finished.
    pub fn current_stage(&self) -> (r: Option<(IterationStage, usize)>)
        ensures
            r == spec_current_stage(*self),
    {
        match self.phase {
            ProcessPhase::CutLoop => Some((IterationStage::LinearProgramming, self.iteration)),
            ProcessPhase::Commitment => Some((IterationStage::MixedIntegerLinearProgramming, self.iteration)),
            ProcessPhase::FixedCutLoop => Some((IterationStage::LinearProgrammingWithFixedCommitment, self.iteration)),
            ProcessPhase::Pricing => Some((IterationStage::LinearProgrammingForMarginalCost, self.iteration)),
            ProcessPhase::Finished => None,
        }
    }

    /// Takes the decision that follows a solved stage: solve the next stage,
    /// finish, or stop because flow violations persist without new cuts.
    pub fn advance(&mut self, outcome: StageOutcome) -> (r: Result<(), ProcessError>)
        requires
            old(self).phase != ProcessPhase::Finished,
            old(self).iteration < usize::MAX,
        ensures
            match spec_advance(*old(self), outcome) {
                Ok(next) => r is Ok && *final(self) == next,
                Err(e) => r == Err::<(), ProcessError>(e) && *final(self) == *old(self),
            },
    {
        if self.option == ExecutionOption::SingleMilp || self.phase == ProcessPhase::Pricing {
            self.phase = ProcessPhase::Finished;
            return Ok(());
        }
        if !self.network_enabled {
            match self.phase {
                ProcessPhase::CutLoop => {
                    self.phase = ProcessPhase::Commitment;
                },
                ProcessPhase::Commitment => {
                    self.phase = ProcessPhase::FixedCutLoop;
                },
                _ => {
                    self.phase = ProcessPhase::Pricing;
                },
            }
            self.iteration = 1;
            return Ok(());
        }
        match self.phase {
            ProcessPhase::CutLoop => {
                if !outcome.has_violations || (outcome.new_cuts == 0 && outcome.used_slacks) {
                    self.phase = ProcessPhase::Commitment;
                    self.iteration = 1;
                } else if outcome.new_cuts == 0 {
                    return Err(ProcessError::CutLoopStalled);
                } else {
                    self.iteration = self.iteration + 1;
                }
            },
            ProcessPhase::Commitment => {
                self.phase = ProcessPhase::FixedCutLoop;
                self.iteration = 1;
            },
            _ => {
                if !outcome.has_violations || (outcome.new_cuts == 0 && outcome.used_slacks) {
                    self.phase = ProcessPhase::Pricing;
                    self.iteration = 1;
                } else if outcome.new_cuts == 0 {
                    return Err(ProcessError::FixedCommitmentStalled);
                } else {
                    self.iteration = self.iteration + 1;
                }
            },
        }
        Ok(())
    }
}

/// Whether a stage whose solve failed as infeasible or unbounded is solved again
/// with slacks: with the network, when flow cuts or operational limits exist;
/// without it, when operational limits exist. Other failures are never retried.
pub open spec fn spec_relax_after_failure(network_enabled: bool, infeasible: bool, cut_count: nat, limit_count: nat) -> bool {
    infeasible && (limit_count > 0 || (network_enabled && cut_count > 0))
}

pub fn relax_after_failure(network_enabled: bool, infeasible: bool, cut_count: usize, limit_count: usize) -> (r: bool)
    ensures
        r == spec_relax_after_failure(network_enabled, infeasible, cut_count as nat, limit_count as nat),
{
    infeasible && (limit_count > 0 || (network_enabled && cut_count > 0))
}
} // verus!
