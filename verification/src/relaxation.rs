//! Relaxation of operational limits: when a stage cannot be solved, every
//! operational limit constraint receives a slack variable, whose name is derived
//! from the constraint's own name.

use vstd::prelude::*;

verus! {

pub open spec fn spec_starts_with(s: Seq<char>, prefix: Seq<char>) -> bool {
    prefix.len() <= s.len() && s.take(prefix.len() as int) == prefix
}

/// Whether `s` begins with `prefix`.
pub fn starts_with(s: &str, prefix: &str) -> (r: bool)
    ensures
        r == spec_starts_with(s@, prefix@),
{
    let n = s.unicode_len();
    let m = prefix.unicode_len();
    if m > n {
        return false;
    }
    let mut i: usize = 0;
    while i < m
        invariant
            n == s@.len(),
            m == prefix@.len(),
            m <= n,
            i <= m,
            forall|k: int| 0 <= k < i ==> s@[k] == prefix@[k],
        decreases m - i,
    {
        if s.get_char(i) != prefix.get_char(i) {
            proof {
                assert(s@.take(m as int)[i as int] != prefix@[i as int]);
            }
            return false;
        }
        i = i + 1;
    }
    proof {
        assert(s@.take(m as int) =~= prefix@);
    }
    true
}

/// Slack that relaxes one operational limit constraint.
#[derive(Debug, Clone)]
pub struct SlackSpec {
    /// Position of the constraint in the constraint list.
    pub constraint_idx: usize,
    /// Name of the slack variable.
    pub slack_name: String,
    /// A lower limit is relaxed by adding the slack, an upper one by subtracting it.
    pub is_lower: bool,
}

/// The slack of the constraint named `name`, if it is an operational limit:
/// its name replaces the `operational_limit_lower` (or `_upper`) prefix by
/// `operational_limit_slack_lower` (or `_upper`) and keeps the rest.
pub open spec fn slack_of(name: Seq<char>) -> Option<(Seq<char>, bool)> {
    let lower = "operational_limit_lower"@;
    let upper = "operational_limit_upper"@;
    if spec_starts_with(name, lower) {
        Some(("operational_limit_slack_lower"@ + name.skip(lower.len() as int), true))
    } else if spec_starts_with(name, upper) {
        Some(("operational_limit_slack_upper"@ + name.skip(upper.len() as int), false))
    } else {
        None
    }
}

/// Slacks of the first `n` constraints, in constraint order.
pub open spec fn spec_slack_plan(names: Seq<String>, n: int) -> Seq<(int, Seq<char>, bool)>
    decreases n,
{
    if n <= 0 {
        Seq::empty()
    } else {
        spec_slack_plan(names, n - 1) + match slack_of(names[n - 1]@) {
            Some((slack, is_lower)) => seq![(n - 1, slack, is_lower)],
            None => Seq::empty(),
        }
    }
}

pub open spec fn slack_view(s: SlackSpec) -> (int, Seq<char>, bool) {
    (s.constraint_idx as int, s.slack_name@, s.is_lower)
}

fn slack_for(name: &String) -> (r: Option<(String, bool)>)
    ensures
        match slack_of(name@) {
            Some((slack, is_lower)) => r matches Some((n, l)) && n@ == slack && l == is_lower,
            None => r is None,
        },
{
    let lower = "operational_limit_lower";
    let upper = "operational_limit_upper";
    let s = name.as_str();
    let n = s.unicode_len();
    if starts_with(s, lower) {
        let m = lower.unicode_len();
        let mut slack = String::new();
        slack.append("operational_limit_slack_lower");
        slack.append(s.substring_char(m, n));
        proof {
            assert(s@.subrange(m as int, n as int) =~= s@.skip(m as int));
        }
        Some((slack, true))
    } else if starts_with(s, upper) {
        let m = upper.unicode_len();
        let mut slack = String::new();
        slack.append("operational_limit_slack_upper");
        slack.append(s.substring_char(m, n));
        proof {
            assert(s@.subrange(m as int, n as int) =~= s@.skip(m as int));
        }
        Some((slack, false))
    } else {
        None
    }
}

/// The slacks that relax the operational limit constraints among
/// `constraint_names`, in constraint order.
pub fn operational_limit_slack_plan(constraint_names: &Vec<String>) -> (r: Vec<SlackSpec>)
    ensures
        r@.len() == spec_slack_plan(constraint_names@, constraint_names@.len() as int).len(),
        forall|i: int| 0 <= i < r@.len() ==> slack_view(#[trigger] r@[i])
            == spec_slack_plan(constraint_names@, constraint_names@.len() as int)[i],
{
    let mut r: Vec<SlackSpec> = Vec::new();
    let mut i: usize = 0;
    while i < constraint_names.len()
        invariant
            i <= constraint_names@.len(),
            r@.len() == spec_slack_plan(constraint_names@, i as int).len(),
            forall|k: int| 0 <= k < r@.len() ==> slack_view(#[trigger] r@[k]) == spec_slack_plan(constraint_names@, i as int)[k],
        decreases constraint_names@.len() - i,
    {
        let ghost before = spec_slack_plan(constraint_names@, i as int);
        match slack_for(&constraint_names[i]) {
            Some((slack_name, is_lower)) => {
                r.push(SlackSpec { constraint_idx: i, slack_name, is_lower });
            },
            None => {},
        }
        proof {
            let after = spec_slack_plan(constraint_names@, i + 1);
            assert(after.len() == r@.len());
            assert forall|k: int| 0 <= k < r@.len() implies slack_view(#[trigger] r@[k]) == after[k] by {
                if k < before.len() {
                    assert(after[k] == before[k]);
                }
            }
        }
        i = i + 1;
    }
    r
}

} // verus!
