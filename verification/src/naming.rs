//! Names of model variables and constraints. A name spells out the family,
//! the named indices and, where it applies, the period counted from 1, as in
//! `thermal_generation[p=UTE-1,u=GT-1,t=1]`.

use vstd::prelude::*;
use crate::system::OperationalLimitVariable;
use crate::text::{decimal, decimal_digits};

verus! {

/// Periods are stored from 0 and shown from 1.
pub fn display_period(period: usize) -> (r: usize)
    requires
        period < usize::MAX,
    ensures
        r == period + 1,
{
    period + 1
}

/// Text of a period as it appears in a name (counted from 1).
pub open spec fn period_text(period: nat) -> Seq<char> {
    decimal_digits(period + 1)
}

pub open spec fn spec_thermal_generation_name(plant: Seq<char>, unit: Seq<char>, period: nat) -> Seq<char> {
    "thermal_generation[p="@ + plant + ",u="@ + unit + ",t="@ + period_text(period) + "]"@
}

pub open spec fn spec_thermal_commitment_name(plant: Seq<char>, unit: Seq<char>, period: nat) -> Seq<char> {
    "thermal_on[p="@ + plant + ",u="@ + unit + ",t="@ + period_text(period) + "]"@
}

pub open spec fn spec_hydro_generation_name(plant: Seq<char>, group: Seq<char>, unit: Seq<char>, period: nat) -> Seq<char> {
    "hydro_generation[p="@ + plant + ",g="@ + group + ",u="@ + unit + ",t="@ + period_text(period) + "]"@
}

pub open spec fn spec_hydro_turbining_name(plant: Seq<char>, group: Seq<char>, unit: Seq<char>, period: nat) -> Seq<char> {
    "hydro_turbining[p="@ + plant + ",g="@ + group + ",u="@ + unit + ",t="@ + period_text(period) + "]"@
}

pub open spec fn spec_hydro_spillage_name(plant: Seq<char>, period: nat) -> Seq<char> {
    "hydro_spillage[p="@ + plant + ",t="@ + period_text(period) + "]"@
}

pub open spec fn spec_hydro_diversion_name(plant: Seq<char>, period: nat) -> Seq<char> {
    "hydro_diversion[p="@ + plant + ",t="@ + period_text(period) + "]"@
}

/// Volume names carry the boundary index itself: `t=0` is the initial volume.
pub open spec fn spec_hydro_volume_name(plant: Seq<char>, period: nat) -> Seq<char> {
    "hydro_volume[p="@ + plant + ",t="@ + decimal_digits(period) + "]"@
}

pub open spec fn spec_renewable_generation_name(prefix: Seq<char>, plant: Seq<char>, period: nat) -> Seq<char> {
    prefix + "[p="@ + plant + ",t="@ + period_text(period) + "]"@
}

pub open spec fn spec_flow_slack_name(prefix: Seq<char>, branch: Seq<char>, period: nat) -> Seq<char> {
    prefix + "[branch="@ + branch + ",t="@ + period_text(period) + "]"@
}

pub open spec fn spec_operational_limit_variable_label(variable: OperationalLimitVariable) -> Seq<char> {
    match variable {
        OperationalLimitVariable::Generation => "GER"@,
        OperationalLimitVariable::Spillage => "VERT"@,
        OperationalLimitVariable::Volume => "VOL"@,
        OperationalLimitVariable::Defluence => "DEFLU"@,
        OperationalLimitVariable::Turbining => "TURB"@,
        OperationalLimitVariable::Diversion => "QDES"@,
        OperationalLimitVariable::Pumping => "QBOM"@,
    }
}

/// Slack names carry the period exactly as given (the operational limit
/// periods are already counted from 1).
pub open spec fn spec_operational_limit_slack_name(is_lower: bool, plant: Seq<char>, variable: OperationalLimitVariable, period: nat) -> Seq<char> {
    (if is_lower {
        "operational_limit_slack_lower"@
    } else {
        "operational_limit_slack_upper"@
    }) + "[p="@ + plant + ",var="@ + spec_operational_limit_variable_label(variable) + ",t="@ + decimal_digits(period) + "]"@
}

/// Label of a bounded variable as written in the limit input and in names.
pub fn operational_limit_variable_label(variable: OperationalLimitVariable) -> (r: &'static str)
    ensures
        r@ == spec_operational_limit_variable_label(variable),
{
    match variable {
        OperationalLimitVariable::Generation => "GER",
        OperationalLimitVariable::Spillage => "VERT",
        OperationalLimitVariable::Volume => "VOL",
        OperationalLimitVariable::Defluence => "DEFLU",
        OperationalLimitVariable::Turbining => "TURB",
        OperationalLimitVariable::Diversion => "QDES",
        OperationalLimitVariable::Pumping => "QBOM",
    }
}

fn text_of(s: &str) -> (r: String)
    ensures
        r@ == s@,
{
    let mut r = String::new();
    r.append(s);
    r
}

pub fn thermal_generation_name(plant_name: &str, unit_name: &str, period: usize) -> (r: String)
    requires
        period < usize::MAX,
    ensures
        r@ == spec_thermal_generation_name(plant_name@, unit_name@, period as nat),
{
    let mut r = text_of("thermal_generation[p=");
    r.append(plant_name);
    r.append(",u=");
    r.append(unit_name);
    r.append(",t=");
    let t = decimal(period + 1);
    r.append(t.as_str());
    r.append("]");
    r
}

pub fn thermal_commitment_name(plant_name: &str, unit_name: &str, period: usize) -> (r: String)
    requires
        period < usize::MAX,
    ensures
        r@ == spec_thermal_commitment_name(plant_name@, unit_name@, period as nat),
{
    let mut r = text_of("thermal_on[p=");
    r.append(plant_name);
    r.append(",u=");
    r.append(unit_name);
    r.append(",t=");
    let t = decimal(period + 1);
    r.append(t.as_str());
    r.append("]");
    r
}

pub fn hydro_generation_name(plant_name: &str, group_name: &str, unit_name: &str, period: usize) -> (r: String)
    requires
        period < usize::MAX,
    ensures
        r@ == spec_hydro_generation_name(plant_name@, group_name@, unit_name@, period as nat),
{
    let mut r = text_of("hydro_generation[p=");
    r.append(plant_name);
    r.append(",g=");
    r.append(group_name);
    r.append(",u=");
    r.append(unit_name);
    r.append(",t=");
    let t = decimal(period + 1);
    r.append(t.as_str());
    r.append("]");
    r
}

pub fn hydro_turbining_name(plant_name: &str, group_name: &str, unit_name: &str, period: usize) -> (r: String)
    requires
        period < usize::MAX,
    ensures
        r@ == spec_hydro_turbining_name(plant_name@, group_name@, unit_name@, period as nat),
{
    let mut r = text_of("hydro_turbining[p=");
    r.append(plant_name);
    r.append(",g=");
    r.append(group_name);
    r.append(",u=");
    r.append(unit_name);
    r.append(",t=");
    let t = decimal(period + 1);
    r.append(t.as_str());
    r.append("]");
    r
}

pub fn hydro_spillage_name(plant_name: &str, period: usize) -> (r: String)
    requires
        period < usize::MAX,
    ensures
        r@ == spec_hydro_spillage_name(plant_name@, period as nat),
{
    let mut r = text_of("hydro_spillage[p=");
    r.append(plant_name);
    r.append(",t=");
    let t = decimal(period + 1);
    r.append(t.as_str());
    r.append("]");
    r
}

pub fn hydro_diversion_name(plant_name: &str, period: usize) -> (r: String)
    requires
        period < usize::MAX,
    ensures
        r@ == spec_hydro_diversion_name(plant_name@, period as nat),
{
    let mut r = text_of("hydro_diversion[p=");
    r.append(plant_name);
    r.append(",t=");
    let t = decimal(period + 1);
    r.append(t.as_str());
    r.append("]");
    r
}

pub fn hydro_volume_name(plant_name: &str, period: usize) -> (r: String)
    ensures
        r@ == spec_hydro_volume_name(plant_name@, period as nat),
{
    let mut r = text_of("hydro_volume[p=");
    r.append(plant_name);
    r.append(",t=");
    let t = decimal(period);
    r.append(t.as_str());
    r.append("]");
    r
}

pub fn renewable_generation_name(prefix: &str, plant_name: &str, period: usize) -> (r: String)
    requires
        period < usize::MAX,
    ensures
        r@ == spec_renewable_generation_name(prefix@, plant_name@, period as nat),
{
    let mut r = text_of(prefix);
    r.append("[p=");
    r.append(plant_name);
    r.append(",t=");
    let t = decimal(period + 1);
    r.append(t.as_str());
    r.append("]");
    r
}

pub fn flow_slack_name(prefix: &str, branch_name: &str, period: usize) -> (r: String)
    requires
        period < usize::MAX,
    ensures
        r@ == spec_flow_slack_name(prefix@, branch_name@, period as nat),
{
    let mut r = text_of(prefix);
    r.append("[branch=");
    r.append(branch_name);
    r.append(",t=");
    let t = decimal(period + 1);
    r.append(t.as_str());
    r.append("]");
    r
}

pub fn operational_limit_slack_name(
    is_lower: bool,
    plant_name: &str,
    variable: OperationalLimitVariable,
    period: usize,
) -> (r: String)
    ensures
        r@ == spec_operational_limit_slack_name(is_lower, plant_name@, variable, period as nat),
{
    let prefix = if is_lower {
        "operational_limit_slack_lower"
    } else {
        "operational_limit_slack_upper"
    };
    let mut r = text_of(prefix);
    r.append("[p=");
    r.append(plant_name);
    r.append(",var=");
    r.append(operational_limit_variable_label(variable));
    r.append(",t=");
    let t = decimal(period);
    r.append(t.as_str());
    r.append("]");
    r
}


/// Name of the constraint that bounds an operational limit variable from below
/// (or above) in `period` (counted from 0, shown from 1).
pub open spec fn spec_operational_limit_constraint_name(is_lower: bool, plant: Seq<char>, variable: OperationalLimitVariable, period: nat) -> Seq<char> {
    (if is_lower {
        "operational_limit_lower"@
    } else {
        "operational_limit_upper"@
    }) + "[p="@ + plant + ",var="@ + spec_operational_limit_variable_label(variable) + ",t="@ + period_text(period) + "]"@
}

pub fn operational_limit_constraint_name(
    is_lower: bool,
    plant_name: &str,
    variable: OperationalLimitVariable,
    period: usize,
) -> (r: String)
    requires
        period < usize::MAX,
    ensures
        r@ == spec_operational_limit_constraint_name(is_lower, plant_name@, variable, period as nat),
{
    let prefix = if is_lower {
        "operational_limit_lower"
    } else {
        "operational_limit_upper"
    };
    let mut r = text_of(prefix);
    r.append("[p=");
    r.append(plant_name);
    r.append(",var=");
    r.append(operational_limit_variable_label(variable));
    r.append(",t=");
    let t = decimal(period + 1);
    r.append(t.as_str());
    r.append("]");
    r
}
// ---------------------------------------------------------------------------
// Names by the shape of their indices.
// ---------------------------------------------------------------------------

/// `family[key=name,t=P]`, as in `pumping[p=EEL-1,t=2]` or
/// `demand_balance[submarket=SE,t=1]`.
pub open spec fn spec_indexed_name(family: Seq<char>, key: Seq<char>, name: Seq<char>, period: nat) -> Seq<char> {
    family + "["@ + key + "="@ + name + ",t="@ + period_text(period) + "]"@
}

/// `family[from=A,to=B,t=P]`, as in `interchange[from=SE,to=S,t=1]`.
pub open spec fn spec_pair_name(family: Seq<char>, from: Seq<char>, to: Seq<char>, period: nat) -> Seq<char> {
    family + "[from="@ + from + ",to="@ + to + ",t="@ + period_text(period) + "]"@
}

/// `family[p=PLANT,u=UNIT,t=P]`, as in `thermal_startup[p=UTE-1,u=GT-1,t=1]`.
pub open spec fn spec_unit_name(family: Seq<char>, plant: Seq<char>, unit: Seq<char>, period: nat) -> Seq<char> {
    family + "[p="@ + plant + ",u="@ + unit + ",t="@ + period_text(period) + "]"@
}

/// `family[p=PLANT,g=GROUP,u=UNIT,t=P]`, as in `hydro_on[p=UHE-1,g=1,u=2,t=3]`.
pub open spec fn spec_group_unit_name(family: Seq<char>, plant: Seq<char>, group: Seq<char>, unit: Seq<char>, period: nat) -> Seq<char> {
    family + "[p="@ + plant + ",g="@ + group + ",u="@ + unit + ",t="@ + period_text(period) + "]"@
}

/// Name of a variable or constraint indexed by one named entity and a period
/// (counted from 0, shown from 1).
pub fn indexed_name(family: &str, key: &str, name: &str, period: usize) -> (r: String)
    requires
        period < usize::MAX,
    ensures
        r@ == spec_indexed_name(family@, key@, name@, period as nat),
{
    let mut r = text_of(family);
    r.append("[");
    r.append(key);
    r.append("=");
    r.append(name);
    r.append(",t=");
    let t = decimal(period + 1);
    r.append(t.as_str());
    r.append("]");
    r
}

/// Name of a variable or constraint indexed by an origin, a destination and a
/// period (counted from 0, shown from 1).
pub fn pair_name(family: &str, from: &str, to: &str, period: usize) -> (r: String)
    requires
        period < usize::MAX,
    ensures
        r@ == spec_pair_name(family@, from@, to@, period as nat),
{
    let mut r = text_of(family);
    r.append("[from=");
    r.append(from);
    r.append(",to=");
    r.append(to);
    r.append(",t=");
    let t = decimal(period + 1);
    r.append(t.as_str());
    r.append("]");
    r
}

/// Name of a variable or constraint of a unit of a plant in a period (counted
/// from 0, shown from 1).
pub fn unit_name(family: &str, plant: &str, unit: &str, period: usize) -> (r: String)
    requires
        period < usize::MAX,
    ensures
        r@ == spec_unit_name(family@, plant@, unit@, period as nat),
{
    let mut r = text_of(family);
    r.append("[p=");
    r.append(plant);
    r.append(",u=");
    r.append(unit);
    r.append(",t=");
    let t = decimal(period + 1);
    r.append(t.as_str());
    r.append("]");
    r
}

/// Name of a variable or constraint of a unit of a group of a hydro plant in a
/// period (counted from 0, shown from 1).
pub fn group_unit_name(family: &str, plant: &str, group: &str, unit: &str, period: usize) -> (r: String)
    requires
        period < usize::MAX,
    ensures
        r@ == spec_group_unit_name(family@, plant@, group@, unit@, period as nat),
{
    let mut r = text_of(family);
    r.append("[p=");
    r.append(plant);
    r.append(",g=");
    r.append(group);
    r.append(",u=");
    r.append(unit);
    r.append(",t=");
    let t = decimal(period + 1);
    r.append(t.as_str());
    r.append("]");
    r
}

} // verus!
