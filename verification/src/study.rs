//! Interpretation of the study input once its tables are read: periods,
//! plant references, operational limit fields and the hydro cascade that the
//! plant table describes.

use vstd::prelude::*;
use crate::ids::{BusId, HydroPlantId, SubmarketId};
use crate::system::{Bus, HydroPlant, OperationalLimitTarget, OperationalLimitVariable, PumpingPlant, Submarket, ThermalPlant};
use crate::text::{
    eq_ignore_ascii_case, parse_usize, spec_eq_ignore_ascii_case, spec_parse_usize, spec_trim, trim,
};

verus! {

/// Settings of a study: where its data lives and which model features are on.
#[derive(Debug, Clone)]
pub struct StudyConfig {
    pub case_path: String,
    /// How the study is solved (see `ExecutionOption::from_config_value`).
    pub opcao_execucao: u8,
    /// Electrical network (non-zero: on).
    pub rede: u8,
    /// Thermal unit commitment (non-zero: on).
    pub uct: u8,
    /// Hydro unit commitment (non-zero: on).
    pub uch: u8,
    /// Residual cost of thermal units still ramping at the end of the horizon (non-zero: on).
    pub ton_residual: u8,
    /// Hydro generation bounded by FPHA cuts (non-zero) or given by plant
    /// productivity times turbining (zero).
    pub fpha: u8,
}

/// What the input tables hold that the study cannot accept.
#[derive(Debug, Clone, PartialEq, Eq)]
pub enum StudyInputError {
    InvalidPeriod { period: usize, horizon: usize, file: String },
    NoPeriods,
    MissingPeriod(usize),
    InvalidRestrictionPeriod(String),
    RestrictionPeriodOutsideHorizon { is_start: bool, period: usize, horizon: usize },
    UnknownOperationalLimitVariable(String),
    InvalidHydroReference(String),
    UnknownHydroReference(usize),
    MissingBus(String),
    UnknownSubmarket(String),
    AmbiguousLimitPlant(String),
    UnknownLimitPlant(String, usize),
    ThermalLimitVariable(String, String),
    UnknownLimitHydroPlant(String, usize),
    UnknownLimitPumpingPlant(String, usize),
    UnknownExecutionOption(u8),
}

/// Checks that a period read from `file_name` lies in `1..=horizon` and returns
/// it counted from 0.
pub fn validate_period(period: usize, horizon: usize, file_name: &str) -> (r: Result<usize, StudyInputError>)
    ensures
        match r {
            Ok(p) => 1 <= period <= horizon && p == period - 1,
            Err(e) => !(1 <= period <= horizon) && (e matches StudyInputError::InvalidPeriod { period: a, horizon: b, file } && a == period
                && b == horizon && file@ == file_name@),
        },
{
    if !(1 <= period && period <= horizon) {
        return Err(StudyInputError::InvalidPeriod { period, horizon, file: file_name.to_owned() });
    }
    Ok(period - 1)
}

/// Reads a restriction period field: `I` (first period), `F` (last period)
/// or a period number inside the horizon; letters in either case, surrounding
/// whitespace ignored.
pub fn parse_restriction_period(value: &str, horizon: usize, is_start: bool) -> (r: Result<usize, StudyInputError>)
    ensures
        ({
            let t = spec_trim(value@);
            if spec_eq_ignore_ascii_case(t, "I"@) {
                r == Ok::<usize, StudyInputError>(1)
            } else if spec_eq_ignore_ascii_case(t, "F"@) {
                r == Ok::<usize, StudyInputError>(horizon)
            } else {
                match spec_parse_usize(t) {
                    None => r matches Err(StudyInputError::InvalidRestrictionPeriod(s)) && s@ == t,
                    Some(p) => if 1 <= p <= horizon {
                        r == Ok::<usize, StudyInputError>(p)
                    } else {
                        r == Err::<usize, StudyInputError>(
                            StudyInputError::RestrictionPeriodOutsideHorizon { is_start, period: p, horizon },
                        )
                    },
                }
            }
        }),
{
    let trimmed = trim(value);
    if eq_ignore_ascii_case(trimmed, "I") {
        return Ok(1);
    }
    if eq_ignore_ascii_case(trimmed, "F") {
        return Ok(horizon);
    }
    let period = match parse_usize(trimmed) {
        None => {
            return Err(StudyInputError::InvalidRestrictionPeriod(trimmed.to_owned()));
        },
        Some(p) => p,
    };
    if !(1 <= period && period <= horizon) {
        return Err(StudyInputError::RestrictionPeriodOutsideHorizon { is_start, period, horizon });
    }
    Ok(period)
}

/// The variable that a limit label names, letters in either case, surrounding
/// whitespace ignored.
pub open spec fn spec_limit_variable(value: Seq<char>) -> Option<OperationalLimitVariable> {
    let t = spec_trim(value);
    if spec_eq_ignore_ascii_case(t, "GER"@) {
        Some(OperationalLimitVariable::Generation)
    } else if spec_eq_ignore_ascii_case(t, "VERT"@) {
        Some(OperationalLimitVariable::Spillage)
    } else if spec_eq_ignore_ascii_case(t, "VOL"@) {
        Some(OperationalLimitVariable::Volume)
    } else if spec_eq_ignore_ascii_case(t, "DEFLU"@) {
        Some(OperationalLimitVariable::Defluence)
    } else if spec_eq_ignore_ascii_case(t, "TURB"@) {
        Some(OperationalLimitVariable::Turbining)
    } else if spec_eq_ignore_ascii_case(t, "QDES"@) {
        Some(OperationalLimitVariable::Diversion)
    } else if spec_eq_ignore_ascii_case(t, "QBOM"@) {
        Some(OperationalLimitVariable::Pumping)
    } else {
        None
    }
}

/// Reads the variable of an operational limit; an unknown label is reported
/// with its text.
pub fn parse_operational_limit_variable(value: &str) -> (r: Result<OperationalLimitVariable, StudyInputError>)
    ensures
        match spec_limit_variable(value@) {
            Some(v) => r == Ok::<OperationalLimitVariable, StudyInputError>(v),
            None => r matches Err(StudyInputError::UnknownOperationalLimitVariable(t)) && t@ == spec_trim(value@),
        },
{
    let t = trim(value);
    if eq_ignore_ascii_case(t, "GER") {
        Ok(OperationalLimitVariable::Generation)
    } else if eq_ignore_ascii_case(t, "VERT") {
        Ok(OperationalLimitVariable::Spillage)
    } else if eq_ignore_ascii_case(t, "VOL") {
        Ok(OperationalLimitVariable::Volume)
    } else if eq_ignore_ascii_case(t, "DEFLU") {
        Ok(OperationalLimitVariable::Defluence)
    } else if eq_ignore_ascii_case(t, "TURB") {
        Ok(OperationalLimitVariable::Turbining)
    } else if eq_ignore_ascii_case(t, "QDES") {
        Ok(OperationalLimitVariable::Diversion)
    } else if eq_ignore_ascii_case(t, "QBOM") {
        Ok(OperationalLimitVariable::Pumping)
    } else {
        Err(StudyInputError::UnknownOperationalLimitVariable(t.to_owned()))
    }
}

/// A reference field is empty (or `-`) when the plant has no such link.
pub open spec fn is_empty_reference(t: Seq<char>) -> bool {
    t.len() == 0 || t == "-"@
}

/// Reads an optional reference to a hydro plant by its code: `None` for an empty
/// field or `-`, otherwise the code, which must be one of `known_codes`.
#[verifier::loop_isolation(false)]
pub fn optional_hydro_reference_by_code(value: &str, known_codes: &Vec<usize>) -> (r: Result<Option<HydroPlantId>, StudyInputError>)
    ensures
        ({
            let t = spec_trim(value@);
            if is_empty_reference(t) {
                r == Ok::<Option<HydroPlantId>, StudyInputError>(None)
            } else {
                match spec_parse_usize(t) {
                    None => r matches Err(StudyInputError::InvalidHydroReference(s)) && s@ == t,
                    Some(code) => if known_codes@.contains(code) {
                        r == Ok::<Option<HydroPlantId>, StudyInputError>(Some(HydroPlantId(code)))
                    } else {
                        r == Err::<Option<HydroPlantId>, StudyInputError>(StudyInputError::UnknownHydroReference(code))
                    },
                }
            }
        }),
{
    let t = trim(value);
    let n = t.unicode_len();
    if n == 0 {
        return Ok(None);
    }
    if n == 1 && t.get_char(0) == '-' {
        proof {
            reveal_strlit("-");
            assert(t@ =~= "-"@);
        }
        return Ok(None);
    }
    proof {
        reveal_strlit("-");
        if t@ == "-"@ {
            assert(t@.len() == 1);
        }
    }
    let code = match parse_usize(t) {
        None => {
            return Err(StudyInputError::InvalidHydroReference(t.to_owned()));
        },
        Some(c) => c,
    };
    let mut i: usize = 0;
    while i < known_codes.len()
        invariant
            i <= known_codes@.len(),
            forall|k: int| 0 <= k < i ==> known_codes@[k] != code,
        decreases known_codes@.len() - i,
    {
        if known_codes[i] == code {
            return Ok(Some(HydroPlantId(code)));
        }
        i = i + 1;
    }
    Err(StudyInputError::UnknownHydroReference(code))
}

/// With the network on, an asset sits on the bus its row gives (which must be
/// present); without it, every asset sits on the stand-in bus of its submarket,
/// whose identifier is the submarket's.
pub fn bus_id_or_dummy(
    bus_id: Option<usize>,
    network_enabled: bool,
    asset_name: &str,
    dummy_submarket_id: SubmarketId,
) -> (r: Result<usize, StudyInputError>)
    ensures
        network_enabled ==> match bus_id {
            Some(b) => r == Ok::<usize, StudyInputError>(b),
            None => r matches Err(StudyInputError::MissingBus(name)) && name@ == asset_name@,
        },
        !network_enabled ==> r == Ok::<usize, StudyInputError>(dummy_submarket_id.0),
{
    if network_enabled {
        match bus_id {
            Some(b) => Ok(b),
            None => Err(StudyInputError::MissingBus(asset_name.to_owned())),
        }
    } else {
        Ok(dummy_submarket_id.0)
    }
}

/// Finds the submarket that a row names (surrounding whitespace ignored); the
/// first one with that name when several share it.
pub fn submarket_id_by_name(submarkets: &Vec<Submarket>, value: &str) -> (r: Result<SubmarketId, StudyInputError>)
    ensures
        match r {
            Ok(id) => exists|k: int| 0 <= k < submarkets@.len() && submarkets@[k].id == id && submarkets@[k].name@ == spec_trim(value@)
                && forall|j: int| 0 <= j < k ==> submarkets@[j].name@ != spec_trim(value@),
            Err(e) => (forall|k: int| 0 <= k < submarkets@.len() ==> submarkets@[k].name@ != spec_trim(value@))
                && (e matches StudyInputError::UnknownSubmarket(t) && t@ == spec_trim(value@)),
        },
{
    let name = trim(value);
    let owned = name.to_owned();
    let mut i: usize = 0;
    while i < submarkets.len()
        invariant
            i <= submarkets@.len(),
            owned@ == spec_trim(value@),
            forall|j: int| 0 <= j < i ==> submarkets@[j].name@ != spec_trim(value@),
        decreases submarkets@.len() - i,
    {
        if submarkets[i].name == owned {
            return Ok(submarkets[i].id);
        }
        i = i + 1;
    }
    Err(StudyInputError::UnknownSubmarket(owned))
}

/// Position of the first thermal plant with this code and name.
pub open spec fn thermal_match(plants: Seq<ThermalPlant>, code: usize, name: Seq<char>) -> Option<int> {
    if exists|k: int| 0 <= k < plants.len() && #[trigger] plants[k].id.0 == code && plants[k].name@ == name {
        Some(choose|k: int| 0 <= k < plants.len() && #[trigger] plants[k].id.0 == code && plants[k].name@ == name
            && forall|j: int| 0 <= j < k ==> !(plants[j].id.0 == code && plants[j].name@ == name))
    } else {
        None
    }
}

/// Position of the first hydro plant with this code and name.
pub open spec fn hydro_match(plants: Seq<HydroPlant>, code: usize, name: Seq<char>) -> Option<int> {
    if exists|k: int| 0 <= k < plants.len() && #[trigger] plants[k].id.0 == code && plants[k].name@ == name {
        Some(choose|k: int| 0 <= k < plants.len() && #[trigger] plants[k].id.0 == code && plants[k].name@ == name
            && forall|j: int| 0 <= j < k ==> !(plants[j].id.0 == code && plants[j].name@ == name))
    } else {
        None
    }
}

fn find_thermal_by_code_and_name(plants: &Vec<ThermalPlant>, code: usize, name: &String) -> (r: Option<usize>)
    ensures
        match r {
            Some(k) => thermal_match(plants@, code, name@) == Some(k as int) && k < plants@.len(),
            None => thermal_match(plants@, code, name@) is None,
        },
{
    let mut i: usize = 0;
    while i < plants.len()
        invariant
            i <= plants@.len(),
            forall|j: int| 0 <= j < i ==> !(plants@[j].id.0 == code && plants@[j].name@ == name@),
        decreases plants@.len() - i,
    {
        if plants[i].id.0 == code && plants[i].name == *name {
            proof {
                let k = choose|k: int| 0 <= k < plants@.len() && #[trigger] plants@[k].id.0 == code && plants@[k].name@ == name@
                    && forall|j: int| 0 <= j < k ==> !(plants@[j].id.0 == code && plants@[j].name@ == name@);
                if k > i {
                    assert(!(plants@[i as int].id.0 == code && plants@[i as int].name@ == name@));
                }
            }
            return Some(i);
        }
        i = i + 1;
    }
    None
}

fn find_hydro_by_code_and_name(plants: &Vec<HydroPlant>, code: usize, name: &String) -> (r: Option<usize>)
    ensures
        match r {
            Some(k) => hydro_match(plants@, code, name@) == Some(k as int) && k < plants@.len(),
            None => hydro_match(plants@, code, name@) is None,
        },
{
    let mut i: usize = 0;
    while i < plants.len()
        invariant
            i <= plants@.len(),
            forall|j: int| 0 <= j < i ==> !(plants@[j].id.0 == code && plants@[j].name@ == name@),
        decreases plants@.len() - i,
    {
        if plants[i].id.0 == code && plants[i].name == *name {
            proof {
                let k = choose|k: int| 0 <= k < plants@.len() && #[trigger] plants@[k].id.0 == code && plants@[k].name@ == name@
                    && forall|j: int| 0 <= j < k ==> !(plants@[j].id.0 == code && plants@[j].name@ == name@);
                if k > i {
                    assert(!(plants@[i as int].id.0 == code && plants@[i as int].name@ == name@));
                }
            }
            return Some(i);
        }
        i = i + 1;
    }
    None
}

/// Position of the first pumping plant with this code and name.
pub open spec fn pumping_match(plants: Seq<PumpingPlant>, code: usize, name: Seq<char>) -> Option<int> {
    if exists|k: int| 0 <= k < plants.len() && #[trigger] plants[k].id.0 == code && plants[k].name@ == name {
        Some(choose|k: int| 0 <= k < plants.len() && #[trigger] plants[k].id.0 == code && plants[k].name@ == name
            && forall|j: int| 0 <= j < k ==> !(plants[j].id.0 == code && plants[j].name@ == name))
    } else {
        None
    }
}

fn find_pumping_by_code_and_name(plants: &Vec<PumpingPlant>, code: usize, name: &String) -> (r: Option<usize>)
    ensures
        match r {
            Some(k) => pumping_match(plants@, code, name@) == Some(k as int) && k < plants@.len(),
            None => pumping_match(plants@, code, name@) is None,
        },
{
    let mut i: usize = 0;
    while i < plants.len()
        invariant
            i <= plants@.len(),
            forall|j: int| 0 <= j < i ==> !(plants@[j].id.0 == code && plants@[j].name@ == name@),
        decreases plants@.len() - i,
    {
        if plants[i].id.0 == code && plants[i].name == *name {
            proof {
                let k = choose|k: int| 0 <= k < plants@.len() && #[trigger] plants@[k].id.0 == code && plants@[k].name@ == name@
                    && forall|j: int| 0 <= j < k ==> !(plants@[j].id.0 == code && plants@[j].name@ == name@);
                if k > i {
                    assert(!(plants@[i as int].id.0 == code && plants@[i as int].name@ == name@));
                }
            }
            return Some(i);
        }
        i = i + 1;
    }
    None
}

/// Resolves the plant of an operational limit row from its code and name.
pub fn resolve_operational_limit_target(
    variable: OperationalLimitVariable,
    variable_text: &str,
    plant_code: usize,
    plant_name: &String,
    thermal_plants: &Vec<ThermalPlant>,
    hydro_plants: &Vec<HydroPlant>,
    pumping_plants: &Vec<PumpingPlant>,
) -> (r: Result<OperationalLimitTarget, StudyInputError>)
    ensures
        ({
            let t = thermal_match(thermal_plants@, plant_code, plant_name@);
            let h = hydro_match(hydro_plants@, plant_code, plant_name@);
            if variable == OperationalLimitVariable::Pumping {
                match pumping_match(pumping_plants@, plant_code, plant_name@) {
                    Some(k) => r == Ok::<OperationalLimitTarget, StudyInputError>(
                        OperationalLimitTarget::PumpingPlant(pumping_plants@[k].id),
                    ),
                    None => r matches Err(StudyInputError::UnknownLimitPumpingPlant(n, c)) && n@ == plant_name@
                        && c == plant_code,
                }
            } else if variable == OperationalLimitVariable::Generation {
                match (t, h) {
                    (Some(k), None) => r == Ok::<OperationalLimitTarget, StudyInputError>(
                        OperationalLimitTarget::ThermalPlant(thermal_plants@[k].id),
                    ),
                    (None, Some(k)) => r == Ok::<OperationalLimitTarget, StudyInputError>(
                        OperationalLimitTarget::HydroPlant(hydro_plants@[k].id),
                    ),
                    (Some(_), Some(_)) => r matches Err(StudyInputError::AmbiguousLimitPlant(n)) && n@ == plant_name@,
                    (None, None) => r matches Err(StudyInputError::UnknownLimitPlant(n, c)) && n@ == plant_name@ && c
                        == plant_code,
                }
            } else {
                match (t, h) {
                    (Some(k), _) => r matches Err(StudyInputError::ThermalLimitVariable(n, v)) && n@ == thermal_plants@[k].name@
                        && v@ == variable_text@,
                    (None, Some(k)) => r == Ok::<OperationalLimitTarget, StudyInputError>(
                        OperationalLimitTarget::HydroPlant(hydro_plants@[k].id),
                    ),
                    (None, None) => r matches Err(StudyInputError::UnknownLimitHydroPlant(n, c)) && n@ == plant_name@
                        && c == plant_code,
                }
            }
        }),
{
    if variable == OperationalLimitVariable::Pumping {
        return match find_pumping_by_code_and_name(pumping_plants, plant_code, plant_name) {
            Some(k) => Ok(OperationalLimitTarget::PumpingPlant(pumping_plants[k].id)),
            None => Err(StudyInputError::UnknownLimitPumpingPlant(plant_name.clone(), plant_code)),
        };
    }
    let t = find_thermal_by_code_and_name(thermal_plants, plant_code, plant_name);
    let h = find_hydro_by_code_and_name(hydro_plants, plant_code, plant_name);
    match variable {
        OperationalLimitVariable::Generation => {
            match (t, h) {
                (Some(k), None) => Ok(OperationalLimitTarget::ThermalPlant(thermal_plants[k].id)),
                (None, Some(k)) => Ok(OperationalLimitTarget::HydroPlant(hydro_plants[k].id)),
                (Some(_), Some(_)) => Err(StudyInputError::AmbiguousLimitPlant(plant_name.clone())),
                (None, None) => Err(StudyInputError::UnknownLimitPlant(plant_name.clone(), plant_code)),
            }
        },
        _ => {
            match (t, h) {
                (Some(k), _) => Err(
                    StudyInputError::ThermalLimitVariable(thermal_plants[k].name.clone(), variable_text.to_owned()),
                ),
                (None, Some(k)) => Ok(OperationalLimitTarget::HydroPlant(hydro_plants[k].id)),
                (None, None) => Err(StudyInputError::UnknownLimitHydroPlant(plant_name.clone(), plant_code)),
            }
        },
    }
}


/// Number of distinct values among the first `n` elements.
pub open spec fn distinct_count(s: Seq<usize>, n: int) -> nat
    decreases n,
{
    if n <= 0 {
        0
    } else {
        distinct_count(s, n - 1) + if exists|j: int| 0 <= j < n - 1 && #[trigger] s[j] == s[n - 1] {
            0nat
        } else {
            1nat
        }
    }
}

proof fn lemma_distinct_count_bound(s: Seq<usize>, n: int)
    requires
        0 <= n <= s.len(),
    ensures
        distinct_count(s, n) <= n,
    decreases n,
{
    if n > 0 {
        lemma_distinct_count_bound(s, n - 1);
    }
}

/// Number of periods of the horizon given the period numbers of the duration
/// table: as many periods as distinct numbers, which must then be exactly
/// `1..=count`; the smallest missing number is reported otherwise.
pub fn horizon_periods(periods: &Vec<usize>) -> (r: Result<usize, StudyInputError>)
    ensures
        periods@.len() == 0 ==> r == Err::<usize, StudyInputError>(StudyInputError::NoPeriods),
        periods@.len() > 0 ==> ({
            let n = distinct_count(periods@, periods@.len() as int);
            match r {
                Ok(count) => count == n && forall|q: usize| 1 <= q <= n ==> #[trigger] periods@.contains(q),
                Err(e) => e matches StudyInputError::MissingPeriod(p) && 1 <= p <= n && !periods@.contains(p)
                    && forall|q: usize| 1 <= q < p ==> #[trigger] periods@.contains(q),
            }
        }),
{
    let len = periods.len();
    if len == 0 {
        return Err(StudyInputError::NoPeriods);
    }
    let mut count: usize = 0;
    let mut i: usize = 0;
    while i < len
        invariant
            len == periods@.len(),
            i <= len,
            count == distinct_count(periods@, i as int),
            count <= i,
        decreases len - i,
    {
        let v = periods[i];
        let mut seen = false;
        let mut k: usize = 0;
        while k < i
            invariant
                len == periods@.len(),
                i < len,
                k <= i,
                v == periods@[i as int],
                seen == exists|j: int| 0 <= j < k && #[trigger] periods@[j] == v,
            decreases i - k,
        {
            if periods[k] == v {
                seen = true;
            }
            k = k + 1;
        }
        if !seen {
            count = count + 1;
        }
        i = i + 1;
    }
    proof {
        lemma_distinct_count_bound(periods@, len as int);
    }
    let mut done: usize = 0;
    while done < count
        invariant
            len == periods@.len(),
            count == distinct_count(periods@, len as int),
            count <= len,
            done <= count,
            forall|q: usize| 1 <= q <= done ==> #[trigger] periods@.contains(q),
        decreases count - done,
    {
        let p = done + 1;
        let mut found = false;
        let mut k: usize = 0;
        while k < len
            invariant
                len == periods@.len(),
                k <= len,
                found ==> periods@.contains(p),
                !found ==> forall|j: int| 0 <= j < k ==> periods@[j] != p,
            decreases len - k,
        {
            if periods[k] == p {
                found = true;
            }
            k = k + 1;
        }
        if !found {
            return Err(StudyInputError::MissingPeriod(p));
        }
        done = p;
    }
    Ok(count)
}

/// Plants (by code) whose link points at plant code `c`, among the first `n`
/// rows of the plant table, in table order.
pub open spec fn spec_linked_from(codes: Seq<usize>, targets: Seq<Option<HydroPlantId>>, c: usize, n: int) -> Seq<HydroPlantId>
    decreases n,
{
    if n <= 0 {
        Seq::empty()
    } else {
        spec_linked_from(codes, targets, c, n - 1) + if targets[n - 1] == Some(HydroPlantId(c)) {
            seq![HydroPlantId(codes[n - 1])]
        } else {
            Seq::<HydroPlantId>::empty()
        }
    }
}

fn linked_from(codes: &Vec<usize>, targets: &Vec<Option<HydroPlantId>>, c: usize) -> (r: Vec<HydroPlantId>)
    requires
        codes@.len() == targets@.len(),
    ensures
        r@ == spec_linked_from(codes@, targets@, c, codes@.len() as int),
{
    let mut r: Vec<HydroPlantId> = Vec::new();
    let mut j: usize = 0;
    while j < codes.len()
        invariant
            codes@.len() == targets@.len(),
            j <= codes@.len(),
            r@ == spec_linked_from(codes@, targets@, c, j as int),
        decreases codes@.len() - j,
    {
        let hit = match targets[j] {
            Some(t) => t == HydroPlantId(c),
            None => false,
        };
        if hit {
            r.push(HydroPlantId(codes[j]));
        }
        proof {
            assert(r@ =~= spec_linked_from(codes@, targets@, c, j + 1));
        }
        j = j + 1;
    }
    r
}

/// For each row of the hydro plant table, the plants whose link (outflow or
/// diversion, as `targets` gives it) reaches that row's plant, in table order.
/// Applied to the downstream links it gives the upstream lists of the cascade;
/// applied to the diversion links, the diversion upstream lists.
pub fn cascade_upstream_lists(codes: &Vec<usize>, targets: &Vec<Option<HydroPlantId>>) -> (r: Vec<Vec<HydroPlantId>>)
    requires
        codes@.len() == targets@.len(),
    ensures
        r@.len() == codes@.len(),
        forall|i: int| 0 <= i < codes@.len() ==> (#[trigger] r@[i])@ == spec_linked_from(codes@, targets@, codes@[i], codes@.len() as int),
{
    let mut r: Vec<Vec<HydroPlantId>> = Vec::new();
    let mut i: usize = 0;
    while i < codes.len()
        invariant
            codes@.len() == targets@.len(),
            i <= codes@.len(),
            r@.len() == i,
            forall|k: int| 0 <= k < i ==> (#[trigger] r@[k])@ == spec_linked_from(codes@, targets@, codes@[k], codes@.len() as int),
        decreases codes@.len() - i,
    {
        let list = linked_from(codes, targets, codes[i]);
        r.push(list);
        i = i + 1;
    }
    r
}

/// Without the network each submarket gets one stand-in bus with the
/// submarket's identifier, named after it, carrying no demand; the bus of
/// submarket 1 is the angle reference.
pub fn build_dummy_buses(submarkets: &Vec<Submarket>, horizon: usize) -> (r: Vec<Bus>)
    ensures
        r@.len() == submarkets@.len(),
        forall|i: int| 0 <= i < submarkets@.len() ==> {
            let b = #[trigger] r@[i];
            let s = submarkets@[i];
            &&& b.id == BusId(s.id.0)
            &&& b.name@ == "DUMMY-BUS-"@ + s.name@
            &&& b.submarket_id == s.id
            &&& b.angle_reference == (s.id == SubmarketId(1))
            &&& b.demand_periods == horizon
        },
{
    let mut r: Vec<Bus> = Vec::new();
    let mut i: usize = 0;
    while i < submarkets.len()
        invariant
            i <= submarkets@.len(),
            r@.len() == i,
            forall|k: int| 0 <= k < i ==> {
                let b = #[trigger] r@[k];
                let s = submarkets@[k];
                &&& b.id == BusId(s.id.0)
                &&& b.name@ == "DUMMY-BUS-"@ + s.name@
                &&& b.submarket_id == s.id
                &&& b.angle_reference == (s.id == SubmarketId(1))
                &&& b.demand_periods == horizon
            },
        decreases submarkets@.len() - i,
    {
        let s = &submarkets[i];
        let mut name = String::new();
        name.append("DUMMY-BUS-");
        name.append(s.name.as_str());
        r.push(Bus { id: BusId(s.id.0), name, submarket_id: s.id, angle_reference: s.id == SubmarketId(1), demand_periods: horizon });
        i = i + 1;
    }
    r
}
// ---------------------------------------------------------------------------
// Grouping rows by a key.
// ---------------------------------------------------------------------------

/// Positions, among the first `n`, of the rows whose key is `k`, in increasing order.
pub open spec fn rows_with_key(keys: Seq<usize>, k: usize, n: int) -> Seq<usize>
    decreases n,
{
    if n <= 0 {
        Seq::empty()
    } else {
        rows_with_key(keys, k, n - 1) + if keys[n - 1] == k {
            seq![(n - 1) as usize]
        } else {
            Seq::<usize>::empty()
        }
    }
}

/// The rows that share a key, by position.
#[derive(Debug, Clone)]
pub struct KeyGroup {
    pub key: usize,
    pub members: Vec<usize>,
}

/// A key lies strictly above the last one taken (or any key when none was).
pub open spec fn above(last: Option<usize>, k: usize) -> bool {
    match last {
        None => true,
        Some(p) => k > p,
    }
}

fn rows_of_key(keys: &Vec<usize>, k: usize) -> (r: Vec<usize>)
    ensures
        r@ == rows_with_key(keys@, k, keys@.len() as int),
{
    let mut r: Vec<usize> = Vec::new();
    let mut j: usize = 0;
    while j < keys.len()
        invariant
            j <= keys@.len(),
            r@ == rows_with_key(keys@, k, j as int),
        decreases keys@.len() - j,
    {
        if keys[j] == k {
            r.push(j);
            proof {
                assert(r@ =~= rows_with_key(keys@, k, j as int + 1));
            }
        } else {
            proof {
                assert(rows_with_key(keys@, k, j as int + 1) =~= rows_with_key(keys@, k, j as int));
            }
        }
        j = j + 1;
    }
    r
}

/// Smallest key above `last`, if any.
fn next_key(keys: &Vec<usize>, last: Option<usize>) -> (r: Option<usize>)
    ensures
        match r {
            Some(b) => keys@.contains(b) && above(last, b)
                && forall|i: int| 0 <= i < keys@.len() && above(last, #[trigger] keys@[i]) ==> b <= keys@[i],
            None => forall|i: int| 0 <= i < keys@.len() ==> !above(last, #[trigger] keys@[i]),
        },
{
    let mut best: Option<usize> = None;
    let mut i: usize = 0;
    while i < keys.len()
        invariant
            i <= keys@.len(),
            match best {
                Some(b) => keys@.contains(b) && above(last, b)
                    && forall|j: int| 0 <= j < i && above(last, #[trigger] keys@[j]) ==> b <= keys@[j],
                None => forall|j: int| 0 <= j < i ==> !above(last, #[trigger] keys@[j]),
            },
        decreases keys@.len() - i,
    {
        let k = keys[i];
        let is_above = match last {
            None => true,
            Some(p) => k > p,
        };
        if is_above {
            let better = match best {
                None => true,
                Some(b) => k < b,
            };
            if better {
                best = Some(k);
            }
        }
        i = i + 1;
    }
    best
}

/// Some group has key `k`.
pub open spec fn has_group(groups: Seq<KeyGroup>, k: usize) -> bool {
    exists|g: int| 0 <= g < groups.len() && (#[trigger] groups[g]).key == k
}

/// Every key of `keys` has a group.
pub open spec fn covers_keys(keys: Seq<usize>, groups: Seq<KeyGroup>) -> bool {
    forall|i: int| 0 <= i < keys.len() ==> has_group(groups, #[trigger] keys[i])
}

proof fn lemma_all_keys_taken(keys: Seq<usize>, groups: Seq<KeyGroup>, last: Option<usize>)
    requires
        forall|i: int| 0 <= i < keys.len() && !above(last, #[trigger] keys[i]) ==> has_group(groups, keys[i]),
        forall|i: int| 0 <= i < keys.len() ==> !above(last, #[trigger] keys[i]),
    ensures
        covers_keys(keys, groups),
{
}

/// Rows grouped by key: one group per key that occurs, keys in increasing
/// order, each group holding the positions of its rows in row order.
pub fn group_by_key(keys: &Vec<usize>) -> (r: Vec<KeyGroup>)
    ensures
        forall|g: int, h: int| 0 <= g < h < r@.len() ==> (#[trigger] r@[g]).key < (#[trigger] r@[h]).key,
        forall|g: int| 0 <= g < r@.len() ==> {
            &&& keys@.contains((#[trigger] r@[g]).key)
            &&& r@[g].members@ == rows_with_key(keys@, r@[g].key, keys@.len() as int)
        },
        covers_keys(keys@, r@),
{
    let mut r: Vec<KeyGroup> = Vec::new();
    let mut last: Option<usize> = None;
    loop
        invariant_except_break
            match last {
                None => r@.len() == 0,
                Some(p) => r@.len() > 0 && r@.last().key == p,
            },
            forall|g: int, h: int| 0 <= g < h < r@.len() ==> (#[trigger] r@[g]).key < (#[trigger] r@[h]).key,
            forall|g: int| 0 <= g < r@.len() ==> {
                &&& keys@.contains((#[trigger] r@[g]).key)
                &&& r@[g].members@ == rows_with_key(keys@, r@[g].key, keys@.len() as int)
            },
            forall|i: int| 0 <= i < keys@.len() && !above(last, #[trigger] keys@[i]) ==> has_group(r@, keys@[i]),
        ensures
            forall|g: int, h: int| 0 <= g < h < r@.len() ==> (#[trigger] r@[g]).key < (#[trigger] r@[h]).key,
            forall|g: int| 0 <= g < r@.len() ==> {
                &&& keys@.contains((#[trigger] r@[g]).key)
                &&& r@[g].members@ == rows_with_key(keys@, r@[g].key, keys@.len() as int)
            },
            covers_keys(keys@, r@),
        decreases usize::MAX as int + 1 - match last {
            None => 0int,
            Some(p) => p as int + 1,
        },
    {
        match next_key(keys, last) {
            None => {
                proof {
                    lemma_all_keys_taken(keys@, r@, last);
                }
                break;
            },
            Some(b) => {
                let members = rows_of_key(keys, b);
                let ghost before = r@;
                r.push(KeyGroup { key: b, members });
                proof {
                    assert forall|g: int, h: int| 0 <= g < h < r@.len() implies (#[trigger] r@[g]).key < (#[trigger] r@[h]).key by {
                        if h < r@.len() - 1 {
                            assert(r@[g] == before[g] && r@[h] == before[h]);
                        } else if g < h {
                            assert(r@[g] == before[g]);
                            if g < before.len() - 1 {
                                assert(before[g].key < before[before.len() - 1].key);
                            }
                        }
                    }
                    assert forall|g: int| 0 <= g < r@.len() implies {
                        &&& keys@.contains((#[trigger] r@[g]).key)
                        &&& r@[g].members@ == rows_with_key(keys@, r@[g].key, keys@.len() as int)
                    } by {
                        if g < before.len() {
                            assert(r@[g] == before[g]);
                        }
                    }
                    assert forall|i: int| 0 <= i < keys@.len() && !above(Some(b), #[trigger] keys@[i])
                        implies has_group(r@, keys@[i]) by {
                        if above(last, keys@[i]) {
                            assert(keys@[i] == b);
                            assert(r@[r@.len() - 1].key == keys@[i]);
                        } else {
                            assert(has_group(before, keys@[i]));
                            let g = choose|g: int| 0 <= g < before.len() && (#[trigger] before[g]).key == keys@[i];
                            assert(r@[g] == before[g]);
                        }
                    }
                }
                last = Some(b);
            },
        }
    }
    r
}

} // verus!
