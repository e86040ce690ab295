//! Whole-study structural validation: unique identifiers, known references,
//! a single angle reference bus, a consistent hydro cascade and well-formed
//! operational limits. Rules are checked in a fixed order and the first rule
//! that fails is reported.

use vstd::prelude::*;
use crate::ids::{BusId, HydroPlantId, PumpingPlantId, SubmarketId, ThermalPlantId};
use crate::system::{
    Bus, CascadeLink, CoreError, EntityKind, HydroPlant, OperationalLimit, OperationalLimitTarget,
    System, first_error_upto, lemma_upto_prefix, lemma_upto_all_ok, then,
};

verus! {

/// No value occurs twice.
pub open spec fn distinct_ids(s: Seq<usize>) -> bool {
    forall|i: int, j: int| 0 <= i < j < s.len() ==> s[i] != s[j]
}

pub open spec fn spec_unique_check(s: Seq<usize>, kind: EntityKind) -> Result<(), CoreError> {
    if distinct_ids(s) {
        Ok(())
    } else {
        Err(CoreError::DuplicateIds(kind))
    }
}

/// Reports `DuplicateIds(kind)` exactly when some identifier occurs twice.
pub fn validate_unique_ids(ids: &Vec<usize>, kind: EntityKind) -> (r: Result<(), CoreError>)
    ensures
        r == spec_unique_check(ids@, kind),
{
    let n = ids.len();
    let mut j: usize = 0;
    while j < n
        invariant
            n == ids@.len(),
            j <= n,
            forall|a: int, b: int| 0 <= a < b < j ==> ids@[a] != ids@[b],
        decreases n - j,
    {
        let mut i: usize = 0;
        while i < j
            invariant
                n == ids@.len(),
                j < n,
                i <= j,
                forall|a: int, b: int| 0 <= a < b < j ==> ids@[a] != ids@[b],
                forall|a: int| 0 <= a < i ==> ids@[a] != ids@[j as int],
            decreases j - i,
        {
            if ids[i] == ids[j] {
                return Err(CoreError::DuplicateIds(kind));
            }
            i = i + 1;
        }
        j = j + 1;
    }
    Ok(())
}

/// Number of buses marked as angle reference.
pub open spec fn reference_bus_count(s: Seq<Bus>) -> nat
    decreases s.len(),
{
    if s.len() == 0 {
        0
    } else {
        reference_bus_count(s.drop_last()) + if s.last().angle_reference {
            1nat
        } else {
            0nat
        }
    }
}

proof fn lemma_reference_bus_count_bound(s: Seq<Bus>)
    ensures
        reference_bus_count(s) <= s.len(),
    decreases s.len(),
{
    if s.len() > 0 {
        lemma_reference_bus_count_bound(s.drop_last());
    }
}

impl System {
    pub open spec fn submarket_ids(&self) -> Seq<usize> {
        self.submarkets@.map_values(|x: crate::system::Submarket| x.id.0)
    }

    pub open spec fn bus_ids(&self) -> Seq<usize> {
        self.buses@.map_values(|x: Bus| x.id.0)
    }

    pub open spec fn branch_ids(&self) -> Seq<usize> {
        self.branches@.map_values(|x: crate::system::Branch| x.id.0)
    }

    pub open spec fn thermal_plant_ids(&self) -> Seq<usize> {
        self.thermal_plants@.map_values(|x: crate::system::ThermalPlant| x.id.0)
    }

    pub open spec fn hydro_plant_ids(&self) -> Seq<usize> {
        self.hydro_plants@.map_values(|x: HydroPlant| x.id.0)
    }

    pub open spec fn renewable_plant_ids(&self) -> Seq<usize> {
        self.renewable_plants@.map_values(|x: crate::system::RenewablePlant| x.id.0)
    }

    pub open spec fn has_submarket(&self, id: SubmarketId) -> bool {
        exists|k: int| 0 <= k < self.submarkets@.len() && #[trigger] self.submarkets@[k].id == id
    }

    pub open spec fn has_bus(&self, id: BusId) -> bool {
        exists|k: int| 0 <= k < self.buses@.len() && #[trigger] self.buses@[k].id == id
    }

    pub open spec fn has_hydro_plant(&self, id: HydroPlantId) -> bool {
        exists|k: int| 0 <= k < self.hydro_plants@.len() && #[trigger] self.hydro_plants@[k].id == id
    }

    pub open spec fn has_thermal_plant(&self, id: ThermalPlantId) -> bool {
        exists|k: int| 0 <= k < self.thermal_plants@.len() && #[trigger] self.thermal_plants@[k].id == id
    }

    // -- stage specifications ------------------------------------------------

    pub open spec fn spec_basics(&self) -> Result<(), CoreError> {
        then(
            self.horizon.spec_validate(),
            if self.submarkets@.len() == 0 {
                Err(CoreError::NoSubmarkets)
            } else if self.buses@.len() == 0 {
                Err(CoreError::NoBuses)
            } else {
                Ok(())
            },
        )
    }

    pub open spec fn spec_unique_ids(&self) -> Result<(), CoreError> {
        then(
            spec_unique_check(self.submarket_ids(), EntityKind::Submarket),
            then(
                spec_unique_check(self.bus_ids(), EntityKind::Bus),
                then(
                    spec_unique_check(self.branch_ids(), EntityKind::Branch),
                    then(
                        spec_unique_check(self.thermal_plant_ids(), EntityKind::ThermalPlant),
                        then(
                            spec_unique_check(self.hydro_plant_ids(), EntityKind::HydroPlant),
                            spec_unique_check(self.renewable_plant_ids(), EntityKind::RenewablePlant),
                        ),
                    ),
                ),
            ),
        )
    }

    /// The identifier lists whose lookups later rules rely on hold no duplicate.
    pub open spec fn ids_distinct(&self) -> bool {
        &&& distinct_ids(self.bus_ids())
        &&& distinct_ids(self.thermal_plant_ids())
        &&& distinct_ids(self.hydro_plant_ids())
    }

    pub open spec fn submarket_checker(&self) -> spec_fn(int) -> Result<(), CoreError> {
        |i: int| self.submarkets@[i].spec_validate(self.horizon.periods)
    }

    pub open spec fn residual_cost_checker(&self) -> spec_fn(int) -> Result<(), CoreError> {
        |i: int|
            {
                let sid = self.residual_costs@[i].submarket_id;
                if !self.has_submarket(sid) {
                    Err(CoreError::UnknownResidualCostSubmarket(sid))
                } else if exists|k: int| 0 <= k < i && #[trigger] self.residual_costs@[k].submarket_id == sid {
                    Err(CoreError::DuplicateResidualCost(sid))
                } else {
                    Ok(())
                }
            }
    }

    pub open spec fn spec_residual_coverage(&self) -> Result<(), CoreError> {
        if self.ton_residual_enabled && self.residual_costs@.len() != self.submarkets@.len() {
            Err(CoreError::MissingResidualCosts)
        } else {
            Ok(())
        }
    }

    pub open spec fn interchange_checker(&self) -> spec_fn(int) -> Result<(), CoreError> {
        |i: int|
            {
                let l = self.interchange_limits@[i];
                then(
                    l.spec_validate(),
                    if !self.has_submarket(l.from_submarket_id) || !self.has_submarket(l.to_submarket_id) {
                        Err(CoreError::InterchangeUnknownSubmarket(l.from_submarket_id, l.to_submarket_id))
                    } else if exists|k: int|
                        0 <= k < i && #[trigger] self.interchange_limits@[k].from_submarket_id == l.from_submarket_id
                            && self.interchange_limits@[k].to_submarket_id == l.to_submarket_id {
                        Err(CoreError::DuplicateInterchangeLimit(l.from_submarket_id, l.to_submarket_id))
                    } else {
                        Ok(())
                    },
                )
            }
    }

    pub open spec fn bus_checker(&self) -> spec_fn(int) -> Result<(), CoreError> {
        |i: int|
            {
                let b = self.buses@[i];
                then(
                    b.spec_validate(self.horizon.periods),
                    if !self.has_submarket(b.submarket_id) {
                        Err(CoreError::BusUnknownSubmarket(b.id, b.submarket_id))
                    } else {
                        Ok(())
                    },
                )
            }
    }

    pub open spec fn spec_reference_bus(&self) -> Result<(), CoreError> {
        if reference_bus_count(self.buses@) != 1 {
            Err(CoreError::ReferenceBusCount(reference_bus_count(self.buses@) as usize))
        } else {
            Ok(())
        }
    }

    pub open spec fn branch_checker(&self) -> spec_fn(int) -> Result<(), CoreError> {
        |i: int|
            {
                let b = self.branches@[i];
                then(
                    b.spec_validate(),
                    if !self.has_bus(b.from_bus_id) || !self.has_bus(b.to_bus_id) {
                        Err(CoreError::BranchUnknownBus(b.id))
                    } else {
                        Ok(())
                    },
                )
            }
    }

    /// The first bus with identifier `bus` belongs to submarket `submarket`.
    pub open spec fn bus_in_submarket(&self, bus: BusId, submarket: SubmarketId) -> bool {
        exists|k: int| {
            &&& 0 <= k < self.buses@.len()
            &&& #[trigger] self.buses@[k].id == bus
            &&& self.buses@[k].submarket_id == submarket
            &&& forall|j: int| 0 <= j < k ==> self.buses@[j].id != bus
        }
    }

    pub open spec fn spec_membership(&self, kind: EntityKind, id: usize, bus: BusId, submarket: SubmarketId) -> Result<(), CoreError> {
        if !self.has_bus(bus) {
            Err(CoreError::UnknownBus(kind, id, bus))
        } else if !self.has_submarket(submarket) {
            Err(CoreError::UnknownSubmarket(kind, id, submarket))
        } else if !self.bus_in_submarket(bus, submarket) {
            Err(CoreError::BusSubmarketMismatch(kind, id))
        } else {
            Ok(())
        }
    }

    pub open spec fn thermal_checker(&self) -> spec_fn(int) -> Result<(), CoreError> {
        |i: int|
            {
                let p = self.thermal_plants@[i];
                then(p.spec_validate(), self.spec_membership(EntityKind::ThermalPlant, p.id.0, p.bus_id, p.submarket_id))
            }
    }

    pub open spec fn reference_checker(&self, plant: HydroPlantId, refs: Seq<HydroPlantId>, link: CascadeLink) -> spec_fn(int) -> Result<(), CoreError> {
        |j: int|
            {
                let r = refs[j];
                if exists|k: int| 0 <= k < j && #[trigger] refs[k] == r {
                    Err(CoreError::DuplicateCascadeReference(plant, link, r))
                } else if r == plant {
                    Err(CoreError::SelfCascadeReference(plant, link))
                } else if !self.has_hydro_plant(r) {
                    Err(CoreError::UnknownCascadeReference(plant, link, r))
                } else {
                    Ok(())
                }
            }
    }

    pub open spec fn spec_reference_list(&self, plant: HydroPlantId, refs: Seq<HydroPlantId>, link: CascadeLink) -> Result<(), CoreError> {
        first_error_upto(refs.len() as int, self.reference_checker(plant, refs, link))
    }

    pub open spec fn spec_single_reference(&self, plant: HydroPlantId, target: Option<HydroPlantId>, link: CascadeLink) -> Result<(), CoreError> {
        match target {
            None => Ok(()),
            Some(d) => if d == plant {
                Err(CoreError::SelfCascadeReference(plant, link))
            } else if !self.has_hydro_plant(d) {
                Err(CoreError::UnknownCascadeReference(plant, link, d))
            } else {
                Ok(())
            },
        }
    }

    pub open spec fn hydro_checker(&self) -> spec_fn(int) -> Result<(), CoreError> {
        |i: int|
            {
                let p = self.hydro_plants@[i];
                then(
                    p.spec_validate(self.horizon.periods, self.hydro_fpha_enabled),
                    then(
                        self.spec_membership(EntityKind::HydroPlant, p.id.0, p.bus_id, p.submarket_id),
                        then(
                            self.spec_reference_list(p.id, p.upstream_plant_ids@, CascadeLink::Upstream),
                            then(
                                self.spec_single_reference(p.id, p.downstream_plant_id, CascadeLink::Downstream),
                                then(
                                    self.spec_reference_list(p.id, p.diversion_upstream_plant_ids@, CascadeLink::DiversionUpstream),
                                    self.spec_single_reference(p.id, p.diversion_plant_id, CascadeLink::DiversionDestination),
                                ),
                            ),
                        ),
                    ),
                )
            }
    }

    /// The plant `from` names `to` as the plant that its outflow reaches.
    pub open spec fn flows_into(&self, from: HydroPlantId, to: HydroPlantId) -> bool {
        exists|k: int| 0 <= k < self.hydro_plants@.len() && #[trigger] self.hydro_plants@[k].id == from
            && self.hydro_plants@[k].downstream_plant_id == Some(to)
    }

    /// The plant `at` lists `from` among its upstream plants.
    pub open spec fn lists_upstream(&self, at: HydroPlantId, from: HydroPlantId) -> bool {
        exists|k: int| 0 <= k < self.hydro_plants@.len() && #[trigger] self.hydro_plants@[k].id == at
            && self.hydro_plants@[k].upstream_plant_ids@.contains(from)
    }

    /// The plant `from` names `to` as the destination of its diverted water.
    pub open spec fn diverts_into(&self, from: HydroPlantId, to: HydroPlantId) -> bool {
        exists|k: int| 0 <= k < self.hydro_plants@.len() && #[trigger] self.hydro_plants@[k].id == from
            && self.hydro_plants@[k].diversion_plant_id == Some(to)
    }

    /// The plant `at` lists `from` among the plants that divert water into it.
    pub open spec fn lists_diversion_upstream(&self, at: HydroPlantId, from: HydroPlantId) -> bool {
        exists|k: int| 0 <= k < self.hydro_plants@.len() && #[trigger] self.hydro_plants@[k].id == at
            && self.hydro_plants@[k].diversion_upstream_plant_ids@.contains(from)
    }

    pub open spec fn upstream_link_checker(&self, p: HydroPlant) -> spec_fn(int) -> Result<(), CoreError> {
        |j: int|
            if self.flows_into(p.upstream_plant_ids@[j], p.id) {
                Ok(())
            } else {
                Err(CoreError::InconsistentCascadeLink(p.id, CascadeLink::Upstream, p.upstream_plant_ids@[j]))
            }
    }

    pub open spec fn diversion_upstream_link_checker(&self, p: HydroPlant) -> spec_fn(int) -> Result<(), CoreError> {
        |j: int|
            if self.diverts_into(p.diversion_upstream_plant_ids@[j], p.id) {
                Ok(())
            } else {
                Err(CoreError::InconsistentCascadeLink(p.id, CascadeLink::DiversionUpstream, p.diversion_upstream_plant_ids@[j]))
            }
    }

    pub open spec fn spec_plant_links(&self, p: HydroPlant) -> Result<(), CoreError> {
        then(
            first_error_upto(p.upstream_plant_ids@.len() as int, self.upstream_link_checker(p)),
            then(
                match p.downstream_plant_id {
                    Some(d) => if self.lists_upstream(d, p.id) {
                        Ok(())
                    } else {
                        Err(CoreError::InconsistentCascadeLink(p.id, CascadeLink::Downstream, d))
                    },
                    None => Ok(()),
                },
                then(
                    first_error_upto(p.diversion_upstream_plant_ids@.len() as int, self.diversion_upstream_link_checker(p)),
                    match p.diversion_plant_id {
                        Some(d) => if self.lists_diversion_upstream(d, p.id) {
                            Ok(())
                        } else {
                            Err(CoreError::InconsistentCascadeLink(p.id, CascadeLink::DiversionDestination, d))
                        },
                        None => Ok(()),
                    },
                ),
            ),
        )
    }

    pub open spec fn link_checker(&self) -> spec_fn(int) -> Result<(), CoreError> {
        |i: int| self.spec_plant_links(self.hydro_plants@[i])
    }

    pub open spec fn renewable_checker(&self) -> spec_fn(int) -> Result<(), CoreError> {
        |i: int|
            {
                let p = self.renewable_plants@[i];
                then(
                    p.spec_validate(self.horizon.periods),
                    self.spec_membership(EntityKind::RenewablePlant, p.id.0, p.bus_id, p.submarket_id),
                )
            }
    }

    /// Every thermal plant with identifier `id` is called `name`.
    pub open spec fn thermal_plant_named(&self, id: ThermalPlantId, name: Seq<char>) -> bool {
        forall|k: int| 0 <= k < self.thermal_plants@.len() && #[trigger] self.thermal_plants@[k].id == id ==> self.thermal_plants@[k].name@ == name
    }

    /// Every hydro plant with identifier `id` is called `name`.
    pub open spec fn hydro_plant_named(&self, id: HydroPlantId, name: Seq<char>) -> bool {
        forall|k: int| 0 <= k < self.hydro_plants@.len() && #[trigger] self.hydro_plants@[k].id == id ==> self.hydro_plants@[k].name@ == name
    }

    pub open spec fn has_pumping_plant(&self, id: PumpingPlantId) -> bool {
        exists|k: int| 0 <= k < self.pumping_plants@.len() && #[trigger] self.pumping_plants@[k].id == id
    }

    /// Every pumping plant with identifier `id` is called `name`.
    pub open spec fn pumping_plant_named(&self, id: PumpingPlantId, name: Seq<char>) -> bool {
        forall|k: int| 0 <= k < self.pumping_plants@.len() && #[trigger] self.pumping_plants@[k].id == id ==> self.pumping_plants@[k].name@ == name
    }

    pub open spec fn spec_limit_target(&self, l: OperationalLimit) -> Result<(), CoreError> {
        match l.target {
            OperationalLimitTarget::ThermalPlant(pid) => if !self.has_thermal_plant(pid) {
                Err(CoreError::LimitUnknownThermalPlant(pid))
            } else if !self.thermal_plant_named(pid, l.plant_name@) {
                Err(CoreError::LimitThermalNameMismatch(pid))
            } else {
                Ok(())
            },
            OperationalLimitTarget::HydroPlant(pid) => if !self.has_hydro_plant(pid) {
                Err(CoreError::LimitUnknownHydroPlant(pid))
            } else if !self.hydro_plant_named(pid, l.plant_name@) {
                Err(CoreError::LimitHydroNameMismatch(pid))
            } else {
                Ok(())
            },
            OperationalLimitTarget::PumpingPlant(pid) => if !self.has_pumping_plant(pid) {
                Err(CoreError::LimitUnknownPumpingPlant(pid))
            } else if !self.pumping_plant_named(pid, l.plant_name@) {
                Err(CoreError::LimitPumpingNameMismatch(pid))
            } else {
                Ok(())
            },
        }
    }

    pub open spec fn limit_checker(&self) -> spec_fn(int) -> Result<(), CoreError> {
        |i: int|
            {
                let l = self.operational_limits@[i];
                then(l.spec_validate(self.horizon.periods), self.spec_limit_target(l))
            }
    }

    /// A pumping plant sits on a known bus of a known submarket (the first bus
    /// with its identifier belonging to that submarket), and the hydro plants it
    /// pumps from and into exist.
    pub open spec fn pumping_checker(&self) -> spec_fn(int) -> Result<(), CoreError> {
        |i: int|
            {
                let p = self.pumping_plants@[i];
                then(
                    self.spec_membership(EntityKind::PumpingPlant, p.id.0, p.bus_id, p.submarket_id),
                    if !self.has_hydro_plant(p.upstream_hydro_id) {
                        Err(CoreError::PumpingUnknownHydroPlant(p.id, p.upstream_hydro_id))
                    } else if !self.has_hydro_plant(p.downstream_hydro_id) {
                        Err(CoreError::PumpingUnknownHydroPlant(p.id, p.downstream_hydro_id))
                    } else {
                        Ok(())
                    },
                )
            }
    }

    /// Every structural rule of a study, in the order in which they are checked.
    pub open spec fn spec_validate(&self) -> Result<(), CoreError> {
        then(self.spec_basics(),
        then(self.spec_unique_ids(),
        then(first_error_upto(self.submarkets@.len() as int, self.submarket_checker()),
        then(first_error_upto(self.residual_costs@.len() as int, self.residual_cost_checker()),
        then(self.spec_residual_coverage(),
        then(first_error_upto(self.interchange_limits@.len() as int, self.interchange_checker()),
        then(first_error_upto(self.buses@.len() as int, self.bus_checker()),
        then(self.spec_reference_bus(),
        then(first_error_upto(self.branches@.len() as int, self.branch_checker()),
        then(first_error_upto(self.thermal_plants@.len() as int, self.thermal_checker()),
        then(first_error_upto(self.hydro_plants@.len() as int, self.hydro_checker()),
        then(first_error_upto(self.hydro_plants@.len() as int, self.link_checker()),
        then(first_error_upto(self.renewable_plants@.len() as int, self.renewable_checker()),
        then(first_error_upto(self.operational_limits@.len() as int, self.limit_checker()),
        first_error_upto(self.pumping_plants@.len() as int, self.pumping_checker())))))))))))))))
    }

    /// A study is structurally consistent when no rule fails.
    pub open spec fn is_consistent(&self) -> bool {
        self.spec_validate() is Ok
    }
}


impl System {
    fn submarket_id_values(&self) -> (r: Vec<usize>)
        ensures
            r@ == self.submarket_ids(),
    {
        let mut r: Vec<usize> = Vec::new();
        let mut i: usize = 0;
        while i < self.submarkets.len()
            invariant
                i <= self.submarkets@.len(),
                r@.len() == i,
                forall|k: int| 0 <= k < i ==> r@[k] == self.submarkets@[k].id.0,
            decreases self.submarkets@.len() - i,
        {
            r.push(self.submarkets[i].id.0);
            i = i + 1;
        }
        assert(r@ =~= self.submarket_ids());
        r
    }

    fn bus_id_values(&self) -> (r: Vec<usize>)
        ensures
            r@ == self.bus_ids(),
    {
        let mut r: Vec<usize> = Vec::new();
        let mut i: usize = 0;
        while i < self.buses.len()
            invariant
                i <= self.buses@.len(),
                r@.len() == i,
                forall|k: int| 0 <= k < i ==> r@[k] == self.buses@[k].id.0,
            decreases self.buses@.len() - i,
        {
            r.push(self.buses[i].id.0);
            i = i + 1;
        }
        assert(r@ =~= self.bus_ids());
        r
    }

    fn branch_id_values(&self) -> (r: Vec<usize>)
        ensures
            r@ == self.branch_ids(),
    {
        let mut r: Vec<usize> = Vec::new();
        let mut i: usize = 0;
        while i < self.branches.len()
            invariant
                i <= self.branches@.len(),
                r@.len() == i,
                forall|k: int| 0 <= k < i ==> r@[k] == self.branches@[k].id.0,
            decreases self.branches@.len() - i,
        {
            r.push(self.branches[i].id.0);
            i = i + 1;
        }
        assert(r@ =~= self.branch_ids());
        r
    }

    fn thermal_plant_id_values(&self) -> (r: Vec<usize>)
        ensures
            r@ == self.thermal_plant_ids(),
    {
        let mut r: Vec<usize> = Vec::new();
        let mut i: usize = 0;
        while i < self.thermal_plants.len()
            invariant
                i <= self.thermal_plants@.len(),
                r@.len() == i,
                forall|k: int| 0 <= k < i ==> r@[k] == self.thermal_plants@[k].id.0,
            decreases self.thermal_plants@.len() - i,
        {
            r.push(self.thermal_plants[i].id.0);
            i = i + 1;
        }
        assert(r@ =~= self.thermal_plant_ids());
        r
    }

    fn hydro_plant_id_values(&self) -> (r: Vec<usize>)
        ensures
            r@ == self.hydro_plant_ids(),
    {
        let mut r: Vec<usize> = Vec::new();
        let mut i: usize = 0;
        while i < self.hydro_plants.len()
            invariant
                i <= self.hydro_plants@.len(),
                r@.len() == i,
                forall|k: int| 0 <= k < i ==> r@[k] == self.hydro_plants@[k].id.0,
            decreases self.hydro_plants@.len() - i,
        {
            r.push(self.hydro_plants[i].id.0);
            i = i + 1;
        }
        assert(r@ =~= self.hydro_plant_ids());
        r
    }

    fn renewable_plant_id_values(&self) -> (r: Vec<usize>)
        ensures
            r@ == self.renewable_plant_ids(),
    {
        let mut r: Vec<usize> = Vec::new();
        let mut i: usize = 0;
        while i < self.renewable_plants.len()
            invariant
                i <= self.renewable_plants@.len(),
                r@.len() == i,
                forall|k: int| 0 <= k < i ==> r@[k] == self.renewable_plants@[k].id.0,
            decreases self.renewable_plants@.len() - i,
        {
            r.push(self.renewable_plants[i].id.0);
            i = i + 1;
        }
        assert(r@ =~= self.renewable_plant_ids());
        r
    }

    /// Whether a submarket with this identifier exists.
    /// Position of the first interchange limit from submarket `from` to submarket
    /// `to` (positions in the submarket list).
    pub fn find_interchange_limit(&self, from: usize, to: usize) -> (r: Option<usize>)
        requires
            from < self.submarkets@.len(),
            to < self.submarkets@.len(),
        ensures
            match r {
                Some(k) => k < self.interchange_limits@.len()
                    && self.interchange_limits@[k as int].from_submarket_id == self.submarkets@[from as int].id
                    && self.interchange_limits@[k as int].to_submarket_id == self.submarkets@[to as int].id
                    && forall|j: int| 0 <= j < k ==> !(self.interchange_limits@[j].from_submarket_id == self.submarkets@[from as int].id
                        && self.interchange_limits@[j].to_submarket_id == self.submarkets@[to as int].id),
                None => forall|j: int| 0 <= j < self.interchange_limits@.len() ==> !(self.interchange_limits@[j].from_submarket_id
                    == self.submarkets@[from as int].id && self.interchange_limits@[j].to_submarket_id == self.submarkets@[to as int].id),
            },
    {
        let a = self.submarkets[from].id;
        let b = self.submarkets[to].id;
        let mut i: usize = 0;
        while i < self.interchange_limits.len()
            invariant
                i <= self.interchange_limits@.len(),
                a == self.submarkets@[from as int].id,
                b == self.submarkets@[to as int].id,
                forall|j: int| 0 <= j < i ==> !(self.interchange_limits@[j].from_submarket_id == a
                    && self.interchange_limits@[j].to_submarket_id == b),
            decreases self.interchange_limits@.len() - i,
        {
            if self.interchange_limits[i].from_submarket_id == a && self.interchange_limits[i].to_submarket_id == b {
                return Some(i);
            }
            i = i + 1;
        }
        None
    }

    /// Position of the first residual cost of submarket `id`.
    pub fn find_residual_cost(&self, id: SubmarketId) -> (r: Option<usize>)
        ensures
            match r {
                Some(k) => k < self.residual_costs@.len() && self.residual_costs@[k as int].submarket_id == id
                    && forall|j: int| 0 <= j < k ==> self.residual_costs@[j].submarket_id != id,
                None => forall|j: int| 0 <= j < self.residual_costs@.len() ==> self.residual_costs@[j].submarket_id != id,
            },
    {
        let mut i: usize = 0;
        while i < self.residual_costs.len()
            invariant
                i <= self.residual_costs@.len(),
                forall|j: int| 0 <= j < i ==> self.residual_costs@[j].submarket_id != id,
            decreases self.residual_costs@.len() - i,
        {
            if self.residual_costs[i].submarket_id == id {
                return Some(i);
            }
            i = i + 1;
        }
        None
    }

    pub fn contains_submarket(&self, id: SubmarketId) -> (b: bool)
        ensures
            b == self.has_submarket(id),
    {
        let mut i: usize = 0;
        while i < self.submarkets.len()
            invariant
                i <= self.submarkets@.len(),
                forall|k: int| 0 <= k < i ==> self.submarkets@[k].id != id,
            decreases self.submarkets@.len() - i,
        {
            if self.submarkets[i].id == id {
                return true;
            }
            i = i + 1;
        }
        false
    }

    /// Position of the first bus with this identifier.
    pub fn find_bus(&self, id: BusId) -> (r: Option<usize>)
        ensures
            match r {
                Some(k) => k < self.buses@.len() && self.buses@[k as int].id == id
                    && forall|j: int| 0 <= j < k ==> self.buses@[j].id != id,
                None => !self.has_bus(id),
            },
    {
        let mut i: usize = 0;
        while i < self.buses.len()
            invariant
                i <= self.buses@.len(),
                forall|k: int| 0 <= k < i ==> self.buses@[k].id != id,
            decreases self.buses@.len() - i,
        {
            if self.buses[i].id == id {
                return Some(i);
            }
            i = i + 1;
        }
        None
    }

    /// Position of the first hydro plant with this identifier.
    pub fn find_hydro_plant(&self, id: HydroPlantId) -> (r: Option<usize>)
        ensures
            match r {
                Some(k) => k < self.hydro_plants@.len() && self.hydro_plants@[k as int].id == id
                    && forall|j: int| 0 <= j < k ==> self.hydro_plants@[j].id != id,
                None => !self.has_hydro_plant(id),
            },
    {
        let mut i: usize = 0;
        while i < self.hydro_plants.len()
            invariant
                i <= self.hydro_plants@.len(),
                forall|k: int| 0 <= k < i ==> self.hydro_plants@[k].id != id,
            decreases self.hydro_plants@.len() - i,
        {
            if self.hydro_plants[i].id == id {
                return Some(i);
            }
            i = i + 1;
        }
        None
    }

    /// Position of the first thermal plant with this identifier.
    pub fn find_thermal_plant(&self, id: ThermalPlantId) -> (r: Option<usize>)
        ensures
            match r {
                Some(k) => k < self.thermal_plants@.len() && self.thermal_plants@[k as int].id == id
                    && forall|j: int| 0 <= j < k ==> self.thermal_plants@[j].id != id,
                None => !self.has_thermal_plant(id),
            },
    {
        let mut i: usize = 0;
        while i < self.thermal_plants.len()
            invariant
                i <= self.thermal_plants@.len(),
                forall|k: int| 0 <= k < i ==> self.thermal_plants@[k].id != id,
            decreases self.thermal_plants@.len() - i,
        {
            if self.thermal_plants[i].id == id {
                return Some(i);
            }
            i = i + 1;
        }
        None
    }

    fn validate_basics(&self) -> (r: Result<(), CoreError>)
        ensures
            r == self.spec_basics(),
    {
        if let Err(e) = self.horizon.validate() {
            return Err(e);
        }
        if self.submarkets.len() == 0 {
            return Err(CoreError::NoSubmarkets);
        }
        if self.buses.len() == 0 {
            return Err(CoreError::NoBuses);
        }
        Ok(())
    }

    fn validate_ids(&self) -> (r: Result<(), CoreError>)
        ensures
            r == self.spec_unique_ids(),
    {
        validate_unique_ids(&self.submarket_id_values(), EntityKind::Submarket)?;
        validate_unique_ids(&self.bus_id_values(), EntityKind::Bus)?;
        validate_unique_ids(&self.branch_id_values(), EntityKind::Branch)?;
        validate_unique_ids(&self.thermal_plant_id_values(), EntityKind::ThermalPlant)?;
        validate_unique_ids(&self.hydro_plant_id_values(), EntityKind::HydroPlant)?;
        validate_unique_ids(&self.renewable_plant_id_values(), EntityKind::RenewablePlant)
    }
}

impl System {

    fn validate_submarkets(&self) -> (r: Result<(), CoreError>)
        ensures
            r == first_error_upto(self.submarkets@.len() as int, self.submarket_checker()),
    {
        let ghost check = self.submarket_checker();
        let n = self.submarkets.len();
        let mut i: usize = 0;
        while i < n
            invariant
                n == self.submarkets@.len(),
                i <= n,
                check == self.submarket_checker(),
                first_error_upto(i as int, check) is Ok,
                
            decreases n - i,
        {
            let r = self.submarkets[i].validate(self.horizon.periods);
            proof {
                assert(check(i as int) == r);
            }
            if let Err(e) = r {
                proof {
                    lemma_upto_prefix(n as int, i + 1, check);
                }
                return Err(e);
            }
            i = i + 1;
        }
        Ok(())
    }

    #[verifier::loop_isolation(false)]
    fn check_residual_cost(&self, i: usize) -> (r: Result<(), CoreError>)
        requires
            i < self.residual_costs@.len(),
        ensures
            r == (self.residual_cost_checker())(i as int),
    {
        let sid = self.residual_costs[i].submarket_id;
        if !self.contains_submarket(sid) {
            return Err(CoreError::UnknownResidualCostSubmarket(sid));
        }
        let mut k: usize = 0;
        while k < i
            invariant
                i < self.residual_costs@.len(),
                k <= i,
                sid == self.residual_costs@[i as int].submarket_id,
                forall|j: int| 0 <= j < k ==> self.residual_costs@[j].submarket_id != sid,
            decreases i - k,
        {
            if self.residual_costs[k].submarket_id == sid {
                return Err(CoreError::DuplicateResidualCost(sid));
            }
            k = k + 1;
        }
        Ok(())
    }

    fn validate_residual_costs(&self) -> (r: Result<(), CoreError>)
        ensures
            r == first_error_upto(self.residual_costs@.len() as int, self.residual_cost_checker()),
    {
        let ghost check = self.residual_cost_checker();
        let n = self.residual_costs.len();
        let mut i: usize = 0;
        while i < n
            invariant
                n == self.residual_costs@.len(),
                i <= n,
                check == self.residual_cost_checker(),
                first_error_upto(i as int, check) is Ok,
                
            decreases n - i,
        {
            let r = self.check_residual_cost(i);
            proof {
                assert(check(i as int) == r);
            }
            if let Err(e) = r {
                proof {
                    lemma_upto_prefix(n as int, i + 1, check);
                }
                return Err(e);
            }
            i = i + 1;
        }
        Ok(())
    }

    #[verifier::loop_isolation(false)]
    fn check_interchange(&self, i: usize) -> (r: Result<(), CoreError>)
        requires
            i < self.interchange_limits@.len(),
        ensures
            r == (self.interchange_checker())(i as int),
    {
        let l = &self.interchange_limits[i];
        if let Err(e) = l.validate() {
            return Err(e);
        }
        let from = l.from_submarket_id;
        let to = l.to_submarket_id;
        if !self.contains_submarket(from) || !self.contains_submarket(to) {
            return Err(CoreError::InterchangeUnknownSubmarket(from, to));
        }
        let mut k: usize = 0;
        while k < i
            invariant
                i < self.interchange_limits@.len(),
                k <= i,
                from == self.interchange_limits@[i as int].from_submarket_id,
                to == self.interchange_limits@[i as int].to_submarket_id,
                forall|j: int| 0 <= j < k ==> !(self.interchange_limits@[j].from_submarket_id == from
                    && self.interchange_limits@[j].to_submarket_id == to),
            decreases i - k,
        {
            if self.interchange_limits[k].from_submarket_id == from && self.interchange_limits[k].to_submarket_id == to {
                return Err(CoreError::DuplicateInterchangeLimit(from, to));
            }
            k = k + 1;
        }
        Ok(())
    }

    fn validate_interchange_limits(&self) -> (r: Result<(), CoreError>)
        ensures
            r == first_error_upto(self.interchange_limits@.len() as int, self.interchange_checker()),
    {
        let ghost check = self.interchange_checker();
        let n = self.interchange_limits.len();
        let mut i: usize = 0;
        while i < n
            invariant
                n == self.interchange_limits@.len(),
                i <= n,
                check == self.interchange_checker(),
                first_error_upto(i as int, check) is Ok,
                
            decreases n - i,
        {
            let r = self.check_interchange(i);
            proof {
                assert(check(i as int) == r);
            }
            if let Err(e) = r {
                proof {
                    lemma_upto_prefix(n as int, i + 1, check);
                }
                return Err(e);
            }
            i = i + 1;
        }
        Ok(())
    }

    fn check_bus(&self, i: usize) -> (r: Result<(), CoreError>)
        requires
            i < self.buses@.len(),
        ensures
            r == (self.bus_checker())(i as int),
    {
        let b = &self.buses[i];
        if let Err(e) = b.validate(self.horizon.periods) {
            return Err(e);
        }
        if !self.contains_submarket(b.submarket_id) {
            return Err(CoreError::BusUnknownSubmarket(b.id, b.submarket_id));
        }
        Ok(())
    }

    fn validate_buses(&self) -> (r: Result<(), CoreError>)
        ensures
            r == first_error_upto(self.buses@.len() as int, self.bus_checker()),
    {
        let ghost check = self.bus_checker();
        let n = self.buses.len();
        let mut i: usize = 0;
        while i < n
            invariant
                n == self.buses@.len(),
                i <= n,
                check == self.bus_checker(),
                first_error_upto(i as int, check) is Ok,
                
            decreases n - i,
        {
            let r = self.check_bus(i);
            proof {
                assert(check(i as int) == r);
            }
            if let Err(e) = r {
                proof {
                    lemma_upto_prefix(n as int, i + 1, check);
                }
                return Err(e);
            }
            i = i + 1;
        }
        Ok(())
    }

    fn validate_reference_bus(&self) -> (r: Result<(), CoreError>)
        ensures
            r == self.spec_reference_bus(),
    {
        let mut count: usize = 0;
        let mut i: usize = 0;
        while i < self.buses.len()
            invariant
                i <= self.buses@.len(),
                count == reference_bus_count(self.buses@.take(i as int)),
            decreases self.buses@.len() - i,
        {
            proof {
                assert(self.buses@.take(i + 1).drop_last() =~= self.buses@.take(i as int));
                lemma_reference_bus_count_bound(self.buses@.take(i as int));
            }
            if self.buses[i].angle_reference {
                count = count + 1;
            }
            i = i + 1;
        }
        proof {
            assert(self.buses@.take(self.buses@.len() as int) =~= self.buses@);
        }
        if count != 1 {
            return Err(CoreError::ReferenceBusCount(count));
        }
        Ok(())
    }

    fn check_branch(&self, i: usize) -> (r: Result<(), CoreError>)
        requires
            i < self.branches@.len(),
        ensures
            r == (self.branch_checker())(i as int),
    {
        let b = &self.branches[i];
        if let Err(e) = b.validate() {
            return Err(e);
        }
        if self.find_bus(b.from_bus_id).is_none() || self.find_bus(b.to_bus_id).is_none() {
            return Err(CoreError::BranchUnknownBus(b.id));
        }
        Ok(())
    }

    fn validate_branches(&self) -> (r: Result<(), CoreError>)
        ensures
            r == first_error_upto(self.branches@.len() as int, self.branch_checker()),
    {
        let ghost check = self.branch_checker();
        let n = self.branches.len();
        let mut i: usize = 0;
        while i < n
            invariant
                n == self.branches@.len(),
                i <= n,
                check == self.branch_checker(),
                first_error_upto(i as int, check) is Ok,
                
            decreases n - i,
        {
            let r = self.check_branch(i);
            proof {
                assert(check(i as int) == r);
            }
            if let Err(e) = r {
                proof {
                    lemma_upto_prefix(n as int, i + 1, check);
                }
                return Err(e);
            }
            i = i + 1;
        }
        Ok(())
    }

    /// The entity sits on a known bus of a known submarket, and that bus belongs
    /// to that submarket.
    pub fn validate_bus_and_submarket_membership(
        &self,
        kind: EntityKind,
        entity_id: usize,
        bus_id: BusId,
        submarket_id: SubmarketId,
    ) -> (r: Result<(), CoreError>)
        ensures
            r == self.spec_membership(kind, entity_id, bus_id, submarket_id),
    {
        let found = self.find_bus(bus_id);
        if found.is_none() {
            return Err(CoreError::UnknownBus(kind, entity_id, bus_id));
        }
        if !self.contains_submarket(submarket_id) {
            return Err(CoreError::UnknownSubmarket(kind, entity_id, submarket_id));
        }
        let k = found.unwrap();
        if self.buses[k].submarket_id != submarket_id {
            proof {
                // Only the first match can witness the membership, and it is `k`.
                if self.bus_in_submarket(bus_id, submarket_id) {
                    let w = choose|w: int| {
                        &&& 0 <= w < self.buses@.len()
                        &&& #[trigger] self.buses@[w].id == bus_id
                        &&& self.buses@[w].submarket_id == submarket_id
                        &&& forall|j: int| 0 <= j < w ==> self.buses@[j].id != bus_id
                    };
                    if w < k {
                    } else if w > k {
                        assert(self.buses@[k as int].id == bus_id);
                    }
                }
            }
            return Err(CoreError::BusSubmarketMismatch(kind, entity_id));
        }
        Ok(())
    }

    fn check_thermal_plant(&self, i: usize) -> (r: Result<(), CoreError>)
        requires
            i < self.thermal_plants@.len(),
            self.ids_distinct(),
        ensures
            r == (self.thermal_checker())(i as int),
    {
        let p = &self.thermal_plants[i];
        if let Err(e) = p.validate() {
            return Err(e);
        }
        self.validate_bus_and_submarket_membership(EntityKind::ThermalPlant, p.id.0, p.bus_id, p.submarket_id)
    }

    fn validate_thermal_plants(&self) -> (r: Result<(), CoreError>)
        requires
            self.ids_distinct(),
        ensures
            r == first_error_upto(self.thermal_plants@.len() as int, self.thermal_checker()),
    {
        let ghost check = self.thermal_checker();
        let n = self.thermal_plants.len();
        let mut i: usize = 0;
        while i < n
            invariant
                n == self.thermal_plants@.len(),
                i <= n,
                check == self.thermal_checker(),
                first_error_upto(i as int, check) is Ok,
                self.ids_distinct(),
            decreases n - i,
        {
            let r = self.check_thermal_plant(i);
            proof {
                assert(check(i as int) == r);
            }
            if let Err(e) = r {
                proof {
                    lemma_upto_prefix(n as int, i + 1, check);
                }
                return Err(e);
            }
            i = i + 1;
        }
        Ok(())
    }
}

/// Whether the list holds the identifier.
pub fn list_contains(list: &Vec<HydroPlantId>, id: HydroPlantId) -> (b: bool)
    ensures
        b == list@.contains(id),
{
    let mut i: usize = 0;
    while i < list.len()
        invariant
            i <= list@.len(),
            forall|k: int| 0 <= k < i ==> list@[k] != id,
        decreases list@.len() - i,
    {
        if list[i] == id {
            return true;
        }
        i = i + 1;
    }
    false
}

impl System {

    proof fn lemma_hydro_index_unique(&self, a: int, b: int)
        requires
            distinct_ids(self.hydro_plant_ids()),
            0 <= a < self.hydro_plants@.len(),
            0 <= b < self.hydro_plants@.len(),
            self.hydro_plants@[a].id == self.hydro_plants@[b].id,
        ensures
            a == b,
    {
        if a < b {
            assert(self.hydro_plant_ids()[a] != self.hydro_plant_ids()[b]);
        } else if b < a {
            assert(self.hydro_plant_ids()[b] != self.hydro_plant_ids()[a]);
        }
    }

    proof fn lemma_thermal_index_unique(&self, a: int, b: int)
        requires
            distinct_ids(self.thermal_plant_ids()),
            0 <= a < self.thermal_plants@.len(),
            0 <= b < self.thermal_plants@.len(),
            self.thermal_plants@[a].id == self.thermal_plants@[b].id,
        ensures
            a == b,
    {
        if a < b {
            assert(self.thermal_plant_ids()[a] != self.thermal_plant_ids()[b]);
        } else if b < a {
            assert(self.thermal_plant_ids()[b] != self.thermal_plant_ids()[a]);
        }
    }

    #[verifier::loop_isolation(false)]
    fn check_reference_list(&self, plant: HydroPlantId, refs: &Vec<HydroPlantId>, link: CascadeLink) -> (r: Result<(), CoreError>)
        ensures
            r == self.spec_reference_list(plant, refs@, link),
    {
        let ghost check = self.reference_checker(plant, refs@, link);
        let n = refs.len();
        let mut j: usize = 0;
        while j < n
            invariant
                n == refs@.len(),
                j <= n,
                check == self.reference_checker(plant, refs@, link),
                first_error_upto(j as int, check) is Ok,
            decreases n - j,
        {
            let r = refs[j];
            let mut k: usize = 0;
            while k < j
                invariant
                    n == refs@.len(),
                    j < n,
                    k <= j,
                    r == refs@[j as int],
                    forall|m: int| 0 <= m < k ==> refs@[m] != r,
                decreases j - k,
            {
                if refs[k] == r {
                    proof {
                        assert(refs@[k as int] == r);
                        assert(check(j as int) == Err::<(), CoreError>(CoreError::DuplicateCascadeReference(plant, link, r)));
                        lemma_upto_prefix(n as int, j + 1, check);
                    }
                    return Err(CoreError::DuplicateCascadeReference(plant, link, r));
                }
                k = k + 1;
            }
            if r == plant {
                proof {
                    lemma_upto_prefix(n as int, j + 1, check);
                }
                return Err(CoreError::SelfCascadeReference(plant, link));
            }
            if self.find_hydro_plant(r).is_none() {
                proof {
                    lemma_upto_prefix(n as int, j + 1, check);
                }
                return Err(CoreError::UnknownCascadeReference(plant, link, r));
            }
            proof {
                assert(check(j as int) is Ok);
            }
            j = j + 1;
        }
        Ok(())
    }

    fn check_single_reference(&self, plant: HydroPlantId, target: Option<HydroPlantId>, link: CascadeLink) -> (r: Result<(), CoreError>)
        ensures
            r == self.spec_single_reference(plant, target, link),
    {
        match target {
            None => Ok(()),
            Some(d) => {
                if d == plant {
                    Err(CoreError::SelfCascadeReference(plant, link))
                } else if self.find_hydro_plant(d).is_none() {
                    Err(CoreError::UnknownCascadeReference(plant, link, d))
                } else {
                    Ok(())
                }
            },
        }
    }

    fn check_hydro_plant(&self, i: usize) -> (r: Result<(), CoreError>)
        requires
            i < self.hydro_plants@.len(),
            self.ids_distinct(),
        ensures
            r == (self.hydro_checker())(i as int),
    {
        let p = &self.hydro_plants[i];
        if let Err(e) = p.validate(self.horizon.periods, self.hydro_fpha_enabled) {
            return Err(e);
        }
        if let Err(e) = self.validate_bus_and_submarket_membership(EntityKind::HydroPlant, p.id.0, p.bus_id, p.submarket_id) {
            return Err(e);
        }
        if let Err(e) = self.check_reference_list(p.id, &p.upstream_plant_ids, CascadeLink::Upstream) {
            return Err(e);
        }
        if let Err(e) = self.check_single_reference(p.id, p.downstream_plant_id, CascadeLink::Downstream) {
            return Err(e);
        }
        if let Err(e) = self.check_reference_list(p.id, &p.diversion_upstream_plant_ids, CascadeLink::DiversionUpstream) {
            return Err(e);
        }
        self.check_single_reference(p.id, p.diversion_plant_id, CascadeLink::DiversionDestination)
    }

    fn validate_hydro_plants(&self) -> (r: Result<(), CoreError>)
        requires
            self.ids_distinct(),
        ensures
            r == first_error_upto(self.hydro_plants@.len() as int, self.hydro_checker()),
    {
        let ghost check = self.hydro_checker();
        let n = self.hydro_plants.len();
        let mut i: usize = 0;
        while i < n
            invariant
                n == self.hydro_plants@.len(),
                i <= n,
                check == self.hydro_checker(),
                first_error_upto(i as int, check) is Ok,
                self.ids_distinct(),
            decreases n - i,
        {
            let r = self.check_hydro_plant(i);
            proof {
                assert(check(i as int) == r);
            }
            if let Err(e) = r {
                proof {
                    lemma_upto_prefix(n as int, i + 1, check);
                }
                return Err(e);
            }
            i = i + 1;
        }
        Ok(())
    }

    fn plant_flows_into(&self, from: HydroPlantId, to: HydroPlantId) -> (b: bool)
        requires
            distinct_ids(self.hydro_plant_ids()),
        ensures
            b == self.flows_into(from, to),
    {
        match self.find_hydro_plant(from) {
            None => false,
            Some(k) => {
                proof {
                    assert forall|j: int| 0 <= j < self.hydro_plants@.len() && #[trigger] self.hydro_plants@[j].id == from implies j == k by {
                        self.lemma_hydro_index_unique(j, k as int);
                    }
                }
                match self.hydro_plants[k].downstream_plant_id {
                    Some(d) => d == to,
                    None => false,
                }
            },
        }
    }

    fn plant_diverts_into(&self, from: HydroPlantId, to: HydroPlantId) -> (b: bool)
        requires
            distinct_ids(self.hydro_plant_ids()),
        ensures
            b == self.diverts_into(from, to),
    {
        match self.find_hydro_plant(from) {
            None => false,
            Some(k) => {
                proof {
                    assert forall|j: int| 0 <= j < self.hydro_plants@.len() && #[trigger] self.hydro_plants@[j].id == from implies j == k by {
                        self.lemma_hydro_index_unique(j, k as int);
                    }
                }
                match self.hydro_plants[k].diversion_plant_id {
                    Some(d) => d == to,
                    None => false,
                }
            },
        }
    }

    fn plant_lists_upstream(&self, at: HydroPlantId, from: HydroPlantId) -> (b: bool)
        requires
            distinct_ids(self.hydro_plant_ids()),
        ensures
            b == self.lists_upstream(at, from),
    {
        match self.find_hydro_plant(at) {
            None => false,
            Some(k) => {
                proof {
                    assert forall|j: int| 0 <= j < self.hydro_plants@.len() && #[trigger] self.hydro_plants@[j].id == at implies j == k by {
                        self.lemma_hydro_index_unique(j, k as int);
                    }
                }
                list_contains(&self.hydro_plants[k].upstream_plant_ids, from)
            },
        }
    }

    fn plant_lists_diversion_upstream(&self, at: HydroPlantId, from: HydroPlantId) -> (b: bool)
        requires
            distinct_ids(self.hydro_plant_ids()),
        ensures
            b == self.lists_diversion_upstream(at, from),
    {
        match self.find_hydro_plant(at) {
            None => false,
            Some(k) => {
                proof {
                    assert forall|j: int| 0 <= j < self.hydro_plants@.len() && #[trigger] self.hydro_plants@[j].id == at implies j == k by {
                        self.lemma_hydro_index_unique(j, k as int);
                    }
                }
                list_contains(&self.hydro_plants[k].diversion_upstream_plant_ids, from)
            },
        }
    }

    #[verifier::loop_isolation(false)]
    fn check_plant_links(&self, i: usize) -> (r: Result<(), CoreError>)
        requires
            i < self.hydro_plants@.len(),
            self.ids_distinct(),
        ensures
            r == (self.link_checker())(i as int),
    {
        let p = &self.hydro_plants[i];
        let ghost check = self.upstream_link_checker(*p);
        let n = p.upstream_plant_ids.len();
        let mut j: usize = 0;
        while j < n
            invariant
                n == p.upstream_plant_ids@.len(),
                j <= n,
                check == self.upstream_link_checker(*p),
                first_error_upto(j as int, check) is Ok,
                self.ids_distinct(),
            decreases n - j,
        {
            let u = p.upstream_plant_ids[j];
            if !self.plant_flows_into(u, p.id) {
                proof {
                    lemma_upto_prefix(n as int, j + 1, check);
                }
                return Err(CoreError::InconsistentCascadeLink(p.id, CascadeLink::Upstream, u));
            }
            j = j + 1;
        }
        if let Some(d) = p.downstream_plant_id {
            if !self.plant_lists_upstream(d, p.id) {
                return Err(CoreError::InconsistentCascadeLink(p.id, CascadeLink::Downstream, d));
            }
        }
        let ghost dcheck = self.diversion_upstream_link_checker(*p);
        let m = p.diversion_upstream_plant_ids.len();
        let mut j: usize = 0;
        while j < m
            invariant
                m == p.diversion_upstream_plant_ids@.len(),
                j <= m,
                dcheck == self.diversion_upstream_link_checker(*p),
                first_error_upto(j as int, dcheck) is Ok,
                self.ids_distinct(),
            decreases m - j,
        {
            let u = p.diversion_upstream_plant_ids[j];
            if !self.plant_diverts_into(u, p.id) {
                proof {
                    lemma_upto_prefix(m as int, j + 1, dcheck);
                }
                return Err(CoreError::InconsistentCascadeLink(p.id, CascadeLink::DiversionUpstream, u));
            }
            j = j + 1;
        }
        if let Some(d) = p.diversion_plant_id {
            if !self.plant_lists_diversion_upstream(d, p.id) {
                return Err(CoreError::InconsistentCascadeLink(p.id, CascadeLink::DiversionDestination, d));
            }
        }
        Ok(())
    }

    fn validate_hydro_links(&self) -> (r: Result<(), CoreError>)
        requires
            self.ids_distinct(),
        ensures
            r == first_error_upto(self.hydro_plants@.len() as int, self.link_checker()),
    {
        let ghost check = self.link_checker();
        let n = self.hydro_plants.len();
        let mut i: usize = 0;
        while i < n
            invariant
                n == self.hydro_plants@.len(),
                i <= n,
                check == self.link_checker(),
                first_error_upto(i as int, check) is Ok,
                self.ids_distinct(),
            decreases n - i,
        {
            let r = self.check_plant_links(i);
            proof {
                assert(check(i as int) == r);
            }
            if let Err(e) = r {
                proof {
                    lemma_upto_prefix(n as int, i + 1, check);
                }
                return Err(e);
            }
            i = i + 1;
        }
        Ok(())
    }

    fn check_renewable_plant(&self, i: usize) -> (r: Result<(), CoreError>)
        requires
            i < self.renewable_plants@.len(),
            self.ids_distinct(),
        ensures
            r == (self.renewable_checker())(i as int),
    {
        let p = &self.renewable_plants[i];
        if let Err(e) = p.validate(self.horizon.periods) {
            return Err(e);
        }
        self.validate_bus_and_submarket_membership(EntityKind::RenewablePlant, p.id.0, p.bus_id, p.submarket_id)
    }

    fn validate_renewable_plants(&self) -> (r: Result<(), CoreError>)
        requires
            self.ids_distinct(),
        ensures
            r == first_error_upto(self.renewable_plants@.len() as int, self.renewable_checker()),
    {
        let ghost check = self.renewable_checker();
        let n = self.renewable_plants.len();
        let mut i: usize = 0;
        while i < n
            invariant
                n == self.renewable_plants@.len(),
                i <= n,
                check == self.renewable_checker(),
                first_error_upto(i as int, check) is Ok,
                self.ids_distinct(),
            decreases n - i,
        {
            let r = self.check_renewable_plant(i);
            proof {
                assert(check(i as int) == r);
            }
            if let Err(e) = r {
                proof {
                    lemma_upto_prefix(n as int, i + 1, check);
                }
                return Err(e);
            }
            i = i + 1;
        }
        Ok(())
    }

    fn check_operational_limit(&self, i: usize) -> (r: Result<(), CoreError>)
        requires
            i < self.operational_limits@.len(),
            self.ids_distinct(),
        ensures
            r == (self.limit_checker())(i as int),
    {
        let l = &self.operational_limits[i];
        if let Err(e) = l.validate(self.horizon.periods) {
            return Err(e);
        }
        match l.target {
            OperationalLimitTarget::ThermalPlant(pid) => {
                match self.find_thermal_plant(pid) {
                    None => Err(CoreError::LimitUnknownThermalPlant(pid)),
                    Some(k) => {
                        proof {
                            assert forall|j: int| 0 <= j < self.thermal_plants@.len() && #[trigger] self.thermal_plants@[j].id == pid implies j == k by {
                                self.lemma_thermal_index_unique(j, k as int);
                            }
                        }
                        if self.thermal_plants[k].name == l.plant_name {
                            Ok(())
                        } else {
                            Err(CoreError::LimitThermalNameMismatch(pid))
                        }
                    },
                }
            },
            OperationalLimitTarget::HydroPlant(pid) => {
                match self.find_hydro_plant(pid) {
                    None => Err(CoreError::LimitUnknownHydroPlant(pid)),
                    Some(k) => {
                        proof {
                            assert forall|j: int| 0 <= j < self.hydro_plants@.len() && #[trigger] self.hydro_plants@[j].id == pid implies j == k by {
                                self.lemma_hydro_index_unique(j, k as int);
                            }
                        }
                        if self.hydro_plants[k].name == l.plant_name {
                            Ok(())
                        } else {
                            Err(CoreError::LimitHydroNameMismatch(pid))
                        }
                    },
                }
            },
            OperationalLimitTarget::PumpingPlant(pid) => self.check_pumping_limit_target(pid, &l.plant_name),
        }
    }

    fn check_pumping_limit_target(&self, pid: PumpingPlantId, name: &String) -> (r: Result<(), CoreError>)
        ensures
            r == (if !self.has_pumping_plant(pid) {
                Err(CoreError::LimitUnknownPumpingPlant(pid))
            } else if !self.pumping_plant_named(pid, name@) {
                Err(CoreError::LimitPumpingNameMismatch(pid))
            } else {
                Ok(())
            }),
    {
        let mut found = false;
        let mut named = true;
        let mut i: usize = 0;
        while i < self.pumping_plants.len()
            invariant
                i <= self.pumping_plants@.len(),
                found == exists|k: int| 0 <= k < i && #[trigger] self.pumping_plants@[k].id == pid,
                named == forall|k: int| 0 <= k < i && #[trigger] self.pumping_plants@[k].id == pid ==> self.pumping_plants@[k].name@ == name@,
            decreases self.pumping_plants@.len() - i,
        {
            if self.pumping_plants[i].id == pid {
                found = true;
                if self.pumping_plants[i].name != *name {
                    named = false;
                }
            }
            proof {
                assert(found == exists|k: int| 0 <= k < i + 1 && #[trigger] self.pumping_plants@[k].id == pid) by {
                    if self.pumping_plants@[i as int].id == pid {
                        assert(self.pumping_plants@[i as int].id == pid);
                    }
                }
            }
            i = i + 1;
        }
        if !found {
            Err(CoreError::LimitUnknownPumpingPlant(pid))
        } else if !named {
            Err(CoreError::LimitPumpingNameMismatch(pid))
        } else {
            Ok(())
        }
    }

    fn validate_operational_limits(&self) -> (r: Result<(), CoreError>)
        requires
            self.ids_distinct(),
        ensures
            r == first_error_upto(self.operational_limits@.len() as int, self.limit_checker()),
    {
        let ghost check = self.limit_checker();
        let n = self.operational_limits.len();
        let mut i: usize = 0;
        while i < n
            invariant
                n == self.operational_limits@.len(),
                i <= n,
                check == self.limit_checker(),
                first_error_upto(i as int, check) is Ok,
                self.ids_distinct(),
            decreases n - i,
        {
            let r = self.check_operational_limit(i);
            proof {
                assert(check(i as int) == r);
            }
            if let Err(e) = r {
                proof {
                    lemma_upto_prefix(n as int, i + 1, check);
                }
                return Err(e);
            }
            i = i + 1;
        }
        Ok(())
    }

    /// Checks every structural rule of the study in order and reports the first
    /// one that fails.
    pub fn validate(&self) -> (r: Result<(), CoreError>)
        ensures
            r == self.spec_validate(),
    {
        self.validate_basics()?;
        self.validate_ids()?;
        self.validate_submarkets()?;
        self.validate_residual_costs()?;
        if self.ton_residual_enabled && self.residual_costs.len() != self.submarkets.len() {
            return Err(CoreError::MissingResidualCosts);
        }
        self.validate_interchange_limits()?;
        self.validate_buses()?;
        self.validate_reference_bus()?;
        self.validate_branches()?;
        self.validate_thermal_plants()?;
        self.validate_hydro_plants()?;
        self.validate_hydro_links()?;
        self.validate_renewable_plants()?;
        self.validate_operational_limits()?;
        self.validate_pumping_plants()
    }

    fn check_pumping_plant(&self, i: usize) -> (r: Result<(), CoreError>)
        requires
            i < self.pumping_plants@.len(),
        ensures
            r == (self.pumping_checker())(i as int),
    {
        let p = &self.pumping_plants[i];
        if let Err(e) = self.validate_bus_and_submarket_membership(EntityKind::PumpingPlant, p.id.0, p.bus_id, p.submarket_id) {
            return Err(e);
        }
        if self.find_hydro_plant(p.upstream_hydro_id).is_none() {
            return Err(CoreError::PumpingUnknownHydroPlant(p.id, p.upstream_hydro_id));
        }
        if self.find_hydro_plant(p.downstream_hydro_id).is_none() {
            return Err(CoreError::PumpingUnknownHydroPlant(p.id, p.downstream_hydro_id));
        }
        Ok(())
    }

    fn validate_pumping_plants(&self) -> (r: Result<(), CoreError>)
        ensures
            r == first_error_upto(self.pumping_plants@.len() as int, self.pumping_checker()),
    {
        let ghost check = self.pumping_checker();
        let n = self.pumping_plants.len();
        let mut i: usize = 0;
        while i < n
            invariant
                n == self.pumping_plants@.len(),
                i <= n,
                check == self.pumping_checker(),
                first_error_upto(i as int, check) is Ok,
            decreases n - i,
        {
            let r = self.check_pumping_plant(i);
            proof {
                assert(check(i as int) == r);
            }
            if let Err(e) = r {
                proof {
                    lemma_upto_prefix(n as int, i + 1, check);
                }
                return Err(e);
            }
            i = i + 1;
        }
        Ok(())
    }
}
} // verus!
