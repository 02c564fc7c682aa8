//! Waiting for the fleet's instances to report complete network addressing.

use vstd::prelude::*;
use crate::plan::{distinct, total_of, BurstBuilder, MachineSet};
use crate::request::{
    comes_from, find_group, group_of, lemma_group_of_recorded, lemma_resolved_exact, pairs_of, resolved, Assignment,
    RequestStatus,
};

verus! {

/// What the control plane reports of one instance. A field is absent until
/// the control plane knows it.
pub struct InstanceDescription {
    pub instance_id: Option<String>,
    pub instance_type: Option<String>,
    pub private_ip: Option<String>,
    pub public_dns: Option<String>,
    pub public_ip: Option<String>,
}

/// The addressing of a running instance.
pub struct Machine {
    pub instance_type: String,
    pub private_ip: String,
    pub public_dns: String,
    pub public_ip: String,
}

impl Machine {
    /// Instance class, private address, public DNS name, public address.
    pub open spec fn view(&self) -> (Seq<char>, Seq<char>, Seq<char>, Seq<char>) {
        (self.instance_type@, self.private_ip@, self.public_dns@, self.public_ip@)
    }
}

/// A machine of the fleet, with its instance and the group it belongs to.
pub struct FleetInstance {
    pub instance_id: String,
    pub group: String,
    pub machine: Machine,
}

impl FleetInstance {
    /// A second record of the same machine.
    pub fn duplicate(&self) -> (copy: Self)
        ensures
            copy == *self,
    {
        FleetInstance {
            instance_id: self.instance_id.clone(),
            group: self.group.clone(),
            machine: Machine {
                instance_type: self.machine.instance_type.clone(),
                private_ip: self.machine.private_ip.clone(),
                public_dns: self.machine.public_dns.clone(),
                public_ip: self.machine.public_ip.clone(),
            },
        }
    }

    /// Instance identifier, group name, addressing.
    pub open spec fn view(&self) -> (Seq<char>, Seq<char>, (Seq<char>, Seq<char>, Seq<char>, Seq<char>)) {
        (self.instance_id@, self.group@, self.machine@)
    }
}

impl InstanceDescription {
    /// The report holds the instance's identifier, class and all three addresses.
    pub open spec fn complete(&self) -> bool {
        &&& self.instance_id.is_some()
        &&& self.instance_type.is_some()
        &&& self.private_ip.is_some()
        &&& self.public_dns.is_some()
        &&& self.public_ip.is_some()
    }

    /// The report is complete, and of an instance that belongs to a group.
    pub open spec fn placed(&self, instances: Seq<Assignment>) -> bool {
        self.complete() && group_of(instances, self.instance_id.unwrap()@).is_some()
    }

    /// The fleet record that a placed report gives.
    pub open spec fn record(&self, instances: Seq<Assignment>) -> (
        Seq<char>,
        Seq<char>,
        (Seq<char>, Seq<char>, Seq<char>, Seq<char>),
    ) {
        (
            self.instance_id.unwrap()@,
            group_of(instances, self.instance_id.unwrap()@).unwrap(),
            (
                self.instance_type.unwrap()@,
                self.private_ip.unwrap()@,
                self.public_dns.unwrap()@,
                self.public_ip.unwrap()@,
            ),
        )
    }

    /// The machine that a complete report describes; `None` while a field is
    /// missing.
    pub fn machine(&self) -> (machine: Option<Machine>)
        ensures
            machine.is_some() == self.complete(),
            match machine {
                Some(m) => m@ == (
                    self.instance_type.unwrap()@,
                    self.private_ip.unwrap()@,
                    self.public_dns.unwrap()@,
                    self.public_ip.unwrap()@,
                ),
                None => true,
            },
    {
        match (&self.instance_id, &self.instance_type, &self.private_ip, &self.public_dns, &self.public_ip) {
            (Some(_), Some(instance_type), Some(private_ip), Some(public_dns), Some(public_ip)) => Some(
                Machine {
                    instance_type: instance_type.clone(),
                    private_ip: private_ip.clone(),
                    public_dns: public_dns.clone(),
                    public_ip: public_ip.clone(),
                },
            ),
            _ => None,
        }
    }
}

/// Some report of the round is still incomplete.
pub open spec fn some_incomplete(round: Seq<InstanceDescription>) -> bool {
    exists|i: int| 0 <= i < round.len() && !(#[trigger] round[i]).complete()
}

/// Some complete report of the round is of an instance that no group claims.
pub open spec fn some_unplaced(round: Seq<InstanceDescription>, instances: Seq<Assignment>) -> bool {
    exists|i: int| 0 <= i < round.len() && (#[trigger] round[i]).complete() && !round[i].placed(instances)
}

/// What one round of polling the instances shows.
pub enum ReadinessRound {
    /// Some instance lacks a field: poll again, and start over.
    NotReady,
    /// A described instance belongs to no group of this run.
    Unplaced,
    /// Every instance is fully described: the fleet, in the round's order.
    Ready(Vec<FleetInstance>),
}

/// Reads one round of instance reports. The fleet is built from this round
/// alone: one incomplete report makes the whole round not ready.
pub fn readiness_round(round: &Vec<InstanceDescription>, instances: &Vec<Assignment>) -> (out: ReadinessRound)
    ensures
        some_incomplete(round@) ==> out is NotReady,
        !some_incomplete(round@) && some_unplaced(round@, instances@) ==> out is Unplaced,
        !some_incomplete(round@) && !some_unplaced(round@, instances@) ==> {
            &&& out is Ready
            &&& out->Ready_0@.len() == round@.len()
            &&& forall|i: int|
                0 <= i < round@.len() ==> (#[trigger] out->Ready_0@[i])@ == round@[i].record(instances@)
        },
{
    let mut fleet: Vec<FleetInstance> = Vec::new();
    let mut unplaced = false;
    let mut i: usize = 0;
    while i < round.len()
        invariant
            i <= round@.len(),
            forall|k: int| 0 <= k < i ==> (#[trigger] round@[k]).complete(),
            unplaced == exists|k: int| 0 <= k < i && !(#[trigger] round@[k]).placed(instances@),
            !unplaced ==> fleet@.len() == i,
            !unplaced ==> forall|k: int| 0 <= k < i ==> (#[trigger] fleet@[k])@ == round@[k].record(instances@),
        decreases round@.len() - i,
    {
        let machine = match round[i].machine() {
            Some(machine) => machine,
            None => {
                return ReadinessRound::NotReady;
            },
        };
        let id = match &round[i].instance_id {
            Some(id) => id,
            None => {
                return ReadinessRound::NotReady;
            },
        };
        match find_group(instances, id) {
            Some(group) => {
                if !unplaced {
                    fleet.push(FleetInstance { instance_id: id.clone(), group, machine });
                }
            },
            None => {
                unplaced = true;
            },
        }
        i += 1;
    }
    if unplaced {
        ReadinessRound::Unplaced
    } else {
        ReadinessRound::Ready(fleet)
    }
}

/// The machines of `fleet` that belong to `group`, in the fleet's order.
pub open spec fn members(fleet: Seq<FleetInstance>, group: Seq<char>) -> Seq<FleetInstance> {
    fleet.filter(|m: FleetInstance| m.group@ == group)
}

/// Picks a group's machines out of the fleet.
pub fn group_members(fleet: &Vec<FleetInstance>, group: &str) -> (picked: Vec<FleetInstance>)
    ensures
        picked@ == members(fleet@, group@),
{
    let wanted = String::from_str(group);
    let mut picked: Vec<FleetInstance> = Vec::new();
    let mut i: usize = 0;
    while i < fleet.len()
        invariant
            i <= fleet@.len(),
            wanted@ == group@,
            picked@ == members(fleet@.take(i as int), group@),
        decreases fleet@.len() - i,
    {
        proof {
            assert(fleet@.take(i + 1) =~= fleet@.take(i as int).push(fleet@[i as int]));
            lemma_members_push(fleet@.take(i as int), fleet@[i as int], group@);
        }
        if fleet[i].group == wanted {
            picked.push(fleet[i].duplicate());
        }
        i += 1;
    }
    proof {
        assert(fleet@.take(i as int) =~= fleet@);
    }
    picked
}

/// A group's machines after one more machine joined the fleet.
pub proof fn lemma_members_push(fleet: Seq<FleetInstance>, last: FleetInstance, group: Seq<char>)
    ensures
        members(fleet.push(last), group) == if last.group@ == group {
            members(fleet, group).push(last)
        } else {
            members(fleet, group)
        },
{
    reveal(Seq::filter);
    assert(fleet.push(last).drop_last() =~= fleet);
}

/// The groups pass from the requests to the fleet: a machine's record names
/// the instance and the group of a request that was fulfilled in the round
/// that resolved the requests.
pub proof fn lemma_fleet_keeps_groups(
    report: InstanceDescription,
    instances: Seq<Assignment>,
    statuses: Seq<RequestStatus>,
    pending: Seq<Assignment>,
)
    requires
        pairs_of(instances) == resolved(statuses, pending),
        report.placed(instances),
    ensures
        comes_from((report.record(instances).0, report.record(instances).1), statuses, pending),
{
    lemma_group_of_recorded(instances, report.instance_id.unwrap()@);
    lemma_resolved_exact(statuses, pending);
}

/// How many machines of `fleet` stand under the names of `groups`, each name
/// counted for itself.
pub open spec fn placed_total(groups: Seq<MachineSet>, fleet: Seq<FleetInstance>) -> nat
    decreases groups.len(),
{
    if groups.len() == 0 {
        0
    } else {
        placed_total(groups.drop_last(), fleet) + members(fleet, groups.last().name@).len()
    }
}

/// How many of `groups` are called `name`.
pub open spec fn named(groups: Seq<MachineSet>, name: Seq<char>) -> nat
    decreases groups.len(),
{
    if groups.len() == 0 {
        0
    } else {
        named(groups.drop_last(), name) + if groups.last().name@ == name {
            1nat
        } else {
            0nat
        }
    }
}

/// Every machine of `fleet` belongs to one of `groups`.
pub open spec fn within(fleet: Seq<FleetInstance>, groups: Seq<MachineSet>) -> bool {
    forall|k: int|
        0 <= k < fleet.len() ==> exists|i: int|
            0 <= i < groups.len() && (#[trigger] groups[i]).name@ == (#[trigger] fleet[k]).group@
}

/// Among groups with distinct names, a name that occurs is that of one group.
pub proof fn lemma_named_once(groups: Seq<MachineSet>, name: Seq<char>)
    requires
        distinct(groups),
    ensures
        named(groups, name) == if exists|i: int| 0 <= i < groups.len() && (#[trigger] groups[i]).name@ == name {
            1nat
        } else {
            0nat
        },
    decreases groups.len(),
{
    if groups.len() > 0 {
        let front = groups.drop_last();
        assert forall|i: int, j: int| 0 <= i < j < front.len() implies (#[trigger] front[i]).name@ != (
        #[trigger] front[j]).name@ by {
            assert(front[i] == groups[i] && front[j] == groups[j]);
        }
        lemma_named_once(front, name);
        let n = groups.len() - 1;
        assert(groups.last() == groups[n]);
        if exists|i: int| 0 <= i < front.len() && (#[trigger] front[i]).name@ == name {
            let i = choose|i: int| 0 <= i < front.len() && (#[trigger] front[i]).name@ == name;
            assert(front[i] == groups[i]);
            assert(groups[i].name@ != groups[n].name@);
        } else if groups[n].name@ != name {
            assert forall|i: int| 0 <= i < groups.len() implies (#[trigger] groups[i]).name@ != name by {
                if i < n {
                    assert(front[i] == groups[i]);
                }
            }
        }
    }
}

/// One more machine in the fleet counts once for each group of its name.
pub proof fn lemma_placed_push(groups: Seq<MachineSet>, fleet: Seq<FleetInstance>, last: FleetInstance)
    ensures
        placed_total(groups, fleet.push(last)) == placed_total(groups, fleet) + named(groups, last.group@),
    decreases groups.len(),
{
    if groups.len() > 0 {
        lemma_placed_push(groups.drop_last(), fleet, last);
        lemma_members_push(fleet, last, groups.last().name@);
    }
}

/// A fleet whose machines all belong to groups of distinct names is
/// partitioned by those names: the groups' members add up to the fleet.
pub proof fn lemma_fleet_partitioned(groups: Seq<MachineSet>, fleet: Seq<FleetInstance>)
    requires
        distinct(groups),
        within(fleet, groups),
    ensures
        placed_total(groups, fleet) == fleet.len(),
    decreases fleet.len(),
{
    if fleet.len() == 0 {
        lemma_placed_none(groups, fleet);
    } else {
        let front = fleet.drop_last();
        let last = fleet.last();
        assert forall|k: int| 0 <= k < front.len() implies exists|i: int|
            0 <= i < groups.len() && (#[trigger] groups[i]).name@ == (#[trigger] front[k]).group@ by {
            assert(front[k] == fleet[k]);
        }
        lemma_fleet_partitioned(groups, front);
        assert(fleet =~= front.push(last));
        lemma_placed_push(groups, front, last);
        lemma_named_once(groups, last.group@);
        assert(fleet[fleet.len() - 1] == last);
    }
}

/// An empty fleet has no machine under any name.
pub proof fn lemma_placed_none(groups: Seq<MachineSet>, fleet: Seq<FleetInstance>)
    requires
        fleet.len() == 0,
    ensures
        placed_total(groups, fleet) == 0,
    decreases groups.len(),
{
    if groups.len() > 0 {
        lemma_placed_none(groups.drop_last(), fleet);
        fleet.lemma_filter_len(|m: FleetInstance| m.group@ == groups.last().name@);
    }
}

/// Groups that each hold as many machines as the plan asks for hold, taken
/// together, the plan's total.
pub proof fn lemma_placed_as_planned(groups: Seq<MachineSet>, fleet: Seq<FleetInstance>)
    requires
        forall|i: int|
            0 <= i < groups.len() ==> members(fleet, (#[trigger] groups[i]).name@).len() == groups[i].number,
    ensures
        placed_total(groups, fleet) == total_of(groups),
    decreases groups.len(),
{
    if groups.len() > 0 {
        let front = groups.drop_last();
        assert forall|i: int| 0 <= i < front.len() implies members(fleet, (#[trigger] front[i]).name@).len()
            == front[i].number by {
            assert(front[i] == groups[i]);
        }
        lemma_placed_as_planned(front, fleet);
        assert(groups.last() == groups[groups.len() - 1]);
    }
}

/// A fleet that is made of the plan's groups, each with the count that the
/// plan gives it, has as many machines as the plan asks for in all.
pub proof fn lemma_fleet_matches_plan(plan: BurstBuilder, fleet: Seq<FleetInstance>)
    requires
        plan.wf(),
        within(fleet, plan.groups()),
        forall|i: int|
            0 <= i < plan.groups().len() ==> members(fleet, (#[trigger] plan.groups()[i]).name@).len()
                == plan.groups()[i].number,
    ensures
        fleet.len() == plan.total(),
{
    lemma_fleet_partitioned(plan.groups(), fleet);
    lemma_placed_as_planned(plan.groups(), fleet);
}

} // verus!
