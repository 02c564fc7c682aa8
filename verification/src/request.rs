//! Auction-priced instance requests: what is submitted for each group, which
//! request belongs to which group, and how a round of polling is read.

use vstd::prelude::*;
use crate::plan::{BurstBuilder, MachineSet};
use crate::text::{contains, occurs_in, same_text};

verus! {

/// What is asked of the control plane for one group.
pub struct LaunchRequest {
    pub group: String,
    pub image_id: String,
    pub instance_type: String,
    pub security_group_id: String,
    pub key_name: String,
    pub instance_count: i64,
}

impl LaunchRequest {
    /// Group, image, instance class, policy, key pair, count.
    pub open spec fn view(&self) -> (Seq<char>, Seq<char>, Seq<char>, Seq<char>, Seq<char>, int) {
        (
            self.group@,
            self.image_id@,
            self.instance_type@,
            self.security_group_id@,
            self.key_name@,
            self.instance_count as int,
        )
    }
}

/// The request that a group calls for, under the run's policy and key pair.
pub open spec fn request_of(set: MachineSet, group_id: Seq<char>, key_name: Seq<char>) -> (
    Seq<char>,
    Seq<char>,
    Seq<char>,
    Seq<char>,
    Seq<char>,
    int,
) {
    (set.name@, set.setup.ami@, set.setup.instance_type@, group_id, key_name, set.number as int)
}

/// Builds the request for one group.
pub fn launch_request(set: &MachineSet, group_id: &str, key_name: &str) -> (req: LaunchRequest)
    ensures
        req@ == request_of(*set, group_id@, key_name@),
{
    LaunchRequest {
        group: set.name.clone(),
        image_id: set.setup.ami.clone(),
        instance_type: set.setup.instance_type.clone(),
        security_group_id: String::from_str(group_id),
        key_name: String::from_str(key_name),
        instance_count: set.number as i64,
    }
}

/// One request per group of the plan, in the plan's order.
pub fn submission_plan(plan: &BurstBuilder, group_id: &str, key_name: &str) -> (reqs: Vec<LaunchRequest>)
    ensures
        reqs@.len() == plan.groups().len(),
        forall|i: int|
            0 <= i < reqs@.len() ==> (#[trigger] reqs@[i])@ == request_of(plan.groups()[i], group_id@, key_name@),
{
    let mut reqs: Vec<LaunchRequest> = Vec::new();
    let mut i: usize = 0;
    while i < plan.descriptors.len()
        invariant
            i <= plan.descriptors@.len(),
            reqs@.len() == i,
            forall|k: int|
                0 <= k < i ==> (#[trigger] reqs@[k])@ == request_of(plan.descriptors@[k], group_id@, key_name@),
        decreases plan.descriptors@.len() - i,
    {
        reqs.push(launch_request(&plan.descriptors[i], group_id, key_name));
        i += 1;
    }
    reqs
}

/// An identifier, of a submitted request or of an instance, and the group it
/// belongs to.
pub struct Assignment {
    pub id: String,
    pub group: String,
}

impl Assignment {
    /// Identifier, then group name.
    pub open spec fn view(&self) -> (Seq<char>, Seq<char>) {
        (self.id@, self.group@)
    }
}

/// A list of assignments as plain values.
pub open spec fn pairs_of(pending: Seq<Assignment>) -> Seq<(Seq<char>, Seq<char>)> {
    pending.map_values(|p: Assignment| p@)
}

/// A list of identifiers as plain values.
pub open spec fn texts_of(ids: Seq<String>) -> Seq<Seq<char>> {
    ids.map_values(|id: String| id@)
}

/// The identifiers of a list of assignments, in its order.
pub open spec fn ids_of(assigned: Seq<(Seq<char>, Seq<char>)>) -> Seq<Seq<char>> {
    assigned.map_values(|a: (Seq<char>, Seq<char>)| a.0)
}

/// The identifiers to name in a query about `assigned`: all of them, in
/// their order.
pub fn identifiers(assigned: &Vec<Assignment>) -> (ids: Vec<String>)
    ensures
        texts_of(ids@) == ids_of(pairs_of(assigned@)),
{
    let mut ids: Vec<String> = Vec::new();
    let mut i: usize = 0;
    while i < assigned.len()
        invariant
            i <= assigned@.len(),
            ids@.len() == i,
            forall|k: int| 0 <= k < i ==> (#[trigger] ids@[k])@ == assigned@[k].id@,
        decreases assigned@.len() - i,
    {
        ids.push(assigned[i].id.clone());
        i += 1;
    }
    proof {
        assert(texts_of(ids@) =~= ids_of(pairs_of(assigned@)));
    }
    ids
}

/// The requests that a submission's answer brings for `group`: one for each
/// identifier that the answer holds, in its order.
pub open spec fn recorded(ids: Seq<Option<String>>, group: Seq<char>) -> Seq<(Seq<char>, Seq<char>)>
    decreases ids.len(),
{
    if ids.len() == 0 {
        Seq::empty()
    } else {
        let rest = recorded(ids.drop_last(), group);
        match ids.last() {
            Some(id) => rest.push((id@, group)),
            None => rest,
        }
    }
}

/// Notes the requests of one submission's answer as made for `group`. Entries
/// of the answer without an identifier are passed over.
pub fn record_requests(pending: &mut Vec<Assignment>, group: &str, ids: &Vec<Option<String>>)
    ensures
        pairs_of(final(pending)@) == pairs_of(old(pending)@) + recorded(ids@, group@),
{
    let mut i: usize = 0;
    while i < ids.len()
        invariant
            i <= ids@.len(),
            pairs_of(pending@) =~= pairs_of(old(pending)@) + recorded(ids@.take(i as int), group@),
        decreases ids@.len() - i,
    {
        proof {
            assert(ids@.take(i + 1).drop_last() =~= ids@.take(i as int));
            assert(ids@.take(i + 1).last() == ids@[i as int]);
        }
        let ghost before = pending@;
        match &ids[i] {
            Some(id) => {
                pending.push(Assignment { id: id.clone(), group: String::from_str(group) });
                proof {
                    assert(pairs_of(pending@) =~= pairs_of(before).push((id@, group@)));
                }
            },
            None => {},
        }
        i += 1;
    }
    proof {
        assert(ids@.take(i as int) =~= ids@);
    }
}

/// The group that `id` belongs to. Where an identifier was
/// recorded more than once, the latest record counts.
pub open spec fn group_of(pending: Seq<Assignment>, id: Seq<char>) -> Option<Seq<char>>
    decreases pending.len(),
{
    if pending.len() == 0 {
        None
    } else if pending.last().id@ == id {
        Some(pending.last().group@)
    } else {
        group_of(pending.drop_last(), id)
    }
}

/// A group that is found for an identifier was recorded for it.
pub proof fn lemma_group_of_recorded(pending: Seq<Assignment>, id: Seq<char>)
    ensures
        match group_of(pending, id) {
            Some(group) => pairs_of(pending).contains((id, group)),
            None => forall|i: int| 0 <= i < pending.len() ==> (#[trigger] pending[i]).id@ != id,
        },
    decreases pending.len(),
{
    if pending.len() > 0 {
        let front = pending.drop_last();
        let n = pending.len() - 1;
        lemma_group_of_recorded(front, id);
        if pending.last().id@ == id {
            assert(pairs_of(pending)[n] == (id, pending.last().group@));
        } else {
            match group_of(front, id) {
                Some(group) => {
                    let k = choose|k: int| 0 <= k < pairs_of(front).len() && pairs_of(front)[k] == (id, group);
                    assert(pairs_of(pending)[k] == (id, group));
                },
                None => {
                    assert forall|i: int| 0 <= i < pending.len() implies (#[trigger] pending[i]).id@ != id by {
                        if i < n {
                            assert(front[i] == pending[i]);
                        }
                    }
                },
            }
        }
    }
}

/// Looks up the group that an identifier belongs to.
pub fn find_group(pending: &Vec<Assignment>, id: &String) -> (group: Option<String>)
    ensures
        match group {
            Some(g) => group_of(pending@, id@) == Some(g@),
            None => group_of(pending@, id@).is_none(),
        },
{
    let mut i: usize = pending.len();
    proof {
        assert(pending@.take(i as int) =~= pending@);
    }
    while i > 0
        invariant
            i <= pending@.len(),
            group_of(pending@, id@) == group_of(pending@.take(i as int), id@),
        decreases i,
    {
        proof {
            assert(pending@.take(i as int).drop_last() =~= pending@.take(i - 1));
        }
        if pending[i - 1].id == *id {
            return Some(pending[i - 1].group.clone());
        }
        i -= 1;
    }
    None
}

/// What the control plane reports of one request.
pub struct RequestStatus {
    pub request_id: Option<String>,
    pub state: String,
    pub instance_id: Option<String>,
}

/// Where a request stands.
#[derive(Clone, Copy, Debug, PartialEq, Eq)]
pub enum RequestState {
    Open,
    ActiveWithoutInstance,
    ActiveWithInstance,
    Rejected,
}

impl RequestStatus {
    /// The report's state read as one of the four that a request can be in:
    /// `open`, `active` without or with an instance, or anything else.
    pub open spec fn state_of(&self) -> RequestState {
        if self.state@ == "open"@ {
            RequestState::Open
        } else if self.state@ == "active"@ {
            if self.instance_id.is_some() {
                RequestState::ActiveWithInstance
            } else {
                RequestState::ActiveWithoutInstance
            }
        } else {
            RequestState::Rejected
        }
    }

    /// The request is not resolved yet: it is open, or active with no instance
    /// assigned so far.
    pub open spec fn pending(&self) -> bool {
        self.state_of() == RequestState::Open || self.state_of() == RequestState::ActiveWithoutInstance
    }

    /// The request was fulfilled, and by a request that some group asked for.
    pub open spec fn fulfilled_for(&self, pending: Seq<Assignment>) -> bool {
        &&& self.state_of() == RequestState::ActiveWithInstance
        &&& self.request_id.is_some()
        &&& group_of(pending, self.request_id.unwrap()@).is_some()
    }

    /// What a fulfilled request resolves to: its instance, under the group
    /// that the request was made for.
    pub open spec fn entry(&self, pending: Seq<Assignment>) -> (Seq<char>, Seq<char>) {
        (self.instance_id.unwrap()@, group_of(pending, self.request_id.unwrap()@).unwrap())
    }

    /// The request is active, but no group is known to have asked for it.
    pub open spec fn stray(&self, pending: Seq<Assignment>) -> bool {
        self.state_of() == RequestState::ActiveWithInstance && !self.fulfilled_for(pending)
    }

    /// Reads the report's state.
    pub fn classify(&self) -> (state: RequestState)
        ensures
            state == self.state_of(),
    {
        if same_text(&self.state, "open") {
            RequestState::Open
        } else if same_text(&self.state, "active") {
            if self.instance_id.is_some() {
                RequestState::ActiveWithInstance
            } else {
                RequestState::ActiveWithoutInstance
            }
        } else {
            RequestState::Rejected
        }
    }

    /// Whether the request is still pending.
    pub fn is_pending(&self) -> (waiting: bool)
        ensures
            waiting == self.pending(),
    {
        match self.classify() {
            RequestState::Open => true,
            RequestState::ActiveWithoutInstance => true,
            _ => false,
        }
    }
}

/// Some request of the round is still pending.
pub open spec fn some_pending(statuses: Seq<RequestStatus>) -> bool {
    exists|i: int| 0 <= i < statuses.len() && (#[trigger] statuses[i]).pending()
}

/// Some request of the round is active without a group that asked for it.
pub open spec fn some_stray(statuses: Seq<RequestStatus>, pending: Seq<Assignment>) -> bool {
    exists|i: int| 0 <= i < statuses.len() && (#[trigger] statuses[i]).stray(pending)
}

/// Every request of the round was fulfilled.
pub open spec fn all_fulfilled(statuses: Seq<RequestStatus>) -> bool {
    forall|i: int|
        0 <= i < statuses.len() ==> (#[trigger] statuses[i]).state_of() == RequestState::ActiveWithInstance
}

/// Whether any request of the round is still pending.
pub fn any_pending(statuses: &Vec<RequestStatus>) -> (waiting: bool)
    ensures
        waiting == some_pending(statuses@),
{
    let mut i: usize = 0;
    while i < statuses.len()
        invariant
            i <= statuses@.len(),
            forall|k: int| 0 <= k < i ==> !(#[trigger] statuses@[k]).pending(),
        decreases statuses@.len() - i,
    {
        if statuses[i].is_pending() {
            return true;
        }
        i += 1;
    }
    false
}

/// The instances that a round of reports resolves to: for each fulfilled
/// request, in the round's order, its instance under the group that the
/// request was made for.
pub open spec fn resolved(statuses: Seq<RequestStatus>, pending: Seq<Assignment>) -> Seq<
    (Seq<char>, Seq<char>),
>
    decreases statuses.len(),
{
    if statuses.len() == 0 {
        Seq::empty()
    } else {
        let rest = resolved(statuses.drop_last(), pending);
        let s = statuses.last();
        if s.fulfilled_for(pending) {
            rest.push(s.entry(pending))
        } else {
            rest
        }
    }
}

/// The outcome of a round in which no request is pending any more.
pub struct Resolution {
    pub instances: Vec<Assignment>,
    pub all_active: bool,
}

/// What to do after one round of polling.
pub enum PollStep {
    /// Ask again: the answer was not final.
    Again,
    /// Give up: the control plane failed in a way that will not pass.
    Abort,
    /// Give up: an active request is none that this run submitted.
    Stray,
    /// Every request is resolved.
    Resolved(Resolution),
}

/// Reads a round in which nothing is pending. `None` where an active request
/// has no identifier, or one that no group was recorded for.
pub fn resolve(statuses: &Vec<RequestStatus>, pending: &Vec<Assignment>) -> (out: Option<Resolution>)
    ensures
        out.is_none() == some_stray(statuses@, pending@),
        match out {
            Some(r) => pairs_of(r.instances@) == resolved(statuses@, pending@) && r.all_active
                == all_fulfilled(statuses@),
            None => true,
        },
{
    let mut instances: Vec<Assignment> = Vec::new();
    let mut all_active = true;
    let mut i: usize = 0;
    while i < statuses.len()
        invariant
            i <= statuses@.len(),
            pairs_of(instances@) =~= resolved(statuses@.take(i as int), pending@),
            all_active == all_fulfilled(statuses@.take(i as int)),
            forall|k: int| 0 <= k < i ==> !(#[trigger] statuses@[k]).stray(pending@),
        decreases statuses@.len() - i,
    {
        proof {
            assert(statuses@.take(i + 1).drop_last() =~= statuses@.take(i as int));
            assert(statuses@.take(i + 1).last() == statuses@[i as int]);
        }
        let status = &statuses[i];
        match status.classify() {
            RequestState::ActiveWithInstance => {
                let rid = match &status.request_id {
                    Some(rid) => rid,
                    None => {
                        return None;
                    },
                };
                let group = match find_group(pending, rid) {
                    Some(group) => group,
                    None => {
                        return None;
                    },
                };
                let iid = match &status.instance_id {
                    Some(iid) => iid.clone(),
                    None => {
                        return None;
                    },
                };
                instances.push(Assignment { id: iid, group });
                proof {
                    assert(all_fulfilled(statuses@.take(i + 1)) == all_fulfilled(statuses@.take(i as int))) by {
                        lemma_all_fulfilled_step(statuses@, i as int);
                    }
                }
            },
            _ => {
                proof {
                    lemma_all_fulfilled_step(statuses@, i as int);
                }
                all_active = false;
            },
        }
        i += 1;
    }
    proof {
        assert(statuses@.take(i as int) =~= statuses@);
    }
    Some(Resolution { instances, all_active })
}

/// Whether the first `i + 1` reports are all fulfilled is decided by the first
/// `i` and the report at `i`.
pub proof fn lemma_all_fulfilled_step(statuses: Seq<RequestStatus>, i: int)
    requires
        0 <= i < statuses.len(),
    ensures
        all_fulfilled(statuses.take(i + 1)) == (all_fulfilled(statuses.take(i))
            && statuses[i].state_of() == RequestState::ActiveWithInstance),
{
    let a = statuses.take(i);
    let b = statuses.take(i + 1);
    if all_fulfilled(b) {
        assert(b[i] == statuses[i]);
        assert forall|k: int| 0 <= k < a.len() implies (#[trigger] a[k]).state_of()
            == RequestState::ActiveWithInstance by {
            assert(a[k] == b[k]);
        }
    }
    if all_fulfilled(a) && statuses[i].state_of() == RequestState::ActiveWithInstance {
        assert forall|k: int| 0 <= k < b.len() implies (#[trigger] b[k]).state_of()
            == RequestState::ActiveWithInstance by {
            if k < i {
                assert(b[k] == a[k]);
            }
        }
    }
}

/// Some fulfilled request of the round resolves to `entry`.
pub open spec fn comes_from(
    entry: (Seq<char>, Seq<char>),
    statuses: Seq<RequestStatus>,
    pending: Seq<Assignment>,
) -> bool {
    exists|i: int|
        0 <= i < statuses.len() && (#[trigger] statuses[i]).fulfilled_for(pending) && statuses[i].entry(pending)
            == entry
}

/// Resolution keeps the groups and loses nothing: what is resolved is, for
/// each fulfilled request of the round, its instance under the request's
/// group, and nothing else.
pub proof fn lemma_resolved_exact(statuses: Seq<RequestStatus>, pending: Seq<Assignment>)
    ensures
        forall|entry: (Seq<char>, Seq<char>)| #[trigger]
            resolved(statuses, pending).contains(entry) == comes_from(entry, statuses, pending),
    decreases statuses.len(),
{
    let all = resolved(statuses, pending);
    if statuses.len() > 0 {
        let front = statuses.drop_last();
        let last = statuses.last();
        let before = resolved(front, pending);
        lemma_resolved_exact(front, pending);
        assert(statuses[statuses.len() - 1] == last);
        assert forall|entry: (Seq<char>, Seq<char>)| #[trigger]
            all.contains(entry) == comes_from(entry, statuses, pending) by {
            if all.contains(entry) {
                let k = choose|k: int| 0 <= k < all.len() && all[k] == entry;
                if k < before.len() {
                    assert(before[k] == entry);
                    assert(before.contains(entry));
                    let i = choose|i: int|
                        0 <= i < front.len() && (#[trigger] front[i]).fulfilled_for(pending) && front[i].entry(
                            pending,
                        ) == entry;
                    assert(statuses[i] == front[i]);
                }
            }
            if comes_from(entry, statuses, pending) {
                let i = choose|i: int|
                    0 <= i < statuses.len() && (#[trigger] statuses[i]).fulfilled_for(pending)
                        && statuses[i].entry(pending) == entry;
                if i < front.len() {
                    assert(statuses[i] == front[i]);
                    assert(comes_from(entry, front, pending));
                    assert(before.contains(entry));
                    let k = choose|k: int| 0 <= k < before.len() && before[k] == entry;
                    assert(all[k] == entry);
                } else {
                    assert(all[all.len() - 1] == entry);
                }
            }
        }
    } else {
        assert forall|entry: (Seq<char>, Seq<char>)| #[trigger]
            all.contains(entry) == comes_from(entry, statuses, pending) by {}
    }
}

/// Where every request of the round was fulfilled for a group, the round
/// resolves to one instance for each request, in the round's order.
pub proof fn lemma_resolved_all(statuses: Seq<RequestStatus>, pending: Seq<Assignment>)
    requires
        forall|i: int| 0 <= i < statuses.len() ==> (#[trigger] statuses[i]).fulfilled_for(pending),
    ensures
        resolved(statuses, pending).len() == statuses.len(),
        forall|i: int|
            0 <= i < statuses.len() ==> #[trigger] resolved(statuses, pending)[i] == statuses[i].entry(pending),
    decreases statuses.len(),
{
    if statuses.len() > 0 {
        let front = statuses.drop_last();
        assert forall|i: int| 0 <= i < front.len() implies (#[trigger] front[i]).fulfilled_for(pending) by {
            assert(front[i] == statuses[i]);
        }
        lemma_resolved_all(front, pending);
        assert(statuses.last() == statuses[statuses.len() - 1]);
        assert forall|i: int| 0 <= i < statuses.len() implies #[trigger] resolved(statuses, pending)[i]
            == statuses[i].entry(pending) by {
            if i < front.len() {
                assert(front[i] == statuses[i]);
                assert(resolved(statuses, pending)[i] == resolved(front, pending)[i]);
            }
        }
    }
}

/// The control plane's failure says that a request just submitted is not
/// visible yet: such a failure passes by itself.
pub open spec fn not_yet_visible(message: Seq<char>) -> bool {
    occurs_in("The spot instance request ID"@, message) && occurs_in("does not exist"@, message)
}

/// Whether a failed query only shows that the control plane lags behind.
pub fn is_not_yet_visible(message: &str) -> (lag: bool)
    ensures
        lag == not_yet_visible(message@),
{
    contains(message, "The spot instance request ID") && contains(message, "does not exist")
}

/// What the control plane answered to one query of the submitted requests.
pub enum DescribeAnswer {
    /// The query failed, with this message.
    Failed(String),
    /// The answer holds no list of requests.
    Missing,
    /// The answer lists these requests.
    Listed(Vec<RequestStatus>),
}

/// Decides what follows one round of polling. The run goes on polling while
/// the answer is a passing failure, holds no list, or lists a pending request;
/// it stops on any other failure; else the round is final and is resolved.
pub fn poll_step(answer: &DescribeAnswer, pending: &Vec<Assignment>) -> (step: PollStep)
    ensures
        match *answer {
            DescribeAnswer::Failed(message) => if not_yet_visible(message@) {
                step is Again
            } else {
                step is Abort
            },
            DescribeAnswer::Missing => step is Again,
            DescribeAnswer::Listed(statuses) => if some_pending(statuses@) {
                step is Again
            } else if some_stray(statuses@, pending@) {
                step is Stray
            } else {
                &&& step is Resolved
                &&& pairs_of(step->Resolved_0.instances@) == resolved(statuses@, pending@)
                &&& step->Resolved_0.all_active == all_fulfilled(statuses@)
            },
        },
{
    match answer {
        DescribeAnswer::Failed(message) => {
            if is_not_yet_visible(message.as_str()) {
                PollStep::Again
            } else {
                PollStep::Abort
            }
        },
        DescribeAnswer::Missing => PollStep::Again,
        DescribeAnswer::Listed(statuses) => {
            if any_pending(statuses) {
                PollStep::Again
            } else {
                match resolve(statuses, pending) {
                    Some(r) => PollStep::Resolved(r),
                    None => PollStep::Stray,
                }
            }
        },
    }
}

} // verus!
