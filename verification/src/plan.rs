//! The fleet plan: named groups of machines, built by the caller before a run.

use vstd::prelude::*;

verus! {

/// What every machine of one group is launched as.
pub struct MachineSetup {
    pub instance_type: String,
    pub ami: String,
}

impl MachineSetup {
    /// The descriptor as plain values: instance class, then machine image.
    pub open spec fn view(&self) -> (Seq<char>, Seq<char>) {
        (self.instance_type@, self.ami@)
    }

    /// Describes a group's machines by instance class and machine image.
    pub fn new(instance_type: &str, ami: &str) -> (setup: Self)
        ensures
            setup@ == (instance_type@, ami@),
    {
        MachineSetup { instance_type: String::from_str(instance_type), ami: String::from_str(ami) }
    }
}

/// One group of the plan: its name, its machines' descriptor, how many to launch.
pub struct MachineSet {
    pub name: String,
    pub setup: MachineSetup,
    pub number: u32,
}

impl MachineSet {
    /// The group as plain values: name, descriptor, count.
    pub open spec fn view(&self) -> (Seq<char>, (Seq<char>, Seq<char>), nat) {
        (self.name@, self.setup@, self.number as nat)
    }
}

/// The sum of the counts of a sequence of groups.
pub open spec fn total_of(groups: Seq<MachineSet>) -> nat
    decreases groups.len(),
{
    if groups.len() == 0 {
        0
    } else {
        total_of(groups.drop_last()) + groups.last().number as nat
    }
}

/// The position of the group called `name`, if the plan has one.
pub open spec fn position_of(groups: Seq<MachineSet>, name: Seq<char>) -> Option<int> {
    if exists|i: int| 0 <= i < groups.len() && (#[trigger] groups[i]).name@ == name {
        Some(choose|i: int| 0 <= i < groups.len() && (#[trigger] groups[i]).name@ == name)
    } else {
        None
    }
}

/// A list of groups as plain values.
pub open spec fn views_of(groups: Seq<MachineSet>) -> Seq<(Seq<char>, (Seq<char>, Seq<char>), nat)> {
    groups.map_values(|g: MachineSet| g@)
}

/// No two of `groups` share a name.
pub open spec fn distinct(groups: Seq<MachineSet>) -> bool {
    forall|i: int, j: int|
        0 <= i < j < groups.len() ==> (#[trigger] groups[i]).name@ != (#[trigger] groups[j]).name@
}

/// Collects the groups of a fleet and the advisory limits of a run.
pub struct BurstBuilder {
    pub descriptors: Vec<MachineSet>,
    pub max_duration: i64,
}

impl BurstBuilder {
    /// No two groups share a name.
    pub open spec fn wf(&self) -> bool {
        distinct(self.descriptors@)
    }

    /// The groups in the order in which their names were first added.
    pub open spec fn groups(&self) -> Seq<MachineSet> {
        self.descriptors@
    }

    /// What the plan holds under `name`: descriptor and count.
    pub open spec fn lookup(&self, name: Seq<char>) -> Option<((Seq<char>, Seq<char>), nat)> {
        match position_of(self.groups(), name) {
            Some(i) => Some((self.groups()[i].setup@, self.groups()[i].number as nat)),
            None => None,
        }
    }

    /// How many machines the plan asks for, over all groups.
    pub open spec fn total(&self) -> nat {
        total_of(self.groups())
    }

    /// An empty plan with a duration hint of one hour.
    pub fn new() -> (builder: Self)
        ensures
            builder.wf(),
            builder.groups().len() == 0,
            builder.max_duration == 60,
    {
        BurstBuilder { descriptors: Vec::new(), max_duration: 60 }
    }

    /// Where the first group called `name` stands, if the plan has one.
    pub fn find(&self, name: &str) -> (found: Option<usize>)
        ensures
            match found {
                Some(i) => i < self.groups().len() && self.groups()[i as int].name@ == name@ && forall|j: int|
                    0 <= j < i ==> (#[trigger] self.groups()[j]).name@ != name@,
                None => forall|j: int| 0 <= j < self.groups().len() ==> (#[trigger] self.groups()[j]).name@ != name@,
            },
    {
        let wanted = String::from_str(name);
        let mut i: usize = 0;
        while i < self.descriptors.len()
            invariant
                i <= self.descriptors@.len(),
                wanted@ == name@,
                forall|j: int| 0 <= j < i ==> (#[trigger] self.descriptors@[j]).name@ != name@,
            decreases self.descriptors@.len() - i,
        {
            if self.descriptors[i].name == wanted {
                return Some(i);
            }
            i += 1;
        }
        None
    }

    /// Whether no two groups share a name.
    pub fn is_well_formed(&self) -> (ok: bool)
        ensures
            ok == self.wf(),
    {
        let mut j: usize = 0;
        while j < self.descriptors.len()
            invariant
                j <= self.descriptors@.len(),
                forall|a: int, b: int|
                    0 <= a < b < j ==> (#[trigger] self.descriptors@[a]).name@ != (
                    #[trigger] self.descriptors@[b]).name@,
            decreases self.descriptors@.len() - j,
        {
            let mut i: usize = 0;
            while i < j
                invariant
                    i <= j < self.descriptors@.len(),
                    forall|a: int| 0 <= a < i ==> (#[trigger] self.descriptors@[a]).name@ != self.descriptors@[j as int].name@,
                decreases j - i,
            {
                if self.descriptors[i].name == self.descriptors[j].name {
                    return false;
                }
                i += 1;
            }
            j += 1;
        }
        true
    }

    /// Puts a group into the plan. A group that already has this name is
    /// replaced where it stands; a new name goes to the end.
    pub fn add_set(&mut self, name: &str, number: u32, description: MachineSetup)
        requires
            old(self).wf(),
        ensures
            final(self).wf(),
            final(self).max_duration == old(self).max_duration,
            views_of(final(self).groups()) == match position_of(old(self).groups(), name@) {
                Some(i) => views_of(old(self).groups()).update(i, (name@, description@, number as nat)),
                None => views_of(old(self).groups()).push((name@, description@, number as nat)),
            },
            final(self).lookup(name@) == Some((description@, number as nat)),
    {
        let entry = MachineSet { name: String::from_str(name), setup: description, number };
        match self.find(name) {
            Some(i) => {
                self.descriptors[i] = entry;
                proof {
                    let p = position_of(old(self).groups(), name@).unwrap();
                    assert(old(self).groups()[p].name@ == name@);
                    assert(p == i);
                    assert(views_of(self.groups()) =~= views_of(old(self).groups()).update(
                        p,
                        (name@, description@, number as nat),
                    ));
                }
            },
            None => {
                self.descriptors.push(entry);
                proof {
                    assert(self.descriptors@[self.descriptors@.len() - 1].name@ == name@);
                    assert(views_of(self.groups()) =~= views_of(old(self).groups()).push(
                        (name@, description@, number as nat),
                    ));
                }
            },
        }
        proof {
            let p = position_of(self.groups(), name@).unwrap();
            assert(self.groups()[p].name@ == name@);
        }
    }

    /// Sets the duration hint, given in hours and kept in minutes.
    pub fn set_max_duration(&mut self, hours: u8)
        ensures
            final(self).max_duration == hours as int * 60,
            final(self).descriptors == old(self).descriptors,
    {
        let h: i64 = hours as i64;
        self.max_duration = h * 60;
    }

    /// How many machines the plan asks for, or `None` where the sum does not
    /// fit the machine's word.
    pub fn total_machines(&self) -> (sum: Option<u64>)
        ensures
            match sum {
                Some(n) => n as nat == self.total(),
                None => self.total() > u64::MAX,
            },
    {
        let mut acc: u64 = 0;
        let mut i: usize = 0;
        while i < self.descriptors.len()
            invariant
                i <= self.descriptors@.len(),
                acc as nat == total_of(self.descriptors@.take(i as int)),
            decreases self.descriptors@.len() - i,
        {
            let n: u64 = self.descriptors[i].number as u64;
            proof {
                assert(self.descriptors@.take(i + 1).drop_last() =~= self.descriptors@.take(i as int));
                lemma_total_monotone(self.descriptors@, i + 1);
            }
            if n > u64::MAX - acc {
                return None;
            }
            acc = acc + n;
            i += 1;
        }
        proof {
            assert(self.descriptors@.take(i as int) =~= self.descriptors@);
        }
        Some(acc)
    }
}

impl Default for BurstBuilder {
    fn default() -> (builder: Self)
        ensures
            builder.wf(),
            builder.groups().len() == 0,
            builder.max_duration == 60,
    {
        BurstBuilder::new()
    }
}

/// The total of a plan's first `n` groups never exceeds the total of all.
pub proof fn lemma_total_monotone(groups: Seq<MachineSet>, n: int)
    requires
        0 <= n <= groups.len(),
    ensures
        total_of(groups.take(n)) <= total_of(groups),
    decreases groups.len() - n,
{
    if n == groups.len() {
        assert(groups.take(n) =~= groups);
    } else {
        lemma_total_monotone(groups, n + 1);
        assert(groups.take(n + 1).drop_last() =~= groups.take(n));
    }
}

} // verus!
