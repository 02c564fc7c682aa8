//! The guard that remembers which instances must be terminated, and the rule
//! for retrying a termination that failed.

use vstd::prelude::*;
use crate::request::{ids_of, pairs_of, texts_of, Assignment, Resolution};
use crate::text::{contains, occurs_in};

verus! {

/// Holds the instances of a run until the run is over, and hands them out for
/// termination once.
pub struct CleanupGuard {
    pub instance_ids: Vec<String>,
    pub released: bool,
}

/// What follows a failed termination call.
#[derive(Clone, Copy, Debug, PartialEq, Eq)]
pub enum TerminationStep {
    Retry,
    GiveUp,
}

/// The failure is one of connectivity, which passes.
pub open spec fn transient(message: Seq<char>) -> bool {
    occurs_in("Pooled stream disconnected"@, message) || occurs_in("broken pipe"@, message)
}

/// Decides what follows a failed termination call: the same call again after
/// a failure of connectivity, nothing more after any other.
pub fn after_termination_failure(message: &str) -> (step: TerminationStep)
    ensures
        step == if transient(message@) {
            TerminationStep::Retry
        } else {
            TerminationStep::GiveUp
        },
{
    if contains(message, "Pooled stream disconnected") || contains(message, "broken pipe") {
        TerminationStep::Retry
    } else {
        TerminationStep::GiveUp
    }
}

impl CleanupGuard {
    /// The instances that the guard holds.
    pub open spec fn view(&self) -> Seq<Seq<char>> {
        texts_of(self.instance_ids@)
    }

    /// A guard that holds no instance yet.
    pub fn arm() -> (guard: Self)
        ensures
            guard@ == Seq::<Seq<char>>::empty(),
            !guard.released,
    {
        let guard = CleanupGuard { instance_ids: Vec::new(), released: false };
        proof {
            assert(guard@ =~= Seq::<Seq<char>>::empty());
        }
        guard
    }

    /// Adds the instances that were resolved. Nothing that the guard holds is
    /// ever taken out of it this way.
    pub fn track(&mut self, resolved: &Vec<Assignment>)
        ensures
            final(self)@ == old(self)@ + ids_of(pairs_of(resolved@)),
            final(self).released == old(self).released,
    {
        let mut i: usize = 0;
        while i < resolved.len()
            invariant
                i <= resolved@.len(),
                self@ =~= old(self)@ + ids_of(pairs_of(resolved@.take(i as int))),
                self.released == old(self).released,
            decreases resolved@.len() - i,
        {
            let ghost before = self@;
            self.instance_ids.push(resolved[i].id.clone());
            proof {
                assert(self@ =~= before.push(resolved@[i as int].id@));
                assert(ids_of(pairs_of(resolved@.take(i + 1))) =~= ids_of(
                    pairs_of(resolved@.take(i as int)),
                ).push(resolved@[i as int].id@));
            }
            i += 1;
        }
        proof {
            assert(resolved@.take(i as int) =~= resolved@);
        }
    }

    /// The guard of a run whose requests are resolved: it holds every
    /// instance that a request was fulfilled with, whether or not another
    /// request was rejected.
    pub fn armed_with(resolution: &Resolution) -> (guard: Self)
        ensures
            guard@ == ids_of(pairs_of(resolution.instances@)),
            !guard.released,
    {
        let mut guard = CleanupGuard::arm();
        guard.track(&resolution.instances);
        proof {
            assert(guard@ =~= ids_of(pairs_of(resolution.instances@)));
        }
        guard
    }

    /// Hands out the instances to terminate. The first call gives all that the
    /// guard holds; every later call gives `None`, so that one run terminates
    /// its instances once.
    pub fn release(&mut self) -> (to_terminate: Option<Vec<String>>)
        ensures
            final(self).released,
            final(self)@ == Seq::<Seq<char>>::empty(),
            match to_terminate {
                Some(ids) => !old(self).released && texts_of(ids@) == old(self)@,
                None => old(self).released,
            },
    {
        let mut ids: Vec<String> = Vec::new();
        std::mem::swap(&mut self.instance_ids, &mut ids);
        proof {
            assert(self@ =~= Seq::<Seq<char>>::empty());
        }
        if self.released {
            None
        } else {
            self.released = true;
            Some(ids)
        }
    }
}

} // verus!
