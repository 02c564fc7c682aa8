//! Gathering what the per-machine setup attempts report.

use vstd::prelude::*;
use crate::session::SessionError;

verus! {

/// Why setting up one machine failed.
#[derive(Clone, Copy, Debug, PartialEq, Eq)]
pub enum SetupFailure {
    /// The machine's public address is no address.
    BadAddress,
    /// No session could be opened to the machine.
    Session(SessionError),
    /// The group's setup routine reported an error.
    Routine,
}

/// A failed setup attempt: which machine, and why.
pub struct SetupError {
    pub group: String,
    pub address: String,
    pub failure: SetupFailure,
}

impl SetupError {
    /// Group name, machine address, reason.
    pub open spec fn view(&self) -> (Seq<char>, Seq<char>, SetupFailure) {
        (self.group@, self.address@, self.failure)
    }

    /// The text that names the failure to the caller.
    pub open spec fn text(&self) -> Seq<char> {
        match self.failure {
            SetupFailure::BadAddress => "machine ip is not an ip address"@,
            SetupFailure::Session(_) => "falied to ssh to "@ + self.group@ + " machine "@ + self.address@,
            SetupFailure::Routine => "setup routine for "@ + self.group@ + " machine failed"@,
        }
    }

    /// Names the failure, with the group and, for a failed session, the
    /// machine's address.
    pub fn message(&self) -> (text: String)
        ensures
            text@ == self.text(),
    {
        match self.failure {
            SetupFailure::BadAddress => String::from_str("machine ip is not an ip address"),
            SetupFailure::Session(_) => String::from_str("falied to ssh to ").concat(self.group.as_str()).concat(
                " machine ",
            ).concat(self.address.as_str()),
            SetupFailure::Routine => String::from_str("setup routine for ").concat(self.group.as_str()).concat(
                " machine failed",
            ),
        }
    }

    /// A second record of the same failure.
    pub fn duplicate(&self) -> (copy: Self)
        ensures
            copy == *self,
    {
        SetupError { group: self.group.clone(), address: self.address.clone(), failure: self.failure }
    }
}

/// The failures among the attempts' reports, in the reports' order. A
/// report of `None` is a machine that was set up.
pub open spec fn failures(reports: Seq<Option<SetupError>>) -> Seq<SetupError>
    decreases reports.len(),
{
    if reports.len() == 0 {
        Seq::empty()
    } else {
        let rest = failures(reports.drop_last());
        match reports.last() {
            Some(e) => rest.push(e),
            None => rest,
        }
    }
}

/// Collects the failures of all attempts. Every report is read, whatever the
/// others hold.
pub fn collect_errors(reports: &Vec<Option<SetupError>>) -> (errors: Vec<SetupError>)
    ensures
        errors@ == failures(reports@),
{
    let mut errors: Vec<SetupError> = Vec::new();
    let mut i: usize = 0;
    while i < reports.len()
        invariant
            i <= reports@.len(),
            errors@ == failures(reports@.take(i as int)),
        decreases reports@.len() - i,
    {
        proof {
            assert(reports@.take(i + 1).drop_last() =~= reports@.take(i as int));
            assert(reports@.take(i + 1).last() == reports@[i as int]);
        }
        match &reports[i] {
            Some(e) => {
                errors.push(e.duplicate());
            },
            None => {},
        }
        i += 1;
    }
    proof {
        assert(reports@.take(i as int) =~= reports@);
    }
    errors
}

/// Whether every machine was set up.
pub fn all_clear(errors: &Vec<SetupError>) -> (clear: bool)
    ensures
        clear == (errors@.len() == 0),
{
    errors.len() == 0
}

/// The failure that the run reports: the first that was collected.
pub fn first_error(errors: &Vec<SetupError>) -> (first: Option<SetupError>)
    ensures
        first == if errors@.len() == 0 {
            None
        } else {
            Some(errors@[0])
        },
{
    if errors.len() == 0 {
        None
    } else {
        Some(errors[0].duplicate())
    }
}

/// Where all attempts but the one at `k` succeeded, the collected failures
/// are that one attempt's error and nothing else.
pub proof fn lemma_single_failure(reports: Seq<Option<SetupError>>, k: int)
    requires
        0 <= k < reports.len(),
        reports[k].is_some(),
        forall|i: int| 0 <= i < reports.len() && i != k ==> (#[trigger] reports[i]).is_none(),
    ensures
        failures(reports) == seq![reports[k].unwrap()],
    decreases reports.len(),
{
    let front = reports.drop_last();
    if k == reports.len() - 1 {
        lemma_no_failure(front);
        assert(failures(reports) =~= seq![reports[k].unwrap()]);
    } else {
        assert(front[k] == reports[k]);
        assert forall|i: int| 0 <= i < front.len() && i != k implies (#[trigger] front[i]).is_none() by {
            assert(front[i] == reports[i]);
        }
        lemma_single_failure(front, k);
    }
}

/// No failure is collected exactly where every attempt succeeded.
pub proof fn lemma_no_failure(reports: Seq<Option<SetupError>>)
    ensures
        (failures(reports).len() == 0) == (forall|i: int|
            0 <= i < reports.len() ==> (#[trigger] reports[i]).is_none()),
    decreases reports.len(),
{
    if reports.len() > 0 {
        let front = reports.drop_last();
        lemma_no_failure(front);
        if forall|i: int| 0 <= i < reports.len() ==> (#[trigger] reports[i]).is_none() {
            assert forall|i: int| 0 <= i < front.len() implies (#[trigger] front[i]).is_none() by {
                assert(front[i] == reports[i]);
            }
            assert(reports.last() == reports[reports.len() - 1]);
        }
        if failures(reports).len() == 0 {
            assert(reports.last().is_none());
            assert forall|i: int| 0 <= i < reports.len() implies (#[trigger] reports[i]).is_none() by {
                if i < front.len() {
                    assert(front[i] == reports[i]);
                }
            }
        }
    }
}

} // verus!
