use vstd::prelude::*;

use crate::error::DeployError;
use crate::plan::Step;
use crate::target::TargetKind;

verus! {

/// Where a deployment record stands.
#[derive(Clone, Copy, Debug, PartialEq, Eq, Structural)]
pub enum RecordState {
    Pending,
    Validating,
    Planning,
    Applying,
    Verifying,
    Committed,
    Failed,
    RollingBack,
    RolledBack,
}

/// A record in one of these states is finished and never changes again.
pub open spec fn is_terminal(s: RecordState) -> bool {
    s == RecordState::Committed || s == RecordState::Failed || s == RecordState::RolledBack
}

/// How far along the state machine a state lies.
pub open spec fn rank(s: RecordState) -> nat {
    match s {
        RecordState::Pending => 0,
        RecordState::Validating => 1,
        RecordState::Planning => 2,
        RecordState::Applying => 3,
        RecordState::Verifying => 4,
        RecordState::RollingBack => 5,
        _ => 6,
    }
}

/// The moves that the state machine allows between two different states.
pub open spec fn valid_transition(a: RecordState, b: RecordState) -> bool {
    match (a, b) {
        (RecordState::Pending, RecordState::Validating) => true,
        (RecordState::Validating, RecordState::Planning) => true,
        (RecordState::Planning, RecordState::Applying) => true,
        (RecordState::Planning, RecordState::Committed) => true,
        (RecordState::Applying, RecordState::Verifying) => true,
        (RecordState::Verifying, RecordState::Committed) => true,
        (RecordState::Applying, RecordState::RollingBack) => true,
        (RecordState::Verifying, RecordState::RollingBack) => true,
        (RecordState::RollingBack, RecordState::RolledBack) => true,
        (_, RecordState::Failed) => !is_terminal(a),
        _ => false,
    }
}

/// Every transition moves strictly forward, and nothing leaves a terminal
/// state: no state is ever visited twice.
pub proof fn lemma_transitions_advance(a: RecordState, b: RecordState)
    requires
        valid_transition(a, b),
    ensures
        rank(a) < rank(b),
        !is_terminal(a),
{
}

/// The part of a record that moves with the state machine.
#[derive(Clone, Copy, Debug, PartialEq, Eq, Structural)]
pub struct Status {
    pub state: RecordState,
    /// Failed attempts of the current stage so far.
    pub attempts: u8,
    /// Why the deployment failed, if it did.
    pub error: Option<DeployError>,
    /// Why no rollback happened, or why it failed.
    pub rollback_error: Option<DeployError>,
}

/// One deployment attempt as written when it was accepted or refused.
#[derive(Clone, Debug)]
pub struct DeploymentRecord {
    pub target: String,
    /// The target's kind, when the target was known.
    pub kind: Option<TargetKind>,
    pub artifact: String,
    /// The plan's steps.
    pub steps: Vec<Step>,
    /// The last committed reference when the plan was made: what a rollback restores.
    pub prior: Option<String>,
    pub requested_at: u64,
}

/// The append-only history of deployment attempts.
pub struct Ledger {
    records: Vec<DeploymentRecord>,
    status: Vec<Status>,
}

/// The artifact of the last Committed record for `t` among the first `n` records.
pub open spec fn committed_upto(recs: Seq<DeploymentRecord>, st: Seq<Status>, t: Seq<char>, n: int) -> Option<Seq<char>>
    decreases n,
{
    if n <= 0 {
        None
    } else if recs[n - 1].target@ == t && st[n - 1].state == RecordState::Committed {
        Some(recs[n - 1].artifact@)
    } else {
        committed_upto(recs, st, t, n - 1)
    }
}

impl Ledger {
    /// The records, oldest first.
    pub closed spec fn records(&self) -> Seq<DeploymentRecord> {
        self.records@
    }

    /// The status of each record, by position.
    pub closed spec fn statuses(&self) -> Seq<Status> {
        self.status@
    }

    pub open spec fn len(&self) -> nat {
        self.records().len()
    }

    pub open spec fn target_at(&self, i: int) -> Seq<char> {
        self.records()[i].target@
    }

    pub open spec fn artifact_at(&self, i: int) -> Seq<char> {
        self.records()[i].artifact@
    }

    pub open spec fn state_at(&self, i: int) -> RecordState {
        self.statuses()[i].state
    }

    /// Whether some record for `t` is not yet finished.
    pub open spec fn in_flight(&self, t: Seq<char>) -> bool {
        exists|i: int| 0 <= i < self.len() && #[trigger] self.target_at(i) == t && !is_terminal(self.state_at(i))
    }

    /// The artifact of the most recent Committed record for `t`.
    pub open spec fn last_committed(&self, t: Seq<char>) -> Option<Seq<char>> {
        committed_upto(self.records(), self.statuses(), t, self.len() as int)
    }

    /// At most one record per target is unfinished at any time.
    pub open spec fn at_most_one_in_flight(&self) -> bool {
        forall|i: int, j: int|
            0 <= i < self.len() && 0 <= j < self.len() && #[trigger] self.target_at(i) == #[trigger] self.target_at(j)
                && !is_terminal(self.state_at(i)) && !is_terminal(self.state_at(j)) ==> i == j
    }

    /// While a record is unfinished, every later record for its target is a
    /// Failed marker.
    pub open spec fn later_records_failed(&self) -> bool {
        forall|i: int, j: int|
            0 <= i < j < self.len() && #[trigger] self.target_at(i) == #[trigger] self.target_at(j)
                && !is_terminal(self.state_at(i)) ==> self.state_at(j) == RecordState::Failed
    }

    pub open spec fn wf(&self) -> bool {
        &&& self.statuses().len() == self.len()
        &&& self.at_most_one_in_flight()
        &&& self.later_records_failed()
    }

    /// An empty ledger.
    pub fn new() -> (r: Ledger)
        ensures
            r.wf(),
            r.len() == 0,
    {
        Ledger { records: Vec::new(), status: Vec::new() }
    }

    /// The number of records.
    pub fn count(&self) -> (r: usize)
        requires
            self.wf(),
        ensures
            r == self.len(),
    {
        self.records.len()
    }

    /// The record at `i`.
    pub fn record(&self, i: usize) -> (r: &DeploymentRecord)
        requires
            i < self.len(),
        ensures
            *r == self.records()[i as int],
    {
        &self.records[i]
    }

    /// The status of the record at `i`.
    pub fn status(&self, i: usize) -> (r: Status)
        requires
            self.wf(),
            i < self.len(),
        ensures
            r == self.statuses()[i as int],
    {
        self.status[i]
    }

    /// The position of the unfinished record for `t`, if there is one.
    pub fn find_in_flight(&self, t: &str) -> (r: Option<usize>)
        requires
            self.wf(),
        ensures
            r matches Some(i) ==> i < self.len() && self.target_at(i as int) == t@ && !is_terminal(self.state_at(i as int)),
            r is None ==> !self.in_flight(t@),
    {
        let key = t.to_owned();
        let mut i: usize = 0;
        while i < self.records.len()
            invariant
                self.wf(),
                i <= self.len(),
                key@ == t@,
                forall|k: int| 0 <= k < i && #[trigger] self.target_at(k) == t@ ==> is_terminal(self.state_at(k)),
            decreases self.len() - i,
        {
            let s = self.status[i].state;
            if self.records[i].target == key && !(s == RecordState::Committed || s == RecordState::Failed || s == RecordState::RolledBack) {
                return Some(i);
            }
            i = i + 1;
        }
        None
    }

    /// The artifact of the most recent Committed record for `t`.
    pub fn last_committed_ref(&self, t: &str) -> (r: Option<String>)
        requires
            self.wf(),
        ensures
            crate::plan::opt_view(r) == self.last_committed(t@),
    {
        let key = t.to_owned();
        let mut n: usize = self.records.len();
        while n > 0
            invariant
                self.wf(),
                n <= self.len(),
                key@ == t@,
                committed_upto(self.records(), self.statuses(), t@, self.len() as int)
                    == committed_upto(self.records(), self.statuses(), t@, n as int),
            decreases n,
        {
            let k = n - 1;
            if self.records[k].target == key && self.status[k].state == RecordState::Committed {
                return Some(self.records[k].artifact.clone());
            }
            n = k;
        }
        None
    }

    /// Appends a record. An unfinished record may only be added for a target
    /// with nothing in flight; while something is, only a Failed marker.
    pub(crate) fn append(&mut self, rec: DeploymentRecord, st: Status) -> (r: usize)
        requires
            old(self).wf(),
            !is_terminal(st.state) ==> !old(self).in_flight(rec.target@),
            old(self).in_flight(rec.target@) ==> st.state == RecordState::Failed,
            old(self).len() < usize::MAX,
        ensures
            final(self).wf(),
            r == old(self).len(),
            final(self).len() == old(self).len() + 1,
            final(self).records() == old(self).records().push(rec),
            final(self).statuses() == old(self).statuses().push(st),
    {
        let r = self.records.len();
        self.records.push(rec);
        self.status.push(st);
        proof {
            assert forall|i: int| 0 <= i < old(self).len() implies
                #[trigger] self.target_at(i) == old(self).target_at(i) && self.state_at(i) == old(self).state_at(i) by {}
        }
        r
    }

    /// Moves the record at `i` to a new status; its state stays or advances.
    pub(crate) fn set_status(&mut self, i: usize, st: Status)
        requires
            old(self).wf(),
            i < old(self).len(),
            st.state == old(self).state_at(i as int) || valid_transition(old(self).state_at(i as int), st.state),
        ensures
            final(self).wf(),
            final(self).records() == old(self).records(),
            final(self).statuses() == old(self).statuses().update(i as int, st),
    {
        proof {
            if st.state != old(self).state_at(i as int) {
                lemma_transitions_advance(old(self).state_at(i as int), st.state);
            }
        }
        self.status.set(i, st);
        proof {
            let o = old(self).state_at(i as int);
            assert(!is_terminal(st.state) ==> !is_terminal(o));
            assert(is_terminal(o) ==> st.state == o);
            assert forall|k: int| 0 <= k < self.len() && k != i implies
                #[trigger] self.state_at(k) == old(self).state_at(k) && self.target_at(k) == old(self).target_at(k) by {}
            assert(self.target_at(i as int) == old(self).target_at(i as int));
        }
    }
}

/// In a well-formed ledger, two unfinished records for one target are the
/// same record.
pub proof fn lemma_one_in_flight(l: &Ledger, i: int, j: int)
    requires
        l.wf(),
        0 <= i < l.len(),
        0 <= j < l.len(),
        l.target_at(i) == l.target_at(j),
        !is_terminal(l.state_at(i)),
        !is_terminal(l.state_at(j)),
    ensures
        i == j,
{
}

/// Among the first `n` records, a Committed record for `t` at `i` with no
/// later Committed record for `t` is the one that counts.
proof fn lemma_committed_upto(recs: Seq<DeploymentRecord>, st: Seq<Status>, t: Seq<char>, i: int, n: int)
    requires
        0 <= i < n <= recs.len(),
        n <= st.len(),
        recs[i].target@ == t,
        st[i].state == RecordState::Committed,
        forall|j: int| i < j < n && #[trigger] recs[j].target@ == t ==> st[j].state != RecordState::Committed,
    ensures
        committed_upto(recs, st, t, n) == Some(recs[i].artifact@),
    decreases n,
{
    if n > i + 1 {
        lemma_committed_upto(recs, st, t, i, n - 1);
    }
}

/// The artifact of a Committed record with no later Committed record for its
/// target is what the ledger gives as that target's last committed reference.
pub proof fn lemma_commit_round_trip(l: &Ledger, i: int)
    requires
        l.wf(),
        0 <= i < l.len(),
        l.state_at(i) == RecordState::Committed,
        forall|j: int| i < j < l.len() && #[trigger] l.target_at(j) == l.target_at(i) ==> l.state_at(j) != RecordState::Committed,
    ensures
        l.last_committed(l.target_at(i)) == Some(l.artifact_at(i)),
{
    assert forall|j: int| i < j < l.len() && #[trigger] l.records()[j].target@ == l.target_at(i) implies
        l.statuses()[j].state != RecordState::Committed by {
        assert(l.target_at(j) == l.target_at(i));
    }
    lemma_committed_upto(l.records(), l.statuses(), l.target_at(i), i, l.len() as int);
}

} // verus!
