use vstd::prelude::*;

use crate::error::DeployError;
use crate::ledger::{is_terminal, DeploymentRecord, Ledger, RecordState, Status};
use crate::plan::{artifact_ok, make_plan, opt_view, planned_steps, DeploymentRequest};
use crate::target::{DeploymentTarget, Registry};

verus! {

/// How many times `apply` or `verify` is tried before a transient failure counts.
pub const MAX_ATTEMPTS: u8 = 3;

/// What came back from the adapter call that the last action asked for.
#[derive(Clone, Copy, Debug, PartialEq, Eq, Structural)]
pub enum Event {
    ApplySucceeded,
    ApplyFailed { transient: bool },
    VerifySucceeded,
    VerifyFailed { transient: bool },
    RollbackSucceeded,
    RollbackFailed,
    /// The caller asked to stop; delivered once the current step has completed.
    Cancelled,
}

/// The adapter call to make next.
#[derive(Clone, Copy, Debug, PartialEq, Eq, Structural)]
pub enum Action {
    Apply,
    Verify,
    /// Restore the reference recorded as the record's prior one.
    Rollback,
    /// Nothing more: the record is finished.
    Finish,
}

/// The status after a failure with `err`: roll back when there is something to
/// roll back to, else stop as Failed with the rollback refused.
pub open spec fn fail_status(st: Status, err: DeployError, has_prior: bool) -> Status {
    if has_prior {
        Status { state: RecordState::RollingBack, attempts: 0, error: Some(err), ..st }
    } else {
        Status {
            state: RecordState::Failed,
            attempts: 0,
            error: Some(err),
            rollback_error: Some(DeployError::RollbackFailed),
        }
    }
}

/// The state machine: the status after event `e`. An event that does not
/// belong to the current state changes nothing.
pub open spec fn next_status(st: Status, has_prior: bool, e: Event) -> Status {
    match (st.state, e) {
        (RecordState::Applying, Event::ApplySucceeded) => Status { state: RecordState::Verifying, attempts: 0, ..st },
        (RecordState::Applying, Event::ApplyFailed { transient }) => {
            if transient && st.attempts + 1 < MAX_ATTEMPTS {
                Status { attempts: (st.attempts + 1) as u8, ..st }
            } else if transient {
                fail_status(st, DeployError::Transient, has_prior)
            } else {
                fail_status(st, DeployError::ApplyFailed, has_prior)
            }
        },
        (RecordState::Verifying, Event::VerifySucceeded) => Status { state: RecordState::Committed, attempts: 0, ..st },
        (RecordState::Verifying, Event::VerifyFailed { transient }) => {
            if transient && st.attempts + 1 < MAX_ATTEMPTS {
                Status { attempts: (st.attempts + 1) as u8, ..st }
            } else {
                fail_status(st, DeployError::VerificationFailed, has_prior)
            }
        },
        (RecordState::Applying, Event::Cancelled) => fail_status(st, DeployError::Cancelled, has_prior),
        (RecordState::Verifying, Event::Cancelled) => fail_status(st, DeployError::Cancelled, has_prior),
        (RecordState::RollingBack, Event::RollbackSucceeded) => Status { state: RecordState::RolledBack, ..st },
        (RecordState::RollingBack, Event::RollbackFailed) => Status {
            state: RecordState::Failed,
            rollback_error: Some(DeployError::RollbackFailed),
            ..st
        },
        _ => st,
    }
}

/// The adapter call that a state asks for.
pub open spec fn action_of(s: RecordState) -> Action {
    match s {
        RecordState::Applying => Action::Apply,
        RecordState::Verifying => Action::Verify,
        RecordState::RollingBack => Action::Rollback,
        _ => Action::Finish,
    }
}

fn fail_with(st: Status, err: DeployError, has_prior: bool) -> (r: Status)
    ensures
        r == fail_status(st, err, has_prior),
{
    if has_prior {
        Status { state: RecordState::RollingBack, attempts: 0, error: Some(err), ..st }
    } else {
        Status {
            state: RecordState::Failed,
            attempts: 0,
            error: Some(err),
            rollback_error: Some(DeployError::RollbackFailed),
        }
    }
}

/// Computes the status after event `e`.
pub fn decide(st: Status, has_prior: bool, e: Event) -> (r: Status)
    ensures
        r == next_status(st, has_prior, e),
{
    match (st.state, e) {
        (RecordState::Applying, Event::ApplySucceeded) => Status { state: RecordState::Verifying, attempts: 0, ..st },
        (RecordState::Applying, Event::ApplyFailed { transient }) => {
            if transient && st.attempts < MAX_ATTEMPTS - 1 {
                Status { attempts: st.attempts + 1, ..st }
            } else if transient {
                fail_with(st, DeployError::Transient, has_prior)
            } else {
                fail_with(st, DeployError::ApplyFailed, has_prior)
            }
        },
        (RecordState::Verifying, Event::VerifySucceeded) => Status { state: RecordState::Committed, attempts: 0, ..st },
        (RecordState::Verifying, Event::VerifyFailed { transient }) => {
            if transient && st.attempts < MAX_ATTEMPTS - 1 {
                Status { attempts: st.attempts + 1, ..st }
            } else {
                fail_with(st, DeployError::VerificationFailed, has_prior)
            }
        },
        (RecordState::Applying, Event::Cancelled) => fail_with(st, DeployError::Cancelled, has_prior),
        (RecordState::Verifying, Event::Cancelled) => fail_with(st, DeployError::Cancelled, has_prior),
        (RecordState::RollingBack, Event::RollbackSucceeded) => Status { state: RecordState::RolledBack, ..st },
        (RecordState::RollingBack, Event::RollbackFailed) => Status {
            state: RecordState::Failed,
            rollback_error: Some(DeployError::RollbackFailed),
            ..st
        },
        _ => st,
    }
}

/// Returns the adapter call that state `s` asks for.
pub fn action_for(s: RecordState) -> (r: Action)
    ensures
        r == action_of(s),
{
    match s {
        RecordState::Applying => Action::Apply,
        RecordState::Verifying => Action::Verify,
        RecordState::RollingBack => Action::Rollback,
        _ => Action::Finish,
    }
}

/// Every status that the state machine produces from a state stays in that
/// state or moves along a valid transition.
pub proof fn lemma_next_status_valid(st: Status, has_prior: bool, e: Event)
    ensures
        next_status(st, has_prior, e).state == st.state
            || crate::ledger::valid_transition(st.state, next_status(st, has_prior, e).state),
{
}

/// Drives deployments: checks each request against the registry and the
/// ledger, then advances its record one adapter outcome at a time.
pub struct Orchestrator {
    registry: Registry,
    ledger: Ledger,
}

/// The status of a record written for a refused request.
pub open spec fn refused_status(err: DeployError) -> Status {
    Status { state: RecordState::Failed, attempts: 0, error: Some(err), rollback_error: None }
}

impl Orchestrator {
    /// The registry that requests are resolved against.
    pub closed spec fn reg(&self) -> Registry {
        self.registry
    }

    /// The ledger of every attempt.
    pub closed spec fn log(&self) -> Ledger {
        self.ledger
    }

    pub open spec fn wf(&self) -> bool {
        self.reg().wf() && self.log().wf()
    }

    /// Why a request would be refused before any change, if it would.
    pub open spec fn refusal(&self, req: DeploymentRequest) -> Option<DeployError> {
        if self.log().in_flight(req.target@) {
            Some(DeployError::Conflict)
        } else if self.reg().kind_of(req.target@) is None {
            Some(DeployError::UnknownTarget)
        } else if !artifact_ok(self.reg().kind_of(req.target@).unwrap(), req.artifact@) {
            Some(DeployError::InvalidArtifact)
        } else {
            None
        }
    }

    /// An orchestrator over `registry` with an empty ledger.
    pub fn new(registry: Registry) -> (r: Orchestrator)
        requires
            registry.wf(),
        ensures
            r.wf(),
            r.reg() == registry,
            r.log().len() == 0,
    {
        Orchestrator { registry, ledger: Ledger::new() }
    }

    /// The registry.
    pub fn registry(&self) -> (r: &Registry)
        ensures
            *r == self.reg(),
    {
        &self.registry
    }

    /// The ledger.
    pub fn ledger(&self) -> (r: &Ledger)
        ensures
            *r == self.log(),
    {
        &self.ledger
    }

    fn refuse(&mut self, req: &DeploymentRequest, kind: Option<crate::target::TargetKind>, err: DeployError) -> (r: Result<usize, DeployError>)
        requires
            old(self).wf(),
            old(self).log().len() < usize::MAX,
        ensures
            final(self).wf(),
            final(self).reg() == old(self).reg(),
            r == Err::<usize, DeployError>(err),
            final(self).log().statuses() == old(self).log().statuses().push(refused_status(err)),
            final(self).log().records().len() == old(self).log().len() + 1,
            final(self).log().records().take(old(self).log().len() as int) == old(self).log().records(),
            final(self).log().target_at(old(self).log().len() as int) == req.target@,
            final(self).log().artifact_at(old(self).log().len() as int) == req.artifact@,
    {
        let rec = DeploymentRecord {
            target: req.target.clone(),
            kind,
            artifact: req.artifact.clone(),
            steps: Vec::new(),
            prior: None,
            requested_at: req.requested_at,
        };
        self.ledger.append(rec, refused_status_exec(err));
        proof {
            assert(self.log().records().take(old(self).log().len() as int) =~= old(self).log().records());
        }
        Err(err)
    }

    /// Takes a request in. A refused request gets a Failed record and its
    /// error. An accepted one gets a record holding its plan, made against the
    /// target's last committed reference, and its position is returned: the
    /// record is Committed at once when the plan is empty, else Applying.
    pub fn begin(&mut self, req: &DeploymentRequest) -> (r: Result<usize, DeployError>)
        requires
            old(self).wf(),
            old(self).log().len() < usize::MAX,
        ensures
            final(self).wf(),
            final(self).reg() == old(self).reg(),
            final(self).log().len() == old(self).log().len() + 1,
            final(self).log().records().take(old(self).log().len() as int) == old(self).log().records(),
            final(self).log().statuses().take(old(self).log().len() as int) == old(self).log().statuses(),
            final(self).log().target_at(old(self).log().len() as int) == req.target@,
            final(self).log().artifact_at(old(self).log().len() as int) == req.artifact@,
            old(self).refusal(*req) matches Some(e) ==> r == Err::<usize, DeployError>(e)
                && final(self).log().statuses().last() == refused_status(e),
            old(self).refusal(*req) is None ==> ({
                let n = old(self).log().len() as int;
                let k = old(self).reg().kind_of(req.target@).unwrap();
                let last = old(self).log().last_committed(req.target@);
                let rec = final(self).log().records()[n];
                let steps = planned_steps(k, req.artifact@, last);
                &&& r == Ok::<usize, DeployError>(n as usize)
                &&& rec.kind == Some(k)
                &&& rec.steps@ == steps
                &&& opt_view(rec.prior) == last
                &&& final(self).log().statuses()[n] == Status {
                    state: if steps.len() == 0 { RecordState::Committed } else { RecordState::Applying },
                    attempts: 0,
                    error: None,
                    rollback_error: None,
                }
            }),
            r is Ok && final(self).log().state_at(old(self).log().len() as int) == RecordState::Committed
                ==> final(self).log().last_committed(req.target@) == Some(req.artifact@),
    {
        let n = self.ledger.count();
        let t = req.target.as_str();
        if self.ledger.find_in_flight(t).is_some() {
            return self.refuse(req, None, DeployError::Conflict);
        }
        let target = match self.registry.resolve(t) {
            Ok(target) => target,
            Err(_) => {
                return self.refuse(req, None, DeployError::UnknownTarget);
            },
        };
        let last = self.ledger.last_committed_ref(t);
        let plan = match make_plan(&target, req, &last) {
            Ok(plan) => plan,
            Err(_) => {
                return self.refuse(req, Some(target.kind), DeployError::InvalidArtifact);
            },
        };
        let state = if plan.steps.len() == 0 { RecordState::Committed } else { RecordState::Applying };
        let rec = DeploymentRecord {
            target: plan.target,
            kind: Some(plan.kind),
            artifact: plan.artifact,
            steps: plan.steps,
            prior: last,
            requested_at: req.requested_at,
        };
        let st = Status { state, attempts: 0, error: None, rollback_error: None };
        self.ledger.append(rec, st);
        proof {
            assert(self.log().records().take(n as int) =~= old(self).log().records());
            assert(self.log().statuses().take(n as int) =~= old(self).log().statuses());
            if state == RecordState::Committed {
                crate::ledger::lemma_commit_round_trip(&self.ledger, n as int);
            }
        }
        Ok(n)
    }

    /// Records a request that was cancelled before anything was applied: a
    /// Failed record with the reason Cancelled.
    pub fn cancel_before_start(&mut self, req: &DeploymentRequest) -> (r: Result<usize, DeployError>)
        requires
            old(self).wf(),
            old(self).log().len() < usize::MAX,
        ensures
            final(self).wf(),
            final(self).reg() == old(self).reg(),
            r == Err::<usize, DeployError>(DeployError::Cancelled),
            final(self).log().len() == old(self).log().len() + 1,
            final(self).log().records().take(old(self).log().len() as int) == old(self).log().records(),
            final(self).log().statuses() == old(self).log().statuses().push(refused_status(DeployError::Cancelled)),
            final(self).log().target_at(old(self).log().len() as int) == req.target@,
    {
        self.refuse(req, None, DeployError::Cancelled)
    }

    /// The adapter call that record `id` asks for now.
    pub fn next_action(&self, id: usize) -> (r: Action)
        requires
            self.wf(),
            id < self.log().len(),
        ensures
            r == action_of(self.log().state_at(id as int)),
    {
        action_for(self.ledger.status(id).state)
    }

    /// The reference that a rollback of record `id` restores.
    pub fn rollback_ref(&self, id: usize) -> (r: Option<String>)
        requires
            self.wf(),
            id < self.log().len(),
        ensures
            opt_view(r) == opt_view(self.log().records()[id as int].prior),
    {
        match &self.ledger.record(id).prior {
            Some(p) => Some(p.clone()),
            None => None,
        }
    }

    /// Feeds the outcome of the last adapter call of record `id` to the state
    /// machine, finalizes the record when it is done, and returns the next call.
    pub fn handle(&mut self, id: usize, e: Event) -> (a: Action)
        requires
            old(self).wf(),
            id < old(self).log().len(),
        ensures
            final(self).wf(),
            final(self).reg() == old(self).reg(),
            final(self).log().records() == old(self).log().records(),
            final(self).log().statuses() == old(self).log().statuses().update(
                id as int,
                next_status(old(self).log().statuses()[id as int], old(self).log().records()[id as int].prior is Some, e),
            ),
            a == action_of(final(self).log().state_at(id as int)),
            final(self).log().state_at(id as int) == RecordState::Committed
                && old(self).log().state_at(id as int) != RecordState::Committed
                ==> final(self).log().last_committed(old(self).log().target_at(id as int))
                    == Some(old(self).log().artifact_at(id as int)),
    {
        let has_prior = self.ledger.record(id).prior.is_some();
        let st = self.ledger.status(id);
        let next = decide(st, has_prior, e);
        proof {
            lemma_next_status_valid(st, has_prior, e);
        }
        self.ledger.set_status(id, next);
        proof {
            let l = self.log();
            let i = id as int;
            if l.state_at(i) == RecordState::Committed && old(self).log().state_at(i) != RecordState::Committed {
                assert(!is_terminal(old(self).log().state_at(i)));
                assert forall|j: int| i < j < l.len() && #[trigger] l.target_at(j) == l.target_at(i) implies
                    l.state_at(j) != RecordState::Committed by {
                    assert(old(self).log().target_at(j) == old(self).log().target_at(i));
                    assert(old(self).log().state_at(j) == RecordState::Failed);
                }
                crate::ledger::lemma_commit_round_trip(&self.ledger, i);
            }
        }
        action_for(next.state)
    }
}

fn refused_status_exec(err: DeployError) -> (r: Status)
    ensures
        r == refused_status(err),
{
    Status { state: RecordState::Failed, attempts: 0, error: Some(err), rollback_error: None }
}

} // verus!
