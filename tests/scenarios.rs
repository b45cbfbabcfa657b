use deployctl::{
    Action, DeployError, DeploymentRequest, Event, LiveTarget, Orchestrator, RecordState, Registry,
    Step, TargetKind,
};

fn micros() -> Orchestrator {
    Orchestrator::new(Registry::with_micros())
}

fn sites() -> Orchestrator {
    let mut r = Registry::new();
    r.register("example.com", TargetKind::StaticSite);
    Orchestrator::new(r)
}

fn commit(o: &mut Orchestrator, target: &str, artifact: &str) -> usize {
    let id = o.begin(&DeploymentRequest::new(target, artifact, 0)).unwrap();
    assert_eq!(o.handle(id, Event::ApplySucceeded), Action::Verify);
    assert_eq!(o.handle(id, Event::VerifySucceeded), Action::Finish);
    id
}

#[test]
fn first_deploy_commits() {
    let mut o = micros();
    let id = o.begin(&DeploymentRequest::new("svc-events", "repo/svc-events:42", 1)).unwrap();
    assert_eq!(id, 0);
    assert_eq!(o.ledger().record(id).steps.len(), 4);
    assert_eq!(o.next_action(id), Action::Apply);
    assert_eq!(o.handle(id, Event::ApplySucceeded), Action::Verify);
    assert_eq!(o.handle(id, Event::VerifySucceeded), Action::Finish);
    assert_eq!(o.ledger().count(), 1);
    assert_eq!(o.ledger().status(id).state, RecordState::Committed);
    assert_eq!(o.ledger().record(id).artifact, "repo/svc-events:42");
    assert_eq!(
        o.ledger().last_committed_ref("svc-events"),
        Some("repo/svc-events:42".to_string())
    );
}

#[test]
fn second_request_in_flight_conflicts() {
    let mut o = micros();
    let first = o.begin(&DeploymentRequest::new("svc-events", "repo/svc-events:42", 1)).unwrap();
    assert_eq!(o.ledger().status(first).state, RecordState::Applying);
    let second = o.begin(&DeploymentRequest::new("svc-events", "repo/svc-events:43", 2));
    assert_eq!(second, Err(DeployError::Conflict));
    assert_eq!(o.ledger().status(1).state, RecordState::Failed);
    assert_eq!(o.ledger().status(1).error, Some(DeployError::Conflict));
    assert_eq!(o.handle(first, Event::ApplySucceeded), Action::Verify);
    assert_eq!(o.handle(first, Event::VerifySucceeded), Action::Finish);
    assert_eq!(o.ledger().status(first).state, RecordState::Committed);
    assert_eq!(
        o.ledger().last_committed_ref("svc-events"),
        Some("repo/svc-events:42".to_string())
    );
}

#[test]
fn apply_failure_with_prior_rolls_back() {
    let mut o = micros();
    let mut live = LiveTarget::new(None);
    let old_id = commit(&mut o, "svc-events", "repo/svc-events:41");
    live.apply(old_id, &o.ledger().record(old_id).steps, "repo/svc-events:41");

    let id = o.begin(&DeploymentRequest::new("svc-events", "repo/svc-events:42", 5)).unwrap();
    // the first two steps run, then publish-version fails for good
    let steps = o.ledger().record(id).steps.clone();
    assert_eq!(steps[2], Step::PublishVersion);
    assert_eq!(steps[2].name(), "publish-version");
    live.apply(id, &steps[0..2].to_vec(), "repo/svc-events:42");
    assert_eq!(o.handle(id, Event::ApplyFailed { transient: false }), Action::Rollback);
    let prior = o.rollback_ref(id);
    assert_eq!(prior, Some("repo/svc-events:41".to_string()));
    live.revert(&prior);
    assert_eq!(o.handle(id, Event::RollbackSucceeded), Action::Finish);
    let st = o.ledger().status(id);
    assert_eq!(st.state, RecordState::RolledBack);
    assert_eq!(st.error, Some(DeployError::ApplyFailed));
    assert_eq!(live.current(), Some("repo/svc-events:41".to_string()));
    assert_eq!(
        o.ledger().last_committed_ref("svc-events"),
        Some("repo/svc-events:41".to_string())
    );
}

#[test]
fn apply_failure_without_prior_fails() {
    let mut o = micros();
    let id = o.begin(&DeploymentRequest::new("svc-users", "repo/svc-users:1", 0)).unwrap();
    assert_eq!(o.handle(id, Event::ApplyFailed { transient: false }), Action::Finish);
    let st = o.ledger().status(id);
    assert_eq!(st.state, RecordState::Failed);
    assert_eq!(st.error, Some(DeployError::ApplyFailed));
    assert_eq!(st.rollback_error, Some(DeployError::RollbackFailed));
    assert_eq!(o.rollback_ref(id), None);
    assert_eq!(o.ledger().last_committed_ref("svc-users"), None);
}

#[test]
fn unchanged_site_commits_without_steps() {
    let mut o = sites();
    commit(&mut o, "example.com", "build/site-7");
    let id = o.begin(&DeploymentRequest::new("example.com", "build/site-7", 9)).unwrap();
    assert_eq!(o.ledger().record(id).steps.len(), 0);
    assert_eq!(o.ledger().status(id).state, RecordState::Committed);
    assert_eq!(o.next_action(id), Action::Finish);
}

#[test]
fn changed_site_has_four_steps() {
    let mut o = sites();
    let id = o.begin(&DeploymentRequest::new("example.com", "build/site-1", 0)).unwrap();
    let steps = &o.ledger().record(id).steps;
    assert_eq!(steps.len(), 4);
    assert_eq!(steps[0], Step::BuildOrReceiveAssets);
    assert_eq!(steps[3].name(), "dns-health-check");
}

#[test]
fn rollback_failure_ends_failed() {
    let mut o = micros();
    commit(&mut o, "svc-checkout", "repo/svc-checkout:1");
    let id = o.begin(&DeploymentRequest::new("svc-checkout", "repo/svc-checkout:2", 0)).unwrap();
    assert_eq!(o.handle(id, Event::ApplySucceeded), Action::Verify);
    assert_eq!(o.handle(id, Event::VerifyFailed { transient: false }), Action::Rollback);
    assert_eq!(o.handle(id, Event::RollbackFailed), Action::Finish);
    let st = o.ledger().status(id);
    assert_eq!(st.state, RecordState::Failed);
    assert_eq!(st.error, Some(DeployError::VerificationFailed));
    assert_eq!(st.rollback_error, Some(DeployError::RollbackFailed));
}

#[test]
fn transient_failures_retry_three_times() {
    let mut o = micros();
    let id = o.begin(&DeploymentRequest::new("svc-producers", "repo/p:1", 0)).unwrap();
    assert_eq!(o.handle(id, Event::ApplyFailed { transient: true }), Action::Apply);
    assert_eq!(o.handle(id, Event::ApplyFailed { transient: true }), Action::Apply);
    assert_eq!(o.ledger().status(id).attempts, 2);
    assert_eq!(o.handle(id, Event::ApplyFailed { transient: true }), Action::Finish);
    assert_eq!(o.ledger().status(id).error, Some(DeployError::Transient));
}

#[test]
fn transient_then_success() {
    let mut o = micros();
    let id = o.begin(&DeploymentRequest::new("svc-producers", "repo/p:1", 0)).unwrap();
    assert_eq!(o.handle(id, Event::ApplyFailed { transient: true }), Action::Apply);
    assert_eq!(o.handle(id, Event::ApplySucceeded), Action::Verify);
    assert_eq!(o.handle(id, Event::VerifyFailed { transient: true }), Action::Verify);
    assert_eq!(o.handle(id, Event::VerifySucceeded), Action::Finish);
    assert_eq!(o.ledger().status(id).state, RecordState::Committed);
}

#[test]
fn cancel_after_step_without_prior() {
    let mut o = micros();
    let id = o.begin(&DeploymentRequest::new("svc-users", "repo/u:1", 0)).unwrap();
    assert_eq!(o.handle(id, Event::Cancelled), Action::Finish);
    assert_eq!(o.ledger().status(id).error, Some(DeployError::Cancelled));
    assert_eq!(o.ledger().status(id).state, RecordState::Failed);
}

#[test]
fn stray_event_changes_nothing() {
    let mut o = micros();
    let id = commit(&mut o, "svc-users", "repo/u:1");
    assert_eq!(o.handle(id, Event::ApplyFailed { transient: false }), Action::Finish);
    assert_eq!(o.ledger().status(id).state, RecordState::Committed);
}

#[test]
fn unknown_target_is_refused() {
    let mut o = micros();
    let r = o.begin(&DeploymentRequest::new("svc-nope", "repo/x:1", 0));
    assert_eq!(r, Err(DeployError::UnknownTarget));
    assert_eq!(o.ledger().count(), 1);
    assert_eq!(o.ledger().status(0).state, RecordState::Failed);
}

#[test]
fn malformed_image_is_refused() {
    let mut o = micros();
    assert_eq!(
        o.begin(&DeploymentRequest::new("svc-events", "repo/svc-events", 0)),
        Err(DeployError::InvalidArtifact)
    );
    assert_eq!(
        o.begin(&DeploymentRequest::new("svc-events", "repo x:1", 0)),
        Err(DeployError::InvalidArtifact)
    );
    assert_eq!(o.ledger().status(1).error, Some(DeployError::InvalidArtifact));
    // refused records do not block the next request
    assert!(o.begin(&DeploymentRequest::new("svc-events", "repo/svc-events:1", 0)).is_ok());
}

#[test]
fn other_targets_run_independently() {
    let mut o = micros();
    let a = o.begin(&DeploymentRequest::new("svc-events", "repo/e:1", 0)).unwrap();
    let b = o.begin(&DeploymentRequest::new("svc-users", "repo/u:1", 0)).unwrap();
    assert_eq!(o.next_action(a), Action::Apply);
    assert_eq!(o.next_action(b), Action::Apply);
}

#[test]
fn at_most_one_in_flight_under_many_requests() {
    let mut o = micros();
    let mut accepted = 0;
    for k in 0..5u64 {
        let art = format!("repo/svc-events:{}", k);
        if o.begin(&DeploymentRequest::new("svc-events", &art, k)).is_ok() {
            accepted += 1;
        }
    }
    assert_eq!(accepted, 1);
    let mut unfinished = 0;
    for i in 0..o.ledger().count() {
        let s = o.ledger().status(i).state;
        if s != RecordState::Committed && s != RecordState::Failed && s != RecordState::RolledBack {
            unfinished += 1;
        }
    }
    assert_eq!(unfinished, 1);
}

#[test]
fn committed_reference_round_trips() {
    let mut o = micros();
    commit(&mut o, "svc-events", "repo/svc-events:1");
    commit(&mut o, "svc-events", "repo/svc-events:2");
    assert_eq!(
        o.ledger().last_committed_ref("svc-events"),
        Some("repo/svc-events:2".to_string())
    );
    assert_eq!(o.ledger().last_committed_ref("svc-users"), None);
}

#[test]
fn cancel_before_start_leaves_failed_marker() {
    let mut o = micros();
    let req = DeploymentRequest::new("svc-events", "repo/e:1", 0);
    assert_eq!(o.cancel_before_start(&req), Err(DeployError::Cancelled));
    assert_eq!(o.ledger().status(0).state, RecordState::Failed);
    assert_eq!(o.ledger().status(0).error, Some(DeployError::Cancelled));
    assert!(o.begin(&req).is_ok());
}
