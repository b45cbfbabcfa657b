use vstd::prelude::*;

use crate::error::DeployError;
use crate::target::{DeploymentTarget, TargetKind};

verus! {

/// One step of a deployment, in the order in which the steps of a kind run.
#[derive(Clone, Copy, Debug, PartialEq, Eq, Structural)]
pub enum Step {
    ValidateImageReference,
    UpdateFunctionConfiguration,
    PublishVersion,
    WarmCheck,
    BuildOrReceiveAssets,
    UploadToStorage,
    InvalidateDistributionCache,
    DnsHealthCheck,
}

/// The full step list of a target kind.
pub open spec fn kind_steps(kind: TargetKind) -> Seq<Step> {
    match kind {
        TargetKind::Function => seq![
            Step::ValidateImageReference,
            Step::UpdateFunctionConfiguration,
            Step::PublishVersion,
            Step::WarmCheck,
        ],
        TargetKind::StaticSite => seq![
            Step::BuildOrReceiveAssets,
            Step::UploadToStorage,
            Step::InvalidateDistributionCache,
            Step::DnsHealthCheck,
        ],
    }
}

impl Step {
    /// The step's name as it appears in progress events.
    pub fn name(&self) -> (r: &'static str)
        ensures
            r@ == step_name(*self),
    {
        match self {
            Step::ValidateImageReference => "validate-image-reference",
            Step::UpdateFunctionConfiguration => "update-function-configuration",
            Step::PublishVersion => "publish-version",
            Step::WarmCheck => "warm-check",
            Step::BuildOrReceiveAssets => "build-or-receive-assets",
            Step::UploadToStorage => "upload-to-storage",
            Step::InvalidateDistributionCache => "invalidate-distribution-cache",
            Step::DnsHealthCheck => "dns-health-check",
        }
    }
}

/// The name of each step.
pub open spec fn step_name(s: Step) -> Seq<char> {
    match s {
        Step::ValidateImageReference => "validate-image-reference"@,
        Step::UpdateFunctionConfiguration => "update-function-configuration"@,
        Step::PublishVersion => "publish-version"@,
        Step::WarmCheck => "warm-check"@,
        Step::BuildOrReceiveAssets => "build-or-receive-assets"@,
        Step::UploadToStorage => "upload-to-storage"@,
        Step::InvalidateDistributionCache => "invalidate-distribution-cache"@,
        Step::DnsHealthCheck => "dns-health-check"@,
    }
}

/// Returns the step list of a target kind.
pub fn steps_for(kind: TargetKind) -> (r: Vec<Step>)
    ensures
        r@ == kind_steps(kind),
{
    let r = match kind {
        TargetKind::Function => vec![
            Step::ValidateImageReference,
            Step::UpdateFunctionConfiguration,
            Step::PublishVersion,
            Step::WarmCheck,
        ],
        TargetKind::StaticSite => vec![
            Step::BuildOrReceiveAssets,
            Step::UploadToStorage,
            Step::InvalidateDistributionCache,
            Step::DnsHealthCheck,
        ],
    };
    assert(r@ =~= kind_steps(kind));
    r
}

/// Whether `c` is a character that cannot occur in an artifact reference.
pub open spec fn is_blank(c: char) -> bool {
    c == ' ' || c == '\t' || c == '\n' || c == '\r'
}

/// A well-formed artifact reference: non-empty ASCII without blanks. An image
/// reference (for a function) also has a `:` between a non-empty repository
/// and a non-empty tag.
pub open spec fn artifact_ok(kind: TargetKind, s: Seq<char>) -> bool {
    &&& s.len() > 0
    &&& forall|i: int| 0 <= i < s.len() ==> '\0' <= #[trigger] s[i] <= '\u{7f}' && !is_blank(s[i])
    &&& kind == TargetKind::Function ==> exists|k: int| 0 < k < s.len() - 1 && #[trigger] s[k] == ':'
}

/// Checks an artifact reference against `artifact_ok`.
pub fn check_artifact(kind: TargetKind, s: &str) -> (r: bool)
    ensures
        r == artifact_ok(kind, s@),
{
    if !s.is_ascii() {
        assert(!vstd::string::is_ascii(s));
        assert(exists|i: int| 0 <= i < s@.len() && !('\0' <= #[trigger] s@[i] <= '\u{7f}'));
        return false;
    }
    let n = s.unicode_len();
    if n == 0 {
        return false;
    }
    let mut colon = false;
    let mut i: usize = 0;
    while i < n
        invariant
            s.is_ascii(),
            n == s@.len(),
            i <= n,
            forall|j: int| 0 <= j < i ==> '\0' <= #[trigger] s@[j] <= '\u{7f}' && !is_blank(s@[j]),
            colon <==> exists|k: int| 0 < k < s@.len() - 1 && k < i && #[trigger] s@[k] == ':',
        decreases n - i,
    {
        let c = s.get_char(i);
        if c == ' ' || c == '\t' || c == '\n' || c == '\r' {
            return false;
        }
        if c == ':' && 0 < i && i + 1 < n {
            colon = true;
        }
        i = i + 1;
    }
    colon || kind == TargetKind::StaticSite
}

/// A request to deploy `artifact` to the target named `target`.
#[derive(Clone, Debug)]
pub struct DeploymentRequest {
    pub target: String,
    pub artifact: String,
    /// When the request was made, in milliseconds since the epoch.
    pub requested_at: u64,
}

impl DeploymentRequest {
    /// A request to deploy `artifact` to `target`, made at `requested_at`.
    pub fn new(target: &str, artifact: &str, requested_at: u64) -> (r: DeploymentRequest)
        ensures
            r.target@ == target@,
            r.artifact@ == artifact@,
            r.requested_at == requested_at,
    {
        DeploymentRequest { target: target.to_owned(), artifact: artifact.to_owned(), requested_at }
    }
}

/// How far a run of `total` steps has come, out of 100, once `done` of them
/// have run.
pub fn progress_position(done: usize, total: usize) -> (r: u64)
    requires
        total > 0,
        done <= total,
    ensures
        r == (done * 100) as int / (total as int),
        r <= 100,
{
    assert(done * 100 <= total * 100) by (nonlinear_arith)
        requires done <= total;
    assert((done * 100) as int / (total as int) <= 100) by (nonlinear_arith)
        requires done * 100 <= total * 100, total > 0;
    ((done as u128 * 100) / total as u128) as u64
}

/// The intended end-state of a deployment, fixed before any change is made.
#[derive(Clone, Debug)]
pub struct DeploymentPlan {
    pub target: String,
    pub kind: TargetKind,
    pub artifact: String,
    /// The steps to run, in order; empty when nothing changes.
    pub steps: Vec<Step>,
}

/// The steps of a plan for `kind` that moves from `last` to `artifact`.
pub open spec fn planned_steps(kind: TargetKind, artifact: Seq<char>, last: Option<Seq<char>>) -> Seq<Step> {
    if last == Some(artifact) {
        Seq::empty()
    } else {
        kind_steps(kind)
    }
}

/// Builds the plan that takes `target` from the last committed reference
/// `last` to the request's artifact. Fails on a malformed artifact.
pub fn make_plan(target: &DeploymentTarget, request: &DeploymentRequest, last: &Option<String>) -> (r: Result<DeploymentPlan, DeployError>)
    ensures
        !artifact_ok(target.kind, request.artifact@) ==> r == Err::<DeploymentPlan, DeployError>(DeployError::InvalidArtifact),
        artifact_ok(target.kind, request.artifact@) ==> (r matches Ok(p) && {
            &&& p.target@ == target.name@
            &&& p.kind == target.kind
            &&& p.artifact@ == request.artifact@
            &&& p.steps@ == planned_steps(target.kind, request.artifact@, opt_view(*last))
        }),
{
    if !check_artifact(target.kind, request.artifact.as_str()) {
        return Err(DeployError::InvalidArtifact);
    }
    let unchanged = match last {
        Some(l) => *l == request.artifact,
        None => false,
    };
    let steps = if unchanged { Vec::new() } else { steps_for(target.kind) };
    proof {
        if unchanged {
            assert(steps@ =~= Seq::<Step>::empty());
        }
    }
    Ok(DeploymentPlan {
        target: target.name.clone(),
        kind: target.kind,
        artifact: request.artifact.clone(),
        steps,
    })
}

/// The view of an optional string.
pub open spec fn opt_view(o: Option<String>) -> Option<Seq<char>> {
    match o {
        Some(s) => Some(s@),
        None => None,
    }
}

} // verus!
