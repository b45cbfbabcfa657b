use vstd::prelude::*;

use crate::error::DeployError;

verus! {

/// The kind of infrastructure a target is deployed to.
#[derive(Clone, Copy, Debug, PartialEq, Eq, Structural)]
pub enum TargetKind {
    /// A serverless function that runs a container image.
    Function,
    /// A static site served through a content-delivery network.
    StaticSite,
}

/// The microservices known out of the box.
#[derive(Clone, Copy, Debug, PartialEq, Eq, Structural)]
pub enum Micro {
    Events,
    Users,
    Producers,
    Checkout,
}

/// The function name that a microservice is deployed as.
pub open spec fn lambda_name(m: Micro) -> Seq<char> {
    match m {
        Micro::Events => "svc-events"@,
        Micro::Users => "svc-users"@,
        Micro::Producers => "svc-producers"@,
        Micro::Checkout => "svc-checkout"@,
    }
}

/// Returns the name of the serverless function that runs `m`.
pub fn micro_to_lambda_name(m: &Micro) -> (r: &'static str)
    ensures
        r@ == lambda_name(*m),
{
    match m {
        Micro::Events => "svc-events",
        Micro::Users => "svc-users",
        Micro::Producers => "svc-producers",
        Micro::Checkout => "svc-checkout",
    }
}

/// A deployable target: its logical name and its kind.
#[derive(Clone, Debug)]
pub struct DeploymentTarget {
    pub name: String,
    pub kind: TargetKind,
}

impl DeploymentTarget {
    /// Builds a target from a name and a kind.
    pub fn new(name: &str, kind: TargetKind) -> (r: DeploymentTarget)
        ensures
            r.name@ == name@,
            r.kind == kind,
    {
        DeploymentTarget { name: name.to_owned(), kind }
    }
}

/// The static mapping from target names to targets.
///
/// Names are unique: registering a name a second time replaces its kind.
pub struct Registry {
    entries: Vec<DeploymentTarget>,
}

/// Whether some entry of `s` carries the name `name`.
pub open spec fn names_target(s: Seq<DeploymentTarget>, name: Seq<char>) -> bool {
    exists|i: int| 0 <= i < s.len() && (#[trigger] s[i]).name@ == name
}

impl Registry {
    /// What the registry maps names to.
    pub closed spec fn entries(&self) -> Seq<DeploymentTarget> {
        self.entries@
    }

    /// The kind registered under `name`, if any.
    pub open spec fn kind_of(&self, name: Seq<char>) -> Option<TargetKind> {
        if names_target(self.entries(), name) {
            Some(self.entries()[choose|i: int| 0 <= i < self.entries().len()
                && (#[trigger] self.entries()[i]).name@ == name].kind)
        } else {
            None
        }
    }

    /// Every name occurs at most once.
    pub open spec fn wf(&self) -> bool {
        forall|i: int, j: int|
            0 <= i < self.entries().len() && 0 <= j < self.entries().len()
                && (#[trigger] self.entries()[i]).name@ == (#[trigger] self.entries()[j]).name@
                ==> i == j
    }

    /// An empty registry.
    pub fn new() -> (r: Registry)
        ensures
            r.wf(),
            forall|n: Seq<char>| r.kind_of(n) is None,
    {
        Registry { entries: Vec::new() }
    }

    /// The registry of the four microservices, each a function target.
    pub fn with_micros() -> (r: Registry)
        ensures
            r.wf(),
            forall|m: Micro| r.kind_of(#[trigger] lambda_name(m)) == Some(TargetKind::Function),
    {
        let mut r = Registry::new();
        r.register(micro_to_lambda_name(&Micro::Events), TargetKind::Function);
        r.register(micro_to_lambda_name(&Micro::Users), TargetKind::Function);
        r.register(micro_to_lambda_name(&Micro::Producers), TargetKind::Function);
        r.register(micro_to_lambda_name(&Micro::Checkout), TargetKind::Function);
        r
    }

    /// Finds the position of `name`, if registered.
    fn position(&self, name: &str) -> (r: Option<usize>)
        requires
            self.wf(),
        ensures
            r matches Some(i) ==> i < self.entries().len() && self.entries()[i as int].name@ == name@,
            r is None ==> !names_target(self.entries(), name@),
    {
        let key = name.to_owned();
        let mut i: usize = 0;
        while i < self.entries.len()
            invariant
                i <= self.entries@.len(),
                key@ == name@,
                forall|k: int| 0 <= k < i ==> (#[trigger] self.entries@[k]).name@ != name@,
            decreases self.entries@.len() - i,
        {
            if self.entries[i].name == key {
                return Some(i);
            }
            i = i + 1;
        }
        None
    }

    /// Registers `name` with `kind`, replacing an earlier kind for that name.
    pub fn register(&mut self, name: &str, kind: TargetKind)
        requires
            old(self).wf(),
        ensures
            final(self).wf(),
            final(self).kind_of(name@) == Some(kind),
            forall|n: Seq<char>| n != name@ ==> #[trigger] final(self).kind_of(n) == old(self).kind_of(n),
    {
        let t = DeploymentTarget::new(name, kind);
        match self.position(name) {
            Some(i) => {
                self.entries.set(i, t);
                assert(forall|k: int| 0 <= k < self.entries@.len() && k != i ==>
                    self.entries@[k] == old(self).entries@[k]);
                assert forall|n: Seq<char>| n != name@ implies #[trigger] self.kind_of(n) == old(self).kind_of(n) by {
                    if names_target(old(self).entries(), n) {
                        let k = choose|k: int| 0 <= k < old(self).entries().len()
                            && (#[trigger] old(self).entries()[k]).name@ == n;
                        assert(self.entries()[k] == old(self).entries()[k]);
                    }
                    if names_target(self.entries(), n) {
                        let k = choose|k: int| 0 <= k < self.entries().len()
                            && (#[trigger] self.entries()[k]).name@ == n;
                        assert(self.entries()[k] == old(self).entries()[k]);
                    }
                }
                assert(self.entries()[i as int].name@ == name@);
            }
            None => {
                self.entries.push(t);
                assert forall|n: Seq<char>| n != name@ implies #[trigger] self.kind_of(n) == old(self).kind_of(n) by {
                    if names_target(old(self).entries(), n) {
                        let k = choose|k: int| 0 <= k < old(self).entries().len()
                            && (#[trigger] old(self).entries()[k]).name@ == n;
                        assert(self.entries()[k] == old(self).entries()[k]);
                    }
                    if names_target(self.entries(), n) {
                        let k = choose|k: int| 0 <= k < self.entries().len()
                            && (#[trigger] self.entries()[k]).name@ == n;
                        assert(k < old(self).entries().len());
                        assert(self.entries()[k] == old(self).entries()[k]);
                    }
                }
                assert(self.entries()[old(self).entries().len() as int].name@ == name@);
            }
        }
    }

    /// Looks up the target registered under `name`.
    pub fn resolve(&self, name: &str) -> (r: Result<DeploymentTarget, DeployError>)
        requires
            self.wf(),
        ensures
            self.kind_of(name@) is None ==> r == Err::<DeploymentTarget, DeployError>(DeployError::UnknownTarget),
            self.kind_of(name@) matches Some(k) ==> r matches Ok(t) && t.name@ == name@ && t.kind == k,
    {
        match self.position(name) {
            Some(i) => Ok(DeploymentTarget::new(name, self.entries[i].kind)),
            None => Err(DeployError::UnknownTarget),
        }
    }
}

} // verus!
