use vstd::prelude::*;

use crate::plan::{opt_view, Step};

verus! {

/// The state of a live target as the deployment steps leave it: the reference
/// it runs, and the steps already carried out, each keyed by the plan that
/// asked for it (the record position) and the step.
pub struct LiveTarget {
    artifact: Option<String>,
    done: Vec<(usize, Step)>,
}

/// The steps carried out once `steps` of plan `id` have been applied on top of `done`.
pub open spec fn applied(done: Set<(usize, Step)>, id: usize, steps: Seq<Step>) -> Set<(usize, Step)> {
    done.union(Set::new(|p: (usize, Step)| p.0 == id && steps.contains(p.1)))
}

/// Applying a plan a second time leaves the carried-out steps as the first
/// application left them.
pub proof fn lemma_apply_idempotent(done: Set<(usize, Step)>, id: usize, steps: Seq<Step>)
    ensures
        applied(applied(done, id, steps), id, steps) == applied(done, id, steps),
{
    assert(applied(applied(done, id, steps), id, steps) =~= applied(done, id, steps));
}

proof fn lemma_push_contains<T>(q: Seq<T>, x: T)
    ensures
        forall|y: T| #[trigger] q.push(x).contains(y) <==> q.contains(y) || y == x,
{
    assert forall|y: T| #[trigger] q.push(x).contains(y) implies q.contains(y) || y == x by {
        let k = choose|k: int| 0 <= k < q.push(x).len() && q.push(x)[k] == y;
        if k < q.len() {
            assert(q[k] == y);
        }
    }
    assert forall|y: T| q.contains(y) || y == x implies #[trigger] q.push(x).contains(y) by {
        if q.contains(y) {
            let k = choose|k: int| 0 <= k < q.len() && q[k] == y;
            assert(q.push(x)[k] == y);
        } else {
            assert(q.push(x)[q.len() as int] == y);
        }
    }
}

impl LiveTarget {
    /// The reference the target runs.
    pub closed spec fn live_ref(&self) -> Option<Seq<char>> {
        opt_view(self.artifact)
    }

    /// The steps carried out so far, in order.
    pub closed spec fn history(&self) -> Seq<(usize, Step)> {
        self.done@
    }

    /// The steps carried out so far.
    pub open spec fn done_set(&self) -> Set<(usize, Step)> {
        Set::new(|p: (usize, Step)| self.history().contains(p))
    }

    /// No step of a plan was carried out twice.
    pub open spec fn wf(&self) -> bool {
        self.history().no_duplicates()
    }

    /// A target that runs `initial` and has carried out nothing.
    pub fn new(initial: Option<String>) -> (r: LiveTarget)
        ensures
            r.wf(),
            r.live_ref() == opt_view(initial),
            r.history().len() == 0,
    {
        LiveTarget { artifact: initial, done: Vec::new() }
    }

    /// The reference the target runs.
    pub fn current(&self) -> (r: Option<String>)
        ensures
            opt_view(r) == self.live_ref(),
    {
        match &self.artifact {
            Some(a) => Some(a.clone()),
            None => None,
        }
    }

    /// The number of steps carried out so far.
    pub fn steps_run(&self) -> (r: usize)
        ensures
            r == self.history().len(),
    {
        self.done.len()
    }

    fn is_done(&self, id: usize, step: Step) -> (r: bool)
        ensures
            r == self.history().contains((id, step)),
    {
        let mut i: usize = 0;
        while i < self.done.len()
            invariant
                i <= self.done@.len(),
                forall|k: int| 0 <= k < i ==> self.done@[k] != (id, step),
            decreases self.done@.len() - i,
        {
            let (d, s) = self.done[i];
            if d == id && s == step {
                assert(self.done@[i as int] == (id, step));
                return true;
            }
            i = i + 1;
        }
        false
    }

    /// Carries out, in order, the steps of plan `id` that were not carried out
    /// yet, then points the target at `artifact`. Returns the steps run now.
    pub fn apply(&mut self, id: usize, steps: &Vec<Step>, artifact: &str) -> (ran: Vec<Step>)
        requires
            old(self).wf(),
        ensures
            final(self).wf(),
            final(self).live_ref() == Some(artifact@),
            final(self).done_set() == applied(old(self).done_set(), id, steps@),
            final(self).history() == old(self).history() + ran@.map_values(|s: Step| (id, s)),
            forall|s: Step| #[trigger] ran@.contains(s) <==> steps@.contains(s) && !old(self).done_set().contains((id, s)),
            (forall|s: Step| #[trigger] steps@.contains(s) ==> old(self).done_set().contains((id, s)))
                ==> ran@.len() == 0 && final(self).history() == old(self).history(),
    {
        let mut ran: Vec<Step> = Vec::new();
        let mut i: usize = 0;
        while i < steps.len()
            invariant
                self.wf(),
                i <= steps@.len(),
                self.history() == old(self).history() + ran@.map_values(|s: Step| (id, s)),
                forall|s: Step| #[trigger] ran@.contains(s) <==> steps@.subrange(0, i as int).contains(s)
                    && !old(self).done_set().contains((id, s)),
                forall|p: (usize, Step)| #[trigger] self.history().contains(p) <==>
                    old(self).history().contains(p) || (p.0 == id && steps@.subrange(0, i as int).contains(p.1)),
            decreases steps@.len() - i,
        {
            let s = steps[i];
            let ghost prefix = steps@.subrange(0, i as int);
            proof {
                assert(steps@.subrange(0, i + 1) =~= prefix.push(s));
                lemma_push_contains(prefix, s);
            }
            if !self.is_done(id, s) {
                let ghost before = self.history();
                let ghost ran_before = ran@;
                self.done.push((id, s));
                ran.push(s);
                proof {
                    lemma_push_contains(before, (id, s));
                    lemma_push_contains(ran_before, s);
                    assert(ran@.map_values(|s: Step| (id, s)) =~= ran_before.map_values(|s: Step| (id, s)).push((id, s)));
                }
            }
            i = i + 1;
        }
        proof {
            assert(steps@.subrange(0, steps@.len() as int) =~= steps@);
            assert(self.done_set() =~= applied(old(self).done_set(), id, steps@));
            if ran@.len() > 0 {
                assert(ran@.contains(ran@[0]));
            }
            if ran@.len() == 0 {
                assert(self.history() =~= old(self).history());
            }
        }
        self.artifact = Some(artifact.to_owned());
        ran
    }

    /// Points the target back at `prior`.
    pub fn revert(&mut self, prior: &Option<String>)
        ensures
            final(self).live_ref() == opt_view(*prior),
            final(self).history() == old(self).history(),
    {
        self.artifact = match prior {
            Some(p) => Some(p.clone()),
            None => None,
        };
    }
}

} // verus!
