use vstd::prelude::*;

use crate::record::{CycleResult, MatchRecord};

verus! {

/// A match is deleted by the purge step when it has an identifier and lies
/// outside the protected index.
pub open spec fn deletable(m: MatchRecord, protected: Seq<char>) -> bool {
    m.id is Some && m.index@ != protected
}

/// `plan` lists, in increasing order, exactly the positions of the
/// deletable matches.
pub open spec fn is_purge_plan(matches: Seq<MatchRecord>, protected: Seq<char>, plan: Seq<usize>) -> bool {
    &&& forall|k: int|
        0 <= k < plan.len() ==> (#[trigger] plan[k]) < matches.len() && deletable(
            matches[plan[k] as int],
            protected,
        )
    &&& forall|k1: int, k2: int| 0 <= k1 < k2 < plan.len() ==> plan[k1] < plan[k2]
    &&& forall|i: int|
        0 <= i < matches.len() && deletable(#[trigger] matches[i], protected) ==> exists|k: int|
            0 <= k < plan.len() && plan[k] == i
}

/// The positions of the matches that the purge step deletes, in order.
pub fn purge_positions(matches: &Vec<MatchRecord>, protected: &String) -> (plan: Vec<usize>)
    ensures
        is_purge_plan(matches@, protected@, plan@),
{
    let mut plan: Vec<usize> = Vec::new();
    let mut i: usize = 0;
    while i < matches.len()
        invariant
            i <= matches@.len(),
            forall|k: int|
                0 <= k < plan@.len() ==> (#[trigger] plan@[k]) < i && deletable(
                    matches@[plan@[k] as int],
                    protected@,
                ),
            forall|k1: int, k2: int| 0 <= k1 < k2 < plan@.len() ==> plan@[k1] < plan@[k2],
            forall|j: int|
                0 <= j < i && deletable(#[trigger] matches@[j], protected@) ==> exists|k: int|
                    0 <= k < plan@.len() && plan@[k] == j,
        decreases matches@.len() - i,
    {
        let m = &matches[i];
        if m.id.is_some() && !(m.index == *protected) {
            let ghost before = plan@;
            plan.push(i);
            assert forall|j: int|
                0 <= j <= i && deletable(#[trigger] matches@[j], protected@) implies exists|k: int|
                0 <= k < plan@.len() && plan@[k] == j by {
                if j < i {
                    let k = choose|k: int| 0 <= k < before.len() && before[k] == j;
                    assert(plan@[k] == j);
                } else {
                    assert(plan@[before.len() as int] == j);
                }
            }
        }
        i = i + 1;
    }
    plan
}

/// In a purge plan, a match of the protected index is never targeted, and
/// every other match with an identifier is targeted exactly once.
pub proof fn lemma_purge_targets(matches: Seq<MatchRecord>, protected: Seq<char>, plan: Seq<usize>)
    requires
        is_purge_plan(matches, protected, plan),
    ensures
        forall|k: int| 0 <= k < plan.len() ==> (#[trigger] matches[plan[k] as int]).index@ != protected,
        forall|i: int|
            0 <= i < matches.len() && deletable(#[trigger] matches[i], protected) ==> exists|k: int|
                0 <= k < plan.len() && plan[k] == i && forall|k2: int|
                    0 <= k2 < plan.len() && plan[k2] == i ==> k2 == k,
{
    assert forall|k: int| 0 <= k < plan.len() implies (
    #[trigger] matches[plan[k] as int]).index@ != protected by {
        assert(deletable(matches[plan[k] as int], protected));
    }
    assert forall|i: int| 0 <= i < matches.len() && deletable(#[trigger] matches[i], protected) implies exists|k: int|
        0 <= k < plan.len() && plan[k] == i && forall|k2: int|
            0 <= k2 < plan.len() && plan[k2] == i ==> k2 == k by {
        let k = choose|k: int| 0 <= k < plan.len() && plan[k] == i;
        assert forall|k2: int| 0 <= k2 < plan.len() && plan[k2] == i implies k2 == k by {
            if k2 < k {
                assert(plan[k2] < plan[k]);
            } else if k < k2 {
                assert(plan[k] < plan[k2]);
            }
        }
    }
}

/// What a forward-and-purge task asks its runner to do next.
#[derive(PartialEq, Eq, Structural, Debug)]
pub enum Step {
    /// Send the rule identifier and every match to the notification endpoint.
    Forward,
    /// Delete the match at this position of the result from its index.
    Delete(usize),
    /// Nothing is left to do.
    Done,
}

/// An abstract view of a forward-and-purge task.
pub struct FlushView {
    pub result: CycleResult,
    pub protected: Seq<char>,
    pub plan: Seq<usize>,
    /// Whether forwarding was tried.
    pub forwarded: bool,
    /// How many planned deletes were tried.
    pub next: nat,
    /// Whether forwarding succeeded, once it was tried.
    pub delivered: Option<bool>,
    pub failed_deletes: nat,
}

impl FlushView {
    pub open spec fn wf(self) -> bool {
        &&& is_purge_plan(self.result.matches@, self.protected, self.plan)
        &&& self.next <= self.plan.len()
        &&& self.failed_deletes <= self.next
        &&& !self.forwarded ==> self.next == 0 && self.delivered is None
    }

    /// How many steps were taken: forwarding, then each delete.
    pub open spec fn progress(self) -> nat {
        if self.forwarded {
            self.next + 1
        } else {
            0
        }
    }

    pub open spec fn step(self) -> Step {
        if !self.forwarded {
            Step::Forward
        } else if self.next < self.plan.len() {
            Step::Delete(self.plan[self.next as int])
        } else {
            Step::Done
        }
    }

    /// Records how the current step went and moves on to the next; the
    /// outcome is only recorded, never acted on.
    pub open spec fn advance(self, succeeded: bool) -> FlushView {
        if !self.forwarded {
            FlushView { forwarded: true, delivered: Some(succeeded), ..self }
        } else if self.next < self.plan.len() {
            FlushView {
                next: self.next + 1,
                failed_deletes: if succeeded {
                    self.failed_deletes
                } else {
                    self.failed_deletes + 1
                },
                ..self
            }
        } else {
            self
        }
    }

    pub open spec fn advance_all(self, outcomes: Seq<bool>) -> FlushView
        decreases outcomes.len(),
    {
        if outcomes.len() == 0 {
            self
        } else {
            self.advance(outcomes[0]).advance_all(outcomes.drop_first())
        }
    }
}

/// The forward-then-purge work for one cycle result: first forward it, then
/// delete each deletable match in turn, whatever came of the earlier steps.
pub struct Flush {
    result: CycleResult,
    protected: String,
    plan: Vec<usize>,
    forwarded: bool,
    next: usize,
    delivered: Option<bool>,
    failed_deletes: usize,
}

impl Flush {
    pub closed spec fn view(&self) -> FlushView {
        FlushView {
            result: self.result,
            protected: self.protected@,
            plan: self.plan@,
            forwarded: self.forwarded,
            next: self.next as nat,
            delivered: self.delivered,
            failed_deletes: self.failed_deletes as nat,
        }
    }

    pub open spec fn wf(&self) -> bool {
        self@.wf()
    }

    /// A task for `result` that spares the matches of `protected`.
    pub fn new(result: CycleResult, protected: String) -> (r: Flush)
        ensures
            r.wf(),
            r@.result == result,
            r@.protected == protected@,
            is_purge_plan(result.matches@, protected@, r@.plan),
            !r@.forwarded,
            r@.next == 0,
            r@.delivered is None,
            r@.failed_deletes == 0,
    {
        let plan = purge_positions(&result.matches, &protected);
        Flush { result, protected, plan, forwarded: false, next: 0, delivered: None, failed_deletes: 0 }
    }

    pub fn result(&self) -> (r: &CycleResult)
        ensures
            *r == self@.result,
    {
        &self.result
    }

    /// The positions of the matches to delete, in order.
    pub fn plan(&self) -> (r: &Vec<usize>)
        ensures
            r@ == self@.plan,
    {
        &self.plan
    }

    pub fn delivered(&self) -> (r: Option<bool>)
        ensures
            r == self@.delivered,
    {
        self.delivered
    }

    pub fn failed_deletes(&self) -> (r: usize)
        ensures
            r == self@.failed_deletes,
    {
        self.failed_deletes
    }

    pub fn next_step(&self) -> (r: Step)
        requires
            self.wf(),
        ensures
            r == self@.step(),
            r matches Step::Delete(p) ==> p < self@.result.matches@.len() && deletable(
                self@.result.matches@[p as int],
                self@.protected,
            ),
    {
        if !self.forwarded {
            Step::Forward
        } else if self.next < self.plan.len() {
            Step::Delete(self.plan[self.next])
        } else {
            Step::Done
        }
    }

    /// Reports how the current step went.
    pub fn advance(&mut self, succeeded: bool)
        requires
            old(self).wf(),
        ensures
            final(self).wf(),
            final(self)@ == old(self)@.advance(succeeded),
    {
        if !self.forwarded {
            self.forwarded = true;
            self.delivered = Some(succeeded);
        } else if self.next < self.plan.len() {
            self.next = self.next + 1;
            if !succeeded {
                self.failed_deletes = self.failed_deletes + 1;
            }
        }
    }
}

/// Whatever the outcomes of forwarding and of each delete, a task that has
/// reported `n` outcomes has taken the first `n` steps of the fixed order:
/// forward, then every planned delete, then done. So a failed forward never
/// keeps a match from being deleted, and a failed delete never keeps the
/// next one from being tried.
pub proof fn lemma_outcomes_do_not_steer(v: FlushView, outcomes: Seq<bool>)
    requires
        v.wf(),
        v.progress() == 0,
    ensures
        v.advance_all(outcomes).wf(),
        v.advance_all(outcomes).progress() == if outcomes.len() <= v.plan.len() + 1 {
            outcomes.len() as nat
        } else {
            v.plan.len() + 1
        },
        v.advance_all(outcomes).plan == v.plan,
        v.advance_all(outcomes).result == v.result,
{
    lemma_advance_all_from(v, outcomes);
}

proof fn lemma_advance_all_from(v: FlushView, outcomes: Seq<bool>)
    requires
        v.wf(),
    ensures
        v.advance_all(outcomes).wf(),
        v.advance_all(outcomes).progress() == if v.progress() + outcomes.len() <= v.plan.len()
            + 1 {
            v.progress() + outcomes.len()
        } else {
            v.plan.len() + 1
        },
        v.advance_all(outcomes).plan == v.plan,
        v.advance_all(outcomes).result == v.result,
    decreases outcomes.len(),
{
    if outcomes.len() > 0 {
        lemma_advance_all_from(v.advance(outcomes[0]), outcomes.drop_first());
    }
}

/// Where every match is deletable, the purge plan is every position in
/// order: each match is deleted, once, in the order it came.
pub proof fn lemma_plan_covers_all(matches: Seq<MatchRecord>, protected: Seq<char>, plan: Seq<usize>)
    requires
        is_purge_plan(matches, protected, plan),
        forall|i: int| 0 <= i < matches.len() ==> deletable(#[trigger] matches[i], protected),
    ensures
        plan.len() == matches.len(),
        forall|k: int| 0 <= k < plan.len() ==> plan[k] == k,
{
    assert forall|k: int| 0 <= k < plan.len() implies plan[k] == k by {
        lemma_plan_prefix(matches, protected, plan, k);
    }
    if plan.len() > 0 {
        let last = plan.len() - 1;
        assert(plan[last] == last && plan[last] < matches.len());
    }
    if plan.len() < matches.len() {
        let n = plan.len() as int;
        assert(deletable(matches[n], protected));
        let j = choose|j: int| 0 <= j < plan.len() && plan[j] == n;
        assert(plan[j] == j);
    }
}

proof fn lemma_plan_prefix(matches: Seq<MatchRecord>, protected: Seq<char>, plan: Seq<usize>, k: int)
    requires
        is_purge_plan(matches, protected, plan),
        forall|i: int| 0 <= i < matches.len() ==> deletable(#[trigger] matches[i], protected),
        0 <= k < plan.len(),
    ensures
        plan[k] == k,
    decreases k,
{
    if k > 0 {
        lemma_plan_prefix(matches, protected, plan, k - 1);
    }
    // plan[k] >= k: it lies above plan[k - 1] == k - 1.
    if k > 0 {
        assert(plan[k - 1] < plan[k]);
    }
    assert(k < matches.len()) by {
        assert(plan[k] < matches.len());
    }
    assert(deletable(matches[k], protected));
    let j = choose|j: int| 0 <= j < plan.len() && plan[j] == k;
    if j < k {
        lemma_plan_prefix(matches, protected, plan, j);
    } else if j > k {
        assert(plan[k] < plan[j]);
    }
}

} // verus!
