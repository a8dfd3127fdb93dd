use vstd::prelude::*;

use crate::aggregator::Aggregator;
use crate::evaluation::{assessment, Evaluation, SearchReply};
use crate::record::{CycleResult, MatchRecord};

verus! {

/// Where the cycle scheduler stands.
#[derive(PartialEq, Eq, Structural, Clone, Copy, Debug)]
pub enum Phase {
    /// Between cycles: nothing is in flight and nothing is held.
    Sleeping,
    /// Handing out the rules of the current cycle under the admission bound.
    Dispatching,
    /// Every rule was handed out; waiting for the last evaluations.
    Awaiting,
}

/// The scheduler's answer when asked for work.
#[derive(PartialEq, Eq, Structural, Debug)]
pub enum Admission {
    /// Evaluate the rule at this position of the cycle's snapshot; a permit
    /// is held for it until its outcome is reported.
    Evaluate(usize),
    /// Every permit is taken: report an outcome first.
    Wait,
    /// The last rule of the cycle was handed out before; from now on the
    /// cycle only awaits its outcomes.
    Dispatched,
    /// No cycle is dispatching.
    Idle,
}

/// An abstract view of the scheduler.
pub struct SchedulerView {
    pub capacity: nat,
    pub phase: Phase,
    pub rule_count: nat,
    pub next_rule: nat,
    pub in_flight: nat,
    pub results: Seq<CycleResult>,
}

/// A step taken on the scheduler.
pub enum Event {
    Start(usize),
    Acquire,
    Finish(Evaluation),
    Drain,
}

impl SchedulerView {
    pub open spec fn wf(self) -> bool {
        &&& self.in_flight <= self.capacity
        &&& self.next_rule <= self.rule_count
        &&& forall|i: int| 0 <= i < self.results.len() ==> (#[trigger] self.results[i]).is_nonempty()
        &&& self.phase == Phase::Sleeping ==> self.in_flight == 0 && self.results.len() == 0
    }

    /// Begins a cycle over a fresh snapshot of `rule_count` rules, when
    /// sleeping; otherwise nothing changes.
    pub open spec fn start(self, rule_count: nat) -> SchedulerView {
        if self.phase == Phase::Sleeping {
            SchedulerView { phase: Phase::Dispatching, rule_count, next_rule: 0, ..self }
        } else {
            self
        }
    }

    pub open spec fn acquire(self) -> (SchedulerView, Admission) {
        if self.phase == Phase::Dispatching {
            if self.next_rule < self.rule_count {
                if self.in_flight < self.capacity {
                    (
                        SchedulerView {
                            next_rule: self.next_rule + 1,
                            in_flight: self.in_flight + 1,
                            ..self
                        },
                        Admission::Evaluate(self.next_rule as usize),
                    )
                } else {
                    (self, Admission::Wait)
                }
            } else {
                (SchedulerView { phase: Phase::Awaiting, ..self }, Admission::Dispatched)
            }
        } else {
            (self, Admission::Idle)
        }
    }

    /// Releases the permit of a finished evaluation and keeps its result,
    /// if it has one with a match; an outcome that no permit stands for is
    /// ignored.
    pub open spec fn finish(self, outcome: Evaluation) -> SchedulerView {
        if self.in_flight > 0 {
            let results = match outcome {
                Evaluation::Matched(r) => if r.is_nonempty() {
                    self.results.push(r)
                } else {
                    self.results
                },
                _ => self.results,
            };
            SchedulerView { in_flight: (self.in_flight - 1) as nat, results, ..self }
        } else {
            self
        }
    }

    /// Once every rule was handed out and every outcome came back, hands
    /// over all results and goes to sleep.
    pub open spec fn drain(self) -> (SchedulerView, Option<Seq<CycleResult>>) {
        if self.phase == Phase::Awaiting && self.in_flight == 0 {
            (
                SchedulerView { phase: Phase::Sleeping, results: Seq::empty(), ..self },
                Some(self.results),
            )
        } else {
            (self, None)
        }
    }

    pub open spec fn apply(self, e: Event) -> SchedulerView {
        match e {
            Event::Start(n) => self.start(n as nat),
            Event::Acquire => self.acquire().0,
            Event::Finish(outcome) => self.finish(outcome),
            Event::Drain => self.drain().0,
        }
    }

    pub open spec fn run(self, events: Seq<Event>) -> SchedulerView
        decreases events.len(),
    {
        if events.len() == 0 {
            self
        } else {
            self.apply(events[0]).run(events.drop_first())
        }
    }
}

/// The cycle scheduler: hands out each cycle's rules under a bound on how
/// many evaluations are outstanding at once, gathers their results, and
/// hands them over once per cycle.
pub struct Scheduler {
    capacity: u64,
    phase: Phase,
    rule_count: usize,
    next_rule: usize,
    in_flight: u64,
    results: Aggregator,
}

impl Scheduler {
    pub closed spec fn view(&self) -> SchedulerView {
        SchedulerView {
            capacity: self.capacity as nat,
            phase: self.phase,
            rule_count: self.rule_count as nat,
            next_rule: self.next_rule as nat,
            in_flight: self.in_flight as nat,
            results: self.results@,
        }
    }

    pub open spec fn wf(&self) -> bool {
        self@.wf()
    }

    /// A sleeping scheduler that admits at most `capacity` evaluations at
    /// once.
    pub fn new(capacity: u64) -> (r: Scheduler)
        ensures
            r.wf(),
            r@.capacity == capacity,
            r@.phase == Phase::Sleeping,
            r@.rule_count == 0,
            r@.next_rule == 0,
            r@.in_flight == 0,
            r@.results.len() == 0,
    {
        Scheduler {
            capacity,
            phase: Phase::Sleeping,
            rule_count: 0,
            next_rule: 0,
            in_flight: 0,
            results: Aggregator::new(),
        }
    }

    pub fn phase(&self) -> (r: Phase)
        ensures
            r == self@.phase,
    {
        self.phase
    }

    pub fn capacity(&self) -> (r: u64)
        ensures
            r == self@.capacity,
    {
        self.capacity
    }

    /// How many evaluations hold a permit right now.
    pub fn in_flight(&self) -> (r: u64)
        ensures
            r == self@.in_flight,
    {
        self.in_flight
    }

    /// How many results the current cycle has gathered so far.
    pub fn pending_results(&self) -> (r: usize)
        ensures
            r == self@.results.len(),
    {
        self.results.len()
    }

    /// Begins a cycle over a snapshot of `rule_count` rules; `false`, with
    /// nothing changed, where a cycle is already running.
    pub fn start(&mut self, rule_count: usize) -> (started: bool)
        requires
            old(self).wf(),
        ensures
            final(self).wf(),
            final(self)@ == old(self)@.start(rule_count as nat),
            started == (old(self)@.phase == Phase::Sleeping),
    {
        if self.phase == Phase::Sleeping {
            self.phase = Phase::Dispatching;
            self.rule_count = rule_count;
            self.next_rule = 0;
            true
        } else {
            false
        }
    }

    /// Asks for the next rule to evaluate, taking a permit for it.
    pub fn acquire(&mut self) -> (r: Admission)
        requires
            old(self).wf(),
        ensures
            final(self).wf(),
            (final(self)@, r) == old(self)@.acquire(),
    {
        if self.phase == Phase::Dispatching {
            if self.next_rule < self.rule_count {
                if self.in_flight < self.capacity {
                    let position = self.next_rule;
                    self.next_rule = self.next_rule + 1;
                    self.in_flight = self.in_flight + 1;
                    Admission::Evaluate(position)
                } else {
                    Admission::Wait
                }
            } else {
                self.phase = Phase::Awaiting;
                Admission::Dispatched
            }
        } else {
            Admission::Idle
        }
    }

    /// Reports the outcome of an evaluation that held a permit, releasing
    /// it; `false`, with nothing changed, where no permit was out.
    pub fn finish(&mut self, outcome: Evaluation) -> (released: bool)
        requires
            old(self).wf(),
        ensures
            final(self).wf(),
            final(self)@ == old(self)@.finish(outcome),
            released == (old(self)@.in_flight > 0),
    {
        if self.in_flight > 0 {
            self.in_flight = self.in_flight - 1;
            match outcome {
                Evaluation::Matched(r) => {
                    self.results.append(r);
                },
                _ => {},
            }
            true
        } else {
            false
        }
    }

    /// Hands over every result of the cycle once all its rules were handed
    /// out and all their outcomes reported, and goes to sleep; `None`, with
    /// nothing changed, at any other time.
    pub fn drain(&mut self) -> (r: Option<Vec<CycleResult>>)
        requires
            old(self).wf(),
        ensures
            final(self).wf(),
            final(self)@ == old(self)@.drain().0,
            r matches Some(v) ==> old(self)@.drain().1 == Some(v@),
            r is None <==> old(self)@.drain().1 is None,
    {
        if self.phase == Phase::Awaiting && self.in_flight == 0 {
            let taken = self.results.drain();
            self.phase = Phase::Sleeping;
            assert(self.results@ =~= Seq::<CycleResult>::empty());
            Some(taken)
        } else {
            None
        }
    }
}

impl SchedulerView {
    /// One while a cycle is running, zero while sleeping.
    pub open spec fn active(self) -> nat {
        if self.phase == Phase::Sleeping {
            0
        } else {
            1
        }
    }

    /// How many of `events`, applied in turn from this state, began a cycle.
    pub open spec fn cycles_begun(self, events: Seq<Event>) -> nat
        decreases events.len(),
    {
        if events.len() == 0 {
            0
        } else {
            let began: nat = if events[0] is Start && self.phase == Phase::Sleeping {
                1
            } else {
                0
            };
            began + self.apply(events[0]).cycles_begun(events.drop_first())
        }
    }

    /// How many of `events`, applied in turn from this state, drained results.
    pub open spec fn drains(self, events: Seq<Event>) -> nat
        decreases events.len(),
    {
        if events.len() == 0 {
            0
        } else {
            let drained: nat = if events[0] is Drain && self.drain().1 is Some {
                1
            } else {
                0
            };
            drained + self.apply(events[0]).drains(events.drop_first())
        }
    }
}

/// Every step keeps the scheduler well formed.
pub proof fn lemma_step_wf(v: SchedulerView, e: Event)
    requires
        v.wf(),
    ensures
        v.apply(e).wf(),
{
    match e {
        Event::Finish(outcome) => {
            let w = v.apply(e);
            if v.in_flight > 0 {
                assert forall|i: int| 0 <= i < w.results.len() implies (
                #[trigger] w.results[i]).is_nonempty() by {
                    if i < v.results.len() {
                        assert(w.results[i] == v.results[i]);
                    }
                }
            }
        },
        _ => {},
    }
}

/// Whatever steps are taken, the number of outstanding evaluations never
/// exceeds the admission capacity, and every gathered result holds at
/// least one match.
pub proof fn lemma_admission_bound(v: SchedulerView, events: Seq<Event>)
    requires
        v.wf(),
    ensures
        v.run(events).wf(),
        v.run(events).in_flight <= v.run(events).capacity,
        forall|i: int|
            0 <= i < v.run(events).results.len() ==> (#[trigger] v.run(events).results[i]).is_nonempty(),
    decreases events.len(),
{
    if events.len() > 0 {
        lemma_step_wf(v, events[0]);
        lemma_admission_bound(v.apply(events[0]), events.drop_first());
    }
}

/// Results are drained exactly once per cycle: over any steps, the drains
/// plus a cycle still running at the end number the cycles begun plus a
/// cycle already running at the start.
pub proof fn lemma_drained_once_per_cycle(v: SchedulerView, events: Seq<Event>)
    ensures
        v.drains(events) + v.run(events).active() == v.active() + v.cycles_begun(events),
    decreases events.len(),
{
    if events.len() > 0 {
        lemma_drained_once_per_cycle(v.apply(events[0]), events.drop_first());
    }
}

/// Right after a drain nothing is held, and a second drain hands over
/// nothing; every result handed over holds at least one match.
pub proof fn lemma_drain_leaves_empty(v: SchedulerView)
    requires
        v.wf(),
        v.drain().1 is Some,
    ensures
        v.drain().0.results.len() == 0,
        v.drain().0.drain().1 is None,
        forall|i: int|
            0 <= i < v.drain().1->0.len() ==> (#[trigger] v.drain().1->0[i]).is_nonempty(),
{
}

/// The steps of one cycle over two rules `a` and `b`, each evaluated to
/// completion before the next is handed out.
pub open spec fn two_rule_cycle(a: Evaluation, b: Evaluation) -> Seq<Event> {
    seq![
        Event::Start(2),
        Event::Acquire,
        Event::Finish(a),
        Event::Acquire,
        Event::Finish(b),
        Event::Acquire,
    ]
}

/// A cycle over a rule whose search succeeds with no match and a rule whose
/// search succeeds with matches hands over exactly one result: the second
/// rule's, holding all its matches in order. A cycle needs a capacity of
/// at least one to get anywhere.
pub proof fn lemma_only_matching_rule_is_handed_over(
    v: SchedulerView,
    a_id: String,
    b_id: String,
    none: Vec<MatchRecord>,
    found: Vec<MatchRecord>,
)
    requires
        v.wf(),
        v.phase == Phase::Sleeping,
        v.capacity > 0,
        none@.len() == 0,
        found@.len() > 0,
    ensures
        v.run(
            two_rule_cycle(
                assessment(a_id, SearchReply::Answered { status: 200, matches: Some(none) }),
                assessment(b_id, SearchReply::Answered { status: 200, matches: Some(found) }),
            ),
        ).drain().1 == Some(seq![CycleResult { rule_id: b_id, matches: found }]),
{
    let a = assessment(a_id, SearchReply::Answered { status: 200, matches: Some(none) });
    let b = assessment(b_id, SearchReply::Answered { status: 200, matches: Some(found) });
    let r = CycleResult { rule_id: b_id, matches: found };
    assert(a == Evaluation::NoMatches);
    assert(b == Evaluation::Matched(r));
    let evs = two_rule_cycle(a, b);
    let s1 = v.apply(evs[0]);
    let s2 = s1.apply(evs[1]);
    let s3 = s2.apply(evs[2]);
    let s4 = s3.apply(evs[3]);
    let s5 = s4.apply(evs[4]);
    let s6 = s5.apply(evs[5]);
    assert(s5.results =~= seq![r]);
    assert(s6.phase == Phase::Awaiting && s6.in_flight == 0);
    reveal_with_fuel(SchedulerView::run, 7);
    assert(evs.drop_first().drop_first().drop_first().drop_first().drop_first().drop_first()
        =~= Seq::<Event>::empty());
    assert(v.run(evs) == s6);
}

} // verus!
