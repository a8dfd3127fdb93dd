use vstd::prelude::*;

use crate::record::CycleResult;

verus! {

/// The results gathered during one cycle, each with at least one match.
pub struct Aggregator {
    results: Vec<CycleResult>,
}

impl Aggregator {
    pub closed spec fn view(&self) -> Seq<CycleResult> {
        self.results@
    }

    /// Every held result is non-empty.
    pub open spec fn wf(&self) -> bool {
        forall|i: int| 0 <= i < self@.len() ==> (#[trigger] self@[i]).is_nonempty()
    }

    pub fn new() -> (r: Aggregator)
        ensures
            r@ == Seq::<CycleResult>::empty(),
            r.wf(),
    {
        Aggregator { results: Vec::new() }
    }

    pub fn len(&self) -> (r: usize)
        ensures
            r == self@.len(),
    {
        self.results.len()
    }

    pub fn is_empty(&self) -> (r: bool)
        ensures
            r == (self@.len() == 0),
    {
        self.results.len() == 0
    }

    /// Keeps `result` when it holds a match and drops it otherwise; tells
    /// which it did.
    pub fn append(&mut self, result: CycleResult) -> (kept: bool)
        requires
            old(self).wf(),
        ensures
            final(self).wf(),
            kept == result.is_nonempty(),
            kept ==> final(self)@ == old(self)@.push(result),
            !kept ==> final(self)@ == old(self)@,
    {
        if result.matches.len() > 0 {
            self.results.push(result);
            assert forall|i: int| 0 <= i < self@.len() implies (#[trigger] self@[i]).is_nonempty() by {
                if i < old(self)@.len() {
                    assert(self@[i] == old(self)@[i]);
                }
            }
            true
        } else {
            false
        }
    }

    /// Takes every held result out, in the order they came, and leaves the
    /// aggregator empty.
    pub fn drain(&mut self) -> (r: Vec<CycleResult>)
        requires
            old(self).wf(),
        ensures
            r@ == old(self)@,
            final(self)@.len() == 0,
            final(self).wf(),
    {
        let mut taken: Vec<CycleResult> = Vec::new();
        std::mem::swap(&mut taken, &mut self.results);
        taken
    }
}

} // verus!
