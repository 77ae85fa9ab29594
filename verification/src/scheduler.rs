//! The bounded scheduler: a fixed cap on evaluations in flight at once,
//! the rest of the candidate set queueing, and completions collected in
//! whatever order they arrive.

use vstd::prelude::*;

use crate::evaluate::Evaluation;

verus! {

/// Book-keeping for one run over a candidate set: how many evaluations
/// have started and finished, against the concurrency cap, and the
/// collected results.
pub struct Scheduler {
    /// Number of candidates in the run.
    pub total: usize,
    /// Upper bound on evaluations in flight at once.
    pub cap: usize,
    /// Evaluations handed out so far.
    pub started: usize,
    /// Evaluations completed so far.
    pub done: usize,
    /// One collected result per completed evaluation, in completion
    /// order.
    pub results: Vec<Evaluation>,
}

impl Scheduler {
    /// The scheduler's invariant: completions never outrun starts,
    /// starts never outrun the candidate set, no more than `cap`
    /// evaluations are in flight, and there is exactly one collected
    /// result per completion.
    pub open spec fn wf(self) -> bool {
        &&& self.done <= self.started <= self.total
        &&& self.started - self.done <= self.cap
        &&& self.results@.len() == self.done
        &&& self.cap >= 1
    }

    /// Evaluations in flight at this instant.
    pub open spec fn spec_in_flight(self) -> int {
        self.started - self.done
    }

    pub open spec fn spec_total(self) -> int {
        self.total as int
    }

    pub open spec fn spec_cap(self) -> int {
        self.cap as int
    }

    pub open spec fn spec_started(self) -> int {
        self.started as int
    }

    pub open spec fn spec_done(self) -> int {
        self.done as int
    }

    pub open spec fn spec_results(self) -> Seq<Evaluation> {
        self.results@
    }

    /// Sets up a run over `total` candidates with cap `cap`.
    pub fn new(total: usize, cap: usize) -> (s: Scheduler)
        requires
            cap >= 1,
        ensures
            s.wf(),
            s.spec_total() == total,
            s.spec_cap() == cap,
            s.spec_started() == 0,
            s.spec_done() == 0,
            s.spec_results() == Seq::<Evaluation>::empty(),
    {
        let s = Scheduler { total, cap, started: 0, done: 0, results: Vec::new() };
        proof {
            assert(s.results@ =~= Seq::<Evaluation>::empty());
        }
        s
    }

    /// Whether another evaluation may start now: candidates remain and
    /// a slot is free under the cap.
    pub fn can_start(&self) -> (r: bool)
        requires
            self.wf(),
        ensures
            r == (self.spec_started() < self.spec_total() && self.spec_in_flight()
                < self.spec_cap()),
    {
        self.started < self.total && self.started - self.done < self.cap
    }

    /// Hands out the next evaluation; the caller gets its index.
    pub fn start(&mut self) -> (idx: usize)
        requires
            old(self).wf(),
            old(self).spec_started() < old(self).spec_total(),
            old(self).spec_in_flight() < old(self).spec_cap(),
        ensures
            final(self).wf(),
            idx as int == old(self).spec_started(),
            final(self).spec_started() == old(self).spec_started() + 1,
            final(self).spec_done() == old(self).spec_done(),
            final(self).spec_total() == old(self).spec_total(),
            final(self).spec_cap() == old(self).spec_cap(),
            final(self).spec_results() == old(self).spec_results(),
            final(self).spec_in_flight() <= final(self).spec_cap(),
    {
        let idx = self.started;
        self.started = self.started + 1;
        idx
    }

    /// Takes one completion, in whatever order it arrived, and collects
    /// its result.
    pub fn complete(&mut self, result: Evaluation)
        requires
            old(self).wf(),
            old(self).spec_in_flight() > 0,
        ensures
            final(self).wf(),
            final(self).spec_done() == old(self).spec_done() + 1,
            final(self).spec_started() == old(self).spec_started(),
            final(self).spec_total() == old(self).spec_total(),
            final(self).spec_cap() == old(self).spec_cap(),
            final(self).spec_results() == old(self).spec_results().push(result),
    {
        self.done = self.done + 1;
        self.results.push(result);
    }

    /// Whether the whole candidate set has been evaluated.
    pub fn finished(&self) -> (r: bool)
        requires
            self.wf(),
        ensures
            r == (self.spec_done() == self.spec_total()),
    {
        self.done == self.total
    }

    /// Gives up the collected results.
    pub fn into_results(self) -> (r: Vec<Evaluation>)
        requires
            self.wf(),
        ensures
            r@ == self.spec_results(),
            r@.len() == self.spec_done(),
    {
        self.results
    }
}

/// The concurrency bound: a well-formed scheduler never has more than
/// its cap in flight, and never collects more results than it has
/// candidates.
pub proof fn lemma_scheduler_bounded(s: Scheduler)
    requires
        s.wf(),
    ensures
        s.spec_in_flight() <= s.spec_cap(),
        s.spec_results().len() <= s.spec_total(),
{
}

/// Mapping two rearrangements of the same elements yields the same
/// multiset of images.
proof fn lemma_map_preserves_multiset<A, B>(s1: Seq<A>, s2: Seq<A>, f: spec_fn(A) -> B)
    requires
        s1.to_multiset() == s2.to_multiset(),
    ensures
        s1.map_values(f).to_multiset() == s2.map_values(f).to_multiset(),
    decreases s1.len(),
{
    s1.to_multiset_ensures();
    s2.to_multiset_ensures();
    if s1.len() == 0 {
        assert(s2.to_multiset().len() == 0);
        assert(s2 =~= Seq::<A>::empty());
        assert(s1 =~= Seq::<A>::empty());
        assert(s1.map_values(f) =~= s2.map_values(f));
    } else {
        let a = s1.last();
        let s1d = s1.drop_last();
        assert(s1d.push(a) =~= s1);
        assert(s1.to_multiset().count(a) > 0) by {
            assert(s1.contains(a));
        }
        assert(s2.contains(a)) by {
            assert(s2.to_multiset().count(a) > 0);
        }
        let j = choose|j: int| 0 <= j < s2.len() && s2[j] == a;
        let s2r = s2.remove(j);
        assert(s2r.to_multiset() == s2.to_multiset().remove(a));
        assert(s1d.to_multiset() =~= s1.to_multiset().remove(a)) by {
            s1d.to_multiset_ensures();
            assert(s1d.push(a).to_multiset() =~= s1d.to_multiset().insert(a));
        }
        assert(s1d.to_multiset() == s2r.to_multiset());
        lemma_map_preserves_multiset(s1d, s2r, f);
        s2.map_values(f).to_multiset_ensures();
        assert(s1.map_values(f) =~= s1d.map_values(f).push(f(a)));
        assert(s1.map_values(f).to_multiset() =~= s1d.map_values(f).to_multiset().insert(f(a)))
            by {
            s1d.map_values(f).to_multiset_ensures();
        }
        assert(s2r.map_values(f) =~= s2.map_values(f).remove(j));
        assert(s2.map_values(f).remove(j).to_multiset() == s2.map_values(f).to_multiset().remove(
            f(a),
        )) by {
            assert(s2.map_values(f)[j] == f(a));
        }
        assert(s2.map_values(f).to_multiset().count(f(a)) > 0) by {
            assert(s2.map_values(f)[j] == f(a));
            assert(s2.map_values(f).contains(f(a)));
        }
        assert(s1.map_values(f).to_multiset() =~= s2.map_values(f).to_multiset());
    }
}

/// Completion order changes nothing: two runs whose completions are
/// rearrangements of the same candidate indices collect the same
/// multiset of results, the evaluation of each candidate being fixed
/// by its inputs.
pub proof fn lemma_run_order_irrelevant(evals: Seq<Evaluation>, o1: Seq<int>, o2: Seq<int>)
    requires
        o1.to_multiset() == o2.to_multiset(),
    ensures
        o1.map_values(|i: int| evals[i]).to_multiset() == o2.map_values(
            |i: int| evals[i],
        ).to_multiset(),
{
    lemma_map_preserves_multiset(o1, o2, |i: int| evals[i]);
}

} // verus!
