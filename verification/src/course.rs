//! The scenarios of a job, one after the other.

use vstd::prelude::*;

use crate::job::{ProtectionJob, ProtectionResult};
use crate::scenario::ScenarioResult;

verus! {

/// Which of `n` scenarios is next when `done` have a result.
pub open spec fn next_of(n: nat, done: nat) -> Option<nat> {
    if done < n {
        Some(done)
    } else {
        None
    }
}

/// An index as a mathematical number.
pub open spec fn index_of(i: Option<usize>) -> Option<nat> {
    match i {
        Some(i) => Some(i as nat),
        None => None,
    }
}

/// The results that are recorded and the scenario that is next, after one of
/// `n` scenarios came to an outcome. An error ends the job.
pub open spec fn stepped<F, E>(
    n: nat,
    done: Seq<ScenarioResult<F>>,
    outcome: Result<ScenarioResult<F>, E>,
) -> (Seq<ScenarioResult<F>>, Option<nat>) {
    match outcome {
        Ok(r) => (done.push(r), next_of(n, done.len() + 1)),
        Err(_) => (done, None),
    }
}

impl<F> ProtectionResult<F> {
    /// Puts the result of a scenario behind those of the scenarios before it.
    pub fn record(&mut self, r: ScenarioResult<F>)
        ensures
            final(self).scenarios@ == old(self).scenarios@.push(r),
            final(self).combined_mem_hog == old(self).combined_mem_hog,
    {
        self.scenarios.push(r);
    }
}

impl<F> ProtectionJob<F> {
    /// The scenario to be run next: the first one that has no result.
    pub fn next_scenario(&self, done: &ProtectionResult<F>) -> (r: Option<usize>)
        ensures
            index_of(r) == next_of(self.scenarios@.len(), done.scenarios@.len()),
    {
        if done.scenarios.len() < self.scenarios.len() {
            Some(done.scenarios.len())
        } else {
            None
        }
    }

    /// Takes what came of running a scenario. A result is recorded, and the
    /// scenario to be run next is handed back; an error ends the job.
    pub fn proceed<E>(&self, done: &mut ProtectionResult<F>, outcome: Result<ScenarioResult<F>, E>) -> (r: Result<
        Option<usize>,
        E,
    >)
        ensures
            final(done).scenarios@ == stepped(self.scenarios@.len(), old(done).scenarios@, outcome).0,
            final(done).combined_mem_hog == old(done).combined_mem_hog,
            match outcome {
                Ok(_) => r matches Ok(next) && index_of(next) == stepped(
                    self.scenarios@.len(),
                    old(done).scenarios@,
                    outcome,
                ).1,
                Err(e) => r == Err::<Option<usize>, E>(e),
            },
    {
        match outcome {
            Ok(result) => {
                done.record(result);
                Ok(self.next_scenario(done))
            },
            Err(e) => Err(e),
        }
    }
}

/// How far a job has come: which scenarios were run, which results are
/// recorded, and which scenario is next.
pub struct Course<F> {
    pub ran: Seq<nat>,
    pub done: Seq<ScenarioResult<F>>,
    pub next: Option<nat>,
}

/// The course of a job of `n` scenarios whose runs come to the given outcomes.
/// What comes behind the end of the job is not looked at.
pub open spec fn course<F, E>(n: nat, outcomes: Seq<Result<ScenarioResult<F>, E>>) -> Course<F>
    decreases outcomes.len(),
{
    if outcomes.len() == 0 {
        Course { ran: Seq::empty(), done: Seq::empty(), next: next_of(n, 0) }
    } else {
        let prior = course(n, outcomes.drop_last());
        match prior.next {
            None => prior,
            Some(i) => {
                let (done, next) = stepped(n, prior.done, outcomes.last());
                Course { ran: prior.ran.push(i), done, next }
            },
        }
    }
}

/// A job runs its scenarios in their order, none of them twice. As long as
/// they come to results, these are recorded in that order, until each scenario
/// has one.
pub proof fn lemma_each_scenario_once<F, E>(n: nat, outcomes: Seq<Result<ScenarioResult<F>, E>>)
    ensures
        course(n, outcomes).ran.len() <= n,
        forall|i: int| 0 <= i < course(n, outcomes).ran.len() ==> #[trigger] course(n, outcomes).ran[i] == i,
        (forall|i: int| 0 <= i < outcomes.len() ==> (#[trigger] outcomes[i]) is Ok) ==> {
            let k = if outcomes.len() < n { outcomes.len() } else { n };
            &&& course(n, outcomes).ran.len() == k
            &&& course(n, outcomes).done.len() == k
            &&& course(n, outcomes).next == (if k < n {
                Some(k)
            } else {
                None
            })
            &&& forall|i: int|
                0 <= i < k ==> outcomes[i] == Ok::<ScenarioResult<F>, E>(#[trigger] course(n, outcomes).done[i])
        },
    decreases outcomes.len(),
{
    lemma_course_counts(n, outcomes);
    if outcomes.len() > 0 {
        let prior = outcomes.drop_last();
        lemma_each_scenario_once(n, prior);
        lemma_course_counts(n, prior);
        if forall|i: int| 0 <= i < outcomes.len() ==> (#[trigger] outcomes[i]) is Ok {
            assert forall|i: int| 0 <= i < prior.len() implies (#[trigger] prior[i]) is Ok by {
                assert(prior[i] == outcomes[i]);
            }
            assert(outcomes[outcomes.len() - 1] is Ok);
        }
    }
}

/// The scenario that is next is the one behind those that were run.
proof fn lemma_course_counts<F, E>(n: nat, outcomes: Seq<Result<ScenarioResult<F>, E>>)
    ensures
        course(n, outcomes).done.len() <= course(n, outcomes).ran.len() <= n,
        course(n, outcomes).next matches Some(i) ==> i < n && i == course(n, outcomes).ran.len() && i == course(
            n,
            outcomes,
        ).done.len(),
    decreases outcomes.len(),
{
    if outcomes.len() > 0 {
        lemma_course_counts(n, outcomes.drop_last());
    }
}

/// The first error ends the job: no scenario is run behind it, and the results
/// are those from before it.
pub proof fn lemma_first_error_ends<F, E>(n: nat, outcomes: Seq<Result<ScenarioResult<F>, E>>, k: nat)
    requires
        k < n,
        k < outcomes.len(),
        outcomes[k as int] is Err,
        forall|i: int| 0 <= i < k ==> (#[trigger] outcomes[i]) is Ok,
    ensures
        course(n, outcomes).ran.len() == k + 1,
        course(n, outcomes).done == course(n, outcomes.take(k as int)).done,
        course(n, outcomes).done.len() == k,
        course(n, outcomes).next is None,
    decreases outcomes.len(),
{
    let prior = outcomes.drop_last();
    if outcomes.len() == k + 1 {
        assert(prior =~= outcomes.take(k as int));
        lemma_each_scenario_once(n, prior);
    } else {
        assert forall|i: int| 0 <= i < k implies (#[trigger] prior[i]) is Ok by {
            assert(prior[i] == outcomes[i]);
        }
        lemma_first_error_ends(n, prior, k);
        assert(prior.take(k as int) =~= outcomes.take(k as int));
    }
}

} // verus!
