//! Steps carried out in order, stopping at the first one that fails.
//!
//! Constructing a socket and broadcasting a payload both come down to a list
//! of operating-system calls, made one after another until one fails. The
//! calls are the caller's; what to call next, and when to stop, is decided
//! here. The caller asks a [`Plan`] for its next step, performs it, and hands
//! the outcome back.

use vstd::prelude::*;

verus! {

/// How far a plan has come: its steps, and how many of them are done.
pub struct Progress<S> {
    pub steps: Seq<S>,
    pub done: nat,
}

/// What carrying out a plan came to.
pub struct Report<S, E> {
    /// The steps that were attempted, in order, the failed one included.
    pub attempted: Seq<S>,
    /// `Ok` once every step has succeeded, the error of the step that
    /// failed, or nothing where the outcomes ran out before either.
    pub result: Option<Result<(), E>>,
}

impl<S> Progress<S> {
    /// The step to perform now, or nothing where all are done.
    pub open spec fn pending(self) -> Option<S> {
        if self.done < self.steps.len() {
            Some(self.steps[self.done as int])
        } else {
            None
        }
    }

    /// The progress after the pending step came to `outcome`: one step
    /// further after a success, and the error itself after a failure.
    pub open spec fn advance<T, E>(self, outcome: Result<T, E>) -> Result<Progress<S>, E> {
        match outcome {
            Ok(_) => Ok(
                Progress {
                    steps: self.steps,
                    done: if self.done < self.steps.len() {
                        self.done + 1
                    } else {
                        self.done
                    },
                },
            ),
            Err(error) => Err(error),
        }
    }

    /// Carries the plan on from here, the k-th attempt from now coming to
    /// `outcomes[k]`.
    pub open spec fn run<T, E>(self, outcomes: Seq<Result<T, E>>) -> Report<S, E>
        decreases outcomes.len(),
    {
        match self.pending() {
            None => Report { attempted: Seq::empty(), result: Some(Ok(())) },
            Some(step) => if outcomes.len() == 0 {
                Report { attempted: Seq::empty(), result: None }
            } else {
                match self.advance(outcomes[0]) {
                    Ok(next) => {
                        let rest = next.run(outcomes.skip(1));
                        Report { attempted: seq![step] + rest.attempted, result: rest.result }
                    },
                    Err(error) => Report { attempted: seq![step], result: Some(Err(error)) },
                }
            },
        }
    }
}

/// A list of steps and a mark at the next one to perform.
pub struct Plan<S> {
    steps: Vec<S>,
    done: usize,
}

impl<S> View for Plan<S> {
    type V = Progress<S>;

    closed spec fn view(&self) -> Progress<S> {
        Progress { steps: self.steps@, done: self.done as nat }
    }
}

impl<S> Plan<S> {
    #[verifier::type_invariant]
    spec fn well_formed(self) -> bool {
        self.done <= self.steps@.len()
    }

    /// A plan to carry out `steps` from the first one on.
    pub fn new(steps: Vec<S>) -> (plan: Plan<S>)
        ensures
            plan@ == (Progress { steps: steps@, done: 0 }),
    {
        Plan { steps, done: 0 }
    }

    /// The step to perform now, or nothing where all are done.
    pub fn next(&self) -> (step: Option<&S>)
        ensures
            self@.done <= self@.steps.len(),
            match step {
                Some(step) => self@.pending() == Some(*step),
                None => self@.pending() is None,
            },
    {
        proof {
            use_type_invariant(self);
        }
        if self.done < self.steps.len() {
            Some(&self.steps[self.done])
        } else {
            None
        }
    }

    /// Whether every step is done.
    pub fn is_complete(&self) -> (complete: bool)
        ensures
            complete == (self@.pending() is None),
            complete == (self@.done == self@.steps.len()),
    {
        proof {
            use_type_invariant(self);
        }
        self.done >= self.steps.len()
    }

    /// The number of steps that are done.
    pub fn completed(&self) -> (done: usize)
        ensures
            done == self@.done,
            done <= self@.steps.len(),
    {
        proof {
            use_type_invariant(self);
        }
        self.done
    }

    /// Takes the outcome of the pending step: after a success the plan moves
    /// on by one step; after a failure there is no plan left, only the error.
    pub fn advance<T, E>(self, outcome: Result<T, E>) -> (next: Result<Plan<S>, E>)
        ensures
            match (next, self@.advance(outcome)) {
                (Ok(plan), Ok(progress)) => plan@ == progress,
                (Err(error), Err(expected)) => error == expected,
                _ => false,
            },
    {
        proof {
            use_type_invariant(&self);
        }
        match outcome {
            Ok(_) => {
                let done = if self.done < self.steps.len() {
                    self.done + 1
                } else {
                    self.done
                };
                Ok(Plan { steps: self.steps, done })
            },
            Err(error) => Err(error),
        }
    }
}

/// Where every attempt succeeds, every remaining step is attempted, each
/// once and in order, and the run ends well.
pub proof fn lemma_run_all_succeed<S, T, E>(progress: Progress<S>, outcomes: Seq<Result<T, E>>)
    requires
        progress.done <= progress.steps.len(),
        outcomes.len() >= progress.steps.len() - progress.done,
        forall|k: int| 0 <= k < progress.steps.len() - progress.done ==> outcomes[k] is Ok,
    ensures
        progress.run(outcomes).attempted == progress.steps.subrange(
            progress.done as int,
            progress.steps.len() as int,
        ),
        progress.run(outcomes).result == Some(Ok::<(), E>(())),
    decreases progress.steps.len() - progress.done,
{
    if progress.done < progress.steps.len() {
        let next = progress.advance(outcomes[0])->Ok_0;
        let rest = outcomes.skip(1);
        assert forall|k: int| 0 <= k < next.steps.len() - next.done implies rest[k] is Ok by {
            assert(rest[k] == outcomes[k + 1]);
        }
        lemma_run_all_succeed(next, rest);
        assert(progress.run(outcomes).attempted == progress.steps.subrange(
            progress.done as int,
            progress.steps.len() as int,
        ));
    } else {
        assert(progress.run(outcomes).attempted == progress.steps.subrange(
            progress.done as int,
            progress.steps.len() as int,
        ));
    }
}

/// Where the attempt number `failed` (counting from 0) is the first to fail,
/// the run stops there: the steps up to and including that one are
/// attempted, none after it, and the run ends in that attempt's error.
pub proof fn lemma_run_stops_at_first_failure<S, T, E>(
    progress: Progress<S>,
    outcomes: Seq<Result<T, E>>,
    failed: nat,
)
    requires
        progress.done + failed < progress.steps.len(),
        failed < outcomes.len(),
        outcomes[failed as int] is Err,
        forall|k: int| 0 <= k < failed ==> outcomes[k] is Ok,
    ensures
        progress.run(outcomes).attempted == progress.steps.subrange(
            progress.done as int,
            (progress.done + failed + 1) as int,
        ),
        progress.run(outcomes).result == Some(Err::<(), E>(outcomes[failed as int]->Err_0)),
    decreases failed,
{
    if failed == 0 {
        assert(progress.run(outcomes).attempted == progress.steps.subrange(
            progress.done as int,
            (progress.done + 1) as int,
        ));
    } else {
        assert(outcomes[0] is Ok);
        let next = progress.advance(outcomes[0])->Ok_0;
        let rest = outcomes.skip(1);
        assert(rest[failed - 1] == outcomes[failed as int]);
        assert forall|k: int| 0 <= k < failed - 1 implies rest[k] is Ok by {
            assert(rest[k] == outcomes[k + 1]);
        }
        lemma_run_stops_at_first_failure(next, rest, (failed - 1) as nat);
        assert(progress.run(outcomes).attempted == progress.steps.subrange(
            progress.done as int,
            (progress.done + failed + 1) as int,
        ));
    }
}

/// A run ends well only where every remaining step was attempted and
/// succeeded.
pub proof fn lemma_run_ends_well_only_after_every_step<S, T, E>(
    progress: Progress<S>,
    outcomes: Seq<Result<T, E>>,
)
    requires
        progress.done <= progress.steps.len(),
        progress.run(outcomes).result == Some(Ok::<(), E>(())),
    ensures
        outcomes.len() >= progress.steps.len() - progress.done,
        forall|k: int| 0 <= k < progress.steps.len() - progress.done ==> outcomes[k] is Ok,
        progress.run(outcomes).attempted == progress.steps.subrange(
            progress.done as int,
            progress.steps.len() as int,
        ),
    decreases outcomes.len(),
{
    if progress.done < progress.steps.len() {
        assert(outcomes.len() > 0);
        assert(outcomes[0] is Ok);
        let next = progress.advance(outcomes[0])->Ok_0;
        let rest = outcomes.skip(1);
        lemma_run_ends_well_only_after_every_step(next, rest);
        assert forall|k: int| 0 <= k < progress.steps.len() - progress.done implies outcomes[k] is Ok by {
            if k > 0 {
                assert(rest[k - 1] == outcomes[k]);
            }
        }
        lemma_run_all_succeed(progress, outcomes);
    } else {
        lemma_run_all_succeed(progress, outcomes);
    }
}

} // verus!
