//! Required-versus-optional task semantics.
//!
//! Both pipelines launch a phase of concurrent tasks and then join
//! them all.  A required task's failure aborts the pipeline with the
//! first such failure, in task order; an optional task's failure is
//! logged by the caller and treated as success for everything
//! downstream.

use vstd::prelude::*;
use crate::error::Error;

verus! {

/// What one joined task reported.
#[derive(Debug)]
pub struct TaskOutcome {
    /// The task's name, for logs.
    pub name: Vec<u8>,
    /// Whether the task's failure aborts the pipeline.
    pub required: bool,
    /// How the task ended.
    pub result: Result<(), Error>,
}

/// Whether outcome `o` lets the pipeline continue.
pub open spec fn outcome_passes(o: TaskOutcome) -> bool {
    o.required ==> o.result is Ok
}

/// Index of the first required failure, in task order.
pub open spec fn first_required_failure(s: Seq<TaskOutcome>) -> Option<int>
    decreases s.len(),
{
    if s.len() == 0 {
        None
    } else if !outcome_passes(s[0]) {
        Some(0)
    } else {
        match first_required_failure(s.drop_first()) {
            Some(i) => Some(i + 1),
            None => None,
        }
    }
}

/// `first_required_failure` points at the first outcome that does
/// not pass, and is `None` exactly when every outcome passes.
pub proof fn lemma_first_required_failure(s: Seq<TaskOutcome>)
    ensures
        match first_required_failure(s) {
            Some(i) => 0 <= i < s.len() && !outcome_passes(s[i]) && forall|j: int|
                0 <= j < i ==> outcome_passes(#[trigger] s[j]),
            None => forall|j: int| 0 <= j < s.len() ==> outcome_passes(#[trigger] s[j]),
        },
    decreases s.len(),
{
    if s.len() > 0 && outcome_passes(s[0]) {
        let d = s.drop_first();
        lemma_first_required_failure(d);
        match first_required_failure(d) {
            Some(i) => {
                assert(s[i + 1] == d[i]);
                assert forall|j: int| 0 <= j < i + 1 implies outcome_passes(#[trigger] s[j]) by {
                    if j > 0 {
                        assert(s[j] == d[j - 1]);
                    }
                }
            },
            None => {
                assert forall|j: int| 0 <= j < s.len() implies outcome_passes(
                    #[trigger] s[j],
                ) by {
                    if j > 0 {
                        assert(s[j] == d[j - 1]);
                    }
                }
            },
        }
    }
}

/// An optional task's failure never moves the first required
/// failure: joining treats it as success.
pub proof fn lemma_optional_failure_ignored(s: Seq<TaskOutcome>, i: int)
    requires
        0 <= i < s.len(),
        !s[i].required,
    ensures
        first_required_failure(s) == first_required_failure(
            s.update(i, TaskOutcome { result: Ok(()), ..s[i] }),
        ),
    decreases s.len(),
{
    let t = s.update(i, TaskOutcome { result: Ok(()), ..s[i] });
    assert(outcome_passes(s[i]) && outcome_passes(t[i]));
    if s.len() > 0 {
        if i == 0 {
            assert(t.drop_first() =~= s.drop_first());
        } else {
            assert(outcome_passes(t[0]) == outcome_passes(s[0]));
            if outcome_passes(s[0]) {
                assert(t.drop_first() =~= s.drop_first().update(
                    i - 1,
                    TaskOutcome { result: Ok(()), ..s.drop_first()[i - 1] },
                ));
                lemma_optional_failure_ignored(s.drop_first(), i - 1);
            }
        }
    }
}

/// Joins a phase of task outcomes: `Ok` when every required task
/// succeeded, otherwise the error of the first required failure, in
/// task order.
pub fn join_outcomes(outcomes: Vec<TaskOutcome>) -> (r: Result<(), Error>)
    ensures
        match first_required_failure(outcomes@) {
            None => r is Ok,
            Some(i) => (outcomes@[i].result matches Err(e) && r == Err::<(), Error>(e)),
        },
{
    proof {
        lemma_first_required_failure(outcomes@);
    }
    let mut v = outcomes;
    let mut i: usize = 0;
    while i < v.len()
        invariant
            v@ == outcomes@,
            0 <= i <= v@.len(),
            forall|j: int| 0 <= j < i ==> outcome_passes(#[trigger] v@[j]),
        decreases v@.len() - i,
    {
        let required = v[i].required;
        let failed = match &v[i].result {
            Ok(_) => false,
            Err(_) => true,
        };
        if required && failed {
            proof {
                lemma_first_required_failure(outcomes@);
                assert(!outcome_passes(outcomes@[i as int]));
                assert(first_required_failure(outcomes@) == Some(i as int));
            }
            let o = v.swap_remove(i);
            match o.result {
                Err(e) => {
                    return Err(e);
                },
                Ok(_) => {
                    proof {
                        assert(false);
                    }
                },
            }
        }
        i += 1;
    }
    Ok(())
}

} // verus!
