use vstd::prelude::*;
use crate::error::UpdateError;
use crate::error::UpdateErrorView;

verus! {

/// The batch runner's state: still processing, or stopped at the first
/// package file whose processing failed.
#[derive(Debug)]
pub enum RunState {
    Running,
    Failed(UpdateError),
}

/// Ghost image of a `RunState`.
pub enum RunStateView {
    Running,
    Failed(UpdateErrorView),
}

impl View for RunState {
    type V = RunStateView;

    open spec fn view(&self) -> RunStateView {
        match self {
            RunState::Running => RunStateView::Running,
            RunState::Failed(e) => RunStateView::Failed(e@),
        }
    }
}

/// One step of the fail-fast fold: a failed run stays failed with its first
/// error; a running one fails on the first erroneous outcome.
pub open spec fn run_step_spec(
    st: RunStateView,
    outcome: Result<(), UpdateErrorView>,
) -> RunStateView {
    match st {
        RunStateView::Failed(e) => RunStateView::Failed(e),
        RunStateView::Running => match outcome {
            Ok(_) => RunStateView::Running,
            Err(e) => RunStateView::Failed(e),
        },
    }
}

/// The run's state after the given per-file outcomes, in input order.
pub open spec fn run_all_spec(outcomes: Seq<Result<(), UpdateErrorView>>) -> RunStateView
    decreases outcomes.len(),
{
    if outcomes.len() == 0 {
        RunStateView::Running
    } else {
        run_step_spec(run_all_spec(outcomes.drop_last()), outcomes.last())
    }
}

/// Ghost image of a per-file outcome.
pub open spec fn outcome_view(outcome: Result<(), UpdateError>) -> Result<(), UpdateErrorView> {
    match outcome {
        Ok(_) => Ok(()),
        Err(e) => Err(e@),
    }
}

/// Folds one package file's outcome into the run.
pub fn run_step(state: RunState, outcome: Result<(), UpdateError>) -> (r: RunState)
    ensures
        r@ == run_step_spec(state@, outcome_view(outcome)),
{
    match state {
        RunState::Failed(e) => RunState::Failed(e),
        RunState::Running => match outcome {
            Ok(_) => RunState::Running,
            Err(e) => RunState::Failed(e),
        },
    }
}

/// Whether the runner should attempt the next package file.
pub fn should_continue(state: &RunState) -> (r: bool)
    ensures
        r == (state@ is Running),
{
    match state {
        RunState::Running => true,
        RunState::Failed(_) => false,
    }
}

/// The fail-fast batch policy: when the file at position `j` is the first to
/// fail, the whole run reports exactly that file's error, and the outcomes of
/// the files after it — which the runner never attempts — cannot change the
/// result.
pub proof fn lemma_fail_fast(outcomes: Seq<Result<(), UpdateErrorView>>, j: int)
    requires
        0 <= j < outcomes.len(),
        outcomes[j] is Err,
        forall|k: int| 0 <= k < j ==> #[trigger] outcomes[k] is Ok,
    ensures
        run_all_spec(outcomes) == RunStateView::Failed(outcomes[j]->Err_0),
        run_all_spec(outcomes) == run_all_spec(outcomes.take(j + 1)),
    decreases outcomes.len(),
{
    lemma_first_error(outcomes, j);
    lemma_first_error(outcomes.take(j + 1), j);
}

/// A run with no failing outcome stays running.
pub proof fn lemma_all_ok(outcomes: Seq<Result<(), UpdateErrorView>>)
    requires
        forall|k: int| 0 <= k < outcomes.len() ==> #[trigger] outcomes[k] is Ok,
    ensures
        run_all_spec(outcomes) == RunStateView::Running,
    decreases outcomes.len(),
{
    if outcomes.len() > 0 {
        lemma_all_ok(outcomes.drop_last());
    }
}

proof fn lemma_first_error(outcomes: Seq<Result<(), UpdateErrorView>>, j: int)
    requires
        0 <= j < outcomes.len(),
        outcomes[j] is Err,
        forall|k: int| 0 <= k < j ==> #[trigger] outcomes[k] is Ok,
    ensures
        run_all_spec(outcomes) == RunStateView::Failed(outcomes[j]->Err_0),
    decreases outcomes.len(),
{
    if j == outcomes.len() - 1 {
        lemma_all_ok(outcomes.drop_last());
    } else {
        lemma_first_error(outcomes.drop_last(), j);
    }
}

} // verus!
