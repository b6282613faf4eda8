//! Histories as the outcome of a run of operations: what holds after any
//! sequence of checkpoints recorded, undone, redone and restored.

use crate::ident::{decimal_text, lemma_decimal_injective};
use crate::model::{lemma_record_wf, was_issued, HistoryModel};
use crate::store::{holds_id, lemma_position_of};
use crate::types::{ChangeType, CheckpointView, DiagnosticView};
use vstd::prelude::*;

verus! {

/// One operation on a history.
pub enum Step {
    /// Record a checkpoint of this content.
    Create {
        code: Seq<char>,
        diagnostics: Seq<DiagnosticView>,
        description: Seq<char>,
        change_type: ChangeType,
        timestamp: i64,
    },
    /// Step back to the checkpoint before the current one.
    Undo,
    /// Step forward to the checkpoint after the current one.
    Redo,
    /// Make the checkpoint with this identifier current.
    Restore { id: Seq<char> },
}

/// The checkpoint that a `Create` step records in `history`.
pub open spec fn created_checkpoint(history: HistoryModel, step: Step) -> CheckpointView
    recommends
        step is Create,
{
    history.next_checkpoint(
        step->code,
        step->diagnostics,
        step->description,
        step->change_type,
        step->timestamp,
    )
}

/// The history after one operation. An operation that fails leaves the
/// history as it was.
pub open spec fn apply(history: HistoryModel, step: Step) -> HistoryModel {
    match step {
        Step::Create { .. } => history.record(created_checkpoint(history, step)),
        Step::Undo => if history.can_undo() {
            history.undo()
        } else {
            history
        },
        Step::Redo => if history.can_redo() {
            history.redo()
        } else {
            history
        },
        Step::Restore { id } => history.restore(id),
    }
}

/// The history after a run of operations, first to last.
pub open spec fn run(history: HistoryModel, steps: Seq<Step>) -> HistoryModel
    decreases steps.len(),
{
    if steps.len() == 0 {
        history
    } else {
        apply(run(history, steps.drop_last()), steps.last())
    }
}

/// The number of checkpoints that a run records.
pub open spec fn created_count(steps: Seq<Step>) -> nat
    decreases steps.len(),
{
    if steps.len() == 0 {
        0
    } else if steps.last() is Create {
        created_count(steps.drop_last()) + 1
    } else {
        created_count(steps.drop_last())
    }
}

/// The number of checkpoints that a run discards: for each checkpoint it
/// records, those that stood after the cursor at that moment.
pub open spec fn discarded_count(history: HistoryModel, steps: Seq<Step>) -> nat
    decreases steps.len(),
{
    if steps.len() == 0 {
        0
    } else if steps.last() is Create {
        discarded_count(history, steps.drop_last()) + run(history, steps.drop_last()).redo_depth()
    } else {
        discarded_count(history, steps.drop_last())
    }
}

/// One operation keeps a history well formed.
pub proof fn theorem_apply_wf(history: HistoryModel, step: Step)
    requires
        history.wf(),
    ensures
        apply(history, step).wf(),
{
    match step {
        Step::Create { .. } => {
            lemma_record_wf(history, created_checkpoint(history, step));
        },
        Step::Undo => {},
        Step::Redo => {},
        Step::Restore { id } => {
            lemma_position_of(history.store.checkpoints, id);
        },
    }
}

/// After any run of operations the history is well formed, it has handed
/// out one identifier for each checkpoint recorded, and it holds the
/// checkpoints it held before plus those recorded minus those discarded.
pub proof fn theorem_run_length(history: HistoryModel, steps: Seq<Step>)
    requires
        history.wf(),
    ensures
        run(history, steps).wf(),
        run(history, steps).issued == history.issued + created_count(steps),
        run(history, steps).store.checkpoints.len() + discarded_count(history, steps)
            == history.store.checkpoints.len() + created_count(steps),
    decreases steps.len(),
{
    if steps.len() > 0 {
        let before = run(history, steps.drop_last());
        theorem_run_length(history, steps.drop_last());
        theorem_apply_wf(before, steps.last());
    }
}

/// Right after a checkpoint is recorded, whatever came before, it is the
/// last and the current checkpoint of the history.
pub proof fn theorem_created_is_current(history: HistoryModel, steps: Seq<Step>)
    requires
        history.wf(),
        steps.len() > 0,
        steps.last() is Create,
    ensures
        run(history, steps).store.cursor == run(history, steps).store.checkpoints.len() - 1,
        run(history, steps).store.current() == Some(
            created_checkpoint(run(history, steps.drop_last()), steps.last()),
        ),
{
}

/// From the empty history, a run that only records checkpoints holds as
/// many checkpoints as it recorded.
pub proof fn theorem_creates_only(steps: Seq<Step>)
    requires
        forall|i: int| 0 <= i < steps.len() ==> steps[i] is Create,
    ensures
        run(HistoryModel::empty(), steps).store.checkpoints.len() == steps.len(),
        discarded_count(HistoryModel::empty(), steps) == 0,
    decreases steps.len(),
{
    if steps.len() > 0 {
        theorem_creates_only(steps.drop_last());
        theorem_run_length(HistoryModel::empty(), steps.drop_last());
        if steps.len() > 1 {
            theorem_created_is_current(HistoryModel::empty(), steps.drop_last());
        }
    }
}

/// An identifier that was handed out and is no longer in the history never
/// comes back, whatever operations follow.
pub proof fn theorem_ids_never_reused(history: HistoryModel, steps: Seq<Step>, id: Seq<char>)
    requires
        history.wf(),
        was_issued(id, history.issued),
        !holds_id(history.store.checkpoints, id),
    ensures
        !holds_id(run(history, steps).store.checkpoints, id),
        was_issued(id, run(history, steps).issued),
    decreases steps.len(),
{
    if steps.len() > 0 {
        let before = run(history, steps.drop_last());
        let after = run(history, steps);
        theorem_ids_never_reused(history, steps.drop_last(), id);
        theorem_run_length(history, steps.drop_last());
        let k = choose|k: nat| k < before.issued && id == #[trigger] decimal_text(k);
        if steps.last() is Create {
            assert(k < after.issued && id == decimal_text(k));
            if holds_id(after.store.checkpoints, id) {
                let j = choose|j: int|
                    0 <= j < after.store.checkpoints.len()
                        && #[trigger] after.store.checkpoints[j].id == id;
                if j < before.store.kept().len() {
                    assert(after.store.checkpoints[j] == before.store.checkpoints[j]);
                } else {
                    lemma_decimal_injective(k, before.issued);
                }
            }
        } else {
            assert(after.store.checkpoints == before.store.checkpoints);
            assert(after.issued == before.issued);
        }
    }
}

} // verus!
