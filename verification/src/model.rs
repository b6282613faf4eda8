//! The mathematical model of a history: its checkpoints, its cursor and the
//! count of identifiers it has handed out, with the transitions the service
//! performs on them.

use crate::diff::{
    added_count, removed_count, render, text_script, theorem_reverse_swaps_counts,
};
use crate::ident::{decimal_text, lemma_decimal_injective};
use crate::store::{holds_id, lemma_position_of, position_of, StoreModel};
use crate::text::split_lines;
use crate::types::{ChangeType, CheckpointView, DiagnosticView, DiffView};
use vstd::prelude::*;

verus! {

/// Whether `id` is one of the first `issued` identifiers the history hands
/// out.
pub open spec fn was_issued(id: Seq<char>, issued: nat) -> bool {
    exists|k: nat| k < issued && id == #[trigger] decimal_text(k)
}

/// Whether no two checkpoints in `items` share an identifier.
pub open spec fn distinct_ids(items: Seq<CheckpointView>) -> bool {
    forall|i: int, j: int| 0 <= i < j < items.len() ==> items[i].id != items[j].id
}

/// The mathematical model of a history.
pub struct HistoryModel {
    /// The checkpoints and the cursor.
    pub store: StoreModel,
    /// How many identifiers have been handed out.
    pub issued: nat,
}

impl HistoryModel {
    /// The history before its first checkpoint.
    pub open spec fn empty() -> HistoryModel {
        HistoryModel { store: StoreModel::empty(), issued: 0 }
    }

    /// The cursor is valid, every identifier in the history was handed out
    /// by it, and no identifier occurs twice.
    pub open spec fn wf(self) -> bool {
        &&& self.store.wf()
        &&& distinct_ids(self.store.checkpoints)
        &&& forall|i: int|
            0 <= i < self.store.checkpoints.len() ==> was_issued(
                #[trigger] self.store.checkpoints[i].id,
                self.issued,
            )
    }

    /// The checkpoint that the next call of `create_checkpoint` records for
    /// the given content.
    pub open spec fn next_checkpoint(
        self,
        code: Seq<char>,
        diagnostics: Seq<DiagnosticView>,
        description: Seq<char>,
        change_type: ChangeType,
        timestamp: i64,
    ) -> CheckpointView {
        CheckpointView {
            id: decimal_text(self.issued),
            timestamp,
            code,
            diagnostics,
            description,
            change_type,
        }
    }

    /// The history after `checkpoint` has been recorded.
    pub open spec fn record(self, checkpoint: CheckpointView) -> HistoryModel {
        HistoryModel { store: self.store.append(checkpoint), issued: self.issued + 1 }
    }

    /// Whether a checkpoint stands before the current one.
    pub open spec fn can_undo(self) -> bool {
        self.store.cursor > 0
    }

    /// Whether a checkpoint stands after the current one.
    pub open spec fn can_redo(self) -> bool {
        self.store.cursor + 1 < self.store.checkpoints.len()
    }

    /// The history with the cursor one checkpoint earlier.
    pub open spec fn undo(self) -> HistoryModel {
        HistoryModel {
            store: self.store.with_cursor((self.store.cursor - 1) as nat),
            issued: self.issued,
        }
    }

    /// The history with the cursor one checkpoint later.
    pub open spec fn redo(self) -> HistoryModel {
        HistoryModel { store: self.store.with_cursor(self.store.cursor + 1), issued: self.issued }
    }

    /// How many checkpoints stand after the current one: those that the next
    /// recorded checkpoint discards.
    pub open spec fn redo_depth(self) -> nat {
        (self.store.checkpoints.len() - self.store.kept().len()) as nat
    }

    /// The history with the cursor on the checkpoint whose identifier is
    /// `id`; the history itself when there is no such checkpoint.
    pub open spec fn restore(self, id: Seq<char>) -> HistoryModel {
        if holds_id(self.store.checkpoints, id) {
            HistoryModel {
                store: self.store.with_cursor(position_of(self.store.checkpoints, id)),
                issued: self.issued,
            }
        } else {
            self
        }
    }
}

/// The difference between the code of two checkpoints: the edit script
/// from the lines of `from` to the lines of `to` as text, and the number of
/// lines the script adds and removes.
pub open spec fn checkpoint_diff(from: CheckpointView, to: CheckpointView) -> DiffView {
    DiffView {
        from_id: from.id,
        to_id: to.id,
        diff: render(text_script(from.code, to.code)),
        added_lines: added_count(text_script(from.code, to.code)),
        removed_lines: removed_count(text_script(from.code, to.code)),
    }
}

/// Recording a checkpoint with a fresh identifier keeps a history well
/// formed.
pub proof fn lemma_record_wf(history: HistoryModel, checkpoint: CheckpointView)
    requires
        history.wf(),
        checkpoint.id == decimal_text(history.issued),
    ensures
        history.record(checkpoint).wf(),
{
    let after = history.record(checkpoint);
    let kept = history.store.kept();
    let items = after.store.checkpoints;
    assert forall|i: int| 0 <= i < items.len() implies was_issued(
        #[trigger] items[i].id,
        after.issued,
    ) by {
        if i < kept.len() {
            assert(items[i] == history.store.checkpoints[i]);
            let k = choose|k: nat| k < history.issued && items[i].id == #[trigger] decimal_text(k);
            assert(k < after.issued && items[i].id == decimal_text(k));
        } else {
            assert(items[i].id == decimal_text(history.issued));
        }
    }
    assert forall|i: int, j: int| 0 <= i < j < items.len() implies items[i].id != items[j].id by {
        assert(items[i] == history.store.checkpoints[i]);
        if j < kept.len() {
            assert(items[j] == history.store.checkpoints[j]);
        } else {
            let k = choose|k: nat| k < history.issued && items[i].id == #[trigger] decimal_text(k);
            if items[i].id == items[j].id {
                lemma_decimal_injective(k, history.issued);
            }
        }
    }
}

/// In a well-formed history each checkpoint is the one found under its own
/// identifier, at its own position.
pub proof fn theorem_lookup_finds(history: HistoryModel, i: int)
    requires
        history.wf(),
        0 <= i < history.store.checkpoints.len(),
    ensures
        holds_id(history.store.checkpoints, history.store.checkpoints[i].id),
        position_of(history.store.checkpoints, history.store.checkpoints[i].id) == i,
        history.store.lookup(history.store.checkpoints[i].id) == Some(history.store.checkpoints[i]),
{
    let items = history.store.checkpoints;
    let id = items[i].id;
    lemma_position_of(items, id);
    let p = position_of(items, id) as int;
    if p < i {
        assert(items[p].id != items[i].id);
    }
}

/// Undo followed by redo restores the history as it was, current
/// checkpoint included.
pub proof fn theorem_undo_then_redo(history: HistoryModel)
    requires
        history.wf(),
        history.can_undo(),
    ensures
        history.undo().wf(),
        history.undo().can_redo(),
        history.undo().redo() == history,
        history.undo().redo().store.current() == history.store.current(),
{
}

/// Redo followed by undo restores the history as it was, current
/// checkpoint included.
pub proof fn theorem_redo_then_undo(history: HistoryModel)
    requires
        history.wf(),
        history.can_redo(),
    ensures
        history.redo().wf(),
        history.redo().can_undo(),
        history.redo().undo() == history,
        history.redo().undo().store.current() == history.store.current(),
{
}

/// Undo is possible everywhere but at the first checkpoint, and redo
/// everywhere but at the last; in an empty history neither is.
pub proof fn theorem_cursor_ends(history: HistoryModel)
    requires
        history.wf(),
    ensures
        !history.can_undo() <==> history.store.cursor == 0,
        history.store.checkpoints.len() > 0 ==> (!history.can_redo() <==> history.store.cursor
            == history.store.checkpoints.len() - 1),
        history.store.checkpoints.len() == 0 ==> !history.can_undo() && !history.can_redo(),
{
}

/// Recording a checkpoint keeps the checkpoints up to the cursor, discards
/// those after it and makes the new checkpoint the last and the current
/// one. A discarded checkpoint can no longer be found.
pub proof fn theorem_record_truncates(history: HistoryModel, checkpoint: CheckpointView)
    requires
        history.wf(),
        checkpoint.id == decimal_text(history.issued),
    ensures
        history.record(checkpoint).wf(),
        history.record(checkpoint).store.checkpoints.len() == history.store.checkpoints.len()
            - history.redo_depth() + 1,
        history.record(checkpoint).store.cursor == history.record(checkpoint).store.checkpoints.len()
            - 1,
        history.record(checkpoint).store.current() == Some(checkpoint),
        !history.record(checkpoint).can_redo(),
        forall|i: int|
            0 <= i < history.store.kept().len() ==> history.record(checkpoint).store.checkpoints[i]
                == #[trigger] history.store.checkpoints[i],
        forall|i: int|
            history.store.cursor < i < history.store.checkpoints.len() ==> !holds_id(
                history.record(checkpoint).store.checkpoints,
                #[trigger] history.store.checkpoints[i].id,
            ),
{
    lemma_record_wf(history, checkpoint);
    let after = history.record(checkpoint);
    let items = history.store.checkpoints;
    let kept = history.store.kept();
    assert forall|i: int| history.store.cursor < i < items.len() implies !holds_id(
        after.store.checkpoints,
        #[trigger] items[i].id,
    ) by {
        let id = items[i].id;
        if holds_id(after.store.checkpoints, id) {
            let j = choose|j: int|
                0 <= j < after.store.checkpoints.len() && #[trigger] after.store.checkpoints[j].id
                    == id;
            if j < kept.len() {
                assert(after.store.checkpoints[j] == items[j]);
                assert(items[j].id != items[i].id);
            } else {
                let k = choose|k: nat| k < history.issued && id == #[trigger] decimal_text(k);
                lemma_decimal_injective(k, history.issued);
            }
        }
    }
}

/// Restoring a checkpoint moves the cursor onto it and drops nothing: every
/// checkpoint can still be found, and restored, afterwards.
pub proof fn theorem_restore_keeps_all(history: HistoryModel, id: Seq<char>, other: Seq<char>)
    requires
        history.wf(),
        holds_id(history.store.checkpoints, id),
    ensures
        history.restore(id).wf(),
        history.restore(id).store.checkpoints == history.store.checkpoints,
        history.restore(id).issued == history.issued,
        history.restore(id).store.current() == history.store.lookup(id),
        history.restore(id).store.lookup(other) == history.store.lookup(other),
        holds_id(history.store.checkpoints, other) ==> history.restore(id).restore(other)
            == history.restore(other),
{
    lemma_position_of(history.store.checkpoints, id);
}

/// An identifier that the history never handed out is not found, and
/// restoring it changes nothing.
pub proof fn theorem_unissued_not_found(history: HistoryModel, id: Seq<char>)
    requires
        history.wf(),
        !was_issued(id, history.issued),
    ensures
        !holds_id(history.store.checkpoints, id),
        history.store.lookup(id) is None,
        history.restore(id) == history,
{
    if holds_id(history.store.checkpoints, id) {
        let i = choose|i: int|
            0 <= i < history.store.checkpoints.len() && #[trigger] history.store.checkpoints[i].id
                == id;
        assert(was_issued(history.store.checkpoints[i].id, history.issued));
    }
}

/// A history that holds its first checkpoint only has nothing to undo and
/// nothing to redo.
pub proof fn theorem_seeded_at_both_ends(checkpoint: CheckpointView)
    ensures
        HistoryModel::empty().record(checkpoint).store.checkpoints == seq![checkpoint],
        HistoryModel::empty().record(checkpoint).store.cursor == 0,
        !HistoryModel::empty().record(checkpoint).can_undo(),
        !HistoryModel::empty().record(checkpoint).can_redo(),
{
    let after = HistoryModel::empty().record(checkpoint);
    assert(after.store.checkpoints =~= seq![checkpoint]);
}

/// Comparing two checkpoints in the other direction swaps the identifiers
/// and the two counts.
pub proof fn theorem_diff_reversed(from: CheckpointView, to: CheckpointView)
    ensures
        checkpoint_diff(to, from).from_id == checkpoint_diff(from, to).to_id,
        checkpoint_diff(to, from).to_id == checkpoint_diff(from, to).from_id,
        checkpoint_diff(to, from).added_lines == checkpoint_diff(from, to).removed_lines,
        checkpoint_diff(to, from).removed_lines == checkpoint_diff(from, to).added_lines,
{
    theorem_reverse_swaps_counts(split_lines(from.code), split_lines(to.code));
}

} // verus!
