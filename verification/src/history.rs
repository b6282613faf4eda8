//! The history service: the operations an editor calls to record
//! checkpoints, step backward and forward, restore a checkpoint and compare
//! two of them.

use crate::clock::now_millis;
use crate::diff::diff_text;
use crate::ident::{counter_next, counter_text, digits_value, is_counter, zero_counter};
use crate::model::{checkpoint_diff, lemma_record_wf, HistoryModel};
use crate::store::CheckpointStore;
use crate::trace::{apply, Step};
use crate::types::{
    checkpoints_view, diagnostics_view, ChangeType, CheckpointDiff, Diagnostic, EditorCheckpoint,
};
use vstd::prelude::*;

verus! {

/// Why a history operation did not succeed.
#[derive(Debug, Clone, Copy, PartialEq, Eq, Structural)]
pub enum HistoryError {
    /// Undo was asked for at the earliest checkpoint.
    AtBeginning,
    /// Redo was asked for at the latest checkpoint.
    AtEnd,
    /// No checkpoint has the identifier asked for.
    NotFound,
}

/// Compares the code of two checkpoints line by line.
pub fn diff_checkpoints(from: &EditorCheckpoint, to: &EditorCheckpoint) -> (diff: CheckpointDiff)
    ensures
        diff@ == checkpoint_diff(from@, to@),
{
    let (text, added, removed) = diff_text(from.code.as_str(), to.code.as_str());
    CheckpointDiff {
        from_id: from.id.clone(),
        to_id: to.id.clone(),
        diff: text,
        added_lines: added,
        removed_lines: removed,
    }
}

/// All checkpoints of a history with the position of the current one.
#[derive(Debug)]
pub struct HistorySnapshot {
    /// The checkpoints, oldest first.
    pub checkpoints: Vec<EditorCheckpoint>,
    /// The position of the current checkpoint; 0 in an empty history.
    pub cursor: usize,
}

/// The editor history of one document.
pub struct HistoryState {
    store: CheckpointStore,
    digits: Vec<u8>,
}

impl View for HistoryState {
    type V = HistoryModel;

    closed spec fn view(&self) -> HistoryModel {
        HistoryModel { store: self.store@, issued: digits_value(self.digits@) }
    }
}

impl HistoryState {
    #[verifier::type_invariant]
    spec fn inv(self) -> bool {
        &&& is_counter(self.digits@)
        &&& self@.wf()
    }

    /// A history without checkpoints.
    pub fn new() -> (history: Self)
        ensures
            history@ == HistoryModel::empty(),
            history@.wf(),
    {
        HistoryState { store: CheckpointStore::new(), digits: zero_counter() }
    }

    /// Whether `undo` would succeed.
    pub fn can_undo(&self) -> (possible: bool)
        ensures
            possible == self@.can_undo(),
            self@.wf(),
    {
        proof {
            use_type_invariant(self);
        }
        self.store.cursor() > 0
    }

    /// Whether `redo` would succeed.
    pub fn can_redo(&self) -> (possible: bool)
        ensures
            possible == self@.can_redo(),
            self@.wf(),
    {
        proof {
            use_type_invariant(self);
        }
        self.store.cursor() < self.store.len() && self.store.cursor() + 1 < self.store.len()
    }

    /// All checkpoints, oldest first, with the position of the current one.
    pub fn get_history(&self) -> (snapshot: HistorySnapshot)
        ensures
            checkpoints_view(snapshot.checkpoints@) == self@.store.checkpoints,
            snapshot.cursor == self@.store.cursor,
            self@.wf(),
    {
        proof {
            use_type_invariant(self);
        }
        HistorySnapshot { checkpoints: self.store.checkpoints(), cursor: self.store.cursor() }
    }

    /// The checkpoint with the identifier `id`. Fails when the history holds
    /// no such checkpoint.
    pub fn get_checkpoint_by_id(&self, id: &str) -> (found: Result<EditorCheckpoint, HistoryError>)
        ensures
            self@.wf(),
            match found {
                Ok(checkpoint) => self@.store.lookup(id@) == Some(checkpoint@) && checkpoint@.id
                    == id@,
                Err(error) => error == HistoryError::NotFound && self@.store.lookup(id@) is None,
            },
    {
        proof {
            use_type_invariant(self);
        }
        match self.store.get(id) {
            Ok(checkpoint) => Ok(checkpoint),
            Err(_) => Err(HistoryError::NotFound),
        }
    }

    /// The line-based difference from the checkpoint `from_id` to the
    /// checkpoint `to_id`. Fails when the history lacks either.
    pub fn get_checkpoint_diff(&self, from_id: &str, to_id: &str) -> (diff: Result<
        CheckpointDiff,
        HistoryError,
    >)
        ensures
            self@.wf(),
            match diff {
                Ok(d) => {
                    &&& self@.store.lookup(from_id@) is Some
                    &&& self@.store.lookup(to_id@) is Some
                    &&& d@ == checkpoint_diff(
                        self@.store.lookup(from_id@)->0,
                        self@.store.lookup(to_id@)->0,
                    )
                    &&& d@.from_id == from_id@
                    &&& d@.to_id == to_id@
                },
                Err(error) => {
                    &&& error == HistoryError::NotFound
                    &&& (self@.store.lookup(from_id@) is None || self@.store.lookup(to_id@) is None)
                },
            },
    {
        proof {
            use_type_invariant(self);
        }
        let from = match self.store.get(from_id) {
            Ok(checkpoint) => checkpoint,
            Err(_) => {
                return Err(HistoryError::NotFound);
            },
        };
        let to = match self.store.get(to_id) {
            Ok(checkpoint) => checkpoint,
            Err(_) => {
                return Err(HistoryError::NotFound);
            },
        };
        Ok(diff_checkpoints(&from, &to))
    }

    /// Records a checkpoint of the given content with the given time of
    /// creation. The new checkpoint gets the next identifier, replaces
    /// whatever stood after the cursor and becomes the current one.
    pub fn create_checkpoint_at(
        &mut self,
        code: String,
        diagnostics: Vec<Diagnostic>,
        description: String,
        change_type: ChangeType,
        timestamp: i64,
    ) -> (checkpoint: EditorCheckpoint)
        ensures
            checkpoint@ == old(self)@.next_checkpoint(
                code@,
                diagnostics_view(diagnostics@),
                description@,
                change_type,
                timestamp,
            ),
            final(self)@ == old(self)@.record(checkpoint@),
            final(self)@ == apply(
                old(self)@,
                (Step::Create {
                    code: code@,
                    diagnostics: diagnostics_view(diagnostics@),
                    description: description@,
                    change_type,
                    timestamp,
                }),
            ),
            final(self)@.wf(),
    {
        proof {
            use_type_invariant(&*self);
        }
        let id = counter_text(&self.digits);
        let next = counter_next(&self.digits);
        let checkpoint = EditorCheckpoint {
            id,
            timestamp,
            code,
            diagnostics,
            description,
            change_type,
        };
        let copy = checkpoint.clone();
        let mut store = CheckpointStore::new();
        std::mem::swap(&mut store, &mut self.store);
        store.append(checkpoint);
        proof {
            lemma_record_wf(old(self)@, copy@);
        }
        *self = HistoryState { store, digits: next };
        copy
    }

    /// Records a checkpoint of the given content, created now by the system
    /// clock. The new checkpoint gets the next identifier, replaces whatever
    /// stood after the cursor and becomes the current one.
    pub fn create_checkpoint(
        &mut self,
        code: String,
        diagnostics: Vec<Diagnostic>,
        description: String,
        change_type: ChangeType,
    ) -> (checkpoint: EditorCheckpoint)
        ensures
            checkpoint@ == old(self)@.next_checkpoint(
                code@,
                diagnostics_view(diagnostics@),
                description@,
                change_type,
                checkpoint.timestamp,
            ),
            checkpoint.timestamp >= 0,
            final(self)@ == old(self)@.record(checkpoint@),
            final(self)@ == apply(
                old(self)@,
                (Step::Create {
                    code: code@,
                    diagnostics: diagnostics_view(diagnostics@),
                    description: description@,
                    change_type,
                    timestamp: checkpoint.timestamp,
                }),
            ),
            final(self)@.wf(),
    {
        let timestamp = now_millis();
        self.create_checkpoint_at(code, diagnostics, description, change_type, timestamp)
    }

    /// Makes the checkpoint before the current one current and returns it.
    /// Fails, and changes nothing, at the earliest checkpoint.
    pub fn undo(&mut self) -> (moved: Result<EditorCheckpoint, HistoryError>)
        ensures
            final(self)@.wf(),
            final(self)@ == apply(old(self)@, Step::Undo),
            match moved {
                Ok(checkpoint) => {
                    &&& old(self)@.can_undo()
                    &&& final(self)@ == old(self)@.undo()
                    &&& final(self)@.store.current() == Some(checkpoint@)
                },
                Err(error) => {
                    &&& error == HistoryError::AtBeginning
                    &&& !old(self)@.can_undo()
                    &&& final(self)@ == old(self)@
                },
            },
    {
        proof {
            use_type_invariant(&*self);
        }
        let mut store = CheckpointStore::new();
        std::mem::swap(&mut store, &mut self.store);
        let moved = store.move_cursor(-1);
        std::mem::swap(&mut store, &mut self.store);
        match moved {
            Ok(checkpoint) => Ok(checkpoint),
            Err(_) => Err(HistoryError::AtBeginning),
        }
    }

    /// Makes the checkpoint after the current one current and returns it.
    /// Fails, and changes nothing, at the latest checkpoint.
    pub fn redo(&mut self) -> (moved: Result<EditorCheckpoint, HistoryError>)
        ensures
            final(self)@.wf(),
            final(self)@ == apply(old(self)@, Step::Redo),
            match moved {
                Ok(checkpoint) => {
                    &&& old(self)@.can_redo()
                    &&& final(self)@ == old(self)@.redo()
                    &&& final(self)@.store.current() == Some(checkpoint@)
                },
                Err(error) => {
                    &&& error == HistoryError::AtEnd
                    &&& !old(self)@.can_redo()
                    &&& final(self)@ == old(self)@
                },
            },
    {
        proof {
            use_type_invariant(&*self);
        }
        let mut store = CheckpointStore::new();
        std::mem::swap(&mut store, &mut self.store);
        let moved = store.move_cursor(1);
        std::mem::swap(&mut store, &mut self.store);
        match moved {
            Ok(checkpoint) => Ok(checkpoint),
            Err(_) => Err(HistoryError::AtEnd),
        }
    }

    /// Makes the checkpoint with the identifier `id` current and returns
    /// it. No checkpoint is dropped. Fails, and changes nothing, when the
    /// history holds no such checkpoint.
    pub fn restore_to_checkpoint(&mut self, id: &str) -> (restored: Result<
        EditorCheckpoint,
        HistoryError,
    >)
        ensures
            final(self)@.wf(),
            final(self)@ == old(self)@.restore(id@),
            final(self)@ == apply(old(self)@, (Step::Restore { id: id@ })),
            match restored {
                Ok(checkpoint) => {
                    &&& old(self)@.store.lookup(id@) == Some(checkpoint@)
                    &&& final(self)@.store.current() == Some(checkpoint@)
                    &&& checkpoint@.id == id@
                },
                Err(error) => {
                    &&& error == HistoryError::NotFound
                    &&& old(self)@.store.lookup(id@) is None
                },
            },
    {
        proof {
            use_type_invariant(&*self);
        }
        let mut store = CheckpointStore::new();
        std::mem::swap(&mut store, &mut self.store);
        let found = store.jump_to(id);
        std::mem::swap(&mut store, &mut self.store);
        match found {
            Ok(checkpoint) => Ok(checkpoint),
            Err(_) => Err(HistoryError::NotFound),
        }
    }
}

} // verus!
