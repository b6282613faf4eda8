//! The values that cross the boundary between the editor surface and the
//! history engine, each with the mathematical view its contracts speak of.

use vstd::prelude::*;

verus! {

/// How serious a diagnostic is.
#[derive(Debug, Clone, Copy, PartialEq, Eq, Structural)]
pub enum DiagnosticSeverity {
    Error,
    Warning,
    Info,
}

/// What kind of action produced a checkpoint.
#[derive(Debug, Clone, Copy, PartialEq, Eq, Structural)]
pub enum ChangeType {
    User,
    Ai,
    FileLoad,
    Undo,
    Redo,
}

/// One diagnostic record captured with a checkpoint.
#[derive(Debug)]
pub struct Diagnostic {
    pub severity: DiagnosticSeverity,
    pub line: Option<i32>,
    pub col: Option<i32>,
    pub message: String,
}

/// The view of a [`Diagnostic`]: the same record with its message as a
/// sequence of characters.
pub struct DiagnosticView {
    pub severity: DiagnosticSeverity,
    pub line: Option<i32>,
    pub col: Option<i32>,
    pub message: Seq<char>,
}

impl View for Diagnostic {
    type V = DiagnosticView;

    open spec fn view(&self) -> DiagnosticView {
        DiagnosticView {
            severity: self.severity,
            line: self.line,
            col: self.col,
            message: self.message@,
        }
    }
}

impl Clone for Diagnostic {
    fn clone(&self) -> (copy: Self)
        ensures
            copy@ == self@,
    {
        Diagnostic {
            severity: self.severity,
            line: self.line,
            col: self.col,
            message: self.message.clone(),
        }
    }
}

/// The views of a sequence of diagnostics, in order.
pub open spec fn diagnostics_view(items: Seq<Diagnostic>) -> Seq<DiagnosticView> {
    Seq::new(items.len(), |i: int| items[i]@)
}

/// Copies a list of diagnostics, record by record.
pub fn clone_diagnostics(items: &Vec<Diagnostic>) -> (copy: Vec<Diagnostic>)
    ensures
        diagnostics_view(copy@) == diagnostics_view(items@),
{
    let mut copy: Vec<Diagnostic> = Vec::new();
    let mut i: usize = 0;
    while i < items.len()
        invariant
            i <= items.len(),
            copy.len() == i,
            forall|k: int| 0 <= k < i ==> copy[k]@ == items[k]@,
        decreases items.len() - i,
    {
        copy.push(items[i].clone());
        i += 1;
    }
    assert(diagnostics_view(copy@) =~= diagnostics_view(items@));
    copy
}

/// An immutable snapshot of the document at one point in its history.
#[derive(Debug)]
pub struct EditorCheckpoint {
    pub id: String,
    pub timestamp: i64,
    pub code: String,
    pub diagnostics: Vec<Diagnostic>,
    pub description: String,
    pub change_type: ChangeType,
}

/// The view of an [`EditorCheckpoint`].
pub struct CheckpointView {
    pub id: Seq<char>,
    pub timestamp: i64,
    pub code: Seq<char>,
    pub diagnostics: Seq<DiagnosticView>,
    pub description: Seq<char>,
    pub change_type: ChangeType,
}

impl View for EditorCheckpoint {
    type V = CheckpointView;

    open spec fn view(&self) -> CheckpointView {
        CheckpointView {
            id: self.id@,
            timestamp: self.timestamp,
            code: self.code@,
            diagnostics: diagnostics_view(self.diagnostics@),
            description: self.description@,
            change_type: self.change_type,
        }
    }
}

impl Clone for EditorCheckpoint {
    fn clone(&self) -> (copy: Self)
        ensures
            copy@ == self@,
    {
        EditorCheckpoint {
            id: self.id.clone(),
            timestamp: self.timestamp,
            code: self.code.clone(),
            diagnostics: clone_diagnostics(&self.diagnostics),
            description: self.description.clone(),
            change_type: self.change_type,
        }
    }
}

/// The views of a sequence of checkpoints, in order.
pub open spec fn checkpoints_view(items: Seq<EditorCheckpoint>) -> Seq<CheckpointView> {
    Seq::new(items.len(), |i: int| items[i]@)
}

/// Copies a list of checkpoints, snapshot by snapshot.
pub fn clone_checkpoints(items: &Vec<EditorCheckpoint>) -> (copy: Vec<EditorCheckpoint>)
    ensures
        checkpoints_view(copy@) == checkpoints_view(items@),
{
    let mut copy: Vec<EditorCheckpoint> = Vec::new();
    let mut i: usize = 0;
    while i < items.len()
        invariant
            i <= items.len(),
            copy.len() == i,
            forall|k: int| 0 <= k < i ==> copy[k]@ == items[k]@,
        decreases items.len() - i,
    {
        copy.push(items[i].clone());
        i += 1;
    }
    assert(checkpoints_view(copy@) =~= checkpoints_view(items@));
    copy
}

/// The line-based difference between the code of two checkpoints.
#[derive(Debug)]
pub struct CheckpointDiff {
    pub from_id: String,
    pub to_id: String,
    pub diff: String,
    pub added_lines: usize,
    pub removed_lines: usize,
}

/// The view of a [`CheckpointDiff`].
pub struct DiffView {
    pub from_id: Seq<char>,
    pub to_id: Seq<char>,
    pub diff: Seq<char>,
    pub added_lines: nat,
    pub removed_lines: nat,
}

impl View for CheckpointDiff {
    type V = DiffView;

    open spec fn view(&self) -> DiffView {
        DiffView {
            from_id: self.from_id@,
            to_id: self.to_id@,
            diff: self.diff@,
            added_lines: self.added_lines as nat,
            removed_lines: self.removed_lines as nat,
        }
    }
}

impl Clone for CheckpointDiff {
    fn clone(&self) -> (copy: Self)
        ensures
            copy@ == self@,
    {
        CheckpointDiff {
            from_id: self.from_id.clone(),
            to_id: self.to_id.clone(),
            diff: self.diff.clone(),
            added_lines: self.added_lines,
            removed_lines: self.removed_lines,
        }
    }
}

} // verus!
