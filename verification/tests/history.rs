use editor_history::history::{diff_checkpoints, HistoryError, HistoryState};
use editor_history::types::{ChangeType, Diagnostic, DiagnosticSeverity, EditorCheckpoint};

fn record(history: &mut HistoryState, code: &str) -> EditorCheckpoint {
    history.create_checkpoint_at(
        code.to_string(),
        Vec::new(),
        format!("edit {}", code),
        ChangeType::User,
        1_000,
    )
}

fn ids(history: &HistoryState) -> Vec<String> {
    history.get_history().checkpoints.iter().map(|c| c.id.clone()).collect()
}

fn codes(history: &HistoryState) -> Vec<String> {
    history.get_history().checkpoints.iter().map(|c| c.code.clone()).collect()
}

#[test]
fn new_history_is_empty() {
    let history = HistoryState::new();
    let snapshot = history.get_history();
    assert!(snapshot.checkpoints.is_empty());
    assert_eq!(snapshot.cursor, 0);
    assert!(!history.can_undo());
    assert!(!history.can_redo());
}

#[test]
fn empty_history_has_nothing_to_undo_or_redo() {
    let mut history = HistoryState::new();
    assert_eq!(history.undo().unwrap_err(), HistoryError::AtBeginning);
    assert_eq!(history.redo().unwrap_err(), HistoryError::AtEnd);
    assert!(history.get_history().checkpoints.is_empty());
}

#[test]
fn create_returns_the_recorded_checkpoint() {
    let mut history = HistoryState::new();
    let diagnostics = vec![
        Diagnostic {
            severity: DiagnosticSeverity::Error,
            line: Some(3),
            col: None,
            message: "unexpected token".to_string(),
        },
        Diagnostic {
            severity: DiagnosticSeverity::Info,
            line: None,
            col: Some(7),
            message: String::new(),
        },
    ];
    let made = history.create_checkpoint_at(
        "cube(1);".to_string(),
        diagnostics,
        "AI edit".to_string(),
        ChangeType::Ai,
        42,
    );
    assert_eq!(made.id, "0");
    assert_eq!(made.timestamp, 42);
    assert_eq!(made.code, "cube(1);");
    assert_eq!(made.description, "AI edit");
    assert_eq!(made.change_type, ChangeType::Ai);
    assert_eq!(made.diagnostics.len(), 2);
    assert_eq!(made.diagnostics[0].severity, DiagnosticSeverity::Error);
    assert_eq!(made.diagnostics[0].line, Some(3));
    assert_eq!(made.diagnostics[0].col, None);
    assert_eq!(made.diagnostics[0].message, "unexpected token");
    assert_eq!(made.diagnostics[1].severity, DiagnosticSeverity::Info);
    assert_eq!(made.diagnostics[1].line, None);
    assert_eq!(made.diagnostics[1].col, Some(7));
    assert_eq!(made.diagnostics[1].message, "");

    let snapshot = history.get_history();
    assert_eq!(snapshot.checkpoints.len(), 1);
    assert_eq!(snapshot.cursor, 0);
    let stored = &snapshot.checkpoints[0];
    assert_eq!(stored.id, "0");
    assert_eq!(stored.timestamp, 42);
    assert_eq!(stored.code, "cube(1);");
    assert_eq!(stored.description, "AI edit");
    assert_eq!(stored.change_type, ChangeType::Ai);
    assert_eq!(stored.diagnostics.len(), 2);
    assert_eq!(stored.diagnostics[0].message, "unexpected token");
}

#[test]
fn create_accepts_empty_code() {
    let mut history = HistoryState::new();
    let made =
        history.create_checkpoint_at(String::new(), Vec::new(), String::new(), ChangeType::FileLoad, 0);
    assert_eq!(made.code, "");
    assert_eq!(made.description, "");
    assert_eq!(made.change_type, ChangeType::FileLoad);
    assert_eq!(history.get_history().checkpoints.len(), 1);
}

#[test]
fn create_stamps_the_current_time() {
    let mut history = HistoryState::new();
    let made = history.create_checkpoint(
        "sphere(2);".to_string(),
        Vec::new(),
        "Manual save".to_string(),
        ChangeType::User,
    );
    // Later than 2020-01-01 on any sane clock.
    assert!(made.timestamp > 1_577_836_800_000);
    assert_eq!(made.id, "0");
    assert_eq!(made.code, "sphere(2);");
    assert_eq!(history.get_history().checkpoints[0].timestamp, made.timestamp);
}

#[test]
fn each_create_grows_the_history_and_moves_the_cursor_to_the_end() {
    let mut history = HistoryState::new();
    for n in 0..25usize {
        let made = record(&mut history, &format!("v{}", n));
        let snapshot = history.get_history();
        assert_eq!(snapshot.checkpoints.len(), n + 1);
        assert_eq!(snapshot.cursor, n);
        assert_eq!(snapshot.checkpoints[snapshot.cursor].id, made.id);
        assert_eq!(snapshot.checkpoints[snapshot.cursor].code, format!("v{}", n));
    }
}

#[test]
fn length_is_creates_minus_discarded() {
    let mut history = HistoryState::new();
    for n in 0..5 {
        record(&mut history, &format!("v{}", n));
    }
    // 5 created, cursor at 4.
    history.undo().unwrap();
    history.undo().unwrap();
    history.undo().unwrap();
    // cursor at 1: the next create discards 3.
    record(&mut history, "w0");
    assert_eq!(history.get_history().checkpoints.len(), 6 - 3);
    assert_eq!(history.get_history().cursor, 2);
    history.undo().unwrap();
    // cursor at 1: the next create discards 1.
    record(&mut history, "w1");
    assert_eq!(history.get_history().checkpoints.len(), 7 - 4);
    assert_eq!(history.get_history().cursor, 2);
    assert_eq!(codes(&history), vec!["v0", "v1", "w1"]);
}

#[test]
fn identifiers_are_the_decimal_numerals_in_order() {
    let mut history = HistoryState::new();
    let mut seen = Vec::new();
    for n in 0..112 {
        seen.push(record(&mut history, &format!("v{}", n)).id);
    }
    let expected: Vec<String> = (0..112).map(|n: u32| n.to_string()).collect();
    assert_eq!(seen, expected);
    assert_eq!(seen[9], "9");
    assert_eq!(seen[10], "10");
    assert_eq!(seen[99], "99");
    assert_eq!(seen[100], "100");
    assert_eq!(seen[111], "111");
}

#[test]
fn identifiers_are_not_reused_after_truncation() {
    let mut history = HistoryState::new();
    record(&mut history, "a");
    let b = record(&mut history, "b");
    let c = record(&mut history, "c");
    history.undo().unwrap();
    history.undo().unwrap();
    let d = record(&mut history, "d");
    assert_eq!(b.id, "1");
    assert_eq!(c.id, "2");
    assert_eq!(d.id, "3");
    assert_eq!(ids(&history), vec!["0", "3"]);
}

#[test]
fn undo_then_redo_restores_the_current_checkpoint() {
    let mut history = HistoryState::new();
    record(&mut history, "a");
    record(&mut history, "b");
    let c = record(&mut history, "c");
    let before = history.get_history();

    let undone = history.undo().unwrap();
    assert_eq!(undone.id, "1");
    assert_eq!(undone.code, "b");
    assert_eq!(history.get_history().cursor, 1);

    let redone = history.redo().unwrap();
    assert_eq!(redone.id, c.id);
    assert_eq!(redone.code, c.code);
    assert_eq!(redone.timestamp, c.timestamp);
    assert_eq!(redone.description, c.description);
    assert_eq!(redone.change_type, c.change_type);

    let after = history.get_history();
    assert_eq!(after.cursor, before.cursor);
    assert_eq!(ids(&history), vec!["0", "1", "2"]);
}

#[test]
fn undo_returns_the_diagnostics_captured_at_creation() {
    let mut history = HistoryState::new();
    history.create_checkpoint_at(
        "a".to_string(),
        vec![Diagnostic {
            severity: DiagnosticSeverity::Warning,
            line: Some(1),
            col: Some(2),
            message: "unused variable".to_string(),
        }],
        "first".to_string(),
        ChangeType::User,
        1,
    );
    record(&mut history, "b");
    let undone = history.undo().unwrap();
    assert_eq!(undone.diagnostics.len(), 1);
    assert_eq!(undone.diagnostics[0].severity, DiagnosticSeverity::Warning);
    assert_eq!(undone.diagnostics[0].line, Some(1));
    assert_eq!(undone.diagnostics[0].col, Some(2));
    assert_eq!(undone.diagnostics[0].message, "unused variable");
}

#[test]
fn create_after_undo_discards_the_redo_future() {
    let mut history = HistoryState::new();
    let a = record(&mut history, "A");
    let b = record(&mut history, "B");
    let c = record(&mut history, "C");
    history.undo().unwrap();
    history.undo().unwrap();
    assert_eq!(history.get_history().cursor, 0);

    let d = record(&mut history, "D");
    assert_eq!(ids(&history), vec![a.id.clone(), d.id.clone()]);
    assert_eq!(codes(&history), vec!["A", "D"]);
    assert_eq!(history.get_history().cursor, 1);
    assert!(!history.can_redo());
    assert_eq!(history.get_checkpoint_by_id(&b.id).unwrap_err(), HistoryError::NotFound);
    assert_eq!(history.get_checkpoint_by_id(&c.id).unwrap_err(), HistoryError::NotFound);
    assert_eq!(history.restore_to_checkpoint(&b.id).unwrap_err(), HistoryError::NotFound);
    assert_eq!(history.redo().unwrap_err(), HistoryError::AtEnd);
}

#[test]
fn can_undo_is_false_only_at_the_first_checkpoint() {
    let mut history = HistoryState::new();
    record(&mut history, "a");
    record(&mut history, "b");
    record(&mut history, "c");
    assert!(history.can_undo());
    history.undo().unwrap();
    assert!(history.can_undo());
    history.undo().unwrap();
    assert_eq!(history.get_history().cursor, 0);
    assert!(!history.can_undo());
}

#[test]
fn can_redo_is_false_only_at_the_last_checkpoint() {
    let mut history = HistoryState::new();
    record(&mut history, "a");
    record(&mut history, "b");
    record(&mut history, "c");
    assert!(!history.can_redo());
    history.undo().unwrap();
    assert!(history.can_redo());
    history.undo().unwrap();
    assert!(history.can_redo());
    history.redo().unwrap();
    history.redo().unwrap();
    assert_eq!(history.get_history().cursor, 2);
    assert!(!history.can_redo());
}

#[test]
fn redo_at_the_end_fails_and_changes_nothing() {
    let mut history = HistoryState::new();
    record(&mut history, "a");
    record(&mut history, "b");
    assert_eq!(history.redo().unwrap_err(), HistoryError::AtEnd);
    assert_eq!(history.get_history().cursor, 1);
    assert_eq!(ids(&history), vec!["0", "1"]);
}

#[test]
fn undo_on_a_seeded_history_fails_and_changes_nothing() {
    let mut history = HistoryState::new();
    let seed = record(&mut history, "seed");
    assert_eq!(history.undo().unwrap_err(), HistoryError::AtBeginning);
    let snapshot = history.get_history();
    assert_eq!(snapshot.checkpoints.len(), 1);
    assert_eq!(snapshot.cursor, 0);
    assert_eq!(snapshot.checkpoints[0].id, seed.id);
    assert_eq!(snapshot.checkpoints[0].code, "seed");
    assert!(!history.can_undo());
    assert!(!history.can_redo());
}

#[test]
fn restore_moves_the_cursor_without_dropping_checkpoints() {
    let mut history = HistoryState::new();
    let a = record(&mut history, "a");
    let b = record(&mut history, "b");
    let c = record(&mut history, "c");

    let restored = history.restore_to_checkpoint(&a.id).unwrap();
    assert_eq!(restored.id, a.id);
    assert_eq!(restored.code, "a");
    assert_eq!(history.get_history().cursor, 0);
    assert_eq!(ids(&history), vec!["0", "1", "2"]);
    assert!(history.can_redo());

    let later = history.restore_to_checkpoint(&c.id).unwrap();
    assert_eq!(later.id, c.id);
    assert_eq!(later.code, "c");
    assert_eq!(history.get_history().cursor, 2);
    assert_eq!(ids(&history), vec!["0", "1", "2"]);

    let middle = history.restore_to_checkpoint(&b.id).unwrap();
    assert_eq!(middle.code, "b");
    assert_eq!(history.get_history().cursor, 1);
    assert_eq!(history.redo().unwrap().id, c.id);
}

#[test]
fn create_after_restore_discards_what_follows() {
    let mut history = HistoryState::new();
    let a = record(&mut history, "a");
    record(&mut history, "b");
    record(&mut history, "c");
    history.restore_to_checkpoint(&a.id).unwrap();
    let d = record(&mut history, "d");
    assert_eq!(ids(&history), vec![a.id, d.id]);
}

#[test]
fn get_checkpoint_by_id_finds_each_checkpoint() {
    let mut history = HistoryState::new();
    record(&mut history, "a");
    record(&mut history, "b");
    record(&mut history, "c");
    assert_eq!(history.get_checkpoint_by_id("0").unwrap().code, "a");
    assert_eq!(history.get_checkpoint_by_id("1").unwrap().code, "b");
    assert_eq!(history.get_checkpoint_by_id("2").unwrap().code, "c");
    // A lookup moves nothing.
    assert_eq!(history.get_history().cursor, 2);
}

#[test]
fn unknown_identifiers_are_not_found() {
    let mut history = HistoryState::new();
    let a = record(&mut history, "a");
    record(&mut history, "b");
    for unknown in ["", "2", "00", "01", " 0", "0 ", "-1", "zero", "f3a9c2d1-77aa-4e0b-9d3e-5b1c0a2e4f66"] {
        assert_eq!(history.get_checkpoint_by_id(unknown).unwrap_err(), HistoryError::NotFound);
        assert_eq!(history.restore_to_checkpoint(unknown).unwrap_err(), HistoryError::NotFound);
        assert_eq!(history.get_checkpoint_diff(unknown, &a.id).unwrap_err(), HistoryError::NotFound);
        assert_eq!(history.get_checkpoint_diff(&a.id, unknown).unwrap_err(), HistoryError::NotFound);
        assert_eq!(history.get_checkpoint_diff(unknown, unknown).unwrap_err(), HistoryError::NotFound);
    }
    assert_eq!(history.get_history().cursor, 1);
    assert_eq!(ids(&history), vec!["0", "1"]);
}

#[test]
fn lookups_in_an_empty_history_are_not_found() {
    let mut history = HistoryState::new();
    assert_eq!(history.get_checkpoint_by_id("0").unwrap_err(), HistoryError::NotFound);
    assert_eq!(history.restore_to_checkpoint("0").unwrap_err(), HistoryError::NotFound);
    assert_eq!(history.get_checkpoint_diff("0", "0").unwrap_err(), HistoryError::NotFound);
}

#[test]
fn diff_of_an_added_line() {
    let mut history = HistoryState::new();
    let a = record(&mut history, "cube([10,10,10]);");
    let b = record(&mut history, "cube([10,10,10]);\nsphere(5);");

    let forward = history.get_checkpoint_diff(&a.id, &b.id).unwrap();
    assert_eq!(forward.from_id, a.id);
    assert_eq!(forward.to_id, b.id);
    assert_eq!(forward.added_lines, 1);
    assert_eq!(forward.removed_lines, 0);
    assert_eq!(forward.diff, " cube([10,10,10]);\n+sphere(5);\n");

    let backward = history.get_checkpoint_diff(&b.id, &a.id).unwrap();
    assert_eq!(backward.from_id, b.id);
    assert_eq!(backward.to_id, a.id);
    assert_eq!(backward.added_lines, 0);
    assert_eq!(backward.removed_lines, 1);
    assert_eq!(backward.diff, " cube([10,10,10]);\n-sphere(5);\n");
}

#[test]
fn diff_of_a_checkpoint_with_itself_keeps_every_line() {
    let mut history = HistoryState::new();
    let a = record(&mut history, "a\nb\nc\n");
    let same = history.get_checkpoint_diff(&a.id, &a.id).unwrap();
    assert_eq!(same.added_lines, 0);
    assert_eq!(same.removed_lines, 0);
    assert_eq!(same.diff, " a\n b\n c\n");
}

#[test]
fn diff_does_not_move_the_cursor() {
    let mut history = HistoryState::new();
    let a = record(&mut history, "a");
    let b = record(&mut history, "b");
    history.get_checkpoint_diff(&a.id, &b.id).unwrap();
    assert_eq!(history.get_history().cursor, 1);
    assert_eq!(ids(&history), vec!["0", "1"]);
}

#[test]
fn diff_checkpoints_compares_two_values() {
    let from = EditorCheckpoint {
        id: "left".to_string(),
        timestamp: 1,
        code: "x = 1;\ny = 2;".to_string(),
        diagnostics: Vec::new(),
        description: String::new(),
        change_type: ChangeType::Undo,
    };
    let to = EditorCheckpoint {
        id: "right".to_string(),
        timestamp: 2,
        code: "x = 1;\ny = 3;".to_string(),
        diagnostics: Vec::new(),
        description: String::new(),
        change_type: ChangeType::Redo,
    };
    let diff = diff_checkpoints(&from, &to);
    assert_eq!(diff.from_id, "left");
    assert_eq!(diff.to_id, "right");
    assert_eq!(diff.diff, " x = 1;\n-y = 2;\n+y = 3;\n");
    assert_eq!(diff.added_lines, 1);
    assert_eq!(diff.removed_lines, 1);
}

#[test]
fn checkpoints_can_be_cloned() {
    let mut history = HistoryState::new();
    let made = history.create_checkpoint_at(
        "a".to_string(),
        vec![Diagnostic {
            severity: DiagnosticSeverity::Error,
            line: Some(9),
            col: Some(1),
            message: "m".to_string(),
        }],
        "d".to_string(),
        ChangeType::User,
        7,
    );
    let copy = made.clone();
    assert_eq!(copy.id, made.id);
    assert_eq!(copy.timestamp, 7);
    assert_eq!(copy.code, "a");
    assert_eq!(copy.description, "d");
    assert_eq!(copy.change_type, ChangeType::User);
    assert_eq!(copy.diagnostics.len(), 1);
    assert_eq!(copy.diagnostics[0].line, Some(9));
    assert_eq!(copy.diagnostics[0].message, "m");
}
