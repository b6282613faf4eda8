//! The editor content that the surface keeps up to date between
//! checkpoints: the code being typed, its diagnostics and the working
//! directory.

use crate::types::{diagnostics_view, Diagnostic};
use vstd::prelude::*;

verus! {

/// The current content of the editor.
pub struct EditorState {
    pub current_code: String,
    pub diagnostics: Vec<Diagnostic>,
    pub working_dir: Option<String>,
}

/// The code a new editor opens with.
pub open spec fn initial_code() -> Seq<char> {
    "// Type your OpenSCAD code here\ncube([10, 10, 10]);"@
}

/// The characters of an optional string.
pub open spec fn optional_text(text: Option<String>) -> Option<Seq<char>> {
    match text {
        Some(s) => Some(s@),
        None => None,
    }
}

impl Default for EditorState {
    /// The state of a new editor: the initial code, no diagnostics, no
    /// working directory.
    fn default() -> (state: Self)
        ensures
            state.current_code@ == initial_code(),
            state.diagnostics@.len() == 0,
            state.working_dir is None,
    {
        EditorState {
            current_code: "// Type your OpenSCAD code here\ncube([10, 10, 10]);".to_owned(),
            diagnostics: Vec::new(),
            working_dir: None,
        }
    }
}

/// Replaces the code in `state` by `code`; called whenever the user types.
/// Always succeeds.
pub fn update_editor_state(code: String, state: &mut EditorState) -> (done: Result<(), String>)
    ensures
        done is Ok,
        final(state).current_code@ == code@,
        diagnostics_view(final(state).diagnostics@) == diagnostics_view(old(state).diagnostics@),
        optional_text(final(state).working_dir) == optional_text(old(state).working_dir),
{
    state.current_code = code;
    Ok(())
}

/// Replaces the working directory in `state` by `working_dir`; called when
/// a file is opened or saved. Always succeeds.
pub fn update_working_dir(working_dir: Option<String>, state: &mut EditorState) -> (done: Result<
    (),
    String,
>)
    ensures
        done is Ok,
        optional_text(final(state).working_dir) == optional_text(working_dir),
        final(state).current_code@ == old(state).current_code@,
        diagnostics_view(final(state).diagnostics@) == diagnostics_view(old(state).diagnostics@),
{
    state.working_dir = working_dir;
    Ok(())
}

} // verus!
