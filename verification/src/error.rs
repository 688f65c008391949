//! The failures that the engine reports. None of them ends the program:
//! each leaves the state as it was and becomes a notification.

use vstd::prelude::*;
use vstd::string::StringExecFns;

verus! {

#[derive(Debug, PartialEq)]
pub enum EngineError {
    /// A coordinate or an index lies outside the valid bounds.
    OutOfRange,
    NothingToUndo,
    NothingToRedo,
    /// Paste without an earlier copy or cut.
    EmptyClipboard,
    /// The file holds no sheet at all.
    NoWorksheets,
    /// The only sheet of a workbook cannot be deleted.
    LastSheet,
    /// Reading a sheet failed: the sheet's name and the cause.
    LoadFailed(String, String),
    /// Writing the workbook failed, with the cause.
    SaveFailed(String),
}

/// The text that a failure is shown with.
pub open spec fn error_text(e: EngineError) -> Seq<char> {
    match e {
        EngineError::OutOfRange => "Index out of range"@,
        EngineError::NothingToUndo => "Nothing to undo"@,
        EngineError::NothingToRedo => "Nothing to redo"@,
        EngineError::EmptyClipboard => "Clipboard is empty"@,
        EngineError::NoWorksheets => "No worksheets found in file"@,
        EngineError::LastSheet => "Cannot delete the only sheet"@,
        EngineError::LoadFailed(sheet, cause) => "Unable to read worksheet "@ + sheet@ + ": "@
            + cause@,
        EngineError::SaveFailed(cause) => "Unable to save: "@ + cause@,
    }
}

impl EngineError {
    pub fn message(&self) -> (text: String)
        ensures
            text@ == error_text(*self),
    {
        match self {
            EngineError::OutOfRange => "Index out of range".to_owned(),
            EngineError::NothingToUndo => "Nothing to undo".to_owned(),
            EngineError::NothingToRedo => "Nothing to redo".to_owned(),
            EngineError::EmptyClipboard => "Clipboard is empty".to_owned(),
            EngineError::NoWorksheets => "No worksheets found in file".to_owned(),
            EngineError::LastSheet => "Cannot delete the only sheet".to_owned(),
            EngineError::LoadFailed(sheet, cause) => {
                let mut text = "Unable to read worksheet ".to_owned();
                text.append(sheet.as_str());
                text.append(": ");
                text.append(cause.as_str());
                text
            },
            EngineError::SaveFailed(cause) => {
                let mut text = "Unable to save: ".to_owned();
                text.append(cause.as_str());
                text
            },
        }
    }
}

/// `prefix` with the failure's text behind it.
pub fn describe(prefix: &str, e: &EngineError) -> (text: String)
    ensures
        text@ == prefix@ + error_text(*e),
{
    let mut text = prefix.to_owned();
    let tail = e.message();
    text.append(tail.as_str());
    text
}

} // verus!
