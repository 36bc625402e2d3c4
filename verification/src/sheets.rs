//! The sheet service that holds the overdue charges: its address, the bodies
//! sent to it and how its answers are read.

use vstd::prelude::*;
use crate::http::{error_status, is_error_status, is_success_status, success_status};
use crate::json::{json_rows, parse_sheet, parsed_sheet, rows_json, update_json, update_json_text};

verus! {

/// The address of the sheet service.
pub open spec fn sheet_url() -> Seq<char> {
    "https://logssheetapi.squareweb.app/lateCharges"@
}

/// The address of the sheet service.
pub fn sheet_url_string() -> (url: String)
    ensures
        url@ == sheet_url(),
{
    String::from_str("https://logssheetapi.squareweb.app/lateCharges")
}

/// The body that appends rows: the rows as a JSON array of arrays of strings.
pub fn append_body(rows: &Vec<Vec<String>>) -> (body: String)
    ensures
        body@ == json_rows(rows.deep_view()),
{
    rows_json(rows)
}

/// The body that writes `rows` over the cells of `range`: an object with the
/// fields "data" (the rows) and "range", written compactly with the keys in
/// alphabetical order.
pub fn update_body(rows: &Vec<Vec<String>>, range: &str) -> (body: String)
    ensures
        body@ == update_json_text(rows.deep_view(), range@),
{
    update_json(rows, range)
}

/// Why an operation on the sheet failed.
#[derive(Debug, Clone, Copy, PartialEq, Eq, Structural)]
pub enum SheetError {
    /// The service answered with a client or server error.
    Status(u16),
    /// Appending or updating was not answered with a success.
    UpdateFailed,
    /// Reading was not answered with a success.
    ReadFailed,
    /// Clearing was not answered with a success.
    ClearFailed,
}

/// The outcome of appending or updating rows: only a success status succeeds.
pub fn write_outcome(status: u16) -> (res: Result<(), SheetError>)
    ensures
        is_success_status(status) ==> res is Ok,
        !is_success_status(status) ==> res == Err::<(), SheetError>(SheetError::UpdateFailed),
{
    if success_status(status) {
        Ok(())
    } else {
        Err(SheetError::UpdateFailed)
    }
}

/// The outcome of the status of a read or a clear: a client or server error
/// fails with that status; another status that is not a success fails with
/// `otherwise`.
fn status_outcome(status: u16, otherwise: SheetError) -> (res: Result<(), SheetError>)
    ensures
        is_error_status(status) ==> res == Err::<(), SheetError>(SheetError::Status(status)),
        !is_error_status(status) && !is_success_status(status) ==> res == Err::<(), SheetError>(
            otherwise,
        ),
        is_success_status(status) ==> res is Ok,
{
    if error_status(status) {
        Err(SheetError::Status(status))
    } else if success_status(status) {
        Ok(())
    } else {
        Err(otherwise)
    }
}

/// The outcome of the status of a read.
pub fn read_outcome(status: u16) -> (res: Result<(), SheetError>)
    ensures
        is_error_status(status) ==> res == Err::<(), SheetError>(SheetError::Status(status)),
        !is_error_status(status) && !is_success_status(status) ==> res == Err::<(), SheetError>(
            SheetError::ReadFailed,
        ),
        is_success_status(status) ==> res is Ok,
{
    status_outcome(status, SheetError::ReadFailed)
}

/// The outcome of the status of a clear.
pub fn clear_outcome(status: u16) -> (res: Result<(), SheetError>)
    ensures
        is_error_status(status) ==> res == Err::<(), SheetError>(SheetError::Status(status)),
        !is_error_status(status) && !is_success_status(status) ==> res == Err::<(), SheetError>(
            SheetError::ClearFailed,
        ),
        is_success_status(status) ==> res is Ok,
{
    status_outcome(status, SheetError::ClearFailed)
}

/// The rows of the sheet from the text of a successful read, or serde_json's
/// error where the text is not a JSON array of arrays of strings.
pub fn read_sheet(text: &str) -> (res: Result<Vec<Vec<String>>, serde_json::Error>)
    ensures
        res is Ok <==> parsed_sheet(text@) is Some,
        res matches Ok(rows) ==> rows.deep_view() == parsed_sheet(text@)->0,
{
    parse_sheet(text)
}

} // verus!
