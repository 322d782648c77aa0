//! The statements of the drill: one insert, and one full scan per table.
//!
//! Both are marked idempotent, so that the database layer may repeat them:
//! the insert writes one value into all three columns of its row, and a
//! second execution leaves the row as the first made it.

use vstd::prelude::*;
use vstd::string::StringExecFns;

verus! {

/// A statement as handed to the database session: the text to prepare, and
/// whether it may be executed more than once without harm.
#[derive(Debug, PartialEq, Eq)]
pub struct Statement {
    /// The statement's text.
    pub text: String,
    /// Whether the prepared statement is to be marked idempotent.
    pub idempotent: bool,
}

/// The text of the insert.
pub open spec fn insert_text() -> Seq<char> {
    "INSERT INTO view_test.tab (p, c, r) VALUES (?, ?, ?)"@
}

/// The text of the scan of `table`.
pub open spec fn select_text(table: Seq<char>) -> Seq<char> {
    "SELECT p, c, r FROM view_test."@ + table
}

/// The name of the base table.
pub fn base_table() -> (name: &'static str)
    ensures
        name@ == "tab"@,
{
    "tab"
}

/// The name of the materialized view.
pub fn view_table() -> (name: &'static str)
    ensures
        name@ == "tab_view"@,
{
    "tab_view"
}

/// The insert that every worker executes, bound to `(value, value, value)`.
pub fn insert_statement() -> (statement: Statement)
    ensures
        statement.text@ == insert_text(),
        statement.idempotent,
{
    Statement {
        text: String::from_str("INSERT INTO view_test.tab (p, c, r) VALUES (?, ?, ?)"),
        idempotent: true,
    }
}

/// The scan of all rows of `table`, without a predicate.
pub fn select_statement(table: &str) -> (statement: Statement)
    ensures
        statement.text@ == select_text(table@),
        statement.idempotent,
{
    let mut text = String::from_str("SELECT p, c, r FROM view_test.");
    text.append(table);
    Statement { text, idempotent: true }
}

} // verus!
