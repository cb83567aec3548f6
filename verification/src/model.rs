//! The plain data the formatter works on: one `INSERT ... VALUES` statement
//! reduced to strings, and the errors formatting can report.

use vstd::prelude::*;

verus! {

/// One parsed `INSERT ... VALUES` statement, reduced to the plain values the
/// formatter reads: the table name, the column identifiers, and the rendered
/// text of every value expression, row by row.
pub struct Insert {
    /// Rendered table name.
    pub table: String,
    /// Rendered column identifiers, in declaration order.
    pub columns: Vec<String>,
    /// Rendered value expressions: one inner vector per `VALUES` row.
    pub rows: Vec<Vec<String>>,
}

/// Mathematical model of an [`Insert`]: every string as its character sequence.
pub struct InsertView {
    /// Table name characters.
    pub table: Seq<char>,
    /// Column identifier characters, per column.
    pub columns: Seq<Seq<char>>,
    /// Value characters, per row and column.
    pub rows: Seq<Seq<Seq<char>>>,
}

impl View for Insert {
    type V = InsertView;

    open spec fn view(&self) -> InsertView {
        InsertView {
            table: self.table@,
            columns: self.columns.deep_view(),
            rows: self.rows.deep_view(),
        }
    }
}

/// A statement is well formed when it has at least one column and every value
/// row holds exactly as many values as there are columns.
pub open spec fn wf_insert(iv: InsertView) -> bool {
    &&& iv.columns.len() > 0
    &&& forall|r: int| 0 <= r < iv.rows.len() ==> (#[trigger] iv.rows[r]).len() == iv.columns.len()
}

impl Insert {
    /// Decides [`wf_insert`] for this statement.
    pub fn check_wf(&self) -> (r: bool)
        ensures
            r == wf_insert(self@),
    {
        if self.columns.len() == 0 {
            return false;
        }
        let mut i: usize = 0;
        while i < self.rows.len()
            invariant
                0 <= i <= self.rows.len(),
                forall|r: int| 0 <= r < i ==> (#[trigger] self@.rows[r]).len() == self@.columns.len(),
                self.columns.len() > 0,
                self@.columns.len() == self.columns.len(),
                self@.rows.len() == self.rows.len(),
            decreases self.rows.len() - i,
        {
            if self.rows[i].len() != self.columns.len() {
                proof {
                    assert(self@.rows[i as int] == self.rows@[i as int].deep_view());
                }
                return false;
            }
            i += 1;
        }
        true
    }
}

/// A top-level statement as the formatter sees it: an `INSERT ... VALUES`
/// carrying its parts, or a statement of any other kind.
pub enum ParsedStatement {
    /// An `INSERT ... VALUES` statement.
    InsertValues(Insert),
    /// Any other statement; the formatter rejects the whole input on it.
    Other,
}

impl View for ParsedStatement {
    type V = Option<InsertView>;

    open spec fn view(&self) -> Option<InsertView> {
        match self {
            ParsedStatement::InsertValues(ins) => Some(ins@),
            ParsedStatement::Other => None,
        }
    }
}

/// Why formatting failed.
#[derive(Debug)]
pub enum FmtError {
    /// The SQL parser rejected the input; the field carries the parser's message.
    ParseError(String),
    /// Some top-level statement is not an `INSERT ... VALUES`.
    UnsupportedStatement,
    /// A value row does not match the column count, a statement has no columns,
    /// or the lexical statement boundaries do not match the parsed statement count.
    StructuralMismatch,
}

impl FmtError {
    /// A human-readable description of the error.
    pub fn message(&self) -> (r: String)
        ensures
            self matches FmtError::ParseError(m) ==> r@ == m@,
            self is UnsupportedStatement ==> r@ == "can't format queries other than INSERT"@,
            self is StructuralMismatch ==> r@ == "statement structure and source text do not agree"@,
    {
        match self {
            FmtError::ParseError(m) => m.clone(),
            FmtError::UnsupportedStatement => "can't format queries other than INSERT".to_owned(),
            FmtError::StructuralMismatch => "statement structure and source text do not agree".to_owned(),
        }
    }
}

} // verus!
