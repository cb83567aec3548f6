//! The boundary to the external SQL parser: the only trusted items of the
//! crate. Splitting raw SQL into statements and rendering AST nodes as text
//! are delegated to the sqlparser crate. What the parser makes of a text
//! depends on the text alone, so the combined result of parsing and
//! classification is given a name, [`mysql_statements`], and every contract
//! above this boundary is stated over that name.

use vstd::prelude::*;
use crate::model::{Insert, InsertView, ParsedStatement};
use sqlparser::ast::{SetExpr, Statement};

verus! {

/// sqlparser's statement type, opaque to the verifier.
#[verifier::external_type_specification]
#[verifier::external_body]
pub struct ExStatement(sqlparser::ast::Statement);

/// What the external MySQL-dialect parser makes of a text: the classified
/// top-level statements (the insert's parts for an `INSERT ... VALUES`,
/// `None` for any other statement), or the parser's error message. Parsing
/// depends on the text alone, so this is a function of the text; nothing
/// else is assumed about it.
pub uninterp spec fn mysql_statements(s: Seq<char>) -> Result<Seq<Option<InsertView>>, Seq<char>>;

/// Relies on sqlparser's `Parser::parse_sql` with the MySQL dialect: it
/// splits the text into top-level statements, here classified by
/// [`classify_statement`], or reports why the text is not valid SQL (the
/// error rendered with its `Display` form). The result is
/// [`mysql_statements`] of the text. Malformed input comes back as `Err`:
/// unlike some earlier sqlparser releases, this version's `GRANT ...
/// GRANTED BY` and MySQL `DIV` paths return parse errors instead of
/// panicking.
#[verifier::external_body]
pub(crate) fn parse_and_classify(sql: &str) -> (r: Result<Vec<ParsedStatement>, String>)
    ensures
        ({
            let m = mysql_statements(sql@);
            match r {
                Ok(ss) => m matches Ok(vs) && ss@.len() == vs.len() && forall|i: int|
                    0 <= i < vs.len() ==> (#[trigger] ss@[i])@ == vs[i],
                Err(msg) => m matches Err(me) && msg@ == me,
            }
        }),
{
    match sqlparser::parser::Parser::parse_sql(&sqlparser::dialect::MySqlDialect {}, sql) {
        Ok(ast) => Ok(ast.iter().map(classify_statement).collect()),
        Err(e) => Err(e.to_string()),
    }
}

/// The classification step of [`parse_and_classify`]. Relies on sqlparser's
/// `ast`: a `Statement::Insert` whose source body is a `SetExpr::Values`
/// carries its table, column names and value rows, and each part is
/// rendered with its `Display` form. Every other statement shape becomes
/// [`ParsedStatement::Other`].
#[verifier::external_body]
fn classify_statement(s: &Statement) -> (r: ParsedStatement) {
    let ins = match s {
        Statement::Insert(ins) => ins,
        _ => return ParsedStatement::Other,
    };
    match ins.source.as_ref().map(|q| q.body.as_ref()) {
        Some(SetExpr::Values(v)) => ParsedStatement::InsertValues(Insert {
            table: ins.table.to_string(),
            columns: ins.columns.iter().map(|c| c.to_string()).collect(),
            rows: v.rows.iter().map(|r| r.iter().map(|e| e.to_string()).collect()).collect(),
        }),
        _ => ParsedStatement::Other,
    }
}

} // verus!
