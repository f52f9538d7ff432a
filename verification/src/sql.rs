//! SQL statements as far as the protocol layer looks into them.
//!
//! Parsing is the SQL library's work, and the caller's to invoke: the
//! service takes the statement that the parser made of a text, or the
//! parser's error. Of a parsed statement the service reads one thing:
//! whether it is `COPY this TO <topic>`, the statement that feeds the
//! batches of the current upload into a topic.

use crate::error::{EngineError, EngineErrorView};
use vstd::prelude::*;

verus! {

/// An identifier of a statement: its text and the quote it was written in, if any.
#[derive(Debug)]
pub struct SqlIdent {
    pub value: String,
    pub quote: Option<char>,
}

/// A parsed statement, as far as the service tells statements apart.
#[derive(Debug)]
pub enum SqlStatement {
    /// `COPY <relation> TO <target>`, the relation as its dotted parts.
    CopyRelation { source: Vec<SqlIdent>, target: String },
    /// `COPY (<query>) TO <target>`.
    CopyQuery { target: String },
    /// Any other statement.
    Other,
}

/// What a [`SqlIdent`] says, as plain values.
pub struct SqlIdentView {
    pub value: Seq<char>,
    pub quote: Option<char>,
}

/// What a [`SqlStatement`] says, as plain values.
pub enum SqlStatementView {
    CopyRelation { source: Seq<SqlIdentView>, target: Seq<char> },
    CopyQuery { target: Seq<char> },
    Other,
}

impl View for SqlIdent {
    type V = SqlIdentView;

    open spec fn view(&self) -> SqlIdentView {
        SqlIdentView { value: self.value@, quote: self.quote }
    }
}

/// The views of a list of identifiers.
pub open spec fn ident_views(s: Seq<SqlIdent>) -> Seq<SqlIdentView> {
    Seq::new(s.len(), |i: int| s[i]@)
}

impl View for SqlStatement {
    type V = SqlStatementView;

    open spec fn view(&self) -> SqlStatementView {
        match self {
            SqlStatement::CopyRelation { source, target } => SqlStatementView::CopyRelation {
                source: ident_views(source@),
                target: target@,
            },
            SqlStatement::CopyQuery { target } => SqlStatementView::CopyQuery { target: target@ },
            SqlStatement::Other => SqlStatementView::Other,
        }
    }
}

/// The view of a statement or of the error in its place.
pub open spec fn statement_result(r: Result<SqlStatement, EngineError>) -> Result<
    SqlStatementView,
    EngineErrorView,
> {
    match r {
        Ok(s) => Ok(s@),
        Err(e) => Err(e@),
    }
}

/// Whether the statement is `COPY this TO <target>`: a copy whose source is
/// the relation of the single unquoted name `this`.
pub open spec fn is_copy_this(s: SqlStatementView) -> bool {
    &&& s matches SqlStatementView::CopyRelation { source, .. }
    &&& source.len() == 1
    &&& source[0].value == "this"@
    &&& source[0].quote is None
}

/// The target of the statement if it is `COPY this TO <target>`.
pub fn copy_target(statement: &SqlStatement) -> (target: Option<&String>)
    ensures
        match target {
            Some(t) => {
                &&& is_copy_this(statement@)
                &&& statement@ matches SqlStatementView::CopyRelation { target: named, .. }
                &&& t@ == named
            },
            None => !is_copy_this(statement@),
        },
{
    match statement {
        SqlStatement::CopyRelation { source, target } => {
            if source.len() != 1 {
                return None;
            }
            let this = "this".to_owned();
            if source[0].value == this && source[0].quote.is_none() {
                Some(target)
            } else {
                None
            }
        },
        _ => None,
    }
}

} // verus!
