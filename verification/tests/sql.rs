use datafusion::error::DataFusionError;
use datafusion::execution::session_state::SessionStateBuilder;
use datafusion::sql::parser::{CopyToSource, Statement};
use synapse::error::EngineError;
use synapse::sql::{copy_target, SqlIdent, SqlStatement};

fn parse(sql: &str, dialect: &str) -> Result<SqlStatement, EngineError> {
    match SessionStateBuilder::new().build().sql_to_statement(sql, dialect) {
        Ok(Statement::CopyTo(copy)) => Ok(match copy.source {
            CopyToSource::Relation(name) => SqlStatement::CopyRelation {
                source: name
                    .0
                    .into_iter()
                    .map(|i| SqlIdent { value: i.value, quote: i.quote_style })
                    .collect(),
                target: copy.target,
            },
            CopyToSource::Query(_) => SqlStatement::CopyQuery { target: copy.target },
        }),
        Ok(_) => Ok(SqlStatement::Other),
        Err(DataFusionError::NotImplemented(text)) => Err(EngineError::Unimplemented(text)),
        Err(e) => Err(EngineError::Plan(e.to_string())),
    }
}

#[test]
fn copy_this_to_a_target() {
    let statement = parse("COPY this TO 'c.s.topic'", "generic").unwrap();
    match &statement {
        SqlStatement::CopyRelation { source, target } => {
            assert_eq!(source.len(), 1);
            assert_eq!(source[0].value, "this");
            assert_eq!(source[0].quote, None);
            assert_eq!(target, "c.s.topic");
        }
        other => panic!("{:?}", other),
    }
    assert_eq!(copy_target(&statement).unwrap(), "c.s.topic");
    let bare = parse("COPY this TO topic", "generic").unwrap();
    assert_eq!(copy_target(&bare).unwrap(), "topic");
}

#[test]
fn other_copies_have_no_upload_target() {
    let quoted = parse("COPY \"this\" TO 'x'", "generic").unwrap();
    match &quoted {
        SqlStatement::CopyRelation { source, .. } => assert_eq!(source[0].quote, Some('"')),
        other => panic!("{:?}", other),
    }
    assert!(copy_target(&quoted).is_none());
    let dotted = parse("COPY a.this TO 'x'", "generic").unwrap();
    match &dotted {
        SqlStatement::CopyRelation { source, .. } => assert_eq!(source.len(), 2),
        other => panic!("{:?}", other),
    }
    assert!(copy_target(&dotted).is_none());
    let upper = parse("COPY THIS TO 'x'", "generic").unwrap();
    assert!(copy_target(&upper).is_none());
    let query = parse("COPY (SELECT 1) TO 'x'", "generic").unwrap();
    assert!(matches!(query, SqlStatement::CopyQuery { .. }));
    assert!(copy_target(&query).is_none());
    let select = parse("SELECT a FROM t", "generic").unwrap();
    assert!(matches!(select, SqlStatement::Other));
    assert!(copy_target(&select).is_none());
}

#[test]
fn copy_target_of_statements_written_by_hand() {
    let this = SqlStatement::CopyRelation {
        source: vec![SqlIdent { value: "this".into(), quote: None }],
        target: "t".into(),
    };
    assert_eq!(copy_target(&this).unwrap(), "t");
    let empty_source = SqlStatement::CopyRelation { source: vec![], target: "t".into() };
    assert!(copy_target(&empty_source).is_none());
    let backticked = SqlStatement::CopyRelation {
        source: vec![SqlIdent { value: "this".into(), quote: Some('`') }],
        target: "t".into(),
    };
    assert!(copy_target(&backticked).is_none());
    let that = SqlStatement::CopyRelation {
        source: vec![SqlIdent { value: "that".into(), quote: None }],
        target: "t".into(),
    };
    assert!(copy_target(&that).is_none());
    assert!(copy_target(&SqlStatement::CopyQuery { target: "t".into() }).is_none());
    assert!(copy_target(&SqlStatement::Other).is_none());
}
