use datafusion::error::DataFusionError;
use datafusion::execution::session_state::SessionStateBuilder;
use datafusion::sql::parser::{CopyToSource, Statement};
use synapse::client::SynapseClient;
use synapse::cluster::{Cluster, Field, TableInfo, TopicInfo};
use synapse::config::Config;
use synapse::context::EngineHandle;
use synapse::engine::Engine;
use synapse::error::{EngineError, StatusCode};
use synapse::flight::{
    do_get_sql_info, status_of, unimplemented, FlightVerb, MetadataKind, SynapseSqlService,
    SERVER_VERSION,
};
use synapse::prepare::PreparedStatement;
use synapse::publisher::{update_result, FlushOutcome, SendOutcome};
use synapse::registry::{SchemaRef, TableRef};
use synapse::sql::{SqlIdent, SqlStatement};
use synapse::state::SynapseState;
use synapse::ticket::{SynapseTicket, Task};
use synapse::wire::{decode_ticket, encode_statement_ticket, AnyMessage, TicketCommand};

fn columns() -> Vec<Field> {
    vec![Field::new("a", "Int32", false)]
}

fn service() -> SynapseSqlService {
    let mut state = SynapseState::new(Config::new("c", "s"), Cluster::new());
    state.create_catalog("c", false).unwrap();
    state.create_schema(&SchemaRef::full("c", "s"), false).unwrap();
    let name = state.resolve(&TableRef::bare("t"));
    state.create_table(&name, TableInfo { columns: columns() }, false, false).unwrap();
    let name = state.resolve(&TableRef::bare("topic"));
    state.create_topic(&name, TopicInfo { columns: columns(), capacity: 2 }, false, false).unwrap();
    SynapseSqlService::new(Engine::start(state, EngineHandle { id: 1 }))
}

fn parse(sql: &str, dialect: &str) -> Result<SqlStatement, EngineError> {
    match SessionStateBuilder::new().build().sql_to_statement(sql, dialect) {
        Ok(Statement::CopyTo(copy)) => Ok(match copy.source {
            CopyToSource::Relation(name) => SqlStatement::CopyRelation {
                source: name
                    .0
                    .into_iter()
                    .map(|i| SqlIdent { value: i.value, quote: i.quote_style })
                    .collect(),
                target: copy.target,
            },
            CopyToSource::Query(_) => SqlStatement::CopyQuery { target: copy.target },
        }),
        Ok(_) => Ok(SqlStatement::Other),
        Err(DataFusionError::NotImplemented(text)) => Err(EngineError::Unimplemented(text)),
        Err(e) => Err(EngineError::Plan(e.to_string())),
    }
}

fn put(s: &SynapseSqlService, sql: &str) -> Result<synapse::flight::Upload, synapse::flight::FlightStatus> {
    let dialect = s.engine().session().config().dialect().clone();
    s.do_put_statement_update(parse(sql, &dialect))
}

fn select_a() -> Task {
    Task {
        plan: b"SELECT a FROM c.s.t".to_vec(),
        schema: columns(),
        ordered: true,
        num_rows: Some(0),
        byte_size: None,
    }
}

fn handle_of(ticket: &[u8]) -> Vec<u8> {
    match decode_ticket(ticket).unwrap() {
        TicketCommand::StatementQuery { handle } => handle,
        other => panic!("{:?}", other),
    }
}

#[test]
fn query_lifecycle() {
    let mut s = service();
    let info = s.get_flight_info_statement(select_a(), 0xfeed, 100);
    assert_eq!(info.schema.len(), 1);
    assert_eq!(info.schema[0].name, "a");
    assert_eq!(info.schema[0].data_type, "Int32");
    assert!(info.ordered);
    assert_eq!(info.total_records, Some(0));
    assert_eq!(info.total_bytes, None);
    assert_eq!(s.pending(), 1);
    let handle = handle_of(&info.ticket);
    let task = s.do_get_statement(&handle, 101).unwrap();
    assert_eq!(task.plan, b"SELECT a FROM c.s.t".to_vec());
    assert_eq!(task.schema[0].name, info.schema[0].name);
    assert_eq!(task.schema[0].data_type, info.schema[0].data_type);
    assert_eq!(s.pending(), 0);
    let again = s.do_get_statement(&handle, 101).unwrap_err();
    assert_eq!(again.code, StatusCode::NotFound);
    assert_eq!(again.message, "ticket does not exist or has already been used");
}

#[test]
fn the_ticket_of_a_statement_wraps_the_tracker_ticket() {
    let mut s = service();
    let first = s.sql_query(select_a(), 7, 100);
    let second = s.sql_query(select_a(), 8, 100);
    assert_ne!(first.ticket, second.ticket);
    let handle = handle_of(&first.ticket);
    assert_eq!(SynapseTicket::from_bytes(&handle), Some(SynapseTicket { serial: 0, nonce: 7 }));
    assert_eq!(first.ticket, encode_statement_ticket(&handle));
    assert_ne!(first.ticket, handle);
    let other = handle_of(&second.ticket);
    assert_eq!(SynapseTicket::from_bytes(&other), Some(SynapseTicket { serial: 1, nonce: 8 }));
    assert!(s.has_room());
}

#[test]
fn a_client_reads_the_plan_out_of_the_ticket() {
    let mut s = service();
    let info = s.sql_query(select_a(), 1, 0);
    let client = SynapseClient::connect(s.do_handshake().payload).unwrap();
    let plan = client.query(&vec![Some(info.ticket.clone())]).unwrap();
    assert_eq!(plan, SynapseTicket { serial: 0, nonce: 1 }.to_bytes());
    assert!(s.do_get_fallback(&plan, 1).is_ok());
    assert_eq!(s.do_get_fallback(&plan, 1).unwrap_err().code, StatusCode::NotFound);
}

#[test]
fn malformed_and_late_tickets() {
    let mut s = service();
    let status = s.do_get_statement(b"short", 0).unwrap_err();
    assert_eq!(status.code, StatusCode::InvalidArgument);
    assert_eq!(status.message, "ticket is malformed");
    let status = s.do_get_fallback(&[0u8; 16], 0).unwrap_err();
    assert_eq!(status.code, StatusCode::NotFound);
    let info = s.sql_query(select_a(), 1, 1000);
    let handle = handle_of(&info.ticket);
    let late = s.do_get_statement(&handle, 1000 + 3601).unwrap_err();
    assert_eq!(late.code, StatusCode::NotFound);
    assert_eq!(s.pending(), 0);
    let ticket = SynapseTicket::from_bytes(&handle).unwrap();
    assert_eq!(s.take_ticket(&ticket, 1000).unwrap_err().code, StatusCode::NotFound);
}

#[test]
fn metadata_commands_travel_as_their_own_ticket() {
    let s = service();
    let command = AnyMessage {
        type_url: "type.googleapis.com/arrow.flight.protocol.sql.CommandGetCatalogs".into(),
        value: vec![],
    };
    let info = s.get_flight_info_catalogs(&command);
    assert_eq!(info.kind, MetadataKind::Catalogs);
    match decode_ticket(&info.ticket).unwrap() {
        TicketCommand::Other { type_url } => assert_eq!(type_url, command.type_url),
        other => panic!("{:?}", other),
    }
    let sql_info = AnyMessage {
        type_url: "type.googleapis.com/arrow.flight.protocol.sql.CommandGetSqlInfo".into(),
        value: vec![0x0a, 0x01, 0x00],
    };
    let info = s.get_flight_info_sql_info(&sql_info);
    assert_eq!(info.kind, MetadataKind::SqlInfo);
    match decode_ticket(&info.ticket).unwrap() {
        TicketCommand::Other { type_url } => assert_eq!(type_url, sql_info.type_url),
        other => panic!("{:?}", other),
    }
    assert_eq!(s.get_flight_info_schemas(&command).kind, MetadataKind::DbSchemas);
    assert_eq!(s.get_flight_info_tables(&command).kind, MetadataKind::Tables);
    assert_eq!(s.get_flight_info_tables(&command).ticket, info_ticket(&s, &command));
}

fn info_ticket(s: &SynapseSqlService, command: &AnyMessage) -> Vec<u8> {
    s.get_flight_info_catalogs(command).ticket
}

#[test]
fn a_ticket_that_is_no_envelope_does_not_decode() {
    assert!(decode_ticket(&[0xff, 0xff, 0xff]).is_err());
    match decode_ticket(&[]).unwrap() {
        TicketCommand::Other { type_url } => assert_eq!(type_url, ""),
        other => panic!("{:?}", other),
    }
}

#[test]
fn metadata_rows() {
    let mut s = service();
    assert_eq!(s.do_get_catalogs(), vec!["c".to_string()]);
    let schemas = s.do_get_schemas();
    assert_eq!(schemas.len(), 1);
    assert_eq!((schemas[0].catalog.as_str(), schemas[0].schema.as_str()), ("c", "s"));
    s.engine_mut().session_mut().create_catalog("d", false).unwrap();
    s.engine_mut().session_mut().create_schema(&SchemaRef::full("d", "x"), false).unwrap();
    let mut catalogs = s.do_get_catalogs();
    catalogs.sort();
    assert_eq!(catalogs, vec!["c".to_string(), "d".to_string()]);
    assert_eq!(s.do_get_schemas().len(), 2);
    let mut rows: Vec<(String, String, String, String, usize)> = s
        .do_get_tables()
        .into_iter()
        .map(|r| (r.catalog, r.schema, r.table, r.table_type, r.columns.len()))
        .collect();
    rows.sort();
    assert_eq!(
        rows,
        vec![
            ("c".into(), "s".into(), "t".into(), "TABLE".into(), 1),
            ("c".into(), "s".into(), "topic".into(), "TABLE".into(), 1),
        ]
    );
}

#[test]
fn sql_info_is_filtered_by_code() {
    let name = do_get_sql_info(&vec![0]);
    assert_eq!(name.len(), 1);
    assert_eq!(name[0].code, 0);
    assert_eq!(name[0].value, "synapse");
    let all: Vec<(u32, String)> =
        do_get_sql_info(&vec![]).into_iter().map(|e| (e.code, e.value)).collect();
    assert_eq!(
        all,
        vec![(0, "synapse".to_string()), (1, SERVER_VERSION.to_string()), (2, "1.3".to_string())]
    );
    let some: Vec<u32> = do_get_sql_info(&vec![2, 7, 1, 2]).into_iter().map(|e| e.code).collect();
    assert_eq!(some, vec![1, 2]);
    assert!(do_get_sql_info(&vec![500]).is_empty());
}

#[test]
fn copy_this_to_a_topic_counts_the_rows() {
    let s = service();
    let mut upload = put(&s, "COPY this TO 'c.s.topic'").unwrap();
    assert_eq!(upload.topic, s.engine().topic("c.s.topic").unwrap().object);
    let mut sequences = vec![];
    for rows in [10u64, 20, 30] {
        loop {
            match upload.publisher.send(rows) {
                SendOutcome::Accepted { sequence } => {
                    sequences.push(sequence);
                    break;
                }
                SendOutcome::Full => upload.publisher.commit(1),
                SendOutcome::Failed => panic!("failed"),
            }
        }
    }
    assert_eq!(sequences, vec![0, 1, 2]);
    assert_eq!(upload.publisher.flush(), FlushOutcome::Pending { outstanding: 2 });
    upload.publisher.commit(2);
    assert_eq!(upload.publisher.flush(), FlushOutcome::Done);
    assert_eq!(update_result(upload.publisher.rows()), 60);
}

#[test]
fn other_updates_are_reserved() {
    let s = service();
    for query in [
        "COPY t TO 'c.s.topic'",
        "COPY \"this\" TO 'c.s.topic'",
        "COPY c.this TO 'c.s.topic'",
        "COPY (SELECT 1) TO 'c.s.topic'",
        "INSERT INTO t VALUES (1)",
        "SELECT 1",
    ] {
        let status = put(&s, query).unwrap_err();
        assert_eq!(status.code, StatusCode::Unimplemented, "{}", query);
        assert_eq!(status.message, "only COPY this TO <topic> is served", "{}", query);
    }
    let status = put(&s, "COPY this TO 'c.s.t'").unwrap_err();
    assert_eq!(status.code, StatusCode::NotFound);
    assert_eq!(status.message, "c.s.t");
    let status = put(&s, "COPY this TO 'c.s.missing'").unwrap_err();
    assert_eq!(status.code, StatusCode::NotFound);
    let status = put(&s, "COPY this TO 'a..b'").unwrap_err();
    assert_eq!(status.code, StatusCode::InvalidArgument);
    assert_eq!(status.message, "a..b");
}

#[test]
fn the_error_of_the_parser_is_the_status() {
    let s = service();
    let status = put(&s, "COPY this TO").unwrap_err();
    assert_eq!(status.code, StatusCode::InvalidArgument);
    let status = put(&s, "").unwrap_err();
    assert_eq!(status.code, StatusCode::InvalidArgument);
    assert!(status.message.contains("No SQL statements were provided"), "{}", status.message);
    let status = put(&s, "SELECT 1; SELECT 2").unwrap_err();
    assert_eq!(status.code, StatusCode::Unimplemented);
    assert!(status.message.contains("only supports a single SQL statement"), "{}", status.message);
    let given = s.do_put_statement_update(Err(EngineError::Plan("boom".into()))).unwrap_err();
    assert_eq!(given.code, StatusCode::InvalidArgument);
    assert_eq!(given.message, "boom");
    let other = s.do_put_statement_update(Ok(SqlStatement::Other)).unwrap_err();
    assert_eq!(other.code, StatusCode::Unimplemented);
}

#[test]
fn the_dialect_comes_from_the_session() {
    let mut s = service();
    let odd = s.engine().session().config().clone().into_builder().dialect("klingon".into()).build();
    s.engine_mut().session_mut().with_config(odd);
    let status = put(&s, "COPY this TO 'c.s.topic'").unwrap_err();
    assert_eq!(status.code, StatusCode::InvalidArgument);
    assert!(status.message.contains("Unsupported SQL dialect"), "{}", status.message);
    let pg = s.engine().session().config().clone().into_builder().dialect("PostgreSQL".into()).build();
    s.engine_mut().session_mut().with_config(pg);
    assert!(put(&s, "COPY this TO 'c.s.topic'").is_ok());
}

#[test]
fn tickets_that_were_not_taken_are_evicted() {
    let mut s = service();
    let first = s.sql_query(select_a(), 1, 0);
    let second = s.sql_query(select_a(), 2, 1000);
    assert_eq!(s.pending(), 2);
    assert_eq!(s.evict(3600), 0);
    assert_eq!(s.evict(3601), 1);
    assert_eq!(s.pending(), 1);
    assert_eq!(s.do_get_statement(&handle_of(&first.ticket), 3601).unwrap_err().code, StatusCode::NotFound);
    assert!(s.do_get_statement(&handle_of(&second.ticket), 3601).is_ok());
    assert_eq!(s.evict(u64::MAX), 0);
}

#[test]
fn prepared_statements_are_stored_under_their_handle() {
    let mut s = service();
    let statement = PreparedStatement {
        handle: "h-1".into(),
        plan: vec![1, 2, 3],
        parameter_schema: None,
        result_schema: columns(),
    };
    let reply = s.do_action_create_prepared_statement(statement, vec![9, 9], None);
    assert_eq!(reply.handle, b"h-1".to_vec());
    assert_eq!(reply.dataset_schema, vec![9, 9]);
    assert!(reply.parameter_schema.is_empty());
    assert_eq!(s.prepared("h-1").unwrap().plan, vec![1, 2, 3]);
    assert!(s.prepared("h-2").is_none());
    let with_parameters = PreparedStatement {
        handle: "h-1".into(),
        plan: vec![4],
        parameter_schema: Some(columns()),
        result_schema: columns(),
    };
    let reply = s.do_action_create_prepared_statement(with_parameters, vec![7], Some(vec![5, 6]));
    assert_eq!(reply.parameter_schema, vec![5, 6]);
    assert_eq!(s.prepared("h-1").unwrap().plan, vec![4]);
}

#[test]
fn verbs_that_are_not_served() {
    let status = unimplemented(FlightVerb::GetFlightInfoSubstraitPlan);
    assert_eq!(status.code, StatusCode::Unimplemented);
    assert_eq!(status.message, "get_flight_info_substrait_plan not implemented");
    assert_eq!(
        unimplemented(FlightVerb::DoGetTableTypes).message,
        "do_get_table_types not implemented"
    );
    assert_eq!(
        unimplemented(FlightVerb::GetFlightInfoCrossReference).message,
        "get_flight_info_cross_reference not implemented"
    );
    assert_eq!(
        unimplemented(FlightVerb::GetFlightInfoImportedKeys).message,
        "get_flight_info_imported_keys not implemented"
    );
    assert_eq!(
        unimplemented(FlightVerb::ClosePreparedStatement).message,
        "Implement do_action_close_prepared_statement"
    );
    assert_eq!(
        unimplemented(FlightVerb::CancelQuery).message,
        "Implement do_action_cancel_query"
    );
    assert_eq!(
        unimplemented(FlightVerb::DoPutPreparedStatementUpdate).code,
        StatusCode::Unimplemented
    );
}

#[test]
fn the_handshake_issues_the_token_that_calls_present() {
    let s = service();
    let reply = s.do_handshake();
    assert_eq!(reply.protocol_version, 0);
    assert!(reply.payload.is_empty());
    assert!(s.authorize(Some("Bearer ")).is_ok());
    let s = s.with_token("s3cret").unwrap();
    let reply = s.do_handshake();
    assert_eq!(reply.payload, b"s3cret".to_vec());
    assert_eq!(s.do_handshake().payload, reply.payload);
    let client = SynapseClient::connect(reply.payload).unwrap();
    assert!(s.authorize(Some(client.auth().payload())).is_ok());
    let wrong =
        [None, Some(""), Some("Bearer "), Some("Bearer other"), Some("s3cret"), Some("bearer s3cret")];
    for header in wrong {
        let status = s.authorize(header).unwrap_err();
        assert_eq!(status.code, StatusCode::Unauthenticated);
        assert_eq!(status.message, "the call does not present the token of the handshake");
    }
    assert!(matches!(
        service().with_token("tök"),
        Err(synapse::error::ClientError::InvalidToken)
    ));
    assert!(matches!(
        service().with_token("a\nb"),
        Err(synapse::error::ClientError::InvalidToken)
    ));
}

#[test]
fn statuses_of_engine_errors() {
    let status = status_of(EngineError::AlreadyExists("c.s.t".into()));
    assert_eq!(status.code, StatusCode::AlreadyExists);
    assert_eq!(status.message, "c.s.t");
    let status = status_of(EngineError::Configuration("both".into()));
    assert_eq!(status.code, StatusCode::InvalidArgument);
    let status = status_of(EngineError::Exhausted("none left".into()));
    assert_eq!(status.code, StatusCode::Internal);
    assert_eq!(status.message, "none left");
}
