//! The Flight SQL adapter: what each verb of the protocol does to the
//! service's state and what it answers, as plain values.
//!
//! A statement is answered in two phases. `GetFlightInfo` stores the planned
//! task and answers with its schema and a ticket; `DoGet` takes the ticket,
//! once, and hands the task out for streaming. Metadata commands travel as
//! their own ticket and are answered from the registry.

use crate::cluster::{clone_fields, Definition, Field, ObjectId};
use crate::client::{bearer_text, token_ok, BearerAuth, SynapseClient};
use crate::context::ContextView;
use crate::engine::{topic_capacity, topic_of, Engine};
use crate::error::{ClientError, EngineError, EngineErrorView, StatusCode};
use crate::keyed::lists;
use crate::prepare::{PreparedStatement, PreparedStatements};
use crate::publisher::{Publisher, PublisherView};
use crate::registry::{name_views, schema_views, table_views, Id, ResolvedSchema, TableKey};
use crate::sql::{copy_target, is_copy_this, statement_result, SqlStatement, SqlStatementView};
use crate::ticket::{
    deadline_of, lemma_put_then_take, lemma_take_once, lemma_ticket_round_trip, parse_ticket,
    ticket_bytes, Pending, SynapseTicket, Task, TicketTracker, TrackerView,
};
use crate::wire::{
    any_decoding, any_encoding, decoded_envelope, encode_command_ticket,
    encode_statement_ticket, statement_command, statement_ticket_encoding, ticket_decoding,
    AnyMessage,
};
use vstd::prelude::*;
use vstd::string::{StrSliceExecFns, StringExecFns};
use vstd::utf8::{encode_utf8, encode_utf8_decode_utf8};

verus! {

/// The name the server gives itself in its SQL info.
pub const SERVER_NAME: &'static str = "synapse";

/// The version the server gives itself in its SQL info.
pub const SERVER_VERSION: &'static str = "0.1.0";

/// The version of the columnar format that the server speaks.
pub const ARROW_VERSION: &'static str = "1.3";

/// The SQL info code of the server's name.
pub const SQL_INFO_SERVER_NAME: u32 = 0;

/// The SQL info code of the server's version.
pub const SQL_INFO_SERVER_VERSION: u32 = 1;

/// The SQL info code of the version of the columnar format.
pub const SQL_INFO_ARROW_VERSION: u32 = 2;

/// A status that a call is closed with.
#[derive(Debug)]
pub struct FlightStatus {
    pub code: StatusCode,
    pub message: String,
}

/// The answer to `GetFlightInfo` for a statement: one endpoint with the
/// ticket, the schema of the result, and the plan's estimates.
#[derive(Debug)]
pub struct StatementInfo {
    pub ticket: Vec<u8>,
    pub schema: Vec<Field>,
    pub ordered: bool,
    pub total_records: Option<u64>,
    pub total_bytes: Option<u64>,
}

/// The metadata that a command asks for.
#[derive(Clone, Copy, Debug, PartialEq, Eq, Structural)]
pub enum MetadataKind {
    Catalogs,
    DbSchemas,
    Tables,
    SqlInfo,
}

/// The answer to `GetFlightInfo` for a metadata command: one endpoint
/// whose ticket is the command itself.
#[derive(Debug)]
pub struct MetadataInfo {
    pub ticket: Vec<u8>,
    pub kind: MetadataKind,
}

/// The answer to a handshake.
#[derive(Debug)]
pub struct HandshakeReply {
    pub protocol_version: u64,
    pub payload: Vec<u8>,
}

/// A row of the answer to `GetTables`.
#[derive(Debug)]
pub struct TableRow {
    pub catalog: Id,
    pub schema: Id,
    pub table: Id,
    pub table_type: String,
    pub columns: Vec<Field>,
}

/// A row of the answer to `GetSqlInfo`.
#[derive(Debug)]
pub struct SqlInfoEntry {
    pub code: u32,
    pub value: String,
}

/// An upload into a topic that `DoPut` has opened.
#[derive(Debug)]
pub struct Upload {
    pub topic: ObjectId,
    pub publisher: Publisher,
}

/// The answer to the action that creates a prepared statement.
#[derive(Debug)]
pub struct PreparedReply {
    pub handle: Vec<u8>,
    pub dataset_schema: Vec<u8>,
    pub parameter_schema: Vec<u8>,
}

/// The verbs of the protocol that this release does not serve.
#[derive(Clone, Copy, Debug, PartialEq, Eq, Structural)]
pub enum FlightVerb {
    GetFlightInfoSubstraitPlan,
    GetFlightInfoPreparedStatement,
    GetFlightInfoTableTypes,
    GetFlightInfoPrimaryKeys,
    GetFlightInfoExportedKeys,
    GetFlightInfoImportedKeys,
    GetFlightInfoCrossReference,
    GetFlightInfoXdbcTypeInfo,
    DoGetPreparedStatement,
    DoGetTableTypes,
    DoGetPrimaryKeys,
    DoGetExportedKeys,
    DoGetImportedKeys,
    DoGetCrossReference,
    DoGetXdbcTypeInfo,
    DoPutSubstraitPlan,
    DoPutPreparedStatementQuery,
    DoPutPreparedStatementUpdate,
    ClosePreparedStatement,
    CreatePreparedSubstraitPlan,
    BeginTransaction,
    EndTransaction,
    BeginSavepoint,
    EndSavepoint,
    CancelQuery,
}

/// The Flight SQL service: the engine, the pending tasks and the prepared statements.
#[derive(Debug)]
pub struct SynapseSqlService {
    engine: Engine,
    tickets: TicketTracker,
    statements: PreparedStatements,
    token: String,
}

/// What a [`SynapseSqlService`] holds, as plain values.
pub struct ServiceView {
    pub engine: ContextView,
    pub tickets: TrackerView,
    pub statements: Map<Seq<char>, PreparedStatement>,
    pub token: Seq<char>,
}

impl View for SynapseSqlService {
    type V = ServiceView;

    closed spec fn view(&self) -> ServiceView {
        ServiceView {
            engine: self.engine@,
            tickets: self.tickets@,
            statements: self.statements@,
            token: self.token@,
        }
    }
}

/// The message of the status for a call without the token.
pub open spec fn unauthenticated_message() -> Seq<char> {
    "the call does not present the token of the handshake"@
}

/// The message of the status for a ticket that names no task.
pub open spec fn ticket_not_found_message() -> Seq<char> {
    "ticket does not exist or has already been used"@
}

/// The message of the status for a ticket whose bytes spell no ticket.
pub open spec fn malformed_ticket_message() -> Seq<char> {
    "ticket is malformed"@
}

/// The message of the status for an update that is no upload into a topic.
pub open spec fn reserved_update_message() -> Seq<char> {
    "only COPY this TO <topic> is served"@
}

/// The text that an engine error carries.
pub open spec fn error_text(e: EngineErrorView) -> Seq<char> {
    match e {
        EngineErrorView::CatalogNotFound(t) => t,
        EngineErrorView::SchemaNotFound(t) => t,
        EngineErrorView::TableNotFound(t) => t,
        EngineErrorView::AlreadyExists(t) => t,
        EngineErrorView::Plan(t) => t,
        EngineErrorView::Unimplemented(t) => t,
        EngineErrorView::Configuration(t) => t,
        EngineErrorView::Exhausted(t) => t,
    }
}

/// The status code that an engine error is reported under.
pub open spec fn error_code(e: EngineErrorView) -> StatusCode {
    match e {
        EngineErrorView::CatalogNotFound(_) => StatusCode::NotFound,
        EngineErrorView::SchemaNotFound(_) => StatusCode::NotFound,
        EngineErrorView::TableNotFound(_) => StatusCode::NotFound,
        EngineErrorView::AlreadyExists(_) => StatusCode::AlreadyExists,
        EngineErrorView::Plan(_) => StatusCode::InvalidArgument,
        EngineErrorView::Unimplemented(_) => StatusCode::Unimplemented,
        EngineErrorView::Configuration(_) => StatusCode::InvalidArgument,
        EngineErrorView::Exhausted(_) => StatusCode::Internal,
    }
}

/// The status that an engine error is reported as.
pub fn status_of(e: EngineError) -> (status: FlightStatus)
    ensures
        status.code == error_code(e@),
        status.message@ == error_text(e@),
{
    match e {
        EngineError::CatalogNotFound(t) => FlightStatus { code: StatusCode::NotFound, message: t },
        EngineError::SchemaNotFound(t) => FlightStatus { code: StatusCode::NotFound, message: t },
        EngineError::TableNotFound(t) => FlightStatus { code: StatusCode::NotFound, message: t },
        EngineError::AlreadyExists(t) => FlightStatus {
            code: StatusCode::AlreadyExists,
            message: t,
        },
        EngineError::Plan(t) => FlightStatus { code: StatusCode::InvalidArgument, message: t },
        EngineError::Unimplemented(t) => FlightStatus {
            code: StatusCode::Unimplemented,
            message: t,
        },
        EngineError::Configuration(t) => FlightStatus {
            code: StatusCode::InvalidArgument,
            message: t,
        },
        EngineError::Exhausted(t) => FlightStatus { code: StatusCode::Internal, message: t },
    }
}

/// The message that a verb is refused with.
pub open spec fn refusal_message(verb: FlightVerb) -> Seq<char> {
    match verb {
        FlightVerb::GetFlightInfoSubstraitPlan => "get_flight_info_substrait_plan not implemented"@,
        FlightVerb::GetFlightInfoPreparedStatement => "get_flight_info_prepared_statement not implemented"@,
        FlightVerb::GetFlightInfoTableTypes => "get_flight_info_table_types not implemented"@,
        FlightVerb::GetFlightInfoPrimaryKeys => "get_flight_info_primary_keys not implemented"@,
        FlightVerb::GetFlightInfoExportedKeys => "get_flight_info_exported_keys not implemented"@,
        FlightVerb::GetFlightInfoImportedKeys => "get_flight_info_imported_keys not implemented"@,
        FlightVerb::GetFlightInfoCrossReference => "get_flight_info_cross_reference not implemented"@,
        FlightVerb::GetFlightInfoXdbcTypeInfo => "get_flight_info_xdbc_type_info not implemented"@,
        FlightVerb::DoGetPreparedStatement => "do_get_prepared_statement not implemented"@,
        FlightVerb::DoGetTableTypes => "do_get_table_types not implemented"@,
        FlightVerb::DoGetPrimaryKeys => "do_get_primary_keys not implemented"@,
        FlightVerb::DoGetExportedKeys => "do_get_exported_keys not implemented"@,
        FlightVerb::DoGetImportedKeys => "do_get_imported_keys not implemented"@,
        FlightVerb::DoGetCrossReference => "do_get_cross_reference not implemented"@,
        FlightVerb::DoGetXdbcTypeInfo => "do_get_xdbc_type_info not implemented"@,
        FlightVerb::DoPutSubstraitPlan => "do_put_substrait_plan not implemented"@,
        FlightVerb::DoPutPreparedStatementQuery => "do_put_prepared_statement_query not implemented"@,
        FlightVerb::DoPutPreparedStatementUpdate => "do_put_prepared_statement_update not implemented"@,
        FlightVerb::ClosePreparedStatement => "Implement do_action_close_prepared_statement"@,
        FlightVerb::CreatePreparedSubstraitPlan => "Implement do_action_create_prepared_substrait_plan"@,
        FlightVerb::BeginTransaction => "Implement do_action_begin_transaction"@,
        FlightVerb::EndTransaction => "Implement do_action_end_transaction"@,
        FlightVerb::BeginSavepoint => "Implement do_action_begin_savepoint"@,
        FlightVerb::EndSavepoint => "Implement do_action_end_savepoint"@,
        FlightVerb::CancelQuery => "Implement do_action_cancel_query"@,
    }
}

/// The status that a verb which is not served is closed with.
pub fn unimplemented(verb: FlightVerb) -> (status: FlightStatus)
    ensures
        status.code == StatusCode::Unimplemented,
        status.message@ == refusal_message(verb),
{
    let message = match verb {
        FlightVerb::GetFlightInfoSubstraitPlan => "get_flight_info_substrait_plan not implemented",
        FlightVerb::GetFlightInfoPreparedStatement => "get_flight_info_prepared_statement not implemented",
        FlightVerb::GetFlightInfoTableTypes => "get_flight_info_table_types not implemented",
        FlightVerb::GetFlightInfoPrimaryKeys => "get_flight_info_primary_keys not implemented",
        FlightVerb::GetFlightInfoExportedKeys => "get_flight_info_exported_keys not implemented",
        FlightVerb::GetFlightInfoImportedKeys => "get_flight_info_imported_keys not implemented",
        FlightVerb::GetFlightInfoCrossReference => "get_flight_info_cross_reference not implemented",
        FlightVerb::GetFlightInfoXdbcTypeInfo => "get_flight_info_xdbc_type_info not implemented",
        FlightVerb::DoGetPreparedStatement => "do_get_prepared_statement not implemented",
        FlightVerb::DoGetTableTypes => "do_get_table_types not implemented",
        FlightVerb::DoGetPrimaryKeys => "do_get_primary_keys not implemented",
        FlightVerb::DoGetExportedKeys => "do_get_exported_keys not implemented",
        FlightVerb::DoGetImportedKeys => "do_get_imported_keys not implemented",
        FlightVerb::DoGetCrossReference => "do_get_cross_reference not implemented",
        FlightVerb::DoGetXdbcTypeInfo => "do_get_xdbc_type_info not implemented",
        FlightVerb::DoPutSubstraitPlan => "do_put_substrait_plan not implemented",
        FlightVerb::DoPutPreparedStatementQuery => "do_put_prepared_statement_query not implemented",
        FlightVerb::DoPutPreparedStatementUpdate => "do_put_prepared_statement_update not implemented",
        FlightVerb::ClosePreparedStatement => "Implement do_action_close_prepared_statement",
        FlightVerb::CreatePreparedSubstraitPlan => "Implement do_action_create_prepared_substrait_plan",
        FlightVerb::BeginTransaction => "Implement do_action_begin_transaction",
        FlightVerb::EndTransaction => "Implement do_action_end_transaction",
        FlightVerb::BeginSavepoint => "Implement do_action_begin_savepoint",
        FlightVerb::EndSavepoint => "Implement do_action_end_savepoint",
        FlightVerb::CancelQuery => "Implement do_action_cancel_query",
    };
    FlightStatus { code: StatusCode::Unimplemented, message: message.to_owned() }
}

/// Whether a request for the codes `codes` asks for the entry of code
/// `code`: a request without codes asks for every entry.
pub open spec fn wanted(codes: Seq<u32>, code: u32) -> bool {
    codes.len() == 0 || codes.contains(code)
}

/// The entry of code `code` with the text `value`, if the request asks for it.
pub open spec fn info_row(codes: Seq<u32>, code: u32, value: Seq<char>) -> Seq<
    (u32, Seq<char>),
> {
    if wanted(codes, code) {
        seq![(code, value)]
    } else {
        Seq::<(u32, Seq<char>)>::empty()
    }
}

/// The rows that a request for the codes `codes` is answered with: of the
/// server's name, its version and the version of the columnar format,
/// those that are asked for, in this order.
pub open spec fn sql_info_rows(codes: Seq<u32>) -> Seq<(u32, Seq<char>)> {
    info_row(codes, SQL_INFO_SERVER_NAME, SERVER_NAME@) + info_row(
        codes,
        SQL_INFO_SERVER_VERSION,
        SERVER_VERSION@,
    ) + info_row(codes, SQL_INFO_ARROW_VERSION, ARROW_VERSION@)
}

/// The rows of a list of SQL info entries, as plain values.
pub open spec fn entry_views(s: Seq<SqlInfoEntry>) -> Seq<(u32, Seq<char>)> {
    Seq::new(s.len(), |i: int| (s[i].code, s[i].value@))
}

/// The qualified names of the rows of a list.
pub open spec fn row_keys(s: Seq<TableRow>) -> Seq<TableKey> {
    Seq::new(s.len(), |i: int| (s[i].catalog@, s[i].schema@, s[i].table@))
}

fn asks_for(codes: &Vec<u32>, code: u32) -> (b: bool)
    ensures
        b == wanted(codes@, code),
{
    if codes.len() == 0 {
        return true;
    }
    let mut i: usize = 0;
    while i < codes.len()
        invariant
            i <= codes.len(),
            forall|j: int| 0 <= j < i ==> codes[j] != code,
        decreases codes.len() - i,
    {
        if codes[i] == code {
            return true;
        }
        i = i + 1;
    }
    false
}

/// The rows of the answer to `GetSqlInfo` for the requested codes.
pub fn do_get_sql_info(codes: &Vec<u32>) -> (rows: Vec<SqlInfoEntry>)
    ensures
        entry_views(rows@) == sql_info_rows(codes@),
{
    let mut rows: Vec<SqlInfoEntry> = Vec::new();
    if asks_for(codes, SQL_INFO_SERVER_NAME) {
        rows.push(SqlInfoEntry { code: SQL_INFO_SERVER_NAME, value: SERVER_NAME.to_owned() });
    }
    assert(entry_views(rows@) =~= info_row(codes@, SQL_INFO_SERVER_NAME, SERVER_NAME@));
    let ghost first = entry_views(rows@);
    if asks_for(codes, SQL_INFO_SERVER_VERSION) {
        rows.push(
            SqlInfoEntry { code: SQL_INFO_SERVER_VERSION, value: SERVER_VERSION.to_owned() },
        );
    }
    assert(entry_views(rows@) =~= first + info_row(
        codes@,
        SQL_INFO_SERVER_VERSION,
        SERVER_VERSION@,
    ));
    let ghost second = entry_views(rows@);
    if asks_for(codes, SQL_INFO_ARROW_VERSION) {
        rows.push(SqlInfoEntry { code: SQL_INFO_ARROW_VERSION, value: ARROW_VERSION.to_owned() });
    }
    assert(entry_views(rows@) =~= second + info_row(
        codes@,
        SQL_INFO_ARROW_VERSION,
        ARROW_VERSION@,
    ));
    rows
}

/// The target of the upload that a parsed update asks for, or why it asks
/// for none: the parser's error, or that the statement is not `COPY this TO <topic>`.
pub open spec fn upload_target(parsed: Result<SqlStatementView, EngineErrorView>) -> Result<
    Seq<char>,
    EngineErrorView,
> {
    match parsed {
        Err(e) => Err(e),
        Ok(statement) => match statement {
            SqlStatementView::CopyRelation { target, .. } => if is_copy_this(statement) {
                Ok(target)
            } else {
                Err(EngineErrorView::Unimplemented(reserved_update_message()))
            },
            _ => Err(EngineErrorView::Unimplemented(reserved_update_message())),
        },
    }
}

/// A publisher that has accepted nothing, for a buffer of `capacity` batches.
pub open spec fn fresh_publisher(capacity: nat) -> PublisherView {
    PublisherView { capacity, accepted: 0, committed: 0, rows: 0, failure: None }
}

/// The topic that a parsed update uploads into, or the error it is refused with.
pub open spec fn upload_topic(
    engine: ContextView,
    parsed: Result<SqlStatementView, EngineErrorView>,
) -> Result<ObjectId, EngineErrorView> {
    match upload_target(parsed) {
        Err(e) => Err(e),
        Ok(target) => topic_of(engine.state, target),
    }
}

impl ServiceView {
    /// The answer to a statement whose task is `task`, and the service afterwards.
    pub open spec fn sql_query(self, task: Task, nonce: u64, now: u64) -> (
        ServiceView,
        SynapseTicket,
    ) {
        let (tickets, ticket) = self.tickets.put(task, nonce, now);
        (ServiceView { tickets, ..self }, ticket)
    }

    /// Taking a ticket: the service afterwards and the task, if the ticket named one.
    pub open spec fn take_ticket(self, ticket: SynapseTicket, now: u64) -> (
        ServiceView,
        Option<Task>,
    ) {
        let (tickets, task) = self.tickets.take(ticket, now);
        (ServiceView { tickets, ..self }, task)
    }

    /// Dropping the tickets whose time is over at `now`.
    pub open spec fn evict(self, now: u64) -> ServiceView {
        ServiceView { tickets: self.tickets.evict(now), ..self }
    }
}

impl SynapseSqlService {
    /// The service's invariant: those of its parts.
    pub closed spec fn wf(&self) -> bool {
        &&& self.engine.wf()
        &&& self.tickets.wf()
        &&& self.statements.wf()
        &&& token_ok(self.token@)
    }

    /// A well-formed service has a well-formed tracker view.
    pub proof fn lemma_wf_view(&self)
        requires
            self.wf(),
        ensures
            self@.tickets.wf(),
    {
        self.tickets.lemma_wf_view();
    }

    /// A service over `engine`, without pending tasks or prepared
    /// statements. Unused tickets are kept for the time that the session's
    /// configuration says.
    pub fn new(engine: Engine) -> (service: SynapseSqlService)
        requires
            engine.wf(),
        ensures
            service.wf(),
            service@.engine == engine@,
            service@.tickets.pending == Map::<u64, Pending>::empty(),
            service@.tickets.issued == 0,
            service@.tickets.ttl == engine@.state.config.ticket_ttl(),
            service@.statements == Map::<Seq<char>, PreparedStatement>::empty(),
            service@.token == Seq::<char>::empty(),
    {
        let ttl = engine.session().config().ticket_ttl();
        let tickets = TicketTracker::new(ttl);
        let statements = PreparedStatements::new();
        SynapseSqlService { engine, tickets, statements, token: String::new() }
    }

    /// The service with `token` as the token that its handshake issues,
    /// where the text can serve as a bearer token.
    pub fn with_token(self, token: &str) -> (r: Result<SynapseSqlService, ClientError>)
        requires
            self.wf(),
        ensures
            match r {
                Ok(service) => {
                    &&& token_ok(token@)
                    &&& service.wf()
                    &&& service@ == (ServiceView { token: token@, ..self@ })
                },
                Err(e) => !token_ok(token@) && e is InvalidToken,
            },
    {
        match BearerAuth::try_new(token) {
            Ok(_) => Ok(
                SynapseSqlService {
                    engine: self.engine,
                    tickets: self.tickets,
                    statements: self.statements,
                    token: token.to_owned(),
                },
            ),
            Err(e) => Err(e),
        }
    }

    /// The answer to a handshake: protocol version zero and the service's token.
    pub fn do_handshake(&self) -> (reply: HandshakeReply)
        ensures
            reply.protocol_version == 0,
            reply.payload@ == encode_utf8(self@.token),
    {
        HandshakeReply { protocol_version: 0, payload: self.token.as_str().as_bytes_vec() }
    }

    /// Whether a call presents the token that the handshake issued: its
    /// authorization header has to read `Bearer ` and then the token.
    pub fn authorize(&self, header: Option<&str>) -> (r: Result<(), FlightStatus>)
        ensures
            r is Ok <==> (header matches Some(text) && text@ == bearer_text(self@.token)),
            r matches Err(status) ==> status.code == StatusCode::Unauthenticated && status.message@
                == unauthenticated_message(),
    {
        let presented = match header {
            Some(text) => {
                let expected = "Bearer ".to_owned().concat(self.token.as_str());
                text.to_owned() == expected
            },
            None => false,
        };
        if presented {
            Ok(())
        } else {
            Err(
                FlightStatus {
                    code: StatusCode::Unauthenticated,
                    message: "the call does not present the token of the handshake".to_owned(),
                },
            )
        }
    }

    /// The engine.
    pub fn engine(&self) -> (engine: &Engine)
        requires
            self.wf(),
        ensures
            engine.wf(),
            engine@ == self@.engine,
    {
        &self.engine
    }

    /// The engine, for requests that change the session. The service's
    /// engine is the engine as the caller leaves it.
    pub fn engine_mut(&mut self) -> (engine: &mut Engine)
        requires
            old(self).wf(),
        ensures
            engine.wf(),
            engine@ == old(self)@.engine,
            final(self)@ == (ServiceView { engine: final(engine)@, ..old(self)@ }),
            final(engine).wf() ==> final(self).wf(),
    {
        &mut self.engine
    }

    /// Whether another ticket can be handed out.
    pub fn has_room(&self) -> (b: bool)
        ensures
            b == (self@.tickets.issued < u64::MAX),
    {
        self.tickets.has_room()
    }

    /// The number of pending tasks.
    pub fn pending(&self) -> (n: usize)
        requires
            self.wf(),
        ensures
            n == self@.tickets.pending.dom().len(),
    {
        self.tickets.len()
    }

    /// Drops the pending tasks whose tickets were not taken within their
    /// time, and says how many they were.
    pub fn evict(&mut self, now: u64) -> (dropped: usize)
        requires
            old(self).wf(),
        ensures
            final(self).wf(),
            final(self)@ == old(self)@.evict(now),
            old(self)@.tickets.pending.dom().finite(),
            final(self)@.tickets.pending.dom().finite(),
            dropped == old(self)@.tickets.pending.dom().len()
                - final(self)@.tickets.pending.dom().len(),
    {
        self.tickets.evict(now)
    }

    /// Takes the task that `ticket` names. A ticket that names none, or
    /// whose time is over, is answered with `NotFound`.
    pub fn take_ticket(&mut self, ticket: &SynapseTicket, now: u64) -> (r: Result<
        Task,
        FlightStatus,
    >)
        requires
            old(self).wf(),
        ensures
            final(self).wf(),
            final(self)@ == old(self)@.take_ticket(*ticket, now).0,
            match (r, old(self)@.take_ticket(*ticket, now).1) {
                (Ok(task), Some(expected)) => task == expected,
                (Err(status), None) => status.code == StatusCode::NotFound && status.message@
                    == ticket_not_found_message(),
                _ => false,
            },
    {
        match self.tickets.take(ticket, now) {
            Some(task) => Ok(task),
            None => Err(
                FlightStatus {
                    code: StatusCode::NotFound,
                    message: "ticket does not exist or has already been used".to_owned(),
                },
            ),
        }
    }

    /// Stores the planned task of a statement and answers with its schema,
    /// its estimates and the ticket to fetch the result with.
    pub fn sql_query(&mut self, task: Task, nonce: u64, now: u64) -> (info: StatementInfo)
        requires
            old(self).wf(),
            old(self)@.tickets.issued < u64::MAX,
        ensures
            final(self).wf(),
            final(self)@ == old(self)@.sql_query(task, nonce, now).0,
            info.ticket@ == statement_ticket_encoding(
                ticket_bytes(old(self)@.sql_query(task, nonce, now).1),
            ),
            ticket_decoding(info.ticket@) == statement_command(
                ticket_bytes(old(self)@.sql_query(task, nonce, now).1),
            ),
            info.schema@ == task.schema@,
            info.ordered == task.ordered,
            info.total_records == task.num_rows,
            info.total_bytes == task.byte_size,
    {
        let schema = clone_fields(&task.schema);
        let ordered = task.ordered;
        let total_records = task.num_rows;
        let total_bytes = task.byte_size;
        let ticket = self.tickets.put_plan(task, nonce, now);
        let handle = ticket.to_bytes();
        let bytes = encode_statement_ticket(handle.as_slice());
        StatementInfo { ticket: bytes, schema, ordered, total_records, total_bytes }
    }

    /// `GetFlightInfo` for a statement: the answer of [`Self::sql_query`].
    pub fn get_flight_info_statement(&mut self, task: Task, nonce: u64, now: u64) -> (info:
        StatementInfo)
        requires
            old(self).wf(),
            old(self)@.tickets.issued < u64::MAX,
        ensures
            final(self).wf(),
            final(self)@ == old(self)@.sql_query(task, nonce, now).0,
            info.ticket@ == statement_ticket_encoding(
                ticket_bytes(old(self)@.sql_query(task, nonce, now).1),
            ),
            ticket_decoding(info.ticket@) == statement_command(
                ticket_bytes(old(self)@.sql_query(task, nonce, now).1),
            ),
            info.schema@ == task.schema@,
            info.ordered == task.ordered,
            info.total_records == task.num_rows,
            info.total_bytes == task.byte_size,
    {
        self.sql_query(task, nonce, now)
    }

    /// `GetFlightInfo` for `GetCatalogs`: the ticket is the command itself.
    pub fn get_flight_info_catalogs(&self, command: &AnyMessage) -> (info: MetadataInfo)
        ensures
            info.kind == MetadataKind::Catalogs,
            info.ticket@ == any_encoding(command.type_url@, command.value@),
            any_decoding(info.ticket@) == decoded_envelope(command@),
    {
        MetadataInfo { ticket: encode_command_ticket(command), kind: MetadataKind::Catalogs }
    }

    /// `GetFlightInfo` for `GetDbSchemas`: the ticket is the command itself.
    pub fn get_flight_info_schemas(&self, command: &AnyMessage) -> (info: MetadataInfo)
        ensures
            info.kind == MetadataKind::DbSchemas,
            info.ticket@ == any_encoding(command.type_url@, command.value@),
            any_decoding(info.ticket@) == decoded_envelope(command@),
    {
        MetadataInfo { ticket: encode_command_ticket(command), kind: MetadataKind::DbSchemas }
    }

    /// `GetFlightInfo` for `GetTables`: the ticket is the command itself.
    pub fn get_flight_info_tables(&self, command: &AnyMessage) -> (info: MetadataInfo)
        ensures
            info.kind == MetadataKind::Tables,
            info.ticket@ == any_encoding(command.type_url@, command.value@),
            any_decoding(info.ticket@) == decoded_envelope(command@),
    {
        MetadataInfo { ticket: encode_command_ticket(command), kind: MetadataKind::Tables }
    }

    /// `GetFlightInfo` for `GetSqlInfo`: the ticket is the command itself.
    pub fn get_flight_info_sql_info(&self, command: &AnyMessage) -> (info: MetadataInfo)
        ensures
            info.kind == MetadataKind::SqlInfo,
            info.ticket@ == any_encoding(command.type_url@, command.value@),
            any_decoding(info.ticket@) == decoded_envelope(command@),
    {
        MetadataInfo { ticket: encode_command_ticket(command), kind: MetadataKind::SqlInfo }
    }

    /// `DoGet` for a statement ticket: takes the task that the handle
    /// names. A handle that spells no ticket is answered with
    /// `InvalidArgument`, one that names no task with `NotFound`.
    pub fn do_get_statement(&mut self, handle: &[u8], now: u64) -> (r: Result<Task, FlightStatus>)
        requires
            old(self).wf(),
        ensures
            final(self).wf(),
            match parse_ticket(handle@) {
                None => {
                    &&& final(self)@ == old(self)@
                    &&& r matches Err(status)
                    &&& status.code == StatusCode::InvalidArgument
                    &&& status.message@ == malformed_ticket_message()
                },
                Some(ticket) => {
                    &&& final(self)@ == old(self)@.take_ticket(ticket, now).0
                    &&& match (r, old(self)@.take_ticket(ticket, now).1) {
                        (Ok(task), Some(expected)) => task == expected,
                        (Err(status), None) => status.code == StatusCode::NotFound
                            && status.message@ == ticket_not_found_message(),
                        _ => false,
                    }
                },
            },
    {
        match SynapseTicket::from_bytes(handle) {
            None => Err(
                FlightStatus {
                    code: StatusCode::InvalidArgument,
                    message: "ticket is malformed".to_owned(),
                },
            ),
            Some(ticket) => self.take_ticket(&ticket, now),
        }
    }

    /// `DoGet` for a ticket that is no command of the protocol: its bytes
    /// are read as a ticket of this service.
    pub fn do_get_fallback(&mut self, ticket: &[u8], now: u64) -> (r: Result<Task, FlightStatus>)
        requires
            old(self).wf(),
        ensures
            final(self).wf(),
            match parse_ticket(ticket@) {
                None => {
                    &&& final(self)@ == old(self)@
                    &&& r matches Err(status)
                    &&& status.code == StatusCode::InvalidArgument
                    &&& status.message@ == malformed_ticket_message()
                },
                Some(parsed) => {
                    &&& final(self)@ == old(self)@.take_ticket(parsed, now).0
                    &&& match (r, old(self)@.take_ticket(parsed, now).1) {
                        (Ok(task), Some(expected)) => task == expected,
                        (Err(status), None) => status.code == StatusCode::NotFound
                            && status.message@ == ticket_not_found_message(),
                        _ => false,
                    }
                },
            },
    {
        self.do_get_statement(ticket, now)
    }

    /// The rows of the answer to `GetCatalogs`: one per catalog.
    pub fn do_get_catalogs(&self) -> (rows: Vec<Id>)
        requires
            self.wf(),
        ensures
            lists(name_views(rows@), self@.engine.state.cluster.catalogs.dom()),
    {
        self.engine.session().cluster().catalog_names()
    }

    /// The rows of the answer to `GetDbSchemas`: one per catalog and schema.
    pub fn do_get_schemas(&self) -> (rows: Vec<ResolvedSchema>)
        requires
            self.wf(),
        ensures
            lists(schema_views(rows@), self@.engine.state.cluster.schemas.dom()),
    {
        self.engine.session().cluster().schema_names()
    }

    /// The rows of the answer to `GetTables`: one per catalog, schema and
    /// table-like object, each with the object's columns and the type `TABLE`.
    pub fn do_get_tables(&self) -> (rows: Vec<TableRow>)
        requires
            self.wf(),
        ensures
            lists(row_keys(rows@), self@.engine.state.cluster.tables.dom()),
            forall|i: int|
                0 <= i < rows@.len() ==> (#[trigger] rows@[i]).table_type@ == "TABLE"@
                    && rows@[i].columns@ == self@.engine.state.cluster.tables[row_keys(
                    rows@,
                )[i]].definition.columns(),
    {
        let cluster = self.engine.session().cluster();
        let names = cluster.table_names();
        let ghost tables = self@.engine.state.cluster.tables;
        let mut rows: Vec<TableRow> = Vec::new();
        let mut i: usize = 0;
        while i < names.len()
            invariant
                cluster.wf(),
                cluster@.tables == tables,
                lists(table_views(names@), tables.dom()),
                i <= names.len(),
                rows.len() == i,
                forall|j: int| 0 <= j < i ==> row_keys(rows@)[j] == table_views(names@)[j],
                forall|j: int|
                    0 <= j < i ==> (#[trigger] rows@[j]).table_type@ == "TABLE"@
                        && rows@[j].columns@ == tables[table_views(
                        names@,
                    )[j]].definition.columns(),
            decreases names.len() - i,
        {
            let name = &names[i];
            proof {
                assert(tables.dom().contains(table_views(names@)[i as int]));
            }
            match cluster.table(name) {
                Some(entry) => {
                    rows.push(
                        TableRow {
                            catalog: name.catalog.clone(),
                            schema: name.schema.clone(),
                            table: name.table.clone(),
                            table_type: "TABLE".to_owned(),
                            columns: clone_fields(entry.definition.fields()),
                        },
                    );
                },
                None => {
                    assert(false);
                },
            }
            i = i + 1;
        }
        proof {
            assert(row_keys(rows@) =~= table_views(names@));
        }
        rows
    }

    /// `DoPut` for a statement update, given what the SQL parser made of
    /// the update's text in the session's dialect: its one statement, or
    /// its error. Opens the upload that the statement asks for: it has to
    /// be `COPY this TO <topic>`, and the topic has to exist. The upload's
    /// publisher is a new one for the topic's buffer.
    pub fn do_put_statement_update(&self, parsed: Result<SqlStatement, EngineError>) -> (r: Result<
        Upload,
        FlightStatus,
    >)
        requires
            self.wf(),
        ensures
            match (r, upload_topic(self@.engine, statement_result(parsed))) {
                (Ok(upload), Ok(topic)) => {
                    &&& upload.topic == topic
                    &&& upload.publisher.wf()
                    &&& upload_target(statement_result(parsed)) matches Ok(target)
                    &&& upload.publisher@ == fresh_publisher(
                        topic_capacity(self@.engine.state, target),
                    )
                },
                (Err(status), Err(e)) => status.code == error_code(e) && status.message@
                    == error_text(e),
                _ => false,
            },
    {
        let statement = match parsed {
            Ok(statement) => statement,
            Err(e) => {
                return Err(status_of(e));
            },
        };
        let target = match copy_target(&statement) {
            Some(target) => target,
            None => {
                return Err(
                    status_of(
                        EngineError::Unimplemented(
                            "only COPY this TO <topic> is served".to_owned(),
                        ),
                    ),
                );
            },
        };
        match self.engine.topic(target.as_str()) {
            Ok(entry) => {
                let capacity = match &entry.definition {
                    Definition::Topic(info) => info.capacity,
                    _ => 1,
                };
                Ok(Upload { topic: entry.object, publisher: Publisher::publish(capacity) })
            },
            Err(e) => Err(status_of(e)),
        }
    }

    /// The action that creates a prepared statement: stores the statement
    /// under its handle and answers with the handle and the encoded
    /// schemas; a statement without parameters has an empty parameter schema.
    pub fn do_action_create_prepared_statement(
        &mut self,
        statement: PreparedStatement,
        dataset_schema: Vec<u8>,
        parameter_schema: Option<Vec<u8>>,
    ) -> (reply: PreparedReply)
        requires
            old(self).wf(),
        ensures
            final(self).wf(),
            final(self)@ == (ServiceView {
                statements: old(self)@.statements.insert(statement.handle@, statement),
                ..old(self)@
            }),
            reply.handle@ == encode_utf8(statement.handle@),
            reply.dataset_schema@ == dataset_schema@,
            reply.parameter_schema@ == (match parameter_schema {
                Some(bytes) => bytes@,
                None => Seq::<u8>::empty(),
            }),
    {
        let handle = statement.handle.as_str().as_bytes_vec();
        let parameter_schema = match parameter_schema {
            Some(bytes) => bytes,
            None => Vec::new(),
        };
        self.statements.insert(statement);
        PreparedReply { handle, dataset_schema, parameter_schema }
    }

    /// The prepared statement that `handle` names, if there is one.
    pub fn prepared(&self, handle: &str) -> (r: Option<&PreparedStatement>)
        requires
            self.wf(),
        ensures
            match r {
                Some(statement) => self@.statements.dom().contains(handle@) && *statement
                    == self@.statements[handle@],
                None => !self@.statements.dom().contains(handle@),
            },
    {
        self.statements.get(handle)
    }
}


/// The task that the ticket of a statement is redeemed for is the task
/// whose schema the statement was answered with: taking the ticket that
/// `sql_query` put, within its time, hands out the task that was put, and
/// the ticket's bytes spell the ticket.
pub proof fn lemma_get_follows_info(s: ServiceView, task: Task, nonce: u64, now: u64, later: u64)
    requires
        s.tickets.wf(),
        s.tickets.issued < u64::MAX,
        later <= deadline_of(now, s.tickets.ttl),
    ensures
        ({
            let (stored, ticket) = s.sql_query(task, nonce, now);
            let (after, taken) = stored.take_ticket(ticket, later);
            &&& parse_ticket(ticket_bytes(ticket)) == Some(ticket)
            &&& taken == Some(task)
            &&& after.take_ticket(ticket, later).1 is None
            &&& after.engine == s.engine
            &&& after.statements == s.statements
        }),
{
    lemma_put_then_take(s.tickets, task, nonce, now, later);
    let (stored, ticket) = s.sql_query(task, nonce, now);
    lemma_ticket_round_trip(ticket);
    lemma_take_once(stored.tickets, ticket, later, later);
}

/// A client that has connected with the payload of the service's
/// handshake holds the service's token, and the authorization header that
/// it sends is the one that the service accepts.
pub proof fn lemma_handshake_authorizes(service: ServiceView, client: &SynapseClient)
    requires
        encode_utf8(client.token()) == encode_utf8(service.token),
        client.authorization() == bearer_text(client.token()),
    ensures
        client.token() == service.token,
        client.authorization() == bearer_text(service.token),
{
    encode_utf8_decode_utf8(client.token());
    encode_utf8_decode_utf8(service.token);
}

} // verus!
