//! The remote client's side of the wire contract: what it sends for each
//! call and what it makes of each answer.
//!
//! The transport is the caller's. The functions here take the payloads of
//! the answers as plain values and hand back the payloads of the requests.

use crate::cluster::TableInfo;
use crate::config::{Config, ConfigScope, ConfigView};
use crate::error::{ClientError, ClientErrorView};
use crate::registry::{opt_name, SchemaRef, TableRef};
use crate::wire::{
    decode_ticket, statement_command, ticket_decoding, unpacked, CommandView, TicketCommand,
};
use tonic::metadata::{Ascii, MetadataValue};
use vstd::prelude::*;
use vstd::string::StringExecFns;
use vstd::utf8::{encode_utf8, is_ascii_chars, is_ascii_chars_encode_utf8, valid_utf8};

verus! {

/// The name of the header that carries the bearer token.
pub const AUTHORIZATION: &'static str = "authorization";

/// Whether the metadata parser lets the byte stand in a value: any byte
/// from the space upwards but the delete character, and the tab.
pub open spec fn header_byte_ok(b: u8) -> bool {
    (b >= 32 && b != 127) || b == 9
}

/// Whether the metadata parser lets every one of the bytes stand in a value.
pub open spec fn header_bytes_ok(bytes: Seq<u8>) -> bool {
    forall|i: int| 0 <= i < bytes.len() ==> header_byte_ok(#[trigger] bytes[i])
}

/// Whether the character can stand in a token: the printable ASCII
/// characters, the space and the tab.
pub open spec fn token_char_ok(c: char) -> bool {
    (' ' <= c && c <= '~') || c == '\t'
}

/// Whether the text can serve as a bearer token.
pub open spec fn token_ok(token: Seq<char>) -> bool {
    forall|i: int| 0 <= i < token.len() ==> token_char_ok(#[trigger] token[i])
}

/// The value of the authorization header for a token.
pub open spec fn bearer_text(token: Seq<char>) -> Seq<char> {
    "Bearer "@ + token
}

/// Reads a text as an ASCII metadata value.
///
/// Calls `FromStr` of `tonic::metadata::MetadataValue<Ascii>`, which hands
/// the text to `http::HeaderValue::from_str`. That function accepts the
/// text when each of its bytes is 32 or more and not 127, or is a tab, and
/// keeps a copy of the bytes, which `as_bytes` hands out.
#[verifier::external_body]
fn parse_ascii_metadata(text: &str) -> (r: Option<Vec<u8>>)
    ensures
        r is Some <==> header_bytes_ok(encode_utf8(text@)),
        r matches Some(bytes) ==> bytes@ == encode_utf8(text@),
{
    text.parse::<MetadataValue<Ascii>>().ok().map(|value| value.as_bytes().to_vec())
}

/// Reads bytes as text.
///
/// Calls `String::from_utf8`, which succeeds exactly on valid UTF-8 and
/// then hands out the string whose bytes are the ones given.
#[verifier::external_body]
fn string_from_utf8(bytes: Vec<u8>) -> (r: Option<String>)
    ensures
        r is Some <==> valid_utf8(bytes@),
        r matches Some(text) ==> encode_utf8(text@) == bytes@,
{
    String::from_utf8(bytes).ok()
}

/// The credentials that the client attaches to each call of the engine service.
#[derive(Debug)]
pub struct BearerAuth {
    payload: String,
}

impl View for BearerAuth {
    type V = Seq<char>;

    closed spec fn view(&self) -> Seq<char> {
        self.payload@
    }
}

impl BearerAuth {
    /// The credentials for `token`, which has to be printable ASCII.
    pub fn try_new(token: &str) -> (r: Result<BearerAuth, ClientError>)
        ensures
            match r {
                Ok(auth) => token_ok(token@) && auth@ == bearer_text(token@),
                Err(e) => !token_ok(token@) && e is InvalidToken,
            },
    {
        if !token.is_ascii() {
            proof {
                let i = choose|i: int|
                    0 <= i < token@.len() && !('\0' <= #[trigger] token@[i] <= '\u{7f}');
                assert(!token_char_ok(token@[i]));
            }
            return Err(ClientError::InvalidToken);
        }
        let text = "Bearer ".to_owned().concat(token);
        proof {
            reveal_strlit("Bearer ");
            let prefix = "Bearer "@;
            assert(text@ == prefix + token@);
            assert(is_ascii_chars(text@)) by {
                assert forall|i: int| 0 <= i < text@.len() implies '\0' <= #[trigger] text@[i]
                    <= '\u{7f}' by {
                    if i >= 7 {
                        assert(text@[i] == token@[i - 7]);
                    }
                }
            }
            is_ascii_chars_encode_utf8(text@);
            let bytes = encode_utf8(text@);
            if token_ok(token@) {
                assert forall|i: int| 0 <= i < bytes.len() implies header_byte_ok(
                    #[trigger] bytes[i],
                ) by {
                    assert(text@[i] as u8 == bytes[i]);
                    if i >= 7 {
                        assert(text@[i] == token@[i - 7]);
                        assert(token_char_ok(token@[i - 7]));
                    }
                }
            }
            if header_bytes_ok(bytes) {
                assert forall|i: int| 0 <= i < token@.len() implies token_char_ok(
                    #[trigger] token@[i],
                ) by {
                    assert(text@[i + 7] == token@[i]);
                    assert(text@[i + 7] as u8 == bytes[i + 7]);
                    assert(header_byte_ok(bytes[i + 7]));
                    assert('\0' <= text@[i + 7] <= '\u{7f}');
                }
            }
        }
        match parse_ascii_metadata(text.as_str()) {
            Some(_) => Ok(BearerAuth { payload: text }),
            None => Err(ClientError::InvalidToken),
        }
    }

    /// The value of the authorization header.
    pub fn payload(&self) -> (text: &String)
        ensures
            text@ == self@,
    {
        &self.payload
    }
}

/// A client that has shaken hands with a server.
#[derive(Debug)]
pub struct SynapseClient {
    token: String,
    auth: BearerAuth,
}

/// The request to create a table.
#[derive(Debug)]
pub struct CreateTableReq {
    pub table: TableRef,
    pub info: TableInfo,
    pub if_not_exists: bool,
    pub or_replace: bool,
}

/// The request to create a catalog.
#[derive(Debug)]
pub struct CreateCatalogReq {
    pub catalog: String,
    pub if_not_exists: bool,
}

/// The request to create a schema.
#[derive(Debug)]
pub struct CreateSchemaReq {
    pub catalog: Option<String>,
    pub schema: String,
    pub if_not_exists: bool,
}

/// The request to set a configuration: the scope's wire number and the encoded configuration.
#[derive(Debug)]
pub struct SetConfigReq {
    pub scope: i32,
    pub config: Vec<u8>,
}

/// The request for a configuration: the scope's wire number.
#[derive(Debug)]
pub struct GetConfigReq {
    pub scope: i32,
}

/// The message for an answer that fills one of table and info only.
pub open spec fn mixed_answer_message() -> Seq<char> {
    "expected empty or fully-populated response"@
}

/// The message for an answer with more than one endpoint.
pub open spec fn many_endpoints_message() -> Seq<char> {
    "more than one endpoint"@
}

/// The message for a ticket that carries another command than a statement ticket.
pub open spec fn unexpected_command_message() -> Seq<char> {
    "unexpected response command"@
}

/// The ticket of an answer's endpoints: that of the single endpoint.
pub open spec fn endpoint_ticket(endpoints: Seq<Option<Vec<u8>>>) -> Result<
    Seq<u8>,
    ClientErrorView,
> {
    if endpoints.len() == 0 {
        Err(ClientErrorView::MissingEndpoint)
    } else if endpoints.len() == 1 {
        match endpoints[0] {
            Some(ticket) => Ok(ticket@),
            None => Err(ClientErrorView::MissingTicket),
        }
    } else {
        Err(ClientErrorView::Unimplemented(many_endpoints_message()))
    }
}

/// The plan that a decoded ticket carries, or the error in its place.
pub open spec fn plan_of(decoded: Result<CommandView, Seq<char>>) -> Result<
    Seq<u8>,
    ClientErrorView,
> {
    match decoded {
        Ok(CommandView::StatementQuery { handle }) => Ok(handle),
        Ok(CommandView::Other { type_url }) => Err(
            ClientErrorView::Decode(unexpected_command_message()),
        ),
        Err(reason) => Err(ClientErrorView::Decode(reason)),
    }
}

/// The plan that the endpoints of an answer lead to, given what their
/// ticket decodes to.
pub open spec fn query_plan(
    endpoints: Seq<Option<Vec<u8>>>,
    decoding: spec_fn(Seq<u8>) -> Result<CommandView, Seq<char>>,
) -> Result<Seq<u8>, ClientErrorView> {
    match endpoint_ticket(endpoints) {
        Ok(ticket) => plan_of(decoding(ticket)),
        Err(e) => Err(e),
    }
}

/// The view of a plan or of the error in its place.
pub open spec fn plan_result(r: Result<Vec<u8>, ClientError>) -> Result<Seq<u8>, ClientErrorView> {
    match r {
        Ok(plan) => Ok(plan@),
        Err(e) => Err(e@),
    }
}

/// The ticket of the single endpoint of an answer.
pub fn single_ticket(endpoints: &Vec<Option<Vec<u8>>>) -> (r: Result<&Vec<u8>, ClientError>)
    ensures
        match (r, endpoint_ticket(endpoints@)) {
            (Ok(ticket), Ok(expected)) => ticket@ == expected,
            (Err(e), Err(expected)) => e@ == expected,
            _ => false,
        },
{
    if endpoints.len() == 0 {
        Err(ClientError::MissingEndpoint)
    } else if endpoints.len() == 1 {
        match &endpoints[0] {
            Some(ticket) => Ok(ticket),
            None => Err(ClientError::MissingTicket),
        }
    } else {
        Err(ClientError::Unimplemented("more than one endpoint".to_owned()))
    }
}

/// The plan that a decoded ticket carries: the handle of a statement
/// ticket. Any other command, and a ticket that did not decode, is a
/// decode error.
pub fn plan_from_command(decoded: Result<TicketCommand, String>) -> (r: Result<
    Vec<u8>,
    ClientError,
>)
    ensures
        plan_result(r) == plan_of(unpacked(decoded)),
{
    match decoded {
        Ok(TicketCommand::StatementQuery { handle }) => Ok(handle),
        Ok(TicketCommand::Other { type_url }) => Err(
            ClientError::Decode("unexpected response command".to_owned()),
        ),
        Err(reason) => Err(ClientError::Decode(reason)),
    }
}

impl SynapseClient {
    /// The token that the handshake returned.
    pub closed spec fn token(&self) -> Seq<char> {
        self.token@
    }

    /// The value of the authorization header that the client sends.
    pub closed spec fn authorization(&self) -> Seq<char> {
        self.auth@
    }

    /// A client for the server that answered the handshake with `payload`.
    /// The payload has to be UTF-8 text that can serve as a bearer token.
    pub fn connect(payload: Vec<u8>) -> (r: Result<SynapseClient, ClientError>)
        ensures
            match r {
                Ok(client) => {
                    &&& valid_utf8(payload@)
                    &&& encode_utf8(client.token()) == payload@
                    &&& token_ok(client.token())
                    &&& client.authorization() == bearer_text(client.token())
                },
                Err(e) => {
                    &&& e is InvalidToken
                    &&& !valid_utf8(payload@) || exists|text: Seq<char>|
                        encode_utf8(text) == payload@ && !token_ok(text)
                },
            },
    {
        let token = match string_from_utf8(payload) {
            Some(token) => token,
            None => {
                return Err(ClientError::InvalidToken);
            },
        };
        match BearerAuth::try_new(token.as_str()) {
            Ok(auth) => Ok(SynapseClient { token, auth }),
            Err(_) => {
                assert(encode_utf8(token@) == payload@ && !token_ok(token@));
                Err(ClientError::InvalidToken)
            },
        }
    }

    /// The token to attach to calls of the Flight service.
    pub fn bearer_token(&self) -> (token: &String)
        ensures
            token@ == self.token(),
    {
        &self.token
    }

    /// The credentials to attach to calls of the engine service.
    pub fn auth(&self) -> (auth: &BearerAuth)
        ensures
            auth@ == self.authorization(),
    {
        &self.auth
    }

    /// The request that creates a table.
    pub fn create_table_request(
        &self,
        table: TableRef,
        info: TableInfo,
        if_not_exists: bool,
        or_replace: bool,
    ) -> (req: CreateTableReq)
        ensures
            req.table == table,
            req.info == info,
            req.if_not_exists == if_not_exists,
            req.or_replace == or_replace,
    {
        CreateTableReq { table, info, if_not_exists, or_replace }
    }

    /// The table that the answer to `CreateTable` echoes back. An answer
    /// that leaves out the reference or the info is a server error.
    pub fn create_table(&self, table: Option<TableRef>, info: Option<TableInfo>) -> (r: Result<
        (TableRef, TableInfo),
        ClientError,
    >)
        ensures
            match r {
                Ok((t, i)) => table == Some(t) && info == Some(i),
                Err(e) => {
                    &&& table is None || info is None
                    &&& e matches ClientError::Server(text)
                    &&& text@ == mixed_answer_message()
                },
            },
    {
        match (table, info) {
            (Some(t), Some(i)) => Ok((t, i)),
            _ => Err(ClientError::Server("expected empty or fully-populated response".to_owned())),
        }
    }

    /// The table that the answer to `GetTable` describes: the table where
    /// reference and info are both there, none where both are left out. An
    /// answer that fills only one of them violates the protocol.
    pub fn get_table(&self, table: Option<TableRef>, info: Option<TableInfo>) -> (r: Result<
        Option<(TableRef, TableInfo)>,
        ClientError,
    >)
        ensures
            match r {
                Ok(Some((t, i))) => table == Some(t) && info == Some(i),
                Ok(None) => table is None && info is None,
                Err(e) => {
                    &&& table is Some != info is Some
                    &&& e matches ClientError::Server(text)
                    &&& text@ == mixed_answer_message()
                },
            },
    {
        match (table, info) {
            (Some(t), Some(i)) => Ok(Some((t, i))),
            (None, None) => Ok(None),
            _ => Err(ClientError::Server("expected empty or fully-populated response".to_owned())),
        }
    }

    /// The plan of a query from the endpoints of the server's answer: the
    /// answer has to have a single endpoint with a ticket, and the ticket
    /// has to be a statement ticket, whose handle is the plan.
    pub fn query(&self, endpoints: &Vec<Option<Vec<u8>>>) -> (r: Result<Vec<u8>, ClientError>)
        ensures
            plan_result(r) == query_plan(endpoints@, |bytes: Seq<u8>| ticket_decoding(bytes)),
    {
        let ticket = match single_ticket(endpoints) {
            Ok(ticket) => ticket,
            Err(e) => {
                return Err(e);
            },
        };
        plan_from_command(decode_ticket(ticket.as_slice()))
    }

    /// The request that sets the configuration of the cluster, where
    /// `global`, or of this connection.
    pub fn set_config(&self, config: Vec<u8>, global: bool) -> (req: SetConfigReq)
        ensures
            req.scope == ConfigScope::wire(
                if global {
                    ConfigScope::Cluster
                } else {
                    ConfigScope::Connection
                },
            ),
            req.config == config,
    {
        SetConfigReq { scope: ConfigScope::from_global(global).to_wire(), config }
    }

    /// The request for the configuration of the cluster, where `global`,
    /// or of this connection.
    pub fn get_config(&self, global: bool) -> (req: GetConfigReq)
        ensures
            req.scope == ConfigScope::wire(
                if global {
                    ConfigScope::Cluster
                } else {
                    ConfigScope::Connection
                },
            ),
    {
        GetConfigReq { scope: ConfigScope::from_global(global).to_wire() }
    }

    /// The configuration to set so as to make `catalog` the default
    /// catalog: the current one with that default.
    pub fn use_catalog(&self, current: Config, catalog: &str) -> (next: Config)
        ensures
            next@ == (ConfigView { default_catalog: catalog@, ..current@ }),
    {
        current.into_builder().default_catalog(catalog.to_owned()).build()
    }

    /// The configuration to set so as to make `schema` the default schema:
    /// the current one with that default.
    pub fn use_schema(&self, current: Config, schema: &str) -> (next: Config)
        ensures
            next@ == (ConfigView { default_schema: schema@, ..current@ }),
    {
        current.into_builder().default_schema(schema.to_owned()).build()
    }

    /// The request that creates a catalog.
    pub fn create_catalog(&self, catalog: &str, if_not_exists: bool) -> (req: CreateCatalogReq)
        ensures
            req.catalog@ == catalog@,
            req.if_not_exists == if_not_exists,
    {
        CreateCatalogReq { catalog: catalog.to_owned(), if_not_exists }
    }

    /// The request that creates a schema.
    pub fn create_schema(&self, schema: &SchemaRef, if_not_exists: bool) -> (req: CreateSchemaReq)
        ensures
            opt_name(req.catalog) == schema@.catalog,
            req.schema@ == schema@.schema,
            req.if_not_exists == if_not_exists,
    {
        let catalog = match &schema.catalog {
            Some(c) => Some(c.clone()),
            None => None,
        };
        CreateSchemaReq { catalog, schema: schema.schema.clone(), if_not_exists }
    }
}

/// A client that is answered with one endpoint whose ticket reads as the
/// statement ticket with a handle takes that handle as the plan.
pub proof fn lemma_query_recovers_handle(ticket: Vec<u8>, handle: Seq<u8>)
    ensures
        ticket_decoding(ticket@) == statement_command(handle) ==> query_plan(
            seq![Some(ticket)],
            |bytes: Seq<u8>| ticket_decoding(bytes),
        ) == Ok::<Seq<u8>, ClientErrorView>(handle),
{
}

} // verus!
