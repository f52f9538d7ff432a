//! The envelope that tickets and commands travel in: a message that names
//! its type by a URL and carries the encoded message of that type.
//!
//! Encoding and decoding are done by the protocol libraries. What they
//! return is named here, so that the contracts of the adapter and of the
//! client can say which bytes stand in a ticket, and the functions that act
//! on a decoded message are stated and proved for every message.

use arrow_flight::sql::{Any, Command, ProstMessageExt, TicketStatementQuery};
use prost::bytes::Bytes;
use prost::Message;
use vstd::prelude::*;

verus! {

/// The type URL of the ticket that a statement query is answered with.
pub open spec fn statement_ticket_url() -> Seq<char> {
    "type.googleapis.com/arrow.flight.protocol.sql.TicketStatementQuery"@
}

/// A message in its envelope: the URL of its type and its encoded body.
#[derive(Debug)]
pub struct AnyMessage {
    pub type_url: String,
    pub value: Vec<u8>,
}

/// What an [`AnyMessage`] says, as plain values.
pub struct AnyView {
    pub type_url: Seq<char>,
    pub value: Seq<u8>,
}

/// A command as far as this service tells commands apart.
#[derive(Debug)]
pub enum TicketCommand {
    /// The ticket of a statement query, with the handle it carries.
    StatementQuery { handle: Vec<u8> },
    /// Any other message, by the URL of its type.
    Other { type_url: String },
}

/// What a [`TicketCommand`] says, as plain values.
pub enum CommandView {
    StatementQuery { handle: Seq<u8> },
    Other { type_url: Seq<char> },
}

impl View for AnyMessage {
    type V = AnyView;

    open spec fn view(&self) -> AnyView {
        AnyView { type_url: self.type_url@, value: self.value@ }
    }
}

impl View for TicketCommand {
    type V = CommandView;

    open spec fn view(&self) -> CommandView {
        match self {
            TicketCommand::StatementQuery { handle } => CommandView::StatementQuery {
                handle: handle@,
            },
            TicketCommand::Other { type_url } => CommandView::Other { type_url: type_url@ },
        }
    }
}

/// The view of a decoded envelope, or of the reason it did not decode.
pub open spec fn decoded_any(r: Result<AnyMessage, String>) -> Result<AnyView, Seq<char>> {
    match r {
        Ok(m) => Ok(m@),
        Err(e) => Err(e@),
    }
}

/// The view of an unpacked command, or of the reason it did not unpack.
pub open spec fn unpacked(r: Result<TicketCommand, String>) -> Result<CommandView, Seq<char>> {
    match r {
        Ok(c) => Ok(c@),
        Err(e) => Err(e@),
    }
}

/// What decoding gives where it gives the envelope `any`.
pub open spec fn decoded_envelope(any: AnyView) -> Result<AnyView, Seq<char>> {
    Ok(any)
}

/// What unpacking gives where it gives the statement ticket with `handle`.
pub open spec fn statement_command(handle: Seq<u8>) -> Result<CommandView, Seq<char>> {
    Ok(CommandView::StatementQuery { handle })
}

/// The bytes that the protocol library encodes an envelope to.
pub uninterp spec fn any_encoding(type_url: Seq<char>, value: Seq<u8>) -> Seq<u8>;

/// The envelope that the protocol library decodes from bytes, or its reason for refusing them.
pub uninterp spec fn any_decoding(bytes: Seq<u8>) -> Result<AnyView, Seq<char>>;

/// The encoded body of the statement ticket that carries `handle`.
pub uninterp spec fn statement_ticket_body(handle: Seq<u8>) -> Seq<u8>;

/// The command that the protocol library unpacks from an envelope, or its
/// reason for refusing the body.
pub uninterp spec fn command_unpacking(type_url: Seq<char>, value: Seq<u8>) -> Result<
    CommandView,
    Seq<char>,
>;

/// Encodes an envelope for the wire.
///
/// Calls `prost::Message::encode_to_vec` on an `arrow_flight::sql::Any`
/// with the given type URL and body. The contract names the bytes that
/// come back, which depend on the two fields alone, and claims the round
/// trip of the encoding: `prost::Message::decode` reads a text field and a
/// bytes field back as they were written, so that the bytes decode to the
/// envelope that was encoded.
#[verifier::external_body]
pub(crate) fn encode_any(message: &AnyMessage) -> (bytes: Vec<u8>)
    ensures
        bytes@ == any_encoding(message.type_url@, message.value@),
        any_decoding(bytes@) == decoded_envelope(message@),
{
    let any = Any {
        type_url: message.type_url.clone(),
        value: Bytes::copy_from_slice(&message.value),
    };
    any.encode_to_vec()
}

/// Decodes an envelope from the wire.
///
/// Calls `prost::Message::decode` for `arrow_flight::sql::Any`. The
/// contract only names what comes back, the envelope or the text of the
/// decoder's error: it depends on the bytes alone.
#[verifier::external_body]
pub(crate) fn decode_any(bytes: &[u8]) -> (r: Result<AnyMessage, String>)
    ensures
        decoded_any(r) == any_decoding(bytes@),
{
    match Any::decode(bytes) {
        Ok(any) => Ok(AnyMessage { type_url: any.type_url, value: any.value.to_vec() }),
        Err(e) => Err(e.to_string()),
    }
}

/// Puts a statement handle into the envelope of a statement ticket.
///
/// Calls `ProstMessageExt::as_any` on an
/// `arrow_flight::sql::TicketStatementQuery` that carries the handle. That
/// function sets the type URL to the constant of the message type and the
/// body to the encoded message; the body is named, not spelled out. The
/// contract also claims the round trip: `Command::try_from` picks the
/// statement ticket by that URL and decodes the body, whose one bytes
/// field reads back as it was written, so that the envelope unpacks to the
/// statement ticket with the handle.
#[verifier::external_body]
pub(crate) fn pack_statement_ticket(handle: &[u8]) -> (message: AnyMessage)
    ensures
        message.type_url@ == statement_ticket_url(),
        message.value@ == statement_ticket_body(handle@),
        command_unpacking(message.type_url@, message.value@) == statement_command(handle@),
{
    let any = TicketStatementQuery { statement_handle: Bytes::copy_from_slice(handle) }.as_any();
    AnyMessage { type_url: any.type_url, value: any.value.to_vec() }
}

/// Takes the command out of an envelope.
///
/// Calls `TryFrom<Any>` of `arrow_flight::sql::Command`, which picks the
/// message type by the URL and decodes the body as that type. The contract
/// only names what comes back, the command or the text of the error: it
/// depends on the envelope alone.
#[verifier::external_body]
pub(crate) fn unpack_command(message: AnyMessage) -> (r: Result<TicketCommand, String>)
    ensures
        unpacked(r) == command_unpacking(message.type_url@, message.value@),
{
    let any = Any { type_url: message.type_url, value: Bytes::from(message.value) };
    match Command::try_from(any) {
        Ok(Command::TicketStatementQuery(t)) => Ok(
            TicketCommand::StatementQuery { handle: t.statement_handle.to_vec() },
        ),
        Ok(other) => Ok(TicketCommand::Other { type_url: other.type_url().to_string() }),
        Err(e) => Err(e.to_string()),
    }
}

/// The bytes of the ticket that a statement query is answered with: the
/// envelope of a statement ticket around the handle, encoded.
pub open spec fn statement_ticket_encoding(handle: Seq<u8>) -> Seq<u8> {
    any_encoding(statement_ticket_url(), statement_ticket_body(handle))
}

/// What a ticket's bytes say: the command in the envelope they decode to.
pub open spec fn ticket_decoding(bytes: Seq<u8>) -> Result<CommandView, Seq<char>> {
    match any_decoding(bytes) {
        Ok(any) => command_unpacking(any.type_url, any.value),
        Err(reason) => Err(reason),
    }
}

/// The bytes of the ticket that carries `handle` as a statement handle.
/// Read back, they are the statement ticket with that handle.
pub fn encode_statement_ticket(handle: &[u8]) -> (bytes: Vec<u8>)
    ensures
        bytes@ == statement_ticket_encoding(handle@),
        ticket_decoding(bytes@) == statement_command(handle@),
{
    let message = pack_statement_ticket(handle);
    encode_any(&message)
}

/// The bytes of the ticket whose payload is `command` itself. Read back,
/// they are the command's envelope.
pub fn encode_command_ticket(command: &AnyMessage) -> (bytes: Vec<u8>)
    ensures
        bytes@ == any_encoding(command.type_url@, command.value@),
        any_decoding(bytes@) == decoded_envelope(command@),
{
    encode_any(command)
}

/// The command that a ticket's bytes carry, or the reason they carry none.
pub fn decode_ticket(bytes: &[u8]) -> (r: Result<TicketCommand, String>)
    ensures
        unpacked(r) == ticket_decoding(bytes@),
{
    match decode_any(bytes) {
        Ok(message) => unpack_command(message),
        Err(reason) => Err(reason),
    }
}

} // verus!
