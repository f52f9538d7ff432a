//! Error values of the engine and of the remote client.

use vstd::prelude::*;

verus! {

/// What an engine operation can fail with.
#[derive(Debug)]
pub enum EngineError {
    /// No catalog of this name is registered.
    CatalogNotFound(String),
    /// The catalog exists but holds no schema of this name.
    SchemaNotFound(String),
    /// No table, topic or view under this fully qualified name.
    TableNotFound(String),
    /// The object exists and the statement neither tolerates nor replaces it.
    AlreadyExists(String),
    /// The statement does not parse or plan.
    Plan(String),
    /// The verb is defined by the protocol but not served.
    Unimplemented(String),
    /// The statement's options contradict each other.
    Configuration(String),
    /// The cluster has used up what it counts its objects with.
    Exhausted(String),
}

/// What a client call can fail with.
#[derive(Debug)]
pub enum ClientError {
    /// The authentication payload is not a usable bearer token.
    InvalidToken,
    /// The server's answer names no endpoint.
    MissingEndpoint,
    /// The endpoint carries no ticket.
    MissingTicket,
    /// A protocol payload does not parse, or is not what the call expects.
    Decode(String),
    /// The transport or the remote side failed.
    Server(String),
    /// The answer is of a form that this client does not serve.
    Unimplemented(String),
}

/// The code of an RPC status that the server closes a call with.
#[derive(Clone, Copy, Debug, PartialEq, Eq, Structural)]
pub enum StatusCode {
    /// The addressed thing does not exist (a ticket that was used or never issued).
    NotFound,
    /// The verb is not served.
    Unimplemented,
    /// The request is malformed or violates the protocol.
    Internal,
    /// The request names something that already exists.
    AlreadyExists,
    /// The request's text is not valid.
    InvalidArgument,
    /// The call does not present the token that the handshake issued.
    Unauthenticated,
}

/// What an [`EngineError`] says, with its text as a plain character sequence.
pub enum EngineErrorView {
    CatalogNotFound(Seq<char>),
    SchemaNotFound(Seq<char>),
    TableNotFound(Seq<char>),
    AlreadyExists(Seq<char>),
    Plan(Seq<char>),
    Unimplemented(Seq<char>),
    Configuration(Seq<char>),
    Exhausted(Seq<char>),
}

impl View for EngineError {
    type V = EngineErrorView;

    open spec fn view(&self) -> EngineErrorView {
        match self {
            EngineError::CatalogNotFound(n) => EngineErrorView::CatalogNotFound(n@),
            EngineError::SchemaNotFound(n) => EngineErrorView::SchemaNotFound(n@),
            EngineError::TableNotFound(n) => EngineErrorView::TableNotFound(n@),
            EngineError::AlreadyExists(n) => EngineErrorView::AlreadyExists(n@),
            EngineError::Plan(n) => EngineErrorView::Plan(n@),
            EngineError::Unimplemented(n) => EngineErrorView::Unimplemented(n@),
            EngineError::Configuration(n) => EngineErrorView::Configuration(n@),
            EngineError::Exhausted(n) => EngineErrorView::Exhausted(n@),
        }
    }
}

/// What a [`ClientError`] says, with its text as a plain character sequence.
pub enum ClientErrorView {
    InvalidToken,
    MissingEndpoint,
    MissingTicket,
    Decode(Seq<char>),
    Server(Seq<char>),
    Unimplemented(Seq<char>),
}

impl View for ClientError {
    type V = ClientErrorView;

    open spec fn view(&self) -> ClientErrorView {
        match self {
            ClientError::InvalidToken => ClientErrorView::InvalidToken,
            ClientError::MissingEndpoint => ClientErrorView::MissingEndpoint,
            ClientError::MissingTicket => ClientErrorView::MissingTicket,
            ClientError::Decode(t) => ClientErrorView::Decode(t@),
            ClientError::Server(t) => ClientErrorView::Server(t@),
            ClientError::Unimplemented(t) => ClientErrorView::Unimplemented(t@),
        }
    }
}

impl EngineError {
    /// The status code a server reports this error under.
    pub open spec fn code(self) -> StatusCode {
        match self {
            EngineError::CatalogNotFound(_) => StatusCode::NotFound,
            EngineError::SchemaNotFound(_) => StatusCode::NotFound,
            EngineError::TableNotFound(_) => StatusCode::NotFound,
            EngineError::AlreadyExists(_) => StatusCode::AlreadyExists,
            EngineError::Plan(_) => StatusCode::InvalidArgument,
            EngineError::Unimplemented(_) => StatusCode::Unimplemented,
            EngineError::Configuration(_) => StatusCode::InvalidArgument,
            EngineError::Exhausted(_) => StatusCode::Internal,
        }
    }

    /// The status code a server reports this error under.
    pub fn status_code(&self) -> (code: StatusCode)
        ensures
            code == self.code(),
    {
        match self {
            EngineError::CatalogNotFound(_) => StatusCode::NotFound,
            EngineError::SchemaNotFound(_) => StatusCode::NotFound,
            EngineError::TableNotFound(_) => StatusCode::NotFound,
            EngineError::AlreadyExists(_) => StatusCode::AlreadyExists,
            EngineError::Plan(_) => StatusCode::InvalidArgument,
            EngineError::Unimplemented(_) => StatusCode::Unimplemented,
            EngineError::Configuration(_) => StatusCode::InvalidArgument,
            EngineError::Exhausted(_) => StatusCode::Internal,
        }
    }
}

} // verus!
