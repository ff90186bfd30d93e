//! Contexts that handlers are given, and the errors of the server.
use crate::attachment;
use crate::attachment::{Attachment, FileAttachment};
use crate::error::{Failure, ProtocolError};
use crate::json;
use crate::json::{Json, JsonMap, Tree};
use crate::packet::{clone_attachments, ErrorInfo, ErrorPayload};
use crate::text::join;
use crate::time;
use crate::validation;
use crate::validation::{errors_to_details, ValidationErrors};
use std::time::Duration;
use vstd::prelude::*;

verus! {

/// Application-level error returned from handlers.
#[derive(Debug)]
pub struct ApiError {
    pub code: String,
    pub message: String,
    pub status: u16,
    pub details: Option<Json>,
}

impl View for ApiError {
    type V = ErrorInfo;

    open spec fn view(&self) -> ErrorInfo {
        ErrorInfo {
            code: self.code@,
            message: self.message@,
            status: self.status,
            details: json::tree_of(self.details),
        }
    }
}

/// An error without details.
pub open spec fn plain_error(code: Seq<char>, message: Seq<char>, status: u16) -> ErrorInfo {
    ErrorInfo { code, message, status, details: None }
}

/// A 400 bad request error.
pub open spec fn bad_request(message: Seq<char>) -> ErrorInfo {
    plain_error("bad_request"@, message, 400)
}

/// A 404 not found error.
pub open spec fn not_found(message: Seq<char>) -> ErrorInfo {
    plain_error("not_found"@, message, 404)
}

/// A 500 internal error.
pub open spec fn internal(message: Seq<char>) -> ErrorInfo {
    plain_error("internal_error"@, message, 500)
}

/// A 401 error.
pub open spec fn unauthorized(message: Seq<char>) -> ErrorInfo {
    plain_error("unauthorized"@, message, 401)
}

/// A 503 error.
pub open spec fn service_busy(message: Seq<char>) -> ErrorInfo {
    plain_error("service_busy"@, message, 503)
}

impl ApiError {
    /// Constructs a 400 bad request error.
    pub fn bad_request(message: &str) -> (e: Self)
        ensures
            e@ == bad_request(message@),
    {
        Self::new("bad_request", message, 400)
    }

    /// Constructs a 404 not found error.
    pub fn not_found(message: &str) -> (e: Self)
        ensures
            e@ == not_found(message@),
    {
        Self::new("not_found", message, 404)
    }

    /// Constructs a 500 internal error.
    pub fn internal(message: &str) -> (e: Self)
        ensures
            e@ == internal(message@),
    {
        Self::new("internal_error", message, 500)
    }

    /// Constructs a 401 unauthorized error.
    pub fn unauthorized(message: &str) -> (e: Self)
        ensures
            e@ == unauthorized(message@),
    {
        Self::new("unauthorized", message, 401)
    }

    /// Constructs an error with an explicit code and status.
    pub fn new(code: &str, message: &str, status: u16) -> (e: Self)
        ensures
            e@ == plain_error(code@, message@, status),
    {
        ApiError { code: code.to_owned(), message: message.to_owned(), status, details: None }
    }

    /// Attaches structured details to the error.
    pub fn with_details(self, details: Json) -> (e: Self)
        ensures
            e@ == (ErrorInfo { details: Some(details@), ..self@ }),
    {
        ApiError { details: Some(details), ..self }
    }

    /// Converts the error into a transport payload.
    pub fn into_payload(self) -> (payload: ErrorPayload)
        ensures
            payload@ == self@,
    {
        ErrorPayload {
            code: self.code,
            message: self.message,
            status: self.status,
            details: self.details,
        }
    }

    /// The error's text: its code and its message.
    pub fn text(&self) -> (r: String)
        ensures
            r@ == self@.code + ": "@ + self@.message,
    {
        let mut r = join(self.code.as_str(), ": ");
        r.append(self.message.as_str());
        r
    }
}

impl Clone for ApiError {
    fn clone(&self) -> (copy: Self)
        ensures
            copy@ == self@,
    {
        ApiError {
            code: self.code.clone(),
            message: self.message.clone(),
            status: self.status,
            details: match &self.details {
                Some(details) => Some(details.clone()),
                None => None,
            },
        }
    }
}

/// Errors produced by the server.
#[derive(Debug)]
pub enum ServerError {
    Io(String),
    WebSocket(String),
    Protocol(ProtocolError),
    Api(ApiError),
    IdleTimeout(String),
    OutboundQueueFull(String),
}

/// What a [`ServerError`] says.
pub enum ServerFailure {
    Io(Seq<char>),
    WebSocket(Seq<char>),
    Protocol(Failure),
    Api(ErrorInfo),
    IdleTimeout(Seq<char>),
    OutboundQueueFull(Seq<char>),
}

impl View for ServerError {
    type V = ServerFailure;

    open spec fn view(&self) -> ServerFailure {
        match self {
            ServerError::Io(source) => ServerFailure::Io(source@),
            ServerError::WebSocket(source) => ServerFailure::WebSocket(source@),
            ServerError::Protocol(e) => ServerFailure::Protocol(e@),
            ServerError::Api(e) => ServerFailure::Api(e@),
            ServerError::IdleTimeout(id) => ServerFailure::IdleTimeout(id@),
            ServerError::OutboundQueueFull(id) => ServerFailure::OutboundQueueFull(id@),
        }
    }
}

impl ServerFailure {
    /// The error's message.
    pub open spec fn text(self) -> Seq<char> {
        match self {
            ServerFailure::Io(source) => "io error: "@ + source,
            ServerFailure::WebSocket(source) => "websocket error: "@ + source,
            ServerFailure::Protocol(e) => "protocol error: "@ + e.text(),
            ServerFailure::Api(e) => "api error: "@ + e.debug_form("ApiError"@),
            ServerFailure::IdleTimeout(id) => "connection idle timeout: "@ + id,
            ServerFailure::OutboundQueueFull(id) => "outbound queue is full for connection "@ + id,
        }
    }
}

impl ServerError {
    /// The error's message.
    pub fn message(&self) -> (r: String)
        ensures
            r@ == self@.text(),
    {
        match self {
            ServerError::Io(source) => join("io error: ", source.as_str()),
            ServerError::WebSocket(source) => join("websocket error: ", source.as_str()),
            ServerError::Protocol(e) => join("protocol error: ", e.message().as_str()),
            ServerError::Api(e) => {
                join("api error: ", e.clone().into_payload().debug_form("ApiError").as_str())
            },
            ServerError::IdleTimeout(id) => join("connection idle timeout: ", id.as_str()),
            ServerError::OutboundQueueFull(id) => {
                join("outbound queue is full for connection ", id.as_str())
            },
        }
    }
}

/// A peer's socket address.
#[derive(Debug)]
pub struct PeerAddr {
    /// The text of the IP address.
    pub ip: String,
    pub port: u16,
}

/// What a [`PeerAddr`] holds.
pub struct Peer {
    pub ip: Seq<char>,
    pub port: u16,
}

impl View for PeerAddr {
    type V = Peer;

    open spec fn view(&self) -> Peer {
        Peer { ip: self.ip@, port: self.port }
    }
}

/// What an optional address holds.
pub open spec fn peer_view(peer: Option<PeerAddr>) -> Option<Peer> {
    match peer {
        Some(peer) => Some(peer@),
        None => None,
    }
}

/// What an optional map holds.
pub open spec fn map_view(map: Option<JsonMap>) -> Option<Seq<(Seq<char>, Tree)>> {
    match map {
        Some(map) => Some(map@),
        None => None,
    }
}

/// The IP text of an optional address.
fn ip_of(peer: &Option<PeerAddr>) -> (r: Option<String>)
    ensures
        match r {
            Some(ip) => peer_view(*peer) matches Some(peer) && peer.ip == ip@,
            None => peer_view(*peer) is None,
        },
{
    match peer {
        Some(peer) => Some(peer.ip.clone()),
        None => None,
    }
}

pub(crate) fn clone_peer(peer: &Option<PeerAddr>) -> (copy: Option<PeerAddr>)
    ensures
        peer_view(copy) == peer_view(*peer),
{
    match peer {
        Some(peer) => Some(PeerAddr { ip: peer.ip.clone(), port: peer.port }),
        None => None,
    }
}

pub(crate) fn clone_map(map: &Option<JsonMap>) -> (copy: Option<JsonMap>)
    ensures
        map_view(copy) == map_view(*map),
{
    match map {
        Some(map) => Some(map.clone()),
        None => None,
    }
}

/// Request context passed to API route handlers.
#[derive(Debug)]
pub struct ApiContext {
    pub connection_id: String,
    pub peer_addr: Option<PeerAddr>,
    pub request_id: u64,
    pub route: String,
    pub params: Json,
    pub attachments: Vec<FileAttachment>,
    pub metadata: Json,
    /// The identity that the connection was authenticated with.
    pub auth: Option<JsonMap>,
}

/// What an [`ApiContext`] holds.
pub struct Request {
    pub connection_id: Seq<char>,
    pub peer_addr: Option<Peer>,
    pub request_id: u64,
    pub route: Seq<char>,
    pub params: Tree,
    pub attachments: Seq<Attachment>,
    pub metadata: Tree,
    pub auth: Option<Seq<(Seq<char>, Tree)>>,
}

impl View for ApiContext {
    type V = Request;

    open spec fn view(&self) -> Request {
        Request {
            connection_id: self.connection_id@,
            peer_addr: peer_view(self.peer_addr),
            request_id: self.request_id,
            route: self.route@,
            params: self.params@,
            attachments: attachment::attachment_views(self.attachments@),
            metadata: self.metadata@,
            auth: map_view(self.auth),
        }
    }
}

/// The parameter at `key`, where the parameters are an object that has it.
pub open spec fn param_at(params: Tree, key: Seq<char>) -> Option<Tree> {
    match params {
        Tree::Object(members) => json::member(members, key),
        _ => None,
    }
}

/// The JSON summary of an attachment.
pub open spec fn attachment_summary(attachment: Attachment) -> Tree {
    Tree::Object(
        seq![
            ("id"@, Tree::Text(attachment.id)),
            ("name"@, Tree::Text(attachment.name)),
            ("content_type"@, Tree::Text(attachment.content_type)),
            ("size"@, Tree::Int(attachment.data.len() as int)),
        ],
    )
}

fn summary_of(attachment: &FileAttachment) -> (r: Json)
    ensures
        r@ == attachment_summary(attachment@),
{
    let mut members: Vec<(String, Json)> = Vec::with_capacity(4);
    members.push(("id".to_owned(), Json::String(attachment.id.clone())));
    members.push(("name".to_owned(), Json::String(attachment.name.clone())));
    members.push(("content_type".to_owned(), Json::String(attachment.content_type.clone())));
    members.push(("size".to_owned(), Json::Unsigned(attachment.size() as u64)));
    proof {
        reveal_strlit("id");
        reveal_strlit("name");
        reveal_strlit("content_type");
        reveal_strlit("size");
        assert("id"@[0] == 'i');
        assert("name"@[0] == 'n');
        assert("content_type"@[0] == 'c');
        assert("size"@[0] == 's');
        let expected = attachment_summary(attachment@)->Object_0;
        json::lemma_pair_trees(members@);
        assert(json::pair_trees(members@) =~= expected);
        assert(json::distinct_keys(expected));
        json::lemma_collapse_same(expected);
    }
    Json::Object(JsonMap { members })
}

/// The error for params that cannot be bound to a type.
pub open spec fn bind_failure(source: Seq<char>) -> ErrorInfo {
    bad_request("invalid params: "@ + source)
}

/// The error for params that a validator has rejected.
pub open spec fn validation_failure(errors: ValidationErrors) -> ErrorInfo {
    ErrorInfo {
        details: Some(
            Tree::Object(seq![("validation_errors"@, validation::details(errors))]),
        ),
        ..bad_request("params validation failed"@)
    }
}

/// Trait for custom parameter validation after JSON binding.
pub trait ValidateParams {
    fn validate(&self) -> Result<(), ApiError>;
}

/// Bound params, given the outcome of their validation.
pub fn accept_params<T>(params: T, outcome: Result<(), ApiError>) -> (r: Result<T, ApiError>)
    ensures
        match outcome {
            Ok(_) => r == Ok::<T, ApiError>(params),
            Err(e) => r == Err::<T, ApiError>(e),
        },
{
    match outcome {
        Ok(()) => Ok(params),
        Err(e) => Err(e),
    }
}

/// Runs the params' own validation after they were bound. What comes back is the
/// binding error, the bound params, or the error that the validation returned.
pub fn bind_and_validate<T: ValidateParams>(bound: Result<T, ApiError>) -> (r: Result<T, ApiError>)
    ensures
        match bound {
            Err(e) => r == Err::<T, ApiError>(e),
            Ok(params) => exists|outcome: Result<(), ApiError>| #[trigger]
                call_ensures(T::validate, (&params,), outcome) && match outcome {
                    Ok(_) => r == Ok::<T, ApiError>(params),
                    Err(e) => r == Err::<T, ApiError>(e),
                },
        },
{
    match bound {
        Err(e) => Err(e),
        Ok(params) => {
            let outcome = params.validate();
            accept_params(params, outcome)
        },
    }
}

impl ApiContext {
    /// Returns the logical connection id for the current client.
    pub fn connection_id(&self) -> (r: &str)
        ensures
            r@ == self@.connection_id,
    {
        self.connection_id.as_str()
    }

    /// Returns the peer socket address when available.
    pub fn peer_addr(&self) -> (r: &Option<PeerAddr>)
        ensures
            peer_view(*r) == self@.peer_addr,
    {
        &self.peer_addr
    }

    /// Returns the peer IP as a string when available.
    pub fn peer_ip(&self) -> (r: Option<String>)
        ensures
            match r {
                Some(ip) => self@.peer_addr matches Some(peer) && peer.ip == ip@,
                None => self@.peer_addr is None,
            },
    {
        ip_of(&self.peer_addr)
    }

    /// Returns the request correlation id.
    pub fn request_id(&self) -> (r: u64)
        ensures
            r == self@.request_id,
    {
        self.request_id
    }

    /// Returns the matched route name.
    pub fn route(&self) -> (r: &str)
        ensures
            r@ == self@.route,
    {
        self.route.as_str()
    }

    /// Returns the raw JSON params payload.
    pub fn params(&self) -> (r: &Json)
        ensures
            r@ == self@.params,
    {
        &self.params
    }

    /// Looks up a single parameter by key.
    pub fn param(&self, key: &str) -> (r: Option<&Json>)
        ensures
            match r {
                Some(value) => param_at(self@.params, key@) == Some(value@),
                None => param_at(self@.params, key@) is None,
            },
    {
        match &self.params {
            Json::Object(map) => map.get(key),
            _ => None,
        }
    }

    /// Looks up a required parameter or returns a bad request error.
    pub fn require_param(&self, key: &str) -> (r: Result<&Json, ApiError>)
        ensures
            match r {
                Ok(value) => param_at(self@.params, key@) == Some(value@),
                Err(e) => param_at(self@.params, key@) is None && e@ == bad_request(
                    "missing required param: "@ + key@,
                ),
            },
    {
        match self.param(key) {
            Some(value) => Ok(value),
            None => Err(ApiError::bad_request(join("missing required param: ", key).as_str())),
        }
    }

    /// Moves the params out to be bound to a type, and leaves null in their place.
    pub fn take_params(&mut self) -> (params: Json)
        ensures
            params@ == old(self)@.params,
            final(self)@ == (Request { params: Tree::Null, ..old(self)@ }),
    {
        let mut params = Json::Null;
        std::mem::swap(&mut self.params, &mut params);
        params
    }

    /// The error for params that could not be bound, with the binder's message.
    pub fn bind_error(source: &str) -> (e: ApiError)
        ensures
            e@ == bind_failure(source@),
    {
        ApiError::bad_request(join("invalid params: ", source).as_str())
    }

    /// The error for bound params that their validator has rejected.
    pub fn validation_error(errors: &ValidationErrors) -> (e: ApiError)
        ensures
            e@ == validation_failure(*errors),
    {
        let mut details = JsonMap::new();
        details.insert("validation_errors".to_owned(), errors_to_details(errors));
        proof {
            assert(details@ =~= seq![("validation_errors"@, validation::details(*errors))]);
        }
        ApiError::bad_request("params validation failed").with_details(Json::Object(details))
    }

    /// Returns all attachments that accompanied the request.
    pub fn attachments(&self) -> (r: &[FileAttachment])
        ensures
            attachment::attachment_views(r@) == self@.attachments,
    {
        self.attachments.as_slice()
    }

    /// Returns the raw metadata payload.
    pub fn metadata(&self) -> (r: &Json)
        ensures
            r@ == self@.metadata,
    {
        &self.metadata
    }

    /// Returns the identity that the connection was authenticated with.
    pub fn auth_context(&self) -> (r: Option<&JsonMap>)
        ensures
            match r {
                Some(map) => self@.auth == Some(map@),
                None => self@.auth is None,
            },
    {
        self.auth.as_ref()
    }

    /// Returns a simplified JSON view of incoming attachments.
    pub fn attachment_summaries(&self) -> (r: Vec<Json>)
        ensures
            r@.len() == self@.attachments.len(),
            forall|i: int|
                0 <= i < r@.len() ==> (#[trigger] r@[i])@ == attachment_summary(
                    self@.attachments[i],
                ),
    {
        let mut r: Vec<Json> = Vec::with_capacity(self.attachments.len());
        let mut i: usize = 0;
        while i < self.attachments.len()
            invariant
                i <= self.attachments@.len(),
                r@.len() == i,
                forall|j: int|
                    0 <= j < i ==> (#[trigger] r@[j])@ == attachment_summary(
                        self@.attachments[j],
                    ),
            decreases self.attachments.len() - i,
        {
            r.push(summary_of(&self.attachments[i]));
            i += 1;
        }
        r
    }
}

impl Clone for ApiContext {
    fn clone(&self) -> (copy: Self)
        ensures
            copy@ == self@,
    {
        ApiContext {
            connection_id: self.connection_id.clone(),
            peer_addr: clone_peer(&self.peer_addr),
            request_id: self.request_id,
            route: self.route.clone(),
            params: self.params.clone(),
            attachments: clone_attachments(&self.attachments),
            metadata: self.metadata.clone(),
            auth: clone_map(&self.auth),
        }
    }
}

/// Event context passed to event handlers.
#[derive(Debug)]
pub struct EventContext {
    pub connection_id: String,
    pub peer_addr: Option<PeerAddr>,
    pub event_id: u64,
    pub name: String,
    pub data: JsonMap,
    pub attachments: Vec<FileAttachment>,
    pub metadata: Json,
    /// The identity that the connection was authenticated with.
    pub auth: Option<JsonMap>,
}

/// What an [`EventContext`] holds.
pub struct Emission {
    pub connection_id: Seq<char>,
    pub peer_addr: Option<Peer>,
    pub event_id: u64,
    pub name: Seq<char>,
    pub data: Seq<(Seq<char>, Tree)>,
    pub attachments: Seq<Attachment>,
    pub metadata: Tree,
    pub auth: Option<Seq<(Seq<char>, Tree)>>,
}

impl View for EventContext {
    type V = Emission;

    open spec fn view(&self) -> Emission {
        Emission {
            connection_id: self.connection_id@,
            peer_addr: peer_view(self.peer_addr),
            event_id: self.event_id,
            name: self.name@,
            data: self.data@,
            attachments: attachment::attachment_views(self.attachments@),
            metadata: self.metadata@,
            auth: map_view(self.auth),
        }
    }
}

impl EventContext {
    /// Returns the logical connection id for the current client.
    pub fn connection_id(&self) -> (r: &str)
        ensures
            r@ == self@.connection_id,
    {
        self.connection_id.as_str()
    }

    /// Returns the peer socket address when available.
    pub fn peer_addr(&self) -> (r: &Option<PeerAddr>)
        ensures
            peer_view(*r) == self@.peer_addr,
    {
        &self.peer_addr
    }

    /// Returns the peer IP as a string when available.
    pub fn peer_ip(&self) -> (r: Option<String>)
        ensures
            match r {
                Some(ip) => self@.peer_addr matches Some(peer) && peer.ip == ip@,
                None => self@.peer_addr is None,
            },
    {
        ip_of(&self.peer_addr)
    }

    /// Returns the event correlation id.
    pub fn event_id(&self) -> (r: u64)
        ensures
            r == self@.event_id,
    {
        self.event_id
    }

    /// Returns the event name.
    pub fn name(&self) -> (r: &str)
        ensures
            r@ == self@.name,
    {
        self.name.as_str()
    }

    /// Returns the event data.
    pub fn data(&self) -> (r: &JsonMap)
        ensures
            r@ == self@.data,
    {
        &self.data
    }

    /// Returns attachments that accompanied the event.
    pub fn attachments(&self) -> (r: &[FileAttachment])
        ensures
            attachment::attachment_views(r@) == self@.attachments,
    {
        self.attachments.as_slice()
    }

    /// Returns the raw metadata payload.
    pub fn metadata(&self) -> (r: &Json)
        ensures
            r@ == self@.metadata,
    {
        &self.metadata
    }

    /// Returns the identity that the connection was authenticated with.
    pub fn auth_context(&self) -> (r: Option<&JsonMap>)
        ensures
            match r {
                Some(map) => self@.auth == Some(map@),
                None => self@.auth is None,
            },
    {
        self.auth.as_ref()
    }
}

impl Clone for EventContext {
    fn clone(&self) -> (copy: Self)
        ensures
            copy@ == self@,
    {
        EventContext {
            connection_id: self.connection_id.clone(),
            peer_addr: clone_peer(&self.peer_addr),
            event_id: self.event_id,
            name: self.name.clone(),
            data: self.data.clone(),
            attachments: clone_attachments(&self.attachments),
            metadata: self.metadata.clone(),
            auth: clone_map(&self.auth),
        }
    }
}

/// Context passed to the global exception handler.
#[derive(Debug)]
pub struct ExceptionContext {
    pub connection_id: String,
    pub request_id: Option<u64>,
    pub target: String,
    pub message_kind: &'static str,
    pub error: ApiError,
}

/// What an [`ExceptionContext`] holds.
pub struct Exception {
    pub connection_id: Seq<char>,
    pub request_id: Option<u64>,
    pub target: Seq<char>,
    pub message_kind: Seq<char>,
    pub error: ErrorInfo,
}

impl View for ExceptionContext {
    type V = Exception;

    open spec fn view(&self) -> Exception {
        Exception {
            connection_id: self.connection_id@,
            request_id: self.request_id,
            target: self.target@,
            message_kind: self.message_kind@,
            error: self.error@,
        }
    }
}

impl Clone for ExceptionContext {
    fn clone(&self) -> (copy: Self)
        ensures
            copy@ == self@,
    {
        ExceptionContext {
            connection_id: self.connection_id.clone(),
            request_id: self.request_id,
            target: self.target.clone(),
            message_kind: self.message_kind,
            error: self.error.clone(),
        }
    }
}

/// Context passed to the handlers of new connections.
#[derive(Debug)]
pub struct ServerConnectionContext {
    pub connection_id: String,
    pub peer_addr: Option<PeerAddr>,
}

/// Context passed to the handlers of ended connections.
#[derive(Debug)]
pub struct ServerDisconnectContext {
    pub connection_id: String,
    pub peer_addr: Option<PeerAddr>,
    pub reason: String,
}

/// What an authentication handler is given.
#[derive(Debug)]
pub struct AuthContext {
    pub credential: String,
}

impl AuthContext {
    /// The credential that the client has submitted.
    pub fn credential(&self) -> (r: &str)
        ensures
            r@ == self.credential@,
    {
        self.credential.as_str()
    }
}

/// What an authentication handler grants.
#[derive(Debug)]
pub struct AuthOutput {
    /// Idle timeout of the connection; `None` keeps the default.
    pub session_timeout: Option<Duration>,
    /// The identity that handlers can read.
    pub context: Option<JsonMap>,
}

impl AuthOutput {
    /// Grants access with the default timeout and without an identity.
    pub fn new() -> (r: Self)
        ensures
            r.session_timeout is None,
            r.context is None,
    {
        AuthOutput { session_timeout: None, context: None }
    }

    /// Sets the connection's idle timeout.
    pub fn with_session_timeout(self, timeout: Duration) -> (r: Self)
        ensures
            r == (AuthOutput { session_timeout: Some(timeout), ..self }),
    {
        AuthOutput { session_timeout: Some(timeout), ..self }
    }

    /// Sets the identity that handlers can read.
    pub fn with_context(self, context: JsonMap) -> (r: Self)
        ensures
            r == (AuthOutput { context: Some(context), ..self }),
    {
        AuthOutput { context: Some(context), ..self }
    }

    /// The idle timeout of the connection: the granted one, or 45 s.
    pub fn idle_timeout(&self) -> (r: Duration)
        ensures
            match self.session_timeout {
                Some(timeout) => r == timeout,
                None => time::nanos(r) == 45 * time::NANOS_PER_SEC,
            },
    {
        match self.session_timeout {
            Some(timeout) => timeout,
            None => Duration::from_secs(45),
        }
    }
}

} // verus!
