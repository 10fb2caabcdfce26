use vstd::prelude::*;

use crate::errors::Failure;
use crate::faults::{u32_fault, u32_fault_text};
use crate::json::{Json, JsonView};
use crate::parse::{parse_json, parsed_json};
use crate::paths::{is_rooted, starts_with_slash};
use crate::text::{concat3, concat5, decimal, decimal_text};
use crate::words::{contains, contains_text, trim, trimmed};

verus! {

/// The name under which this client introduces itself.
pub const CLIENT_NAME: &'static str = "codex-tamer";

/// The version that this client introduces itself with.
pub const CLIENT_VERSION: &'static str = "0.3.3";

/// How long a request waits for one message, in seconds.
pub const REQUEST_READ_TIMEOUT_SECS: u64 = 120;

/// How long a connection may take to come about, in seconds.
pub const CONNECT_TIMEOUT_SECS: u64 = 10;

/// How many bytes one message may have.
pub const MAX_WEBSOCKET_MESSAGE_SIZE: usize = 134_217_728;

/// The error that the server answers a request with.
#[derive(Debug, Clone)]
pub struct RpcError {
    pub code: i64,
    pub message: String,
}

/// A request that the server answered with an error.
#[derive(Debug, Clone)]
pub struct RpcRequestError {
    pub method: String,
    pub error: RpcError,
}

/// What a request ended in other than a result.
#[derive(Debug)]
pub enum RequestError {
    /// The server's error.
    Rpc(RpcRequestError),
    /// A failure of the connection, or an answer that is none.
    Failed(Failure),
}

/// A message from the server that answers no request.
#[derive(Debug)]
pub struct Notification {
    pub method: String,
    pub params: Json,
}

#[verifier::ext_equal]
pub struct NotificationView {
    pub method: Seq<char>,
    pub params: JsonView,
}

impl View for Notification {
    type V = NotificationView;

    open spec fn view(&self) -> NotificationView {
        NotificationView { method: self.method@, params: self.params@ }
    }
}

/// Who is at the other end of a Unix socket.
#[derive(Debug, Clone, Copy, PartialEq, Eq, Structural)]
pub struct PeerIdentity {
    pub pid: Option<u32>,
    pub uid: u32,
    pub gid: u32,
}

/// What the server says of itself when a connection is initialized.
#[derive(Debug, Clone, PartialEq, Eq)]
pub struct InitializeInfo {
    pub user_agent: String,
    pub codex_home: String,
    pub platform_family: String,
    pub platform_os: String,
}

/// Who is at the other end of a Unix socket, as the system tells it.
pub fn peer_identity_from(pid: Option<i32>, uid: u32, gid: u32) -> (identity: Result<
    PeerIdentity,
    Failure,
>)
    ensures
        match identity {
            Ok(identity) => {
                &&& identity.uid == uid
                &&& identity.gid == gid
                &&& match (pid, identity.pid) {
                    (Some(raw), Some(pid)) => raw >= 0 && pid == raw,
                    (None, None) => true,
                    _ => false,
                }
            },
            Err(failure) => {
                &&& pid matches Some(raw) && raw < 0
                &&& failure@ == seq!["app-server UDS peer pid is invalid"@, u32_fault(pid->0)]
            },
        },
{
    match pid {
        None => Ok(PeerIdentity { pid: None, uid, gid }),
        Some(raw) => if raw < 0 {
            let fault = u32_fault_text(raw);
            Err(Failure::caused("app-server UDS peer pid is invalid", fault.as_str()))
        } else {
            Ok(PeerIdentity { pid: Some(raw as u32), uid, gid })
        },
    }
}

/// The value of the header that carries a token.
pub fn authorization_value(auth_token: &str) -> (value: String)
    ensures
        value@ == "Bearer "@ + auth_token@,
{
    let mut value = "Bearer ".to_owned();
    value.append(auth_token);
    value
}

/// The text of a server's error. A capability that this client lacks is named as such.
pub open spec fn rpc_error_text(method: Seq<char>, code: i64, message: Seq<char>) -> Seq<char> {
    if contains_text(message, "experimentalApi"@) {
        "app-server rejected `"@ + method + "` because it requires experimentalApi capability"@
    } else {
        "app-server `"@ + method + "` error "@ + decimal(code as int) + ": "@ + message
    }
}

pub fn format_rpc_error(method: &str, error: &RpcError) -> (text: String)
    ensures
        text@ == rpc_error_text(method@, error.code, error.message@),
{
    if contains(error.message.as_str(), "experimentalApi") {
        concat3(
            "app-server rejected `",
            method,
            "` because it requires experimentalApi capability",
        )
    } else {
        let code = decimal_text(error.code);
        let mut text = concat5("app-server `", method, "` error ", code.as_str(), ": ");
        text.append(error.message.as_str());
        text
    }
}

impl RpcRequestError {
    pub fn message(&self) -> (text: String)
        ensures
            text@ == rpc_error_text(self.method@, self.error.code, self.error.message@),
    {
        format_rpc_error(self.method.as_str(), &self.error)
    }
}

/// The parameters with which a connection is initialized.
pub open spec fn initialize_params_view() -> JsonView {
    let name = JsonView::Str(CLIENT_NAME@);
    let client = JsonView::empty_object().with("name"@, name).with("title"@, name).with(
        "version"@,
        JsonView::Str(CLIENT_VERSION@),
    );
    let capabilities = JsonView::empty_object().with("experimentalApi"@, JsonView::Bool(true));
    JsonView::empty_object().with("clientInfo"@, client).with("capabilities"@, capabilities)
}

pub fn initialize_params() -> (params: Json)
    ensures
        params@ == initialize_params_view(),
{
    let client = Json::object().with("name", Json::string(CLIENT_NAME)).with(
        "title",
        Json::string(CLIENT_NAME),
    ).with("version", Json::string(CLIENT_VERSION));
    let capabilities = Json::object().with("experimentalApi", Json::Bool(true));
    Json::object().with("clientInfo", client).with("capabilities", capabilities)
}

impl InitializeInfo {
    /// Whether the server identified itself: nothing that it says of itself is blank.
    pub open spec fn identified(self) -> bool {
        &&& trimmed(self.user_agent@).len() > 0
        &&& trimmed(self.platform_family@).len() > 0
        &&& trimmed(self.platform_os@).len() > 0
    }

    /// Accepts what the server says of itself, given whether its home is an absolute path.
    pub fn accept(self, home_is_absolute: bool) -> (accepted: Result<InitializeInfo, RequestError>)
        ensures
            match accepted {
                Ok(info) => info == self && self.identified() && home_is_absolute,
                Err(error) => {
                    &&& !(self.identified() && home_is_absolute)
                    &&& error matches RequestError::Failed(failure) && failure@
                        == seq!["initialize response has invalid server identity fields"@]
                },
            },
    {
        if trim(self.user_agent.as_str()).is_empty() || trim(
            self.platform_family.as_str(),
        ).is_empty() || trim(self.platform_os.as_str()).is_empty() || !home_is_absolute {
            return Err(
                RequestError::Failed(
                    Failure::new("initialize response has invalid server identity fields"),
                ),
            );
        }
        Ok(self)
    }

    /// Whether the home can be an absolute path: on Unix just where it starts with the root,
    /// and on Windows only where it has the start of one.
    pub open spec fn home_may_be_absolute(self, windows: bool) -> bool {
        if windows {
            starts_absolute(self.codex_home@)
        } else {
            is_rooted(self.codex_home@)
        }
    }

    /// Accepts what the server says of itself, where its home is an absolute path on the
    /// platform. On Unix this comes down to the text of the home.
    pub fn validate(self, windows: bool) -> (accepted: Result<InitializeInfo, RequestError>)
        ensures
            match accepted {
                Ok(info) => {
                    &&& info == self
                    &&& self.identified()
                    &&& self.home_may_be_absolute(windows)
                },
                Err(error) => {
                    &&& !windows ==> !(self.identified() && self.home_may_be_absolute(windows))
                    &&& error matches RequestError::Failed(failure) && failure@
                        == seq!["initialize response has invalid server identity fields"@]
                },
            },
    {
        let absolute = if windows {
            is_absolute_path(self.codex_home.as_str())
        } else {
            starts_with_slash(self.codex_home.as_str())
        };
        self.accept(absolute)
    }
}

/// Whether a path starts as an absolute one does on some platform: with a separator, or with
/// a drive and a separator.
pub open spec fn starts_absolute(path: Seq<char>) -> bool {
    ||| path.len() > 0 && (path[0] == '/' || path[0] == '\\')
    ||| path.len() > 2 && path[1] == ':' && (path[2] == '/' || path[2] == '\\')
}

/// [`std::path::Path::is_absolute`]: whether a path is absolute on the platform that this was
/// built for. On Unix an absolute path starts with the root, and on Windows it has a prefix,
/// which is a drive or begins with separators, and then the root. Which of the paths that
/// start so are absolute on Windows is not said.
#[verifier::external_body]
fn is_absolute_path(path: &str) -> (absolute: bool)
    ensures
        absolute ==> starts_absolute(path@),
{
    std::path::Path::new(path).is_absolute()
}

/// A connection's side of the protocol: the next request's id, and what is known of the
/// other end.
#[derive(Debug)]
pub struct RpcClient {
    pub next_id: i64,
    pub connection_id: u64,
    pub server_info: Option<InitializeInfo>,
    pub peer_identity: Option<PeerIdentity>,
}

/// A request as it is sent.
pub open spec fn request_view(id: i64, method: Seq<char>, params: JsonView) -> JsonView {
    let bare = JsonView::empty_object().with(
        "id"@,
        JsonView::Number { text: decimal(id as int), integer: Some(id) },
    ).with("method"@, JsonView::Str(method));
    if params is Null {
        bare
    } else {
        bare.with("params"@, params)
    }
}

/// A notification as it is sent.
pub open spec fn notification_message_view(method: Seq<char>, params: JsonView) -> JsonView {
    let bare = JsonView::empty_object().with("method"@, JsonView::Str(method));
    if params is Null {
        bare
    } else {
        bare.with("params"@, params)
    }
}

/// The answer to a request of the server: this client serves none.
pub open spec fn rejection_view(request: JsonView) -> JsonView {
    let method = match request.field("method"@).as_str() {
        Some(method) => method,
        None => "unknown"@,
    };
    let error = JsonView::empty_object().with(
        "code"@,
        JsonView::Number { text: decimal(-32601), integer: Some(-32601i64) },
    ).with("message"@, JsonView::Str("unsupported server request `"@ + method + "`"@));
    JsonView::empty_object().with("id"@, request.field("id"@)).with("error"@, error)
}

pub fn reject_server_request(request: &Json) -> (response: Json)
    ensures
        response@ == rejection_view(request@),
{
    let id = request.field("id").duplicate();
    let method = match request.field("method").as_str() {
        Some(method) => method,
        None => "unknown",
    };
    let message = concat3("unsupported server request `", method, "`");
    let error = Json::object().with("code", Json::integer(-32601)).with(
        "message",
        Json::Str(message),
    );
    Json::object().with("id", id).with("error", error)
}

/// A server's answer to a request.
#[derive(Debug)]
pub enum ParsedResponse {
    Success(Json),
    Failure(RpcError),
}

pub enum ParsedResponseView {
    Success(JsonView),
    Failure { code: i64, message: Seq<char> },
}

impl View for ParsedResponse {
    type V = ParsedResponseView;

    open spec fn view(&self) -> ParsedResponseView {
        match self {
            ParsedResponse::Success(result) => ParsedResponseView::Success(result@),
            ParsedResponse::Failure(error) => ParsedResponseView::Failure {
                code: error.code,
                message: error.message@,
            },
        }
    }
}

/// What a message is as the answer to request `id`: none, or a result or an error, of which
/// it has exactly one, or a fault.
pub open spec fn response_for_id(value: JsonView, id: i64) -> Result<
    Option<ParsedResponseView>,
    Seq<char>,
> {
    if value.field("id"@).as_i64() != Some(id) {
        Ok(None)
    } else {
        match (value.get("result"@), value.get("error"@)) {
            (Some(result), None) => Ok(Some(ParsedResponseView::Success(result))),
            (None, Some(error)) => match (
                error.field("code"@).as_i64(),
                error.field("message"@).as_str(),
            ) {
                (None, _) => Err("app-server response error is missing integer `code`"@),
                (Some(_), None) => Err("app-server response error is missing string `message`"@),
                (Some(code), Some(message)) => Ok(
                    Some(ParsedResponseView::Failure { code, message }),
                ),
            },
            _ => Err(
                "app-server response for request id "@ + decimal(id as int)
                    + " must contain exactly one of `result` or `error`"@,
            ),
        }
    }
}

pub fn parse_response_for_id(value: &Json, id: i64) -> (parsed: Result<
    Option<ParsedResponse>,
    RequestError,
>)
    ensures
        match parsed {
            Ok(Some(response)) => response_for_id(value@, id) == Ok::<
                Option<ParsedResponseView>,
                Seq<char>,
            >(Some(response@)),
            Ok(None) => response_for_id(value@, id) == Ok::<Option<ParsedResponseView>, Seq<char>>(
                None,
            ),
            Err(error) => {
                &&& error matches RequestError::Failed(failure)
                &&& response_for_id(value@, id) is Err
                &&& failure@ == seq![response_for_id(value@, id)->Err_0]
            },
        },
{
    match value.field("id").as_i64() {
        Some(answered) => {
            if answered != id {
                return Ok(None);
            }
        },
        None => {
            return Ok(None);
        },
    }
    match (value.get("result"), value.get("error")) {
        (Some(result), None) => Ok(Some(ParsedResponse::Success(result.duplicate()))),
        (None, Some(error)) => {
            let code = match error.field("code").as_i64() {
                Some(code) => code,
                None => {
                    return Err(
                        RequestError::Failed(
                            Failure::new("app-server response error is missing integer `code`"),
                        ),
                    );
                },
            };
            let message = match error.field("message").as_str() {
                Some(message) => message,
                None => {
                    return Err(
                        RequestError::Failed(
                            Failure::new("app-server response error is missing string `message`"),
                        ),
                    );
                },
            };
            Ok(Some(ParsedResponse::Failure(RpcError { code, message: message.to_owned() })))
        },
        _ => {
            let number = decimal_text(id);
            Err(
                RequestError::Failed(
                    Failure::of(
                        concat3(
                            "app-server response for request id ",
                            number.as_str(),
                            " must contain exactly one of `result` or `error`",
                        ),
                    ),
                ),
            )
        },
    }
}

/// What to do about a message that came in while a request awaits its answer.
#[derive(Debug)]
pub enum RequestStep {
    /// Hand the notification on and wait further.
    Notify(Notification),
    /// Send this answer to the server's own request and wait further.
    Reject(Json),
    /// Wait further.
    Ignore,
    /// The request has its result.
    Done(Json),
    /// The request has failed.
    Fail(RequestError),
}

/// The notification that a message with this method is.
pub open spec fn notification_of(value: JsonView, method: Seq<char>) -> NotificationView {
    NotificationView { method, params: value.field("params"@) }
}

fn to_notification(value: &Json, method: &str) -> (notification: Notification)
    ensures
        notification@ == notification_of(value@, method@),
{
    Notification { method: method.to_owned(), params: value.field("params").duplicate() }
}

/// What to do about a message that came in while nothing but notifications is awaited.
#[derive(Debug)]
pub enum ListenStep {
    /// Hand the notification on.
    Notify(Notification),
    /// Send this answer to the server's own request and wait further.
    Reject(Json),
    /// Wait further.
    Ignore,
    /// Nothing more will come.
    Fail(RequestError),
}

/// What a connection delivers.
#[derive(Debug)]
pub enum Incoming {
    Text(String),
    /// A message that is no text.
    Other,
    /// The connection has ended.
    Closed,
    /// The connection failed.
    Broken(Failure),
}

/// What comes of a message while request `id` is awaited. A message with a method is never
/// its answer, whatever id it has.
pub open spec fn request_step_ok(
    step: RequestStep,
    value: JsonView,
    id: i64,
    method: Seq<char>,
) -> bool {
    match (value.field("method"@).as_str(), value.get("id"@)) {
        (Some(_), Some(_)) => step matches RequestStep::Reject(answer) && answer@
            == rejection_view(value),
        (Some(named), None) => step matches RequestStep::Notify(notification) && notification@
            == notification_of(value, named),
        (None, _) => match response_for_id(value, id) {
            Ok(None) => step is Ignore,
            Ok(Some(ParsedResponseView::Success(result))) => step matches RequestStep::Done(json)
                && json@ == result,
            Ok(Some(ParsedResponseView::Failure { code, message })) => {
                step matches RequestStep::Fail(RequestError::Rpc(error)) && error.method@ == method
                    && error.error.code == code && error.error.message@ == message
            },
            Err(fault) => step matches RequestStep::Fail(RequestError::Failed(failure)) && failure@
                == seq![fault],
        },
    }
}

pub fn request_step(value: &Json, id: i64, method: &str) -> (step: RequestStep)
    ensures
        request_step_ok(step, value@, id, method@),
{
    if let Some(named) = value.field("method").as_str() {
        if value.get("id").is_some() {
            return RequestStep::Reject(reject_server_request(value));
        }
        return RequestStep::Notify(to_notification(value, named));
    }
    match parse_response_for_id(value, id) {
        Ok(None) => RequestStep::Ignore,
        Ok(Some(ParsedResponse::Success(result))) => RequestStep::Done(result),
        Ok(Some(ParsedResponse::Failure(error))) => RequestStep::Fail(
            RequestError::Rpc(RpcRequestError { method: method.to_owned(), error }),
        ),
        Err(error) => RequestStep::Fail(error),
    }
}

/// What comes of a message while nothing but notifications is awaited.
pub open spec fn listen_step_ok(step: ListenStep, value: JsonView) -> bool {
    if value.get("id"@) is Some && value.get("method"@) is Some {
        step matches ListenStep::Reject(answer) && answer@ == rejection_view(value)
    } else {
        match value.field("method"@).as_str() {
            Some(named) => step matches ListenStep::Notify(notification) && notification@
                == notification_of(value, named),
            None => step is Ignore,
        }
    }
}

pub fn listen_step(value: &Json) -> (step: ListenStep)
    ensures
        listen_step_ok(step, value@),
{
    if value.get("id").is_some() && value.get("method").is_some() {
        return ListenStep::Reject(reject_server_request(value));
    }
    match value.field("method").as_str() {
        Some(named) => ListenStep::Notify(to_notification(value, named)),
        None => ListenStep::Ignore,
    }
}

/// Why a message that cannot be read ends the wait for it.
pub open spec fn invalid_json_failure(text: Seq<char>, message: Seq<char>) -> Seq<Seq<char>> {
    seq!["app-server sent invalid JSON: "@ + text, message]
}

fn invalid_json(text: &str, message: &str) -> (error: RequestError)
    ensures
        error matches RequestError::Failed(failure) && failure@ == invalid_json_failure(
            text@,
            message@,
        ),
{
    let mut context = "app-server sent invalid JSON: ".to_owned();
    context.append(text);
    RequestError::Failed(Failure::caused(context.as_str(), message))
}

fn read_failure(cause: Failure) -> (error: RequestError)
    ensures
        error matches RequestError::Failed(failure) && failure@ == seq![
            "failed to read websocket message"@,
        ] + cause@,
{
    RequestError::Failed(cause.context("failed to read websocket message"))
}

/// Whether a step gives up with this failure.
pub open spec fn request_fails(step: RequestStep, chain: Seq<Seq<char>>) -> bool {
    step matches RequestStep::Fail(RequestError::Failed(failure)) && failure@ == chain
}

/// What comes of what the connection delivered while request `id` is awaited, or of its not
/// having delivered anything in time.
pub open spec fn awaited_ok(
    step: RequestStep,
    incoming: Result<Incoming, Failure>,
    id: i64,
    method: Seq<char>,
) -> bool {
    match incoming {
        Ok(Incoming::Text(text)) => match parsed_json(text@) {
            Ok(value) => request_step_ok(step, value, id, method),
            Err(message) => request_fails(step, invalid_json_failure(text@, message)),
        },
        Ok(Incoming::Other) => step is Ignore,
        Ok(Incoming::Closed) => request_fails(
            step,
            seq!["app-server connection closed while waiting for `"@ + method + "`"@],
        ),
        Ok(Incoming::Broken(cause)) => request_fails(
            step,
            seq!["failed to read websocket message"@] + cause@,
        ),
        Err(elapsed) => request_fails(
            step,
            seq!["timed out waiting for app-server `"@ + method + "` response"@] + elapsed@,
        ),
    }
}

/// Whether a step of listening gives up with this failure.
pub open spec fn listening_fails(step: ListenStep, chain: Seq<Seq<char>>) -> bool {
    step matches ListenStep::Fail(RequestError::Failed(failure)) && failure@ == chain
}

/// What comes of what the connection delivered while nothing but notifications is awaited.
pub open spec fn heard_ok(step: ListenStep, incoming: Incoming) -> bool {
    match incoming {
        Incoming::Text(text) => match parsed_json(text@) {
            Ok(value) => listen_step_ok(step, value),
            Err(message) => listening_fails(step, invalid_json_failure(text@, message)),
        },
        Incoming::Other => step is Ignore,
        Incoming::Closed => listening_fails(step, seq!["app-server connection closed"@]),
        Incoming::Broken(cause) => listening_fails(
            step,
            seq!["failed to read websocket message"@] + cause@,
        ),
    }
}

impl RpcClient {
    /// A connection on which nothing was sent yet.
    pub fn connect(connection_id: u64, peer_identity: Option<PeerIdentity>) -> (client: RpcClient)
        ensures
            client.next_id == 1,
            client.connection_id == connection_id,
            client.server_info is None,
            client.peer_identity == peer_identity,
    {
        RpcClient { next_id: 1, connection_id, server_info: None, peer_identity }
    }

    pub fn server_info(&self) -> (info: &InitializeInfo)
        requires
            self.server_info is Some,
        ensures
            self.server_info == Some(*info),
    {
        match &self.server_info {
            Some(info) => info,
            None => {
                proof {
                    assert(false);
                }
                vstd::pervasive::unreached()
            },
        }
    }

    pub fn peer_identity(&self) -> (identity: Option<PeerIdentity>)
        ensures
            identity == self.peer_identity,
    {
        self.peer_identity
    }

    /// Takes the next id for a request and gives the request to send. Ids go up by one, so no
    /// two requests of a connection share one.
    pub fn request(&mut self, method: &str, params: Json) -> (request: (i64, Json))
        requires
            old(self).next_id < i64::MAX,
        ensures
            request.0 == old(self).next_id,
            request.1@ == request_view(old(self).next_id, method@, params@),
            final(self).next_id == old(self).next_id + 1,
            final(self).connection_id == old(self).connection_id,
            final(self).server_info == old(self).server_info,
            final(self).peer_identity == old(self).peer_identity,
    {
        let id = self.next_id;
        self.next_id = id + 1;
        let mut request = Json::object().with("id", Json::integer(id)).with(
            "method",
            Json::string(method),
        );
        if !params.is_null() {
            request.set("params", params);
        }
        (id, request)
    }

    /// What to do about what the connection delivered while a request awaits its answer, or
    /// about its not having delivered anything in time.
    pub fn await_response(
        &self,
        incoming: Result<Incoming, Failure>,
        id: i64,
        method: &str,
    ) -> (step: RequestStep)
        ensures
            awaited_ok(step, incoming, id, method@),
    {
        match incoming {
            Ok(Incoming::Text(text)) => match parse_json(text.as_str()) {
                Ok(value) => request_step(&value, id, method),
                Err(message) => RequestStep::Fail(invalid_json(text.as_str(), message.as_str())),
            },
            Ok(Incoming::Other) => RequestStep::Ignore,
            Ok(Incoming::Closed) => RequestStep::Fail(
                RequestError::Failed(
                    Failure::of(
                        concat3("app-server connection closed while waiting for `", method, "`"),
                    ),
                ),
            ),
            Ok(Incoming::Broken(cause)) => RequestStep::Fail(read_failure(cause)),
            Err(elapsed) => {
                let context = concat3("timed out waiting for app-server `", method, "` response");
                RequestStep::Fail(RequestError::Failed(elapsed.context(context.as_str())))
            },
        }
    }

    /// The notification to send.
    pub fn send_notification(&self, method: &str, params: Json) -> (message: Json)
        ensures
            message@ == notification_message_view(method@, params@),
    {
        let mut message = Json::object().with("method", Json::string(method));
        if !params.is_null() {
            message.set("params", params);
        }
        message
    }

    /// What to do about what the connection delivered while nothing but notifications is
    /// awaited.
    pub fn next_notification_or_request(&self, incoming: Incoming) -> (step: ListenStep)
        ensures
            heard_ok(step, incoming),
    {
        match incoming {
            Incoming::Text(text) => match parse_json(text.as_str()) {
                Ok(value) => listen_step(&value),
                Err(message) => ListenStep::Fail(invalid_json(text.as_str(), message.as_str())),
            },
            Incoming::Other => ListenStep::Ignore,
            Incoming::Closed => ListenStep::Fail(
                RequestError::Failed(Failure::new("app-server connection closed")),
            ),
            Incoming::Broken(cause) => ListenStep::Fail(read_failure(cause)),
        }
    }

    /// Notes what the server said of itself, where that identifies it.
    pub fn initialize(&mut self, info: InitializeInfo, windows: bool) -> (initialized: Result<
        (),
        RequestError,
    >)
        ensures
            final(self).next_id == old(self).next_id,
            final(self).connection_id == old(self).connection_id,
            final(self).peer_identity == old(self).peer_identity,
            match initialized {
                Ok(()) => {
                    &&& info.identified()
                    &&& info.home_may_be_absolute(windows)
                    &&& final(self).server_info == Some(info)
                },
                Err(error) => {
                    &&& !windows ==> !(info.identified() && info.home_may_be_absolute(windows))
                    &&& final(self).server_info == old(self).server_info
                    &&& error matches RequestError::Failed(failure) && failure@
                        == seq!["initialize response has invalid server identity fields"@]
                },
            },
    {
        match info.validate(windows) {
            Ok(info) => {
                self.server_info = Some(info);
                Ok(())
            },
            Err(error) => Err(error),
        }
    }
}

/// A message with a method is never taken for the answer to a request, whatever id it has.
pub proof fn law_messages_with_a_method_answer_nothing(
    step: RequestStep,
    value: JsonView,
    id: i64,
    method: Seq<char>,
)
    requires
        request_step_ok(step, value, id, method),
        value.field("method"@).as_str() is Some,
    ensures
        !(step is Done),
        !(step is Fail),
        !(step is Ignore),
{
}

} // verus!
