//! The error kinds, their HTTP responses, and the life of one request.
use vstd::prelude::*;
use vstd::string::StringExecFns;
use crate::db::PostgresNode;
use crate::json::msg_object;
use crate::json::msg_object_text;

verus! {

/// The one path that the exporter serves, with `GET`.
pub const METRICS_PATH: &'static str = "/metrics";

/// The media type of every error body.
pub const JSON_CONTENT_TYPE: &'static str = "application/json";

/// How loud a log line is.
#[derive(Clone, Copy, Debug, PartialEq, Eq, Structural)]
pub enum LogLevel {
    Debug,
    Info,
    Warn,
    Error,
}

/// What went wrong, rendered for two readers: `display` for a client, `debug`
/// with all that is known for the log.
#[derive(Clone, Debug, PartialEq, Eq)]
pub struct Cause {
    pub display: String,
    pub debug: String,
}

/// Why a request failed.
#[derive(Clone, Debug, PartialEq, Eq)]
pub enum ApiError {
    BadRequest(Cause),
    Forbidden(String),
    Unauthorized(String),
    NotFound(String),
    Conflict(String),
    PreconditionFailed(String),
    InternalServerError(Cause),
}

/// A complete response: status, media type and body.
#[derive(Clone, Debug, PartialEq, Eq)]
pub struct HttpResponse {
    pub status: u16,
    pub content_type: String,
    pub body: String,
}

/// The body of an error response.
#[derive(Clone, Debug, PartialEq, Eq)]
pub struct HttpErrorBody {
    pub msg: String,
}

impl ApiError {
    /// The HTTP status of each kind.
    pub open spec fn status(&self) -> u16 {
        match self {
            ApiError::BadRequest(_) => 400,
            ApiError::Forbidden(_) => 403,
            ApiError::Unauthorized(_) => 401,
            ApiError::NotFound(_) => 404,
            ApiError::Conflict(_) => 409,
            ApiError::PreconditionFailed(_) => 412,
            ApiError::InternalServerError(_) => 500,
        }
    }

    /// The error as one line of text, for the log: the kind, then the cause. A
    /// bad request shows its cause in full; an internal error is its cause and
    /// nothing else.
    pub open spec fn message(&self) -> Seq<char> {
        match self {
            ApiError::BadRequest(cause) => "Bad request: "@ + cause.debug@,
            ApiError::Forbidden(cause) => "Forbidden: "@ + cause@,
            ApiError::Unauthorized(cause) => "Unauthorized: "@ + cause@,
            ApiError::NotFound(cause) => "NotFound: "@ + cause@,
            ApiError::Conflict(cause) => "Conflict: "@ + cause@,
            ApiError::PreconditionFailed(cause) => "Precondition failed: "@ + cause@,
            ApiError::InternalServerError(cause) => cause.display@,
        }
    }

    /// What the client is told: the cause and nothing but the cause. A bad
    /// request shows it in full; every other kind shows it as one line,
    /// without the name of the kind in front.
    pub open spec fn client_message(&self) -> Seq<char> {
        match self {
            ApiError::BadRequest(cause) => cause.debug@,
            ApiError::Forbidden(cause) => cause@,
            ApiError::Unauthorized(cause) => cause@,
            ApiError::NotFound(cause) => cause@,
            ApiError::Conflict(cause) => cause@,
            ApiError::PreconditionFailed(cause) => cause@,
            ApiError::InternalServerError(cause) => cause.display@,
        }
    }

    /// What the log is told: for an internal error the kind and the cause in
    /// full, for every other kind the one-line message.
    pub open spec fn log_detail(&self) -> Seq<char> {
        match self {
            ApiError::InternalServerError(cause) => "InternalServerError("@ + cause.debug@ + ")"@,
            _ => self.message(),
        }
    }

    /// Whether the fault lies with the server rather than with the request.
    pub open spec fn is_server_fault(&self) -> bool {
        self is InternalServerError
    }

    /// The HTTP status of this error.
    pub fn status_code(&self) -> (status: u16)
        ensures
            status == self.status(),
            400 <= status < 600,
            self.is_server_fault() <==> status >= 500,
    {
        match self {
            ApiError::BadRequest(_) => 400,
            ApiError::Forbidden(_) => 403,
            ApiError::Unauthorized(_) => 401,
            ApiError::NotFound(_) => 404,
            ApiError::Conflict(_) => 409,
            ApiError::PreconditionFailed(_) => 412,
            ApiError::InternalServerError(_) => 500,
        }
    }

    /// The error as one line of text.
    pub fn to_message(&self) -> (text: String)
        ensures
            text@ == self.message(),
    {
        match self {
            ApiError::BadRequest(cause) => String::from_str("Bad request: ").concat(
                cause.debug.as_str(),
            ),
            ApiError::Forbidden(cause) => String::from_str("Forbidden: ").concat(cause.as_str()),
            ApiError::Unauthorized(cause) => String::from_str("Unauthorized: ").concat(
                cause.as_str(),
            ),
            ApiError::NotFound(cause) => String::from_str("NotFound: ").concat(cause.as_str()),
            ApiError::Conflict(cause) => String::from_str("Conflict: ").concat(cause.as_str()),
            ApiError::PreconditionFailed(cause) => String::from_str("Precondition failed: ").concat(
                cause.as_str(),
            ),
            ApiError::InternalServerError(cause) => cause.display.clone(),
        }
    }

    /// What the client is told.
    pub fn into_client_message(self) -> (text: String)
        ensures
            text@ == self.client_message(),
    {
        match self {
            ApiError::BadRequest(cause) => cause.debug,
            ApiError::Forbidden(cause) => cause,
            ApiError::Unauthorized(cause) => cause,
            ApiError::NotFound(cause) => cause,
            ApiError::Conflict(cause) => cause,
            ApiError::PreconditionFailed(cause) => cause,
            ApiError::InternalServerError(cause) => cause.display,
        }
    }

    /// The line for the log.
    pub fn to_log_detail(&self) -> (text: String)
        ensures
            text@ == self.log_detail(),
    {
        match self {
            ApiError::InternalServerError(cause) => String::from_str("InternalServerError(").concat(
                cause.debug.as_str(),
            ).concat(")"),
            _ => self.to_message(),
        }
    }

    /// The response for this error: its status, and a JSON body with the
    /// message for the client.
    pub fn into_response(self) -> (response: HttpResponse)
        ensures
            response.status == self.status(),
            response.content_type@ == JSON_CONTENT_TYPE@,
            response.body@ == msg_object(self.client_message()),
    {
        let status = self.status_code();
        let msg = self.into_client_message();
        HttpErrorBody::response_from_msg_and_status(msg, status)
    }
}

impl HttpErrorBody {
    /// The error response with `msg` as its message.
    pub fn response_from_msg_and_status(msg: String, status: u16) -> (response: HttpResponse)
        ensures
            response.status == status,
            response.content_type@ == JSON_CONTENT_TYPE@,
            response.body@ == msg_object(msg@),
    {
        let body = HttpErrorBody { msg };
        body.to_response(status)
    }

    /// This body as a response with the given status: the media type is JSON
    /// and the body is the object `{"msg":...}`.
    pub fn to_response(&self, status: u16) -> (response: HttpResponse)
        ensures
            response.status == status,
            response.content_type@ == JSON_CONTENT_TYPE@,
            response.body@ == msg_object(self.msg@),
    {
        HttpResponse {
            status,
            content_type: String::from_str(JSON_CONTENT_TYPE),
            body: msg_object_text(self.msg.as_str()),
        }
    }
}

/// Whether `response` is the error response with this message and status.
pub open spec fn is_error_response(response: HttpResponse, msg: Seq<char>, status: u16) -> bool {
    &&& response.status == status
    &&& response.content_type@ == JSON_CONTENT_TYPE@
    &&& response.body@ == msg_object(msg)
}

/// Whether a status reports success: the range from 200 to 299.
pub fn is_success(status: u16) -> (success: bool)
    ensures
        success == (200 <= status < 300),
{
    200 <= status && status < 300
}

/// A failure as it goes to the log: always at `Error`, with the status that
/// the client got.
#[derive(Clone, Debug, PartialEq, Eq)]
pub struct ErrorReport {
    pub level: LogLevel,
    pub status: u16,
    pub detail: String,
}

/// What a route handed up in place of a response.
#[derive(Clone, Debug, PartialEq, Eq)]
pub enum RouteFailure {
    /// A handler's own error.
    Api(ApiError),
    /// Anything else, which no handler is expected to return.
    Other(Cause),
}

/// Turns a handler's error into its response, and says what to log: the
/// detail at `Error`, whatever the kind of request.
pub fn api_error_handler(api_error: ApiError) -> (handled: (HttpResponse, ErrorReport))
    ensures
        is_error_response(handled.0, api_error.client_message(), api_error.status()),
        handled.1.level == LogLevel::Error,
        handled.1.status == api_error.status(),
        handled.1.detail@ == api_error.log_detail(),
{
    let report = ErrorReport {
        level: LogLevel::Error,
        status: api_error.status_code(),
        detail: api_error.to_log_detail(),
    };
    (api_error.into_response(), report)
}

/// The last resort for what a route hands up. A handler's error is treated as
/// `api_error_handler` does; anything else becomes status 500 with the cause
/// as the message, and is logged in full at `Error`.
pub fn route_error_handler(err: RouteFailure) -> (handled: (HttpResponse, ErrorReport))
    ensures
        handled.1.level == LogLevel::Error,
        handled.1.status == handled.0.status,
        match err {
            RouteFailure::Api(api_error) => {
                &&& is_error_response(
                    handled.0,
                    api_error.client_message(),
                    api_error.status(),
                )
                &&& handled.1.detail@ == api_error.log_detail()
            },
            RouteFailure::Other(cause) => {
                &&& is_error_response(handled.0, cause.display@, 500)
                &&& handled.1.detail@ == cause.debug@
            },
        },
{
    match err {
        RouteFailure::Api(api_error) => api_error_handler(api_error),
        RouteFailure::Other(cause) => {
            let report = ErrorReport { level: LogLevel::Error, status: 500, detail: cause.debug };
            (HttpErrorBody::response_from_msg_and_status(cause.display, 500), report)
        },
    }
}

/// The request methods, as far as the exporter tells them apart.
#[derive(Clone, Copy, Debug, PartialEq, Eq, Structural)]
pub enum Method {
    Get,
    Head,
    Post,
    Put,
    Delete,
    Connect,
    Options,
    Trace,
    Patch,
    Other,
}

/// The identifier that the router attached to a request.
#[derive(Clone, Debug)]
pub struct RequestId(pub String);

impl Default for RequestId {
    /// A request without an identifier has the empty one.
    fn default() -> (id: Self)
        ensures
            id.0@ == Seq::<char>::empty(),
    {
        RequestId(String::new())
    }
}

/// What is known of a request when it comes in. `start_time` is in
/// milliseconds, on whatever clock the caller reads.
#[derive(Clone, Debug, PartialEq, Eq)]
pub struct RequestContext {
    pub request_id: String,
    pub method: Method,
    pub path: String,
    pub start_time: u64,
}

impl RequestContext {
    /// The context of a request; one that came without an identifier gets the
    /// empty one.
    pub fn new(request_id: Option<RequestId>, method: Method, path: String, start_time: u64) -> (context:
        Self)
        ensures
            context.request_id@ == match request_id {
                Some(id) => id.0@,
                None => Seq::<char>::empty(),
            },
            context.method == method,
            context.path == path,
            context.start_time == start_time,
    {
        let id = match request_id {
            Some(id) => id,
            None => RequestId::default(),
        };
        RequestContext { request_id: id.0, method, path, start_time }
    }

    /// A request is quiet when it only reads: a `GET`.
    pub open spec fn quiet(&self) -> bool {
        self.method == Method::Get
    }

    /// Whether the request is logged quietly while all goes well.
    pub fn log_quietly(&self) -> (quiet: bool)
        ensures
            quiet == self.quiet(),
    {
        self.method == Method::Get
    }

    /// The milliseconds from the start of the request to `now`; none where the
    /// clock has not moved on.
    pub open spec fn elapsed(&self, now: u64) -> u64 {
        if now >= self.start_time {
            (now - self.start_time) as u64
        } else {
            0
        }
    }

    /// The time that the request has taken so far.
    pub fn elapsed_ms(&self, now: u64) -> (elapsed: u64)
        ensures
            elapsed == self.elapsed(now),
    {
        if now >= self.start_time {
            now - self.start_time
        } else {
            0
        }
    }
}

/// A guard for the time in which a handler runs. Whoever holds it looks at it
/// when the request goes away: a guard that is still armed then means that
/// the request was dropped before it produced a response.
#[derive(Debug)]
pub struct RequestCancelled {
    warn: bool,
}

impl RequestCancelled {
    /// Whether dropping the request now calls for a warning.
    pub closed spec fn armed(&self) -> bool {
        self.warn
    }

    /// A guard that is armed.
    pub fn warn_when_dropped_without_responding() -> (guard: Self)
        ensures
            guard.armed(),
    {
        RequestCancelled { warn: true }
    }

    /// Disarms the guard: there is a response, and nothing to warn of.
    pub fn disarm(&mut self)
        ensures
            !final(self).armed(),
    {
        self.warn = false;
    }

    /// Whether the guard is still armed.
    pub fn is_armed(&self) -> (armed: bool)
        ensures
            armed == self.armed(),
    {
        self.warn
    }
}

/// Where a request stands.
#[derive(Clone, Copy, Debug, PartialEq, Eq, Structural)]
pub enum Phase {
    /// Received; the handler has not been called.
    Started,
    /// The handler is running.
    Handling,
    /// There is a response.
    Responded,
    /// The request went away while the handler was running.
    Dropped,
}

/// The one line that is logged when a request has been answered.
#[derive(Clone, Debug, PartialEq, Eq)]
pub struct Completion {
    pub level: LogLevel,
    pub status: u16,
    pub elapsed_ms: u64,
    /// The detail of the failure, where the handler failed.
    pub failure: Option<String>,
}

/// What goes back to the client.
#[derive(Clone, Debug, PartialEq, Eq)]
pub enum Reply {
    /// The response that the handler made.
    Forward,
    /// This response, made from the handler's error.
    Replace(HttpResponse),
}

/// The log level of the line that announces a request.
pub open spec fn start_level(quiet: bool) -> LogLevel {
    if quiet {
        LogLevel::Debug
    } else {
        LogLevel::Info
    }
}

/// The log level of the line that reports a response with this status: low
/// for a quiet request that succeeded, higher for any other.
pub open spec fn handled_level(quiet: bool, status: u16) -> LogLevel {
    if quiet && 200 <= status < 300 {
        LogLevel::Debug
    } else {
        LogLevel::Info
    }
}

/// One request on its way through the wrapper.
#[derive(Debug)]
pub struct RequestSpan {
    context: RequestContext,
    phase: Phase,
    guard: RequestCancelled,
}

impl RequestSpan {
    /// Where the request stands.
    pub closed spec fn phase(&self) -> Phase {
        self.phase
    }

    /// The request that this span is about.
    pub closed spec fn context(&self) -> RequestContext {
        self.context
    }

    /// Whether the guard is armed.
    pub closed spec fn guarded(&self) -> bool {
        self.guard.armed()
    }

    /// The guard is armed exactly while the handler runs.
    pub closed spec fn wf(&self) -> bool {
        self.guard.armed() <==> self.phase == Phase::Handling
    }

    /// In every state of a request the guard is armed exactly while the
    /// handler runs: before the handler is called, after a response and after
    /// a drop it is not.
    pub proof fn lemma_guard_follows_phase(&self)
        requires
            self.wf(),
        ensures
            self.guarded() <==> self.phase() == Phase::Handling,
    {
    }

    /// A span for a request that has just come in.
    pub fn new(context: RequestContext) -> (span: Self)
        ensures
            span.wf(),
            span.phase() == Phase::Started,
            span.context() == context,
    {
        RequestSpan { context, phase: Phase::Started, guard: RequestCancelled { warn: false } }
    }

    /// Where the request stands.
    pub fn current_phase(&self) -> (phase: Phase)
        ensures
            phase == self.phase(),
    {
        self.phase
    }

    /// The handler is about to run: the guard is armed, and the request is
    /// announced at the level that is returned.
    pub fn enter(&mut self) -> (level: LogLevel)
        requires
            old(self).wf(),
            old(self).phase() == Phase::Started,
        ensures
            final(self).wf(),
            final(self).phase() == Phase::Handling,
            final(self).context() == old(self).context(),
            level == start_level(old(self).context().quiet()),
    {
        self.guard = RequestCancelled::warn_when_dropped_without_responding();
        self.phase = Phase::Handling;
        if self.context.log_quietly() {
            LogLevel::Debug
        } else {
            LogLevel::Info
        }
    }

    /// The handler has returned, with the status of its response or with an
    /// error. The guard is disarmed. A response is passed on; an error becomes
    /// its own response. Either way there is one line for the log, with the
    /// status that the client gets.
    pub fn respond(&mut self, outcome: Result<u16, ApiError>, now: u64) -> (done: (
        Reply,
        Completion,
    ))
        requires
            old(self).wf(),
            old(self).phase() == Phase::Handling,
        ensures
            final(self).wf(),
            final(self).phase() == Phase::Responded,
            !final(self).guarded(),
            final(self).context() == old(self).context(),
            done.1.elapsed_ms == old(self).context().elapsed(now),
            match outcome {
                Ok(status) => {
                    &&& done.0 is Forward
                    &&& done.1.status == status
                    &&& done.1.level == handled_level(old(self).context().quiet(), status)
                    &&& done.1.failure is None
                },
                Err(api_error) => {
                    &&& done.0 is Replace
                    &&& is_error_response(
                        done.0->Replace_0,
                        api_error.client_message(),
                        api_error.status(),
                    )
                    &&& done.1.status == api_error.status()
                    &&& done.1.level == LogLevel::Error
                    &&& done.1.failure is Some
                    &&& done.1.failure->Some_0@ == api_error.log_detail()
                },
            },
    {
        self.guard.disarm();
        self.phase = Phase::Responded;
        let elapsed_ms = self.context.elapsed_ms(now);
        match outcome {
            Ok(status) => {
                let level = if self.context.log_quietly() && is_success(status) {
                    LogLevel::Debug
                } else {
                    LogLevel::Info
                };
                (Reply::Forward, Completion { level, status, elapsed_ms, failure: None })
            },
            Err(api_error) => {
                let (response, report) = api_error_handler(api_error);
                (
                    Reply::Replace(response),
                    Completion {
                        level: report.level,
                        status: report.status,
                        elapsed_ms,
                        failure: Some(report.detail),
                    },
                )
            },
        }
    }

    /// The request goes away. It is worth a warning if and only if the handler
    /// was still running, so that there is no response; the request then
    /// counts as dropped. In any other phase nothing changes.
    pub fn abandon(&mut self) -> (warn: bool)
        requires
            old(self).wf(),
        ensures
            final(self).wf(),
            !final(self).guarded(),
            warn == (old(self).phase() == Phase::Handling),
            final(self).phase() == if warn {
                Phase::Dropped
            } else {
                old(self).phase()
            },
            final(self).context() == old(self).context(),
    {
        if self.guard.is_armed() {
            self.guard.disarm();
            self.phase = Phase::Dropped;
            true
        } else {
            false
        }
    }
}

/// What every request handler is given: the server to read.
#[derive(Debug)]
pub struct State {
    pub pgnode: &'static PostgresNode,
}

} // verus!
