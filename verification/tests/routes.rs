use pg_stats_exporter::db::PostgresNode;
use pg_stats_exporter::handler::begin_metrics_response;
use pg_stats_exporter::json::msg_member_text;
use pg_stats_exporter::json::msg_object_text;
use pg_stats_exporter::routes::api_error_handler;
use pg_stats_exporter::routes::is_success;
use pg_stats_exporter::routes::route_error_handler;
use pg_stats_exporter::routes::ApiError;
use pg_stats_exporter::routes::Cause;
use pg_stats_exporter::routes::HttpErrorBody;
use pg_stats_exporter::routes::LogLevel;
use pg_stats_exporter::routes::Method;
use pg_stats_exporter::routes::Phase;
use pg_stats_exporter::routes::Reply;
use pg_stats_exporter::routes::RequestCancelled;
use pg_stats_exporter::routes::RequestContext;
use pg_stats_exporter::routes::RequestId;
use pg_stats_exporter::routes::RequestSpan;
use pg_stats_exporter::routes::RouteFailure;
use pg_stats_exporter::routes::State;
use pg_stats_exporter::routes::JSON_CONTENT_TYPE;
use pg_stats_exporter::routes::METRICS_PATH;
use pg_stats_exporter::version;

fn cause(display: &str, debug: &str) -> Cause {
    Cause {
        display: display.to_string(),
        debug: debug.to_string(),
    }
}

fn msg_of(body: &str) -> String {
    let value: serde_json::Value = serde_json::from_str(body).unwrap();
    let object = value.as_object().unwrap();
    assert_eq!(object.len(), 1);
    object["msg"].as_str().unwrap().to_string()
}

fn context(method: Method, start: u64) -> RequestContext {
    RequestContext::new(
        Some(RequestId("req-1".to_string())),
        method,
        METRICS_PATH.to_string(),
        start,
    )
}

#[test]
fn version_is_package_then_revision() {
    assert_eq!(version("0.1.0", "git:abc123"), "0.1.0(git:abc123)");
    assert_eq!(version("", ""), "()");
}

#[test]
fn connection_url_names_user_address_and_database() {
    let node = PostgresNode {
        addr: "127.0.0.1:5432".to_string(),
        user: "docker".to_string(),
        dbname: "postgres".to_string(),
    };
    assert_eq!(
        node.connection_url(),
        "postgresql://docker@127.0.0.1:5432/postgres"
    );
    let state = State {
        pgnode: Box::leak(Box::new(node)),
    };
    assert_eq!(state.pgnode.user, "docker");
}

#[test]
fn each_error_kind_has_its_status() {
    let c = cause("shown", "Debugged");
    let text = "why".to_string();
    assert_eq!(ApiError::BadRequest(c.clone()).status_code(), 400);
    assert_eq!(ApiError::Forbidden(text.clone()).status_code(), 403);
    assert_eq!(ApiError::Unauthorized(text.clone()).status_code(), 401);
    assert_eq!(ApiError::NotFound(text.clone()).status_code(), 404);
    assert_eq!(ApiError::Conflict(text.clone()).status_code(), 409);
    assert_eq!(ApiError::PreconditionFailed(text.clone()).status_code(), 412);
    assert_eq!(ApiError::InternalServerError(c).status_code(), 500);
}

#[test]
fn each_error_kind_has_its_message() {
    let c = cause("shown", "Debugged");
    let text = "why".to_string();
    assert_eq!(ApiError::BadRequest(c.clone()).to_message(), "Bad request: Debugged");
    assert_eq!(ApiError::Forbidden(text.clone()).to_message(), "Forbidden: why");
    assert_eq!(ApiError::Unauthorized(text.clone()).to_message(), "Unauthorized: why");
    assert_eq!(ApiError::NotFound(text.clone()).to_message(), "NotFound: why");
    assert_eq!(ApiError::Conflict(text.clone()).to_message(), "Conflict: why");
    assert_eq!(
        ApiError::PreconditionFailed(text.clone()).to_message(),
        "Precondition failed: why"
    );
    assert_eq!(ApiError::InternalServerError(c.clone()).to_message(), "shown");
    assert_eq!(
        ApiError::InternalServerError(c).to_log_detail(),
        "InternalServerError(Debugged)"
    );
    assert_eq!(ApiError::NotFound(text).to_log_detail(), "NotFound: why");
}

#[test]
fn error_responses_are_json_with_one_message() {
    let c = cause("shown", "Debugged");
    let text = "why".to_string();
    let cases = vec![
        (ApiError::BadRequest(c.clone()), 400, "Debugged"),
        (ApiError::Forbidden(text.clone()), 403, "why"),
        (ApiError::Unauthorized(text.clone()), 401, "why"),
        (ApiError::NotFound(text.clone()), 404, "why"),
        (ApiError::Conflict(text.clone()), 409, "why"),
        (ApiError::PreconditionFailed(text.clone()), 412, "why"),
        (ApiError::InternalServerError(c.clone()), 500, "shown"),
    ];
    for (error, status, msg) in cases {
        let response = error.into_response();
        assert_eq!(response.status, status);
        assert_eq!(response.content_type, "application/json");
        assert_eq!(response.content_type, JSON_CONTENT_TYPE);
        assert_eq!(msg_of(&response.body), msg);
    }
}

#[test]
fn the_body_of_an_error_is_its_cause_alone() {
    let response = ApiError::Forbidden("nope".to_string()).into_response();
    assert_eq!(response.status, 403);
    assert_eq!(response.content_type, "application/json");
    assert_eq!(response.body, "{\"msg\":\"nope\"}");
    assert_eq!(
        ApiError::PreconditionFailed("stale".to_string()).into_response().body,
        "{\"msg\":\"stale\"}"
    );
    assert_eq!(
        ApiError::BadRequest(cause("short", "Long { form }")).into_response().body,
        "{\"msg\":\"Long { form }\"}"
    );
    assert_eq!(
        ApiError::NotFound("no such".to_string()).into_client_message(),
        "no such"
    );
}

#[test]
fn a_value_is_framed_as_the_member_msg() {
    assert_eq!(msg_member_text("\"x\""), "{\"msg\":\"x\"}");
    assert_eq!(msg_member_text("null"), "{\"msg\":null}");
    assert_eq!(msg_member_text(""), "{\"msg\":}");
}

#[test]
fn the_message_is_escaped_as_json() {
    assert_eq!(msg_object_text("plain"), "{\"msg\":\"plain\"}");
    assert_eq!(
        msg_object_text("a \"quoted\" line\nand a \\ slash"),
        "{\"msg\":\"a \\\"quoted\\\" line\\nand a \\\\ slash\"}"
    );
    assert_eq!(msg_object_text(""), "{\"msg\":\"\"}");
    let body = HttpErrorBody {
        msg: "tab\there".to_string(),
    };
    let response = body.to_response(418);
    assert_eq!(response.status, 418);
    assert_eq!(response.body, "{\"msg\":\"tab\\there\"}");
    assert_eq!(
        HttpErrorBody::response_from_msg_and_status("x".to_string(), 503),
        HttpErrorBody { msg: "x".to_string() }.to_response(503)
    );
}

#[test]
fn unreachable_store_scenario_gives_500_with_a_message() {
    let refused = cause("Failed to connect to 127.0.0.1:5432", "Error { kind: Connect }");
    // there is the error and nothing else: no head, no writer, no channel
    let error = match begin_metrics_response(Err(refused.clone())) {
        Err(error) => error,
        Ok(_) => panic!("no response begins without the store"),
    };
    assert_eq!(error, ApiError::InternalServerError(refused));
    let mut span = RequestSpan::new(context(Method::Get, 1_000));
    span.enter();
    let (reply, completion) = span.respond(Err(error), 1_250);
    match reply {
        Reply::Replace(response) => {
            assert_eq!(response.status, 500);
            assert_eq!(response.content_type, "application/json");
            assert_eq!(
                response.body,
                "{\"msg\":\"Failed to connect to 127.0.0.1:5432\"}"
            );
        }
        Reply::Forward => panic!("an error has its own response"),
    }
    assert_eq!(completion.status, 500);
    assert_eq!(completion.level, LogLevel::Error);
    assert_eq!(completion.elapsed_ms, 250);
    assert_eq!(
        completion.failure.as_deref(),
        Some("InternalServerError(Error { kind: Connect })")
    );
}

#[test]
fn api_errors_are_logged_at_error_level() {
    let (response, report) = api_error_handler(ApiError::Conflict("busy".to_string()));
    assert_eq!(response.status, 409);
    assert_eq!(msg_of(&response.body), "busy");
    assert_eq!(report.level, LogLevel::Error);
    assert_eq!(report.status, 409);
    assert_eq!(report.detail, "Conflict: busy");
}

#[test]
fn the_last_resort_handles_any_failure() {
    let (response, report) =
        route_error_handler(RouteFailure::Api(ApiError::NotFound("no such".to_string())));
    assert_eq!(response.status, 404);
    assert_eq!(msg_of(&response.body), "no such");
    assert_eq!(report.status, 404);
    assert_eq!(report.detail, "NotFound: no such");

    let (response, report) = route_error_handler(RouteFailure::Other(cause("odd", "Odd { x: 1 }")));
    assert_eq!(response.status, 500);
    assert_eq!(response.content_type, "application/json");
    assert_eq!(msg_of(&response.body), "odd");
    assert_eq!(report.level, LogLevel::Error);
    assert_eq!(report.status, 500);
    assert_eq!(report.detail, "Odd { x: 1 }");
}

#[test]
fn success_is_the_two_hundreds() {
    assert!(!is_success(199));
    assert!(is_success(200));
    assert!(is_success(204));
    assert!(is_success(299));
    assert!(!is_success(300));
    assert!(!is_success(500));
}

#[test]
fn a_request_without_an_id_has_the_empty_one() {
    let with = RequestContext::new(
        Some(RequestId("abc".to_string())),
        Method::Post,
        "/x".to_string(),
        5,
    );
    assert_eq!(with.request_id, "abc");
    assert_eq!(with.method, Method::Post);
    assert_eq!(with.path, "/x");
    assert_eq!(with.start_time, 5);
    let without = RequestContext::new(None, Method::Get, "/metrics".to_string(), 0);
    assert_eq!(without.request_id, "");
    assert_eq!(RequestId::default().0, "");
}

#[test]
fn only_get_is_quiet() {
    assert!(context(Method::Get, 0).log_quietly());
    for method in [
        Method::Head,
        Method::Post,
        Method::Put,
        Method::Delete,
        Method::Connect,
        Method::Options,
        Method::Trace,
        Method::Patch,
        Method::Other,
    ] {
        assert!(!context(method, 0).log_quietly());
    }
}

#[test]
fn elapsed_time_never_goes_below_zero() {
    let c = context(Method::Get, 100);
    assert_eq!(c.elapsed_ms(100), 0);
    assert_eq!(c.elapsed_ms(175), 75);
    assert_eq!(c.elapsed_ms(99), 0);
    assert_eq!(context(Method::Get, 0).elapsed_ms(u64::MAX), u64::MAX);
}

#[test]
fn the_guard_warns_until_it_is_disarmed() {
    let mut guard = RequestCancelled::warn_when_dropped_without_responding();
    assert!(guard.is_armed());
    guard.disarm();
    assert!(!guard.is_armed());
    guard.disarm();
    assert!(!guard.is_armed());
}

#[test]
fn a_quiet_success_is_logged_at_debug() {
    let mut span = RequestSpan::new(context(Method::Get, 10));
    assert_eq!(span.current_phase(), Phase::Started);
    assert_eq!(span.enter(), LogLevel::Debug);
    assert_eq!(span.current_phase(), Phase::Handling);
    let (reply, completion) = span.respond(Ok(200), 30);
    assert_eq!(reply, Reply::Forward);
    assert_eq!(completion.level, LogLevel::Debug);
    assert_eq!(completion.status, 200);
    assert_eq!(completion.elapsed_ms, 20);
    assert_eq!(completion.failure, None);
    assert_eq!(span.current_phase(), Phase::Responded);
    // a request that was answered goes away without a warning
    assert!(!span.abandon());
    assert_eq!(span.current_phase(), Phase::Responded);
}

#[test]
fn anything_but_a_quiet_success_is_logged_at_info() {
    let mut span = RequestSpan::new(context(Method::Get, 0));
    span.enter();
    let (_, completion) = span.respond(Ok(404), 1);
    assert_eq!(completion.level, LogLevel::Info);
    assert_eq!(completion.status, 404);

    let mut span = RequestSpan::new(context(Method::Post, 0));
    assert_eq!(span.enter(), LogLevel::Info);
    let (reply, completion) = span.respond(Ok(200), 1);
    assert_eq!(reply, Reply::Forward);
    assert_eq!(completion.level, LogLevel::Info);
    assert_eq!(completion.status, 200);
}

#[test]
fn a_failed_handler_is_answered_and_logged_once() {
    let mut span = RequestSpan::new(context(Method::Get, 0));
    span.enter();
    let (reply, completion) = span.respond(Err(ApiError::Forbidden("no".to_string())), 9);
    match reply {
        Reply::Replace(response) => {
            assert_eq!(response.status, 403);
            assert_eq!(msg_of(&response.body), "no");
        }
        Reply::Forward => panic!("an error has its own response"),
    }
    assert_eq!(completion.level, LogLevel::Error);
    assert_eq!(completion.status, 403);
    assert_eq!(completion.elapsed_ms, 9);
    assert_eq!(completion.failure.as_deref(), Some("Forbidden: no"));
    assert_eq!(span.current_phase(), Phase::Responded);
    assert!(!span.abandon());
}

#[test]
fn a_request_dropped_while_handled_is_worth_a_warning() {
    let mut span = RequestSpan::new(context(Method::Get, 0));
    // nothing has started: no warning
    assert!(!span.abandon());
    assert_eq!(span.current_phase(), Phase::Started);
    span.enter();
    assert!(span.abandon());
    assert_eq!(span.current_phase(), Phase::Dropped);
    // the warning comes once
    assert!(!span.abandon());
    assert_eq!(span.current_phase(), Phase::Dropped);
}
