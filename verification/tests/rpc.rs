use codex_tamer::errors::Failure;
use codex_tamer::json::Json;
use codex_tamer::parse::parse_json;
use codex_tamer::rpc::{
    format_rpc_error, initialize_params, listen_step, parse_response_for_id,
    reject_server_request, request_step, Incoming, InitializeInfo, ListenStep, ParsedResponse, PeerIdentity, RequestError, RequestStep, RpcClient, RpcError, RpcRequestError,
    CLIENT_NAME, CLIENT_VERSION, CONNECT_TIMEOUT_SECS, MAX_WEBSOCKET_MESSAGE_SIZE,
    REQUEST_READ_TIMEOUT_SECS,
};
use serde_json::Value;
use std::time::Duration;

fn json(text: &str) -> Json {
    parse_json(text).unwrap()
}

fn value(text: &str) -> Value {
    serde_json::from_str(text).unwrap()
}

fn parsed(json: &Json) -> Value {
    serde_json::from_str(&json.to_text()).unwrap()
}

fn info() -> InitializeInfo {
    InitializeInfo {
        user_agent: "codex-tamer/0.146.0 (Linux; x86_64)".to_string(),
        codex_home: "/tmp/codex-home".to_string(),
        platform_family: "unix".to_string(),
        platform_os: "linux".to_string(),
    }
}

fn message(error: RequestError) -> String {
    match error {
        RequestError::Rpc(error) => error.message(),
        RequestError::Failed(failure) => failure.render(),
    }
}

#[test]
fn ordinary_request_read_timeout_is_two_minutes() {
    assert_eq!(
        Duration::from_secs(REQUEST_READ_TIMEOUT_SECS),
        Duration::from_secs(120)
    );
}

#[test]
fn connection_limits_are_fixed() {
    assert_eq!(CONNECT_TIMEOUT_SECS, 10);
    assert_eq!(MAX_WEBSOCKET_MESSAGE_SIZE, 128 << 20);
}

#[test]
fn response_parser_requires_exactly_one_payload() {
    assert!(
        parse_response_for_id(&json(r#"{"id": 2, "result": null}"#), 1)
            .unwrap()
            .is_none()
    );
    assert!(matches!(
        parse_response_for_id(&json(r#"{"id": 1, "result": {"ok": true}}"#), 1).unwrap(),
        Some(ParsedResponse::Success(_))
    ));
    assert!(parse_response_for_id(&json(r#"{"id": 1}"#), 1).is_err());
    assert!(parse_response_for_id(
        &json(r#"{"id": 1, "result": null, "error": {"code": -1, "message": "bad"}}"#),
        1,
    )
    .is_err());
}

#[test]
fn response_parser_validates_error_shape() {
    assert!(parse_response_for_id(&json(r#"{"id": 1, "error": {}}"#), 1).is_err());
    let Some(ParsedResponse::Failure(error)) = parse_response_for_id(
        &json(r#"{"id": 1, "error": {"code": -32600, "message": "invalid"}}"#),
        1,
    )
    .unwrap() else {
        panic!("expected error response");
    };
    assert_eq!(error.code, -32600);
    assert_eq!(error.message, "invalid");
}

#[test]
fn response_parser_names_each_fault() {
    let fault = |text: &str| message(parse_response_for_id(&json(text), 1).unwrap_err());
    assert_eq!(
        fault(r#"{"id": 1}"#),
        "app-server response for request id 1 must contain exactly one of `result` or `error`"
    );
    assert_eq!(
        fault(r#"{"id": 1, "error": {"message": "m"}}"#),
        "app-server response error is missing integer `code`"
    );
    assert_eq!(
        fault(r#"{"id": 1, "error": {"code": 3}}"#),
        "app-server response error is missing string `message`"
    );
}

#[test]
fn rpc_errors_are_formatted_with_method_code_and_message() {
    let error = RpcError {
        code: -32000,
        message: "no such thread".to_string(),
    };
    assert_eq!(
        format_rpc_error("thread/read", &error),
        "app-server `thread/read` error -32000: no such thread"
    );
    let error = RpcError {
        code: 1,
        message: "needs experimentalApi today".to_string(),
    };
    assert_eq!(
        format_rpc_error("thread/read", &error),
        "app-server rejected `thread/read` because it requires experimentalApi capability"
    );
    let request = RpcRequestError {
        method: "turn/start".to_string(),
        error: RpcError {
            code: i64::MIN,
            message: String::new(),
        },
    };
    assert_eq!(
        request.message(),
        "app-server `turn/start` error -9223372036854775808: "
    );
}

#[test]
fn requests_take_ids_in_order() {
    let mut client = RpcClient::connect(7, None);
    let (first, frame) = client.request("initialize", initialize_params());
    assert_eq!(first, 1);
    assert_eq!(
        parsed(&frame),
        value(&format!(
            r#"{{"id": 1, "method": "initialize", "params": {{
                "clientInfo": {{"name": "{CLIENT_NAME}", "title": "{CLIENT_NAME}", "version": "{CLIENT_VERSION}"}},
                "capabilities": {{"experimentalApi": true}}
            }}}}"#
        ))
    );
    let (second, frame) = client.request("ping", Json::Null);
    assert_eq!(second, 2);
    assert_eq!(parsed(&frame), value(r#"{"id": 2, "method": "ping"}"#));
    assert_eq!(client.next_id, 3);
    assert_eq!(client.connection_id, 7);
}

#[test]
fn notifications_are_sent_without_an_id() {
    let client = RpcClient::connect(1, None);
    assert_eq!(
        parsed(&client.send_notification("initialized", Json::Null)),
        value(r#"{"method": "initialized"}"#)
    );
    assert_eq!(
        parsed(&client.send_notification("note", json(r#"{"a": [1, 2.5]}"#))),
        value(r#"{"method": "note", "params": {"a": [1, 2.5]}}"#)
    );
}

#[test]
fn server_requests_are_rejected_and_answer_nothing() {
    let request = json(r#"{"id": 1, "method": "approval/request", "params": {}}"#);
    let RequestStep::Reject(answer) = request_step(&request, 1, "thread/read") else {
        panic!("expected a rejection");
    };
    assert_eq!(
        parsed(&answer),
        value(
            r#"{"id": 1, "error": {"code": -32601, "message": "unsupported server request `approval/request`"}}"#
        )
    );
    let RequestStep::Done(result) = request_step(
        &json(r#"{"id": 1, "result": {"completed": true}}"#),
        1,
        "thread/read",
    ) else {
        panic!("expected the result");
    };
    assert_eq!(parsed(&result), value(r#"{"completed": true}"#));
    assert_eq!(
        parsed(&reject_server_request(&json(r#"{"method": 4}"#))),
        value(
            r#"{"id": null, "error": {"code": -32601, "message": "unsupported server request `unknown`"}}"#
        )
    );
}

#[test]
fn messages_during_a_request_are_told_apart() {
    let RequestStep::Notify(notification) = request_step(
        &json(r#"{"method": "turn/started", "params": {"threadId": "t"}}"#),
        1,
        "x",
    ) else {
        panic!("expected a notification");
    };
    assert_eq!(notification.method, "turn/started");
    assert_eq!(parsed(&notification.params), value(r#"{"threadId": "t"}"#));
    assert!(matches!(
        request_step(&json(r#"{"id": 9, "result": 1}"#), 1, "x"),
        RequestStep::Ignore
    ));
    let RequestStep::Fail(RequestError::Rpc(error)) = request_step(
        &json(r#"{"id": 1, "error": {"code": 5, "message": "m"}}"#),
        1,
        "x",
    ) else {
        panic!("expected the server's error");
    };
    assert_eq!(error.method, "x");
    assert_eq!(error.error.code, 5);
    assert!(matches!(
        request_step(&json(r#"{"id": 1}"#), 1, "x"),
        RequestStep::Fail(RequestError::Failed(_))
    ));
}

#[test]
fn messages_without_a_request_are_told_apart() {
    assert!(matches!(
        listen_step(&json(r#"{"id": 1, "method": 3}"#)),
        ListenStep::Reject(_)
    ));
    assert!(matches!(
        listen_step(&json(r#"{"id": 1, "result": null}"#)),
        ListenStep::Ignore
    ));
    let ListenStep::Notify(notification) = listen_step(&json(r#"{"method": "m"}"#)) else {
        panic!("expected a notification");
    };
    assert_eq!(notification.method, "m");
    assert!(notification.params.is_null());
}

#[test]
fn a_server_must_identify_itself() {
    let peer = PeerIdentity {
        pid: Some(3),
        uid: 4,
        gid: 5,
    };
    let mut client = RpcClient::connect(1, Some(peer));
    client.initialize(info(), false).unwrap();
    assert_eq!(client.server_info().codex_home, "/tmp/codex-home");
    assert_eq!(client.peer_identity(), Some(peer));

    for broken in [
        InitializeInfo {
            user_agent: " \u{2003}\n".to_string(),
            ..info()
        },
        InitializeInfo {
            platform_family: String::new(),
            ..info()
        },
        InitializeInfo {
            platform_os: "\t".to_string(),
            ..info()
        },
        InitializeInfo {
            codex_home: "relative/home".to_string(),
            ..info()
        },
        InitializeInfo {
            codex_home: "home".to_string(),
            ..info()
        },
        InitializeInfo {
            codex_home: String::new(),
            ..info()
        },
    ] {
        let mut client = RpcClient::connect(1, None);
        assert_eq!(
            message(client.initialize(broken.clone(), false).unwrap_err()),
            "initialize response has invalid server identity fields"
        );
        assert!(client.initialize(broken, true).is_err());
        assert!(client.server_info.is_none());
    }
    assert!(info().validate(false).is_ok());
    let drive = InitializeInfo {
        codex_home: r"C:\home".to_string(),
        ..info()
    };
    assert!(drive.clone().validate(false).is_err());
    assert_eq!(
        drive.validate(true).is_ok(),
        std::path::Path::new(r"C:\home").is_absolute()
    );
    assert_eq!(
        info().validate(true).is_ok(),
        std::path::Path::new(&info().codex_home).is_absolute()
    );
    assert!(info().accept(false).is_err());
    assert!(info().accept(true).is_ok());
}

fn text(message: &str) -> Result<Incoming, Failure> {
    Ok(Incoming::Text(message.to_string()))
}

#[test]
fn server_request_with_matching_id_does_not_complete_client_request() {
    let mut client = RpcClient::connect(1, None);
    let (id, initialize) = client.request("initialize", initialize_params());
    let initialize = parsed(&initialize);
    assert_eq!(initialize["method"], "initialize");
    assert_eq!(
        initialize["params"]["clientInfo"],
        value(&format!(
            r#"{{"name": "{CLIENT_NAME}", "title": "{CLIENT_NAME}", "version": "{CLIENT_VERSION}"}}"#
        ))
    );
    let reply = format!(
        r#"{{"id": {id}, "result": {{
            "userAgent": "codex_cli_rs/0.146.0 (test)",
            "codexHome": "/work/mock-codex",
            "platformFamily": "unix",
            "platformOs": "linux"
        }}}}"#
    );
    let RequestStep::Done(result) = client.await_response(text(&reply), id, "initialize") else {
        panic!("expected initialize result");
    };
    let result = parsed(&result);
    let field = |key: &str| result[key].as_str().unwrap().to_string();
    client
        .initialize(
            InitializeInfo {
                user_agent: field("userAgent"),
                codex_home: field("codexHome"),
                platform_family: field("platformFamily"),
                platform_os: field("platformOs"),
            },
            false,
        )
        .unwrap();
    let initialized = client.send_notification("initialized", Json::Null);
    assert_eq!(parsed(&initialized)["method"], "initialized");

    let (id, request) = client.request("thread/read", json(r#"{"threadId": "thread_1"}"#));
    let request = parsed(&request);
    assert_eq!(request["method"], "thread/read");
    assert_eq!(request["id"], id);

    let server_request = format!(r#"{{"id": {id}, "method": "approval/request", "params": {{}}}}"#);
    let RequestStep::Reject(rejection) =
        client.await_response(text(&server_request), id, "thread/read")
    else {
        panic!("expected text rejection");
    };
    let rejection = parsed(&rejection);
    assert_eq!(rejection["id"], id);
    assert_eq!(rejection["error"]["code"], -32601);

    let reply = format!(r#"{{"id": {id}, "result": {{"completed": true}}}}"#);
    let RequestStep::Done(response) = client.await_response(text(&reply), id, "thread/read") else {
        panic!("expected the result");
    };
    assert_eq!(parsed(&response), value(r#"{"completed": true}"#));
}

#[test]
fn a_connection_that_delivers_no_message_fails_the_request() {
    let client = RpcClient::connect(1, None);
    let fault = |incoming: Result<Incoming, Failure>| {
        match client.await_response(incoming, 1, "thread/read") {
            RequestStep::Fail(RequestError::Failed(failure)) => failure.chain,
            _ => panic!("expected a failure"),
        }
    };
    assert_eq!(
        fault(Ok(Incoming::Closed)),
        ["app-server connection closed while waiting for `thread/read`"]
    );
    assert_eq!(
        fault(Ok(Incoming::Broken(Failure::new("reset")))),
        ["failed to read websocket message", "reset"]
    );
    assert_eq!(
        fault(Err(Failure::new("deadline has elapsed"))),
        [
            "timed out waiting for app-server `thread/read` response",
            "deadline has elapsed"
        ]
    );
    let cause = serde_json::from_str::<Value>("{oops").unwrap_err();
    assert_eq!(
        fault(text("{oops")),
        [
            "app-server sent invalid JSON: {oops".to_string(),
            cause.to_string()
        ]
    );
    assert!(matches!(
        client.await_response(Ok(Incoming::Other), 1, "thread/read"),
        RequestStep::Ignore
    ));
}

#[test]
fn a_connection_that_delivers_no_message_fails_listening() {
    let client = RpcClient::connect(1, None);
    let fault = |incoming: Incoming| match client.next_notification_or_request(incoming) {
        ListenStep::Fail(error) => message(error),
        _ => panic!("expected a failure"),
    };
    assert_eq!(fault(Incoming::Closed), "app-server connection closed");
    assert_eq!(
        fault(Incoming::Broken(Failure::new("reset"))),
        "failed to read websocket message: reset"
    );
    assert!(fault(Incoming::Text("[1".to_string()))
        .starts_with("app-server sent invalid JSON: [1: "));
    assert!(matches!(
        client.next_notification_or_request(Incoming::Other),
        ListenStep::Ignore
    ));
    let ListenStep::Notify(notification) = client.next_notification_or_request(Incoming::Text(
        r#"{"method": "turn/started", "params": [1, {"a": -0.5}]}"#.to_string(),
    )) else {
        panic!("expected a notification");
    };
    assert_eq!(notification.method, "turn/started");
    assert_eq!(parsed(&notification.params), value(r#"[1, {"a": -0.5}]"#));
}
