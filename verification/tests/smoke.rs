use codex_tamer::config::{Endpoint, Target};
use codex_tamer::errors::Failure;
use codex_tamer::json::Json;
use codex_tamer::parse::parse_json;
use codex_tamer::rate_limit_reset::select_best_rate_limit_reset_credit;
use codex_tamer::rpc::{
    authorization_value, Incoming, RequestError, RequestStep, RpcClient,
};
use codex_tamer::session::{resume_params, DirectInput, InputAction};
use codex_tamer::turns::attach::{attach_turn, AttachEnd};
use codex_tamer::turns::buffers::EarlyNotificationBuffer;
use codex_tamer::turns::poll::TurnError;
use codex_tamer::turns::registry::AssistantResponses;
use codex_tamer::turns::requests::{
    interrupt_turn, interrupt_turn_params, start_turn, start_turn_params, steer_turn,
    steer_turn_params, AttachTurnOptions, StartedTurn, TurnStartOptions,
};
use codex_tamer::turns::search::{read_turn_result, SearchStep, TurnSearch};
use codex_tamer::turns::wait::{TurnTerminal, TurnWaitContext, TurnWaitOutcome};
use codex_tamer::turns::waiter::{wait_for_turn, TurnWait, WaitAction, WaitInput};
use serde_json::Value;
use std::time::Duration;

fn value(text: &str) -> Value {
    serde_json::from_str(text).unwrap()
}

fn json(value: &Value) -> Json {
    parse_json(&value.to_string()).unwrap()
}

fn parsed(json: &Json) -> Value {
    serde_json::from_str(&json.to_text()).unwrap()
}

const SAMPLE_TURN: &str = r#"{
    "id": "turn_1",
    "status": "completed",
    "startedAt": 1700000050,
    "completedAt": 1700000060,
    "experimentalTurnField": "retained",
    "items": [
        {"id": "item_user", "type": "userMessage", "content": [{"type": "text", "text": "hello"}]},
        {"id": "item_agent", "type": "agentMessage", "text": "done"}
    ]
}"#;

#[derive(Clone, Copy, PartialEq)]
enum Mode {
    Complete,
    WrongTurnCompleted,
    Failed,
    UnknownStatus,
    Silent,
}

/// An app-server that answers from a script.
struct Mock {
    client: RpcClient,
    mode: Mode,
    reject_first: Option<(&'static str, i64, &'static str)>,
    malformed_turn_start: bool,
    calls: Vec<(String, Value)>,
}

fn thread_of(params: &Value) -> &str {
    params["threadId"].as_str().unwrap_or("thread_1")
}

fn page(data: Value) -> Value {
    let mut page = value(r#"{"nextCursor": null, "backwardsCursor": null}"#);
    page["data"] = data;
    page
}

fn turn_notifications(thread: &str, mode: Mode) -> Vec<String> {
    let (turn, status, text, error) = match mode {
        Mode::Complete => ("turn_1", "completed", "done", "null"),
        Mode::WrongTurnCompleted => ("turn_other", "failed", "done", "null"),
        Mode::Failed => (
            "turn_1",
            "failed",
            "failed",
            r#"{"code": "mock_failure", "message": "mock turn failed"}"#,
        ),
        Mode::UnknownStatus => ("turn_1", "mystery", "mystery", "null"),
        Mode::Silent => return Vec::new(),
    };
    vec![
        format!(
            r#"{{"method": "item/agentMessage/delta", "params": {{"threadId": "{thread}", "turnId": "turn_1", "itemId": "item_agent", "delta": "{text}"}}}}"#
        ),
        format!(
            r#"{{"method": "item/completed", "params": {{"threadId": "{thread}", "turnId": "turn_1", "item": {{"id": "item_agent", "type": "agentMessage", "text": "{text}"}}}}}}"#
        ),
        format!(
            r#"{{"method": "turn/completed", "params": {{"threadId": "{thread}", "turn": {{"id": "{turn}", "status": "{status}", "items": [], "error": {error}}}}}}}"#
        ),
    ]
}

fn turns_page(params: &Value) -> Value {
    match thread_of(params) {
        "thread_result_paged" => match params["cursor"].as_str() {
            None => {
                let turns: Vec<Value> = (0..100)
                    .map(|n| {
                        value(&format!(
                            r#"{{"id": "turn_recent_{n}", "status": "completed", "items": []}}"#
                        ))
                    })
                    .collect();
                let mut page = page(Value::Array(turns));
                page["nextCursor"] = Value::String("turn-page-2".to_string());
                page
            }
            Some("turn-page-2") => {
                let mut turn = value(SAMPLE_TURN);
                turn["id"] = Value::String("turn_target_101".to_string());
                page(Value::Array(vec![turn]))
            }
            _ => page(value("[]")),
        },
        "thread_result_empty_page" => {
            value(r#"{"data": [], "nextCursor": "unique-empty-page"}"#)
        }
        "thread_invalid_next_cursor" => value(
            r#"{"data": [{"id": "turn_other", "status": "completed", "items": []}], "nextCursor": 7}"#,
        ),
        "thread_missing_turn_data" => value("{}"),
        "thread_missing_status" => page(value(r#"[{"id": "turn_bad", "items": []}]"#)),
        "thread_invalid_status" => {
            page(value(r#"[{"id": "turn_bad", "status": 7, "items": []}]"#))
        }
        _ => page(Value::Array(vec![value(SAMPLE_TURN)])),
    }
}

impl Mock {
    fn start() -> Mock {
        Mock {
            client: RpcClient::connect(1, None),
            mode: Mode::Complete,
            reject_first: None,
            malformed_turn_start: false,
            calls: Vec::new(),
        }
    }

    fn with(mode: Mode) -> Mock {
        Mock {
            mode,
            ..Mock::start()
        }
    }

    fn rejecting(method: &'static str, code: i64, message: &'static str) -> Mock {
        Mock {
            mode: Mode::Silent,
            reject_first: Some((method, code, message)),
            ..Mock::start()
        }
    }

    fn methods(&self, among: &[&str]) -> Vec<String> {
        self.calls
            .iter()
            .map(|(method, _)| method.clone())
            .filter(|method| among.contains(&method.as_str()))
            .collect()
    }

    fn params_for(&self, method: &str) -> Vec<Value> {
        self.calls
            .iter()
            .filter(|(called, _)| called == method)
            .map(|(_, params)| params.clone())
            .collect()
    }

    fn result(&self, method: &str, params: &Value) -> Value {
        let thread = thread_of(params);
        match method {
            "thread/read" => {
                let mut result = value(r#"{"thread": {"name": "Mock Thread"}}"#);
                if thread == "thread_read_only" {
                    result["thread"]["canAcceptDirectInput"] = Value::Bool(false);
                }
                result
            }
            "thread/resume" => {
                let mut turn = value(SAMPLE_TURN);
                if thread == "thread_hung_poll" || thread == "thread_missing_turn_data" {
                    turn["status"] = Value::String("inProgress".to_string());
                    turn["completedAt"] = Value::Null;
                }
                let mut result = value(r#"{"thread": {"name": "Mock Thread"}}"#);
                if thread == "thread_denied_after_resume" {
                    result["thread"]["canAcceptDirectInput"] = Value::Bool(false);
                }
                result["thread"]["turns"] = Value::Array(vec![turn]);
                result
            }
            "thread/turns/list" => turns_page(params),
            "turn/start" if self.malformed_turn_start => {
                value(r#"{"turn": {"status": "inProgress", "items": []}}"#)
            }
            "turn/start" => {
                value(r#"{"turn": {"id": "turn_1", "status": "inProgress", "items": []}}"#)
            }
            "turn/steer" => match thread {
                "thread_mismatched_steer_result" => value(r#"{"turnId": "turn_other"}"#),
                "thread_invalid_steer_result" => value(r#"{"turnId": 7}"#),
                _ => value(r#"{"turnId": "turn_1"}"#),
            },
            "turn/interrupt" if thread == "thread_invalid_interrupt_result" => Value::Null,
            "turn/interrupt" => value("{}"),
            other => panic!("unexpected method {other}"),
        }
    }

    /// The texts that answer a request, notifications first.
    fn answer(&mut self, id: i64, method: &str, params: &Value) -> Vec<String> {
        if let Some((rejected, code, message)) = self.reject_first {
            if rejected == method {
                self.reject_first = None;
                return vec![format!(
                    r#"{{"id": {id}, "error": {{"code": {code}, "message": "{message}"}}}}"#
                )];
            }
        }
        let thread = thread_of(params);
        let mut texts = Vec::new();
        if method == "turn/start" {
            texts = turn_notifications(thread, self.mode);
        }
        if method == "thread/turns/list" && thread == "thread_unmaterialized_terminal" {
            return vec![
                format!(
                    r#"{{"method": "turn/completed", "params": {{"threadId": "{thread}", "turn": {{"id": "turn_1", "status": "completed", "items": []}}}}}}"#
                ),
                format!(
                    r#"{{"id": {id}, "error": {{"code": -32600, "message": "thread {thread} is not materialized yet"}}}}"#
                ),
            ];
        }
        if method == "thread/resume" && thread == "thread_snapshot_replay" {
            texts = vec![
                format!(
                    r#"{{"method": "item/started", "params": {{"threadId": "{thread}", "turnId": "turn_1", "item": {{"id": "msg_live", "type": "agentMessage"}}}}}}"#
                ),
                format!(
                    r#"{{"method": "item/completed", "params": {{"threadId": "{thread}", "turnId": "turn_1", "item": {{"id": "msg_live", "type": "agentMessage", "text": "done"}}}}}}"#
                ),
            ];
        }
        let result = self.result(method, params);
        texts.push(format!(r#"{{"id": {id}, "result": {result}}}"#));
        texts
    }

    fn request(
        &mut self,
        method: &str,
        params: Json,
        early: &mut EarlyNotificationBuffer,
    ) -> Result<Json, RequestError> {
        let (id, frame) = self.client.request(method, params);
        let params = parsed(&frame)["params"].clone();
        self.calls.push((method.to_string(), params.clone()));
        for text in self.answer(id, method, &params) {
            match self
                .client
                .await_response(Ok(Incoming::Text(text)), id, method)
            {
                RequestStep::Notify(notification) => early.push(notification),
                RequestStep::Done(result) => return Ok(result),
                RequestStep::Fail(error) => return Err(error),
                RequestStep::Reject(_) | RequestStep::Ignore => {}
            }
        }
        Err(RequestError::Failed(Failure::new("closed")))
    }

    fn submit(
        &mut self,
        method: &str,
        params: &Json,
        thread_id: &str,
        may_resume: bool,
        yolo: bool,
    ) -> Result<(Json, EarlyNotificationBuffer), String> {
        let (mut input, mut action) = DirectInput::new(thread_id, may_resume, yolo);
        let mut early = EarlyNotificationBuffer::default();
        loop {
            let answer = match action {
                InputAction::Read { params } => {
                    let mut unheard = EarlyNotificationBuffer::default();
                    self.request("thread/read", params, &mut unheard)
                }
                InputAction::Submit => self.request(method, params.duplicate(), &mut early),
                InputAction::Resume { params } => {
                    self.request("thread/resume", params, &mut early)
                }
                InputAction::Resubmit => {
                    early.clear();
                    self.request(method, params.duplicate(), &mut early)
                }
                InputAction::Done(result) => return Ok((result, early)),
                InputAction::Fail(error) => return Err(message(error)),
            };
            action = input.step(answer);
        }
    }

    fn start_turn(&mut self, thread_id: &str, yolo: bool) -> Result<StartedTurn, String> {
        let options = TurnStartOptions {
            model: None,
            effort: None,
            service_tier: None,
            yolo,
        };
        let params = start_turn_params(thread_id, "continue", &options);
        let (result, early) = self.submit("turn/start", &params, thread_id, true, yolo)?;
        start_turn(
            &target(),
            thread_id.to_string(),
            "continue".to_string(),
            1_700_000_000,
            &result,
            early,
        )
        .map_err(|error| error.message)
    }

    /// Follows a wait, polling whenever nothing is heard.
    fn follow(
        &mut self,
        wait: &mut TurnWait<'_>,
        events: &mut Vec<Value>,
    ) -> Result<TurnTerminal, String> {
        for round in 1..5u64 {
            let tick = WaitInput::Tick {
                now: round * 100,
                quiet: 1,
            };
            let WaitAction::Poll { params } = wait.step(tick) else {
                panic!("expected a poll");
            };
            let mut notifications = EarlyNotificationBuffer::default();
            let reply = self.request("thread/turns/list", params, &mut notifications);
            let input = WaitInput::Polled {
                notifications,
                reply,
                now: round * 100,
            };
            if let Some(terminal) = perform(wait.step(input), events)? {
                return Ok(terminal);
            }
        }
        panic!("the turn did not end");
    }

    fn send(&mut self, thread_id: &str, retain: bool) -> Result<(TurnTerminal, Vec<Value>), String> {
        let started = self.start_turn(thread_id, true)?;
        let mut events = vec![parsed(&started.acceptance)];
        let terminal = self.wait_for(started, retain, &mut events)?;
        Ok((terminal, events))
    }

    fn wait_for(
        &mut self,
        started: StartedTurn,
        retain: bool,
        events: &mut Vec<Value>,
    ) -> Result<TurnTerminal, String> {
        let target = target();
        let context = TurnWaitContext {
            target: &target,
            thread_id: &started.thread_id,
            turn_id: started.turn_id.clone(),
            prompt: started.prompt.as_deref(),
            started_after_epoch: started.started_after_epoch,
            poll_limit: 50,
        };
        let mut wait = wait_for_turn(
            context,
            started.initial_events,
            started.assistant_seed,
            retain,
            0,
        )
        .map_err(|error| error.message)?;
        for notification in started.early_notifications {
            let input = WaitInput::Notification {
                notification,
                now: 1,
            };
            if let Some(terminal) = perform(wait.step(input), events)? {
                return Ok(terminal);
            }
        }
        self.follow(&mut wait, events)
    }

    fn attach(
        &mut self,
        thread_id: &str,
        turn_id: &str,
        retain: bool,
    ) -> Result<(TurnTerminal, Vec<Value>), String> {
        let options = AttachTurnOptions {
            thread_id: thread_id.to_string(),
            turn_id: turn_id.to_string(),
            yolo: true,
            poll_limit: 50,
            timeout: Duration::from_secs(10),
            retain_progress: retain,
        };
        let mut early = EarlyNotificationBuffer::default();
        let resume = self
            .request(
                "thread/resume",
                resume_params(thread_id, true, false),
                &mut early,
            )
            .map_err(|error| message(TurnError::Request(error)))?;
        let outcome = attach_turn(&target(), &options, early, &resume);
        let mut events: Vec<Value> = outcome.emit.iter().map(parsed).collect();
        match outcome.end.map_err(|error| error.message)? {
            AttachEnd::Terminal(terminal) => Ok((terminal, events)),
            AttachEnd::Waiting(started) => {
                let terminal = self.wait_for(started, retain, &mut events)?;
                Ok((terminal, events))
            }
        }
    }

    fn find(&mut self, thread_id: &str, turn_id: &str, max_turns: u32) -> Result<Value, String> {
        let mut search = TurnSearch::new(thread_id, turn_id, max_turns);
        while let Some(params) = search.next_page() {
            let mut unheard = EarlyNotificationBuffer::default();
            let page = self
                .request("thread/turns/list", params, &mut unheard)
                .map_err(|error| message(TurnError::Request(error)))?;
            match search.take_page(&page).map_err(|error| error.message)? {
                SearchStep::Found(turn) => {
                    return read_turn_result("work", thread_id, turn_id, &turn)
                        .map(|report| parsed(&report))
                        .map_err(|error| error.message);
                }
                SearchStep::Exhausted => break,
                SearchStep::More => {}
            }
        }
        Err(search.not_found_error().message)
    }

    fn steer(&mut self, thread_id: &str) -> Result<Value, String> {
        let params = steer_turn_params(thread_id, "turn_1", "adjust");
        let (result, _) = self.submit("turn/steer", &params, thread_id, false, false)?;
        steer_turn(&target(), thread_id, "turn_1", &result)
            .map(|report| parsed(&report))
            .map_err(|error| error.message)
    }

    fn interrupt(&mut self, thread_id: &str) -> Result<Value, String> {
        let mut unheard = EarlyNotificationBuffer::default();
        let params = interrupt_turn_params(thread_id, "turn_1");
        let result = self
            .request("turn/interrupt", params, &mut unheard)
            .map_err(|error| message(TurnError::Request(error)))?;
        interrupt_turn(&target(), thread_id, "turn_1", &result)
            .map(|report| parsed(&report))
            .map_err(|error| error.message)
    }
}

fn perform(action: WaitAction, events: &mut Vec<Value>) -> Result<Option<TurnTerminal>, String> {
    match action {
        WaitAction::Emit { events: new } => {
            events.extend(new.iter().map(parsed));
            Ok(None)
        }
        WaitAction::Finish {
            events: new,
            outcome: TurnWaitOutcome::Terminal(terminal),
        } => {
            events.extend(new.iter().map(parsed));
            Ok(Some(terminal))
        }
        WaitAction::Fail { error } => Err(message(error)),
        _ => panic!("expected events, an end or a failure"),
    }
}

fn target() -> Target {
    Target {
        server: "work".to_string(),
        endpoint: Endpoint::Unix {
            path: "/tmp/mock.sock".to_string(),
        },
        model: None,
        model_reasoning_effort: None,
    }
}

fn message(error: TurnError) -> String {
    match error {
        TurnError::AppServer(error) => error.message,
        TurnError::Request(RequestError::Rpc(error)) => error.message(),
        TurnError::Request(RequestError::Failed(failure)) => failure.render(),
    }
}

fn last_source(output: &Value) -> Value {
    output["progress"].as_array().unwrap().last().unwrap()["source"].clone()
}

fn is_yolo_turn(params: &Value) -> bool {
    params["approvalPolicy"] == "never"
        && params["sandboxPolicy"] == value(r#"{"type": "dangerFullAccess"}"#)
}

fn is_yolo_thread(params: &Value) -> bool {
    params["approvalPolicy"] == "never" && params["sandbox"] == "danger-full-access"
}

fn has_no_permissions(params: &Value) -> bool {
    params.get("approvalPolicy").is_none()
        && params.get("sandbox").is_none()
        && params.get("sandboxPolicy").is_none()
}

const ACCEPTED: &str = r#"{"type": "accepted", "server": "work", "threadId": "thread_1", "turnId": "turn_1", "status": "accepted"}"#;
const PROGRESS: &str = r#"{"type": "progress", "server": "work", "threadId": "thread_1", "turnId": "turn_1", "itemId": "item_agent", "delta": "done"}"#;
const COMPLETED: &str = r#"{"type": "completed", "server": "work", "threadId": "thread_1", "turnId": "turn_1", "status": "completed"}"#;

#[test]
fn golden_send_json_output_shapes_are_stable() {
    let (terminal, _) = Mock::start().send("thread_1", true).unwrap();
    assert_eq!(
        parsed(&terminal.output),
        value(&format!(
            r#"{{
                "server": "work",
                "threadId": "thread_1",
                "turnId": "turn_1",
                "status": "completed",
                "progress": [{ACCEPTED}, {PROGRESS}, {COMPLETED}],
                "assistantResponses": [{{"itemId": "item_agent", "text": "done"}}],
                "finalAssistantText": "done"
            }}"#
        ))
    );
    let (_, events) = Mock::start().send("thread_1", false).unwrap();
    assert_eq!(
        events,
        vec![value(ACCEPTED), value(PROGRESS), value(COMPLETED)]
    );
}

#[test]
fn send_streams_ndjson_when_requested() {
    let (_, events) = Mock::start().send("thread_1", false).unwrap();
    assert_eq!(events[0]["type"], "accepted");
    assert_eq!(events[1]["delta"], "done");
    assert_eq!(events.last().unwrap()["status"], "completed");
}

#[test]
fn send_falls_back_to_polling_when_turn_notifications_are_absent() {
    let (terminal, _) = Mock::with(Mode::Silent).send("thread_1", true).unwrap();
    let completed = parsed(&terminal.output);
    assert_eq!(completed["status"], "completed");
    assert_eq!(completed["finalAssistantText"], "done");
    assert_eq!(last_source(&completed), "poll");

    let (_, events) = Mock::with(Mode::Silent).send("thread_1", false).unwrap();
    let texts = events
        .iter()
        .filter(|event| event["text"] == "done" || event["delta"] == "done")
        .count();
    assert_eq!(texts, 1);
}

#[test]
fn wait_attaches_to_an_existing_turn_and_returns_its_terminal_result() {
    let mut server = Mock::with(Mode::Silent);
    let (terminal, _) = server.attach("thread_1", "turn_1", true).unwrap();
    let completed = parsed(&terminal.output);
    assert_eq!(completed["status"], "completed");
    assert_eq!(completed["threadId"], "thread_1");
    assert_eq!(completed["turnId"], "turn_1");
    assert_eq!(completed["finalAssistantText"], "done");
    assert_eq!(server.params_for("thread/resume").len(), 1);
    assert!(server.params_for("thread/turns/list").is_empty());
    assert_eq!(last_source(&completed), "snapshot");
    let snapshot = completed["progress"]
        .as_array()
        .unwrap()
        .iter()
        .find(|event| event["type"] == "assistantMessage")
        .expect("retained snapshot assistant event");
    assert_eq!(snapshot["source"], "snapshot");
    assert_eq!(snapshot["text"], "done");
}

#[test]
fn wait_completes_from_the_resume_snapshot_without_waiting_for_the_quiet_poll() {
    let mut server = Mock::with(Mode::Silent);
    let (terminal, _) = server.attach("thread_1", "turn_1", true).unwrap();
    let completed = parsed(&terminal.output);
    assert_eq!(completed["status"], "completed");
    assert_eq!(last_source(&completed), "snapshot");
    assert!(server.params_for("thread/turns/list").is_empty());
}

fn hung_poll(input: WaitInput) -> WaitAction {
    let target = target();
    let context = TurnWaitContext {
        target: &target,
        thread_id: "thread_hung_poll",
        turn_id: "turn_1".to_string(),
        prompt: None,
        started_after_epoch: None,
        poll_limit: 50,
    };
    let mut wait = wait_for_turn(context, Vec::new(), AssistantResponses::new(), true, 0)
        .ok()
        .unwrap();
    let tick = WaitInput::Tick { now: 2, quiet: 1 };
    assert!(matches!(wait.step(tick), WaitAction::Poll { .. }));
    wait.step(input)
}

#[test]
fn wait_timeout_cancels_a_hung_fallback_poll() {
    let WaitAction::Fail { error } = hung_poll(WaitInput::Timeout) else {
        panic!("expected a failure");
    };
    assert!(message(error).contains("timed out waiting for turn `turn_1`"));
}

#[test]
fn wait_and_events_follow_report_local_interrupts_while_a_poll_is_hung() {
    let WaitAction::Finish {
        outcome: TurnWaitOutcome::LocalInterrupt { thread_id, turn_id },
        ..
    } = hung_poll(WaitInput::Interrupt)
    else {
        panic!("expected an interrupt");
    };
    assert_eq!(thread_id, "thread_hung_poll");
    assert_eq!(turn_id, "turn_1");
}

#[test]
fn result_reads_a_persisted_turn_without_starting_or_resuming_it() {
    let mut server = Mock::start();
    let result = server.find("thread_1", "turn_1", 200).unwrap();
    assert_eq!(result["status"], "completed");
    assert_eq!(result["threadId"], "thread_1");
    assert_eq!(result["turnId"], "turn_1");
    assert_eq!(result["finalAssistantText"], "done");
    assert_eq!(result["turn"]["experimentalTurnField"], "retained");
    let methods: Vec<&str> = server
        .calls
        .iter()
        .map(|(method, _)| method.as_str())
        .collect();
    assert_eq!(methods, ["thread/turns/list"]);
}

#[test]
fn result_pages_until_it_finds_a_turn_beyond_the_server_page_cap() {
    let mut server = Mock::start();
    let result = server
        .find("thread_result_paged", "turn_target_101", 200)
        .unwrap();
    assert_eq!(result["turnId"], "turn_target_101");
    assert_eq!(result["finalAssistantText"], "done");
    let params = server.params_for("thread/turns/list");
    assert_eq!(params.len(), 2);
    assert_eq!(params[0]["limit"], 100);
    assert!(params[0]["cursor"].is_null());
    assert_eq!(params[1]["limit"], 100);
    assert_eq!(params[1]["cursor"], "turn-page-2");
}

#[test]
fn result_rejects_an_empty_page_that_claims_another_cursor() {
    let mut server = Mock::start();
    let error = server
        .find("thread_result_empty_page", "turn_missing", 1)
        .unwrap_err();
    assert!(error.contains("empty turn page with a next cursor"));
    assert_eq!(server.params_for("thread/turns/list").len(), 1);
}

#[test]
fn result_rejects_missing_or_non_string_turn_status() {
    for thread_id in ["thread_missing_status", "thread_invalid_status"] {
        let error = Mock::start().find(thread_id, "turn_bad", 200).unwrap_err();
        assert!(error.contains("app-server returned a turn without a string status"));
    }
}

#[test]
fn result_rejects_non_string_next_cursor() {
    let error = Mock::start()
        .find("thread_invalid_next_cursor", "turn_missing", 200)
        .unwrap_err();
    assert!(error.contains("thread/turns/list response nextCursor must be a string or null"));
}

#[test]
fn wait_rejects_a_persisted_turn_without_a_string_status() {
    let error = Mock::with(Mode::Silent)
        .attach("thread_missing_status", "turn_bad", true)
        .err()
        .unwrap();
    assert!(error.contains("app-server returned a turn without a string status"));
}

#[test]
fn events_follow_emits_ndjson_through_the_terminal_event() {
    let mut server = Mock::with(Mode::Silent);
    let (_, events) = server.attach("thread_1", "turn_1", false).unwrap();
    assert_eq!(events.first().unwrap()["type"], "attached");
    assert!(events.first().unwrap().get("thread").is_none());
    assert_eq!(events.last().unwrap()["type"], "completed");
    let snapshot = events
        .iter()
        .find(|event| event["type"] == "assistantMessage")
        .expect("snapshot assistant message");
    assert_eq!(snapshot["source"], "snapshot");
    assert_eq!(snapshot["text"], "done");
    assert_eq!(events.last().unwrap()["source"], "snapshot");
    assert!(server.params_for("thread/turns/list").is_empty());
}

#[test]
fn attachment_does_not_duplicate_snapshot_content_under_a_live_item_id() {
    let (terminal, _) = Mock::with(Mode::Silent)
        .attach("thread_snapshot_replay", "turn_1", true)
        .unwrap();
    let output = parsed(&terminal.output);
    assert_eq!(output["finalAssistantText"], "done");
    assert_eq!(output["assistantResponses"].as_array().unwrap().len(), 1);
}

#[test]
fn terminal_notification_received_before_an_unmaterialized_error_is_not_lost() {
    let (terminal, _) = Mock::with(Mode::Silent)
        .send("thread_unmaterialized_terminal", true)
        .unwrap();
    assert_eq!(parsed(&terminal.output)["status"], "completed");
}

#[test]
fn wait_rejects_turn_history_without_a_data_array() {
    let error = Mock::with(Mode::Silent)
        .attach("thread_missing_turn_data", "turn_1", true)
        .err()
        .unwrap();
    assert!(error.contains("thread/turns/list response missing data array"));
}

#[test]
fn send_retries_when_turn_history_is_not_materialized_yet() {
    let mut server = Mock::rejecting(
        "thread/turns/list",
        -32600,
        "thread thread_1 is not materialized yet; thread/turns/list is unavailable before first user message",
    );
    let (terminal, _) = server.send("thread_1", true).unwrap();
    let completed = parsed(&terminal.output);
    assert_eq!(completed["status"], "completed");
    assert_eq!(completed["finalAssistantText"], "done");
    assert!(server.params_for("thread/turns/list").len() >= 2);
}

#[test]
fn send_propagates_other_invalid_turn_history_errors() {
    let mut server = Mock::rejecting(
        "thread/turns/list",
        -32600,
        "thread/turns/list rejected the requested items view",
    );
    let error = server.send("thread_1", true).err().unwrap();
    assert!(error.contains(
        "app-server `thread/turns/list` error -32600: thread/turns/list rejected the requested items view"
    ));
    assert_eq!(server.params_for("thread/turns/list").len(), 1);
}

#[test]
fn send_resumes_not_loaded_thread_before_retrying_turn_start() {
    let mut server = Mock::rejecting("turn/start", -32600, "thread not found: thread_1");
    let accepted = parsed(&server.start_turn("thread_1", true).ok().unwrap().acceptance);
    assert_eq!(accepted["status"], "accepted");
    assert_eq!(accepted["threadId"], "thread_1");
    assert_eq!(
        server.methods(&["turn/start", "thread/resume"]),
        ["turn/start", "thread/resume", "turn/start"]
    );
    let starts = server.params_for("turn/start");
    assert_eq!(starts.len(), 2);
    assert!(is_yolo_turn(&starts[0]));
    assert!(is_yolo_turn(&starts[1]));
    let resumes = server.params_for("thread/resume");
    assert_eq!(resumes.len(), 1);
    assert!(is_yolo_thread(&resumes[0]));
}

#[test]
fn no_yolo_resume_retry_uses_app_server_permission_defaults() {
    let mut server = Mock::rejecting("turn/start", -32600, "thread not found: thread_1");
    let accepted = parsed(&server.start_turn("thread_1", false).ok().unwrap().acceptance);
    assert_eq!(accepted["status"], "accepted");
    assert!(server
        .params_for("turn/start")
        .iter()
        .all(has_no_permissions));
    assert!(server
        .params_for("thread/resume")
        .iter()
        .all(has_no_permissions));
}

#[test]
fn direct_input_capability_blocks_send_and_steer_before_submission() {
    let mut server = Mock::start();
    let refusal = "thread `thread_read_only` does not accept direct input";
    let error = server.start_turn("thread_read_only", true).err().unwrap();
    assert!(error.contains(refusal));
    assert!(server.steer("thread_read_only").unwrap_err().contains(refusal));
    assert!(server.params_for("turn/start").is_empty());
    assert!(server.params_for("turn/steer").is_empty());
}

#[test]
fn direct_input_capability_is_rechecked_after_resume() {
    let mut server = Mock::rejecting(
        "turn/start",
        -32600,
        "thread not found: thread_denied_after_resume",
    );
    let error = server
        .start_turn("thread_denied_after_resume", true)
        .err()
        .unwrap();
    assert!(error.contains("thread `thread_denied_after_resume` does not accept direct input"));
    assert_eq!(server.params_for("turn/start").len(), 1);
    assert_eq!(server.params_for("thread/resume").len(), 1);
}

#[test]
fn resume_retry_requires_exact_thread_not_found_error_contract() {
    let mut server = Mock::rejecting("turn/start", -32600, "missing thread: thread_1");
    assert!(server.start_turn("thread_1", true).is_err());
    assert_eq!(
        server.methods(&["turn/start", "thread/resume"]),
        ["turn/start"]
    );
}

#[test]
fn resume_retry_requires_invalid_request_error_code() {
    let mut server = Mock::rejecting("turn/start", -32603, "thread not found: thread_1");
    assert!(server.start_turn("thread_1", true).is_err());
    assert_eq!(
        server.methods(&["turn/start", "thread/resume"]),
        ["turn/start"]
    );
}

#[test]
fn steer_never_resumes_a_thread_that_is_not_loaded_on_the_target_runtime() {
    let mut server = Mock::rejecting("turn/steer", -32600, "thread not found: thread_1");
    assert!(server
        .steer("thread_1")
        .unwrap_err()
        .contains("thread not found"));
    assert_eq!(
        server.methods(&["turn/steer", "thread/resume"]),
        ["turn/steer"]
    );
}

#[test]
fn send_ignores_completion_for_a_different_turn_on_the_same_thread() {
    let (terminal, _) = Mock::with(Mode::WrongTurnCompleted)
        .send("thread_1", true)
        .unwrap();
    let completed = parsed(&terminal.output);
    assert_eq!(completed["turnId"], "turn_1");
    assert_eq!(completed["status"], "completed");
    assert_eq!(completed["finalAssistantText"], "done");
    assert_eq!(last_source(&completed), "poll");
}

#[test]
fn failed_turn_exits_one_and_returns_terminal_json() {
    let (terminal, _) = Mock::with(Mode::Failed).send("thread_1", true).unwrap();
    assert_eq!(terminal.exit_code, 1);
    let failed = parsed(&terminal.output);
    assert_eq!(failed["turnId"], "turn_1");
    assert_eq!(failed["status"], "failed");
    assert_eq!(failed["finalAssistantText"], "failed");
    assert_eq!(failed["error"]["code"], "mock_failure");
    assert_eq!(
        failed["progress"].as_array().unwrap().last().unwrap()["error"]["message"],
        "mock turn failed"
    );
}

#[test]
fn unknown_turn_status_notification_is_app_server_error() {
    let error = Mock::with(Mode::UnknownStatus)
        .send("thread_1", true)
        .err()
        .unwrap();
    assert!(error.contains("app-server returned unrecognized turn status `mystery`"));
}

#[test]
fn malformed_app_server_turn_start_is_exit_code_three() {
    let mut server = Mock {
        malformed_turn_start: true,
        ..Mock::start()
    };
    let error = server.start_turn("thread_1", true).err().unwrap();
    assert!(error.contains("turn/start response missing turn.id"));
}

#[test]
fn malformed_control_acknowledgements_are_exit_code_three() {
    let mut server = Mock::start();
    assert!(server
        .steer("thread_invalid_steer_result")
        .unwrap_err()
        .contains("turn/steer response missing turnId"));
    assert!(server
        .interrupt("thread_invalid_interrupt_result")
        .unwrap_err()
        .contains("turn/interrupt response must be an object"));
}

#[test]
fn steer_rejects_an_acknowledgement_for_a_different_turn() {
    assert!(Mock::start()
        .steer("thread_mismatched_steer_result")
        .unwrap_err()
        .contains("turn/steer response"));
}

#[test]
fn steer_and_interrupt_return_acknowledgements() {
    let accepted = value(
        r#"{"server": "work", "threadId": "thread_1", "turnId": "turn_1", "status": "accepted"}"#,
    );
    let mut server = Mock::start();
    assert_eq!(server.steer("thread_1").unwrap(), accepted);
    assert_eq!(server.interrupt("thread_1").unwrap(), accepted);
}

#[test]
fn configured_ws_server_sends_literal_auth_token() {
    assert_eq!(authorization_value("secret-token"), "Bearer secret-token");
}

#[test]
fn connect_ws_sends_literal_auth_token() {
    assert_eq!(authorization_value("direct-token"), "Bearer direct-token");
}

#[test]
fn usage_redeem_selects_and_redeems_the_soonest_expiring_credit() {
    let usage = value(
        r#"{"rateLimitResetCredits": {"availableCount": 2, "credits": [
            {"id": "credit_later", "status": "available", "grantedAt": 100, "expiresAt": 1800000000, "title": "Later reset"},
            {"id": "credit_soonest", "status": "available", "grantedAt": 200, "expiresAt": 1700000000, "title": "Soonest reset"}
        ]}}"#,
    );
    let credit = select_best_rate_limit_reset_credit(&json(&usage)).unwrap();
    assert_eq!(credit.id, "credit_soonest");
    assert_eq!(credit.title.as_deref(), Some("Soonest reset"));
}
