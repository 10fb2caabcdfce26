use codex_tamer::config::{Endpoint, Target};
use codex_tamer::errors::Failure;
use codex_tamer::json::Json;
use codex_tamer::parse::parse_json;
use codex_tamer::rpc::{Notification, RequestError, RpcError, RpcRequestError};
use codex_tamer::session::{
    is_unloaded_thread_error, resume_params, DirectInput, InputAction, InputPhase,
};
use codex_tamer::turns::attach::{attach_turn, remaining_wait, AttachEnd};
use codex_tamer::turns::buffers::{EarlyNotificationBuffer, MAX_EARLY_NOTIFICATIONS};
use codex_tamer::turns::events::{reject_unknown_turn_status, turn_status};
use codex_tamer::turns::poll::{
    is_unmaterialized_turn_history_error, poll_params, turn_matches_prompt, turn_started_after,
    user_message_text, TurnError,
};
use codex_tamer::turns::registry::AssistantResponses;
use codex_tamer::turns::requests::{
    interrupt_turn, interrupt_turn_params, start_turn, start_turn_params, steer_turn,
    steer_turn_params, AttachTurnOptions, AttachedTurnWaitOptions, TurnStartOptions,
};
use codex_tamer::turns::search::{read_turn_result, SearchStep, TurnSearch};
use codex_tamer::turns::wait::{TurnWaitContext, TurnWaitOutcome};
use codex_tamer::turns::waiter::{
    turn_timeout_error, wait_for_attached_turn, wait_for_turn, TurnWait, WaitAction, WaitInput,
};
use serde_json::Value;
use std::time::Duration;

fn json(text: &str) -> Json {
    parse_json(text).unwrap()
}

fn value(text: &str) -> Value {
    serde_json::from_str(text).unwrap()
}

fn parsed(json: &Json) -> Value {
    serde_json::from_str(&json.to_text()).unwrap()
}

fn all_parsed(values: &[Json]) -> Vec<Value> {
    values.iter().map(parsed).collect()
}

fn notification(method: &str, params: &str) -> Notification {
    Notification {
        method: method.to_string(),
        params: json(params),
    }
}

fn delta(item_id: &str, text: &str) -> Notification {
    notification(
        "item/agentMessage/delta",
        &format!(
            r#"{{"threadId": "thread-1", "turnId": "turn-1", "itemId": "{item_id}", "delta": "{text}"}}"#
        ),
    )
}

fn completed_turn(status: &str) -> Notification {
    notification(
        "turn/completed",
        &format!(r#"{{"threadId": "thread-1", "turn": {{"id": "turn-1", "status": "{status}"}}}}"#),
    )
}

fn target() -> Target {
    Target {
        server: "work".to_string(),
        endpoint: Endpoint::Unix {
            path: "/tmp/mock.sock".to_string(),
        },
        model: None,
        model_reasoning_effort: None,
    }
}

fn context<'a>(target: &'a Target) -> TurnWaitContext<'a> {
    TurnWaitContext {
        target,
        thread_id: "thread-1",
        turn_id: "turn-1".to_string(),
        prompt: None,
        started_after_epoch: None,
        poll_limit: 50,
    }
}

fn waiting<'a>(target: &'a Target, retain: bool) -> TurnWait<'a> {
    wait_for_turn(context(target), Vec::new(), AssistantResponses::new(), retain, 0)
        .ok()
        .unwrap()
}

fn notify<'a>(wait: &mut TurnWait<'a>, notification: Notification, now: u64) -> WaitAction {
    wait.step(WaitInput::Notification { notification, now })
}

fn polled<'a>(wait: &mut TurnWait<'a>, reply: Result<Json, RequestError>) -> WaitAction {
    wait.step(WaitInput::Polled {
        notifications: EarlyNotificationBuffer::default(),
        reply,
        now: 100,
    })
}

fn emitted(action: WaitAction) -> Vec<Value> {
    match action {
        WaitAction::Emit { events } => all_parsed(&events),
        _ => panic!("expected events"),
    }
}

fn message(error: TurnError) -> String {
    match error {
        TurnError::AppServer(error) => error.message,
        TurnError::Request(RequestError::Rpc(error)) => error.message(),
        TurnError::Request(RequestError::Failed(failure)) => failure.render(),
    }
}

fn failed(action: WaitAction) -> String {
    match action {
        WaitAction::Fail { error } => message(error),
        _ => panic!("expected a failure"),
    }
}

fn rpc_error(method: &str, code: i64, text: &str) -> RequestError {
    RequestError::Rpc(RpcRequestError {
        method: method.to_string(),
        error: RpcError {
            code,
            message: text.to_string(),
        },
    })
}

#[test]
fn a_wait_emits_progress_and_ends_with_the_turn() {
    let target = target();
    let mut wait = waiting(&target, true);
    assert_eq!(
        emitted(notify(&mut wait, delta("m", "hi"), 5)),
        vec![value(
            r#"{"type": "progress", "server": "work", "threadId": "thread-1", "turnId": "turn-1", "itemId": "m", "delta": "hi"}"#
        )]
    );
    assert!(emitted(notify(&mut wait, notification("other", "{}"), 6)).is_empty());
    let WaitAction::Finish {
        events,
        outcome: TurnWaitOutcome::Terminal(terminal),
    } = notify(&mut wait, completed_turn("completed"), 7)
    else {
        panic!("expected the end");
    };
    assert_eq!(
        all_parsed(&events),
        vec![value(
            r#"{"type": "completed", "server": "work", "threadId": "thread-1", "turnId": "turn-1", "status": "completed"}"#
        )]
    );
    assert_eq!(terminal.exit_code, 0);
    let output = parsed(&terminal.output);
    assert_eq!(output["status"], "completed");
    assert_eq!(output["finalAssistantText"], "hi");
    assert_eq!(output["progress"].as_array().unwrap().len(), 2);
}

#[test]
fn a_failed_turn_keeps_its_error_and_exits_with_one() {
    let target = target();
    let mut wait = waiting(&target, false);
    let failure = notification(
        "turn/completed",
        r#"{"threadId": "thread-1", "turn": {"id": "turn-1", "status": "failed", "error": {"message": "boom", "info": [1]}}}"#,
    );
    let WaitAction::Finish {
        outcome: TurnWaitOutcome::Terminal(terminal),
        ..
    } = notify(&mut wait, failure, 1)
    else {
        panic!("expected the end");
    };
    assert_eq!(terminal.exit_code, 1);
    assert_eq!(
        parsed(&terminal.output)["error"],
        value(r#"{"message": "boom", "info": [1]}"#)
    );
}

#[test]
fn a_wait_is_polled_only_after_silence() {
    let target = target();
    let mut wait = waiting(&target, false);
    wait.start_listening(10);
    assert!(matches!(
        wait.step(WaitInput::Tick { now: 12, quiet: 3 }),
        WaitAction::Listen
    ));
    notify(&mut wait, delta("m", "x"), 12);
    assert!(matches!(
        wait.step(WaitInput::Tick { now: 14, quiet: 3 }),
        WaitAction::Listen
    ));
    // Traffic of another turn is no sign of life.
    notify(
        &mut wait,
        notification("x", r#"{"threadId": "thread-1", "turnId": "turn-2"}"#),
        15,
    );
    let WaitAction::Poll { params } = wait.step(WaitInput::Tick { now: 15, quiet: 3 }) else {
        panic!("expected a poll");
    };
    assert_eq!(
        parsed(&params),
        value(
            r#"{"threadId": "thread-1", "limit": 50, "sortDirection": "desc", "itemsView": "full"}"#
        )
    );
    assert_eq!(parsed(&poll_params(&context(&target))), parsed(&params));
}

#[test]
fn a_poll_reports_new_content_and_the_end_of_the_turn() {
    let target = target();
    let mut wait = waiting(&target, true);
    let running = r#"{"data": [{"id": "turn-1", "status": "running", "items": [
        {"id": "item-1", "type": "agentMessage", "text": "so far"}
    ]}]}"#;
    assert_eq!(
        emitted(polled(&mut wait, Ok(json(running)))),
        vec![value(
            r#"{"type": "progress", "server": "work", "threadId": "thread-1", "turnId": "turn-1", "itemId": "item-1", "text": "so far", "source": "poll"}"#
        )]
    );
    assert!(emitted(polled(&mut wait, Ok(json(running)))).is_empty());
    assert_eq!(wait.last_evidence, 100);
    let ended = r#"{"data": [{"id": "turn-1", "status": "interrupted", "error": "stopped", "items": []}]}"#;
    let WaitAction::Finish {
        events,
        outcome: TurnWaitOutcome::Terminal(terminal),
    } = polled(&mut wait, Ok(json(ended)))
    else {
        panic!("expected the end");
    };
    assert_eq!(events.len(), 1);
    let output = parsed(&terminal.output);
    assert_eq!(output["status"], "interrupted");
    assert_eq!(output["error"], "stopped");
    assert_eq!(output["finalAssistantText"], "so far");
    assert_eq!(terminal.exit_code, 1);
}

#[test]
fn a_poll_that_fails_ends_the_wait_unless_there_is_no_history_yet() {
    let target = target();
    let mut wait = waiting(&target, false);
    let early = rpc_error(
        "thread/turns/list",
        -32600,
        "thread t is not materialized yet; thread/turns/list is unavailable",
    );
    assert!(is_unmaterialized_turn_history_error(&early));
    assert!(emitted(polled(&mut wait, Err(early))).is_empty());
    for error in [
        rpc_error("thread/turns/list", -32601, "is not materialized yet"),
        rpc_error("thread/read", -32600, "is not materialized yet"),
        rpc_error("thread/turns/list", -32600, "gone"),
        RequestError::Failed(Failure::new("is not materialized yet")),
    ] {
        assert!(!is_unmaterialized_turn_history_error(&error));
        assert!(matches!(
            polled(&mut wait, Err(error)),
            WaitAction::Fail {
                error: TurnError::Request(_)
            }
        ));
    }
    assert_eq!(
        failed(polled(&mut wait, Ok(json("{}")))),
        "thread/turns/list response missing data array"
    );
    assert_eq!(
        failed(polled(
            &mut wait,
            Ok(json(r#"{"data": [{"id": "turn-1"}]}"#))
        )),
        "app-server returned a turn without a string status"
    );
    assert_eq!(
        failed(polled(
            &mut wait,
            Ok(json(r#"{"data": [{"id": "turn-1", "status": "lost"}]}"#))
        )),
        "app-server returned unrecognized turn status `lost`"
    );
    let mut notifications = EarlyNotificationBuffer::default();
    notifications.overflowed = true;
    assert_eq!(
        failed(wait.step(WaitInput::Polled {
            notifications,
            reply: Ok(json("{}")),
            now: 1
        })),
        "thread/turns/list exceeded the pre-response notification limit (10000 events or 16777216 bytes)"
    );
}

#[test]
fn notifications_before_a_poll_answer_come_first() {
    let target = target();
    let mut wait = waiting(&target, true);
    let mut notifications = EarlyNotificationBuffer::default();
    notifications.push(delta("m", "a"));
    notifications.push(completed_turn("completed"));
    notifications.push(delta("m", "never seen"));
    let WaitAction::Finish {
        events,
        outcome: TurnWaitOutcome::Terminal(terminal),
    } = wait.step(WaitInput::Polled {
        notifications,
        reply: Err(RequestError::Failed(Failure::new("closed"))),
        now: 3,
    })
    else {
        panic!("expected the end");
    };
    assert_eq!(events.len(), 2);
    assert_eq!(parsed(&terminal.output)["finalAssistantText"], "a");
}

#[test]
fn a_wait_can_time_out_or_be_interrupted() {
    let target = target();
    let mut wait = waiting(&target, false);
    assert_eq!(
        failed(wait.step(WaitInput::Timeout)),
        "timed out waiting for turn `turn-1` to complete"
    );
    assert_eq!(
        turn_timeout_error("t").message,
        "timed out waiting for turn `t` to complete"
    );
    let WaitAction::Finish {
        events,
        outcome: TurnWaitOutcome::LocalInterrupt { thread_id, turn_id },
    } = wait.step(WaitInput::Interrupt)
    else {
        panic!("expected an interrupt");
    };
    assert!(events.is_empty());
    assert_eq!(thread_id, "thread-1");
    assert_eq!(turn_id, "turn-1");
    assert_eq!(remaining_wait(9, 4, "t").unwrap(), 5);
    assert_eq!(
        remaining_wait(9, 9, "t").unwrap_err().message,
        "timed out waiting for turn `t` to complete"
    );
}

#[test]
fn a_wait_that_keeps_nothing_starts_without_events() {
    let target = target();
    let events = vec![json(r#"{"type": "accepted"}"#)];
    let wait = wait_for_turn(context(&target), events, AssistantResponses::new(), false, 4)
        .ok()
        .unwrap();
    assert!(wait.events.as_slice().is_empty());
    assert!(!wait.assistant.retain_text);
    assert_eq!(wait.last_evidence, 4);
    let options = AttachedTurnWaitOptions {
        poll_limit: 7,
        timeout: Duration::from_secs(1),
        retain_progress: true,
    };
    let events = vec![json(r#"{"type": "attached"}"#)];
    let wait = wait_for_attached_turn(
        context(&target),
        events,
        AssistantResponses::new(),
        &options,
        0,
    )
    .ok()
    .unwrap();
    assert_eq!(wait.events.as_slice().len(), 1);
    assert_eq!(wait.context.poll_limit, 7);
}

fn attach_options(retain: bool) -> AttachTurnOptions {
    AttachTurnOptions {
        thread_id: "thread-1".to_string(),
        turn_id: "turn-1".to_string(),
        yolo: false,
        poll_limit: 50,
        timeout: Duration::from_secs(1),
        retain_progress: retain,
    }
}

#[test]
fn an_attach_replays_the_snapshot_and_waits() {
    let target = target();
    let resume = json(
        r#"{"thread": {"turns": [{"id": "turn-1", "status": "inProgress", "items": [
            {"id": "item-1", "type": "agentMessage", "text": "first"},
            {"id": "item-2", "type": "agentMessage", "text": ""},
            {"id": "item-3", "type": "agentMessage", "text": "sec"}
        ]}]}}"#,
    );
    let mut early = EarlyNotificationBuffer::default();
    early.push(delta("msg", "sec"));
    early.push(delta("msg", "ond"));
    let outcome = attach_turn(&target, &attach_options(true), early, &resume);
    assert_eq!(
        all_parsed(&outcome.emit),
        vec![
            value(
                r#"{"type": "attached", "server": "work", "threadId": "thread-1", "turnId": "turn-1", "status": "attached"}"#
            ),
            value(
                r#"{"type": "assistantMessage", "server": "work", "threadId": "thread-1", "turnId": "turn-1", "itemId": "item-1", "text": "first", "source": "snapshot"}"#
            ),
            value(
                r#"{"type": "assistantMessage", "server": "work", "threadId": "thread-1", "turnId": "turn-1", "itemId": "item-3", "text": "sec", "source": "snapshot"}"#
            ),
        ]
    );
    let Ok(AttachEnd::Waiting(started)) = outcome.end else {
        panic!("expected a wait");
    };
    assert_eq!(started.initial_events.len(), 3);
    assert_eq!(started.early_notifications.len(), 1);
    assert_eq!(
        parsed(&started.early_notifications[0].params)["delta"],
        "ond"
    );
    let mut wait = wait_for_turn(
        context(&target),
        started.initial_events,
        started.assistant_seed,
        true,
        0,
    )
    .ok()
    .unwrap();
    for early in started.early_notifications {
        notify(&mut wait, early, 1);
    }
    assert_eq!(wait.assistant.final_text(), "first\nsecond");
}

#[test]
fn an_attach_to_an_ended_turn_reports_it() {
    let target = target();
    let resume = json(
        r#"{"thread": {"turns": [{"id": "turn-1", "status": "completed", "items": [
            {"id": "item-1", "type": "agentMessage", "text": "done"}
        ]}]}}"#,
    );
    let outcome = attach_turn(
        &target,
        &attach_options(true),
        EarlyNotificationBuffer::default(),
        &resume,
    );
    assert_eq!(outcome.emit.len(), 3);
    let Ok(AttachEnd::Terminal(terminal)) = outcome.end else {
        panic!("expected the end");
    };
    let output = parsed(&terminal.output);
    assert_eq!(output["finalAssistantText"], "done");
    assert_eq!(output["progress"][2]["source"], "snapshot");
    assert_eq!(terminal.exit_code, 0);

    let outcome = attach_turn(
        &target,
        &attach_options(false),
        EarlyNotificationBuffer::default(),
        &resume,
    );
    let Ok(AttachEnd::Terminal(terminal)) = outcome.end else {
        panic!("expected the end");
    };
    let output = parsed(&terminal.output);
    assert_eq!(output["finalAssistantText"], "");
    assert_eq!(output["progress"].as_array().unwrap().len(), 1);
}

#[test]
fn an_attach_fails_on_a_snapshot_it_cannot_use() {
    let target = target();
    let attach = |early: EarlyNotificationBuffer, resume: &str| {
        let outcome = attach_turn(&target, &attach_options(true), early, &json(resume));
        assert!(outcome.emit.is_empty());
        match outcome.end {
            Err(error) => error.message,
            Ok(_) => panic!("expected a failure"),
        }
    };
    let none = EarlyNotificationBuffer::default;
    assert_eq!(
        attach(none(), "{}"),
        "thread/resume response missing thread object"
    );
    assert_eq!(
        attach(none(), r#"{"thread": {}}"#),
        "thread/resume response missing thread.turns array"
    );
    assert_eq!(
        attach(none(), r#"{"thread": {"turns": [{"id": "turn-1", "status": 3}]}}"#),
        "app-server returned a turn without a string status"
    );
    let mut overflowed = none();
    overflowed.overflowed = true;
    assert_eq!(
        attach(overflowed, "{}"),
        "thread/resume exceeded the pre-response notification limit (10000 events or 16777216 bytes)"
    );
    let items: Vec<String> = (0..4097)
        .map(|n| format!(r#"{{"id": "i{n}", "type": "agentMessage", "text": ""}}"#))
        .collect();
    let crowded = format!(
        r#"{{"thread": {{"turns": [{{"id": "turn-1", "status": "running", "items": [{}]}}]}}}}"#,
        items.join(",")
    );
    assert_eq!(
        attach(none(), &crowded),
        "assistant item limit exceeded (4096 items)"
    );
}

#[test]
fn early_notifications_are_counted_and_limited() {
    let mut buffer = EarlyNotificationBuffer::default();
    buffer.push(notification("ab", r#"{"k": "é"}"#));
    assert_eq!(buffer.bytes, 2 + r#"{"k":"é"}"#.len());
    for _ in 1..MAX_EARLY_NOTIFICATIONS {
        buffer.push(notification("", "0"));
    }
    assert!(!buffer.overflowed);
    buffer.push(notification("", "0"));
    assert!(buffer.overflowed);
    assert_eq!(buffer.notifications.len(), MAX_EARLY_NOTIFICATIONS);
    buffer.clear();
    assert!(!buffer.overflowed);
    assert_eq!(buffer.bytes, 0);
}

#[test]
fn a_search_goes_through_pages_up_to_its_limit() {
    let mut search = TurnSearch::new("thread-1", "turn-9", 150);
    assert_eq!(
        parsed(&search.next_page().unwrap()),
        value(
            r#"{"threadId": "thread-1", "limit": 100, "sortDirection": "desc", "itemsView": "full"}"#
        )
    );
    let page = |count: usize, cursor: &str| {
        let turns: Vec<String> = (0..count).map(|n| format!(r#"{{"id": "t{n}"}}"#)).collect();
        json(&format!(
            r#"{{"data": [{}], "nextCursor": {cursor}}}"#,
            turns.join(",")
        ))
    };
    assert!(matches!(
        search.take_page(&page(100, "\"c1\"")),
        Ok(SearchStep::More)
    ));
    assert_eq!(
        parsed(&search.next_page().unwrap()),
        value(
            r#"{"threadId": "thread-1", "limit": 50, "sortDirection": "desc", "itemsView": "full", "cursor": "c1"}"#
        )
    );
    assert!(matches!(
        search.take_page(&page(80, "\"c2\"")),
        Ok(SearchStep::More)
    ));
    assert_eq!(search.scanned, 150);
    assert!(search.next_page().is_none());
    assert_eq!(
        search.not_found_error().message,
        "turn `turn-9` was not found after scanning 150 of at most 150 recent turns in thread `thread-1`"
    );
}

#[test]
fn a_search_ends_where_its_turn_or_the_history_does() {
    let mut search = TurnSearch::new("thread-1", "turn-9", 2);
    let found = json(r#"{"data": [{"id": "a"}, {"id": "turn-9", "n": 1}, {"id": "turn-9"}]}"#);
    let Ok(SearchStep::Found(turn)) = search.take_page(&found) else {
        panic!("expected the turn");
    };
    assert_eq!(parsed(&turn), value(r#"{"id": "turn-9", "n": 1}"#));
    // A turn past the limit is not looked at.
    let mut search = TurnSearch::new("thread-1", "turn-9", 1);
    assert!(matches!(
        search.take_page(&found),
        Ok(SearchStep::Exhausted)
    ));
    let fault = |page: &str, cursor: Option<&str>| {
        let mut search = TurnSearch::new("thread-1", "turn-9", 5);
        search.cursor = cursor.map(str::to_string);
        match search.take_page(&json(page)) {
            Err(error) => error.message,
            Ok(_) => panic!("expected a failure"),
        }
    };
    assert_eq!(
        fault("{}", None),
        "thread/turns/list response missing data array"
    );
    let mut search = TurnSearch::new("thread-1", "turn-9", 5);
    assert!(search
        .take_page(&json(r#"{"data": [{"id": "a"}, {"id": "b"}], "nextCursor": 7}"#))
        .is_err());
    assert_eq!(search.scanned, 2);
    assert_eq!(
        fault(r#"{"data": [], "nextCursor": 7}"#, None),
        "thread/turns/list response nextCursor must be a string or null"
    );
    assert_eq!(
        fault(r#"{"data": [], "nextCursor": "c"}"#, None),
        "thread/turns/list returned an empty turn page with a next cursor while searching for turn `turn-9`"
    );
    assert_eq!(
        fault(r#"{"data": [{"id": "a"}], "nextCursor": "c"}"#, Some("c")),
        "thread/turns/list repeated cursor `c` while searching for turn `turn-9`"
    );
}

#[test]
fn a_turn_result_reports_what_the_agent_said() {
    let turn = json(
        r#"{"id": "turn-1", "status": "pending", "items": [
            {"id": "u", "type": "userMessage", "text": "no"},
            {"id": "a", "type": "agentMessage", "text": "one"},
            {"id": "b", "type": "agentMessage"},
            {"type": "agentMessage", "text": "two"}
        ]}"#,
    );
    let report = read_turn_result("work", "thread-1", "turn-1", &turn).unwrap();
    assert_eq!(
        parsed(&report),
        value(
            r#"{"server": "work", "threadId": "thread-1", "turnId": "turn-1", "status": "inProgress",
                "assistantResponses": [{"itemId": "a", "text": "one"}, {"text": "two"}],
                "finalAssistantText": "one\ntwo",
                "turn": {"id": "turn-1", "status": "pending", "items": [
                    {"id": "u", "type": "userMessage", "text": "no"},
                    {"id": "a", "type": "agentMessage", "text": "one"},
                    {"id": "b", "type": "agentMessage"},
                    {"type": "agentMessage", "text": "two"}
                ]}}"#
        )
    );
    assert!(read_turn_result("work", "t", "u", &json("{}")).is_err());
}

#[test]
fn statuses_are_checked_and_reported() {
    for (status, reported) in [
        ("completed", "completed"),
        ("failed", "failed"),
        ("interrupted", "interrupted"),
        ("inProgress", "inProgress"),
        ("running", "inProgress"),
        ("pending", "inProgress"),
    ] {
        let turn = json(&format!(r#"{{"status": "{status}"}}"#));
        assert!(reject_unknown_turn_status(&turn).is_ok());
        assert_eq!(turn_status(&turn), reported);
    }
    assert_eq!(
        reject_unknown_turn_status(&json(r#"{"status": "Completed"}"#))
            .unwrap_err()
            .message,
        "app-server returned unrecognized turn status `Completed`"
    );
}

#[test]
fn prompts_are_matched_line_by_line() {
    let turn = json(
        r#"{"items": [{"type": "userMessage", "content": [{"text": "a"}, {"image": 1}, {"text": "b"}]}]}"#,
    );
    assert!(turn_matches_prompt(&turn, "a\nb"));
    assert!(!turn_matches_prompt(&turn, "a"));
    assert!(!turn_matches_prompt(&json("{}"), ""));
    assert_eq!(
        user_message_text(&json(r#"{"content": []}"#)).as_deref(),
        Some("")
    );
    assert_eq!(user_message_text(&json(r#"{"content": 1}"#)), None);
    assert!(turn_started_after(&json(r#"{"startedAt": 5}"#), Some(5)));
    assert!(!turn_started_after(
        &json(r#"{"startedAt": 4, "completedAt": 9}"#),
        Some(5)
    ));
    assert!(turn_started_after(&json(r#"{"completedAt": 9}"#), Some(5)));
    assert!(!turn_started_after(&json(r#"{"completedAt": 9.5}"#), Some(5)));
    assert!(!turn_started_after(&json(r#"{"startedAt": 5}"#), None));
}

#[test]
fn start_requests_carry_what_was_asked_for() {
    let options = TurnStartOptions {
        model: Some("gpt".to_string()),
        effort: Some("high".to_string()),
        service_tier: None,
        yolo: true,
    };
    assert_eq!(
        parsed(&start_turn_params("thread-1", "go", &options)),
        value(
            r#"{"threadId": "thread-1", "input": [{"type": "text", "text": "go", "textElements": []}],
                "approvalPolicy": "never", "sandboxPolicy": {"type": "dangerFullAccess"},
                "model": "gpt", "effort": "high"}"#
        )
    );
    let plain = TurnStartOptions {
        model: None,
        effort: None,
        service_tier: Some("fast".to_string()),
        yolo: false,
    };
    assert_eq!(
        parsed(&start_turn_params("thread-1", "go", &plain)),
        value(
            r#"{"threadId": "thread-1", "input": [{"type": "text", "text": "go", "textElements": []}], "serviceTier": "fast"}"#
        )
    );
}

#[test]
fn start_answers_name_the_turn() {
    let target = target();
    let start = |result: &str, early: EarlyNotificationBuffer| {
        start_turn(
            &target,
            "thread-1".to_string(),
            "go".to_string(),
            50,
            &json(result),
            early,
        )
    };
    let started = start(
        r#"{"turn": {"id": "turn-1"}}"#,
        EarlyNotificationBuffer::default(),
    )
    .ok()
    .unwrap();
    assert_eq!(
        parsed(&started.acceptance),
        value(
            r#"{"type": "accepted", "server": "work", "threadId": "thread-1", "turnId": "turn-1", "status": "accepted"}"#
        )
    );
    assert_eq!(started.started_after_epoch, Some(49));
    assert_eq!(started.prompt.as_deref(), Some("go"));
    assert_eq!(started.initial_events.len(), 1);
    let fault = |result: &str, early: EarlyNotificationBuffer| match start(result, early) {
        Err(error) => error.message,
        Ok(_) => panic!("expected a failure"),
    };
    assert_eq!(
        fault("{}", EarlyNotificationBuffer::default()),
        "turn/start response missing turn.id"
    );
    let mut overflowed = EarlyNotificationBuffer::default();
    overflowed.overflowed = true;
    assert_eq!(
        fault(r#"{"turn": {"id": "turn-1"}}"#, overflowed),
        "turn/start exceeded the pre-response notification limit (10000 events or 16777216 bytes)"
    );
}

#[test]
fn steer_and_interrupt_answers_are_checked() {
    let target = target();
    assert_eq!(
        parsed(&steer_turn_params("thread-1", "turn-1", "more")),
        value(
            r#"{"threadId": "thread-1", "expectedTurnId": "turn-1", "input": [{"type": "text", "text": "more", "textElements": []}]}"#
        )
    );
    let accepted = value(
        r#"{"server": "work", "threadId": "thread-1", "turnId": "turn-1", "status": "accepted"}"#,
    );
    let steer = |result: &str| steer_turn(&target, "thread-1", "turn-1", &json(result));
    assert_eq!(parsed(&steer(r#"{"turnId": "turn-1"}"#).unwrap()), accepted);
    for missing in ["{}", r#"{"turnId": ""}"#, r#"{"turnId": 1}"#] {
        assert_eq!(
            steer(missing).unwrap_err().message,
            "turn/steer response missing turnId"
        );
    }
    assert_eq!(
        steer(r#"{"turnId": "turn-2"}"#).unwrap_err().message,
        "turn/steer response turnId `turn-2` does not match requested turn `turn-1`"
    );
    assert_eq!(
        parsed(&interrupt_turn_params("thread-1", "turn-1")),
        value(r#"{"threadId": "thread-1", "turnId": "turn-1"}"#)
    );
    assert_eq!(
        parsed(&interrupt_turn(&target, "thread-1", "turn-1", &json("{}")).unwrap()),
        accepted
    );
    assert_eq!(
        interrupt_turn(&target, "thread-1", "turn-1", &json("[]"))
            .unwrap_err()
            .message,
        "turn/interrupt response must be an object"
    );
}

#[test]
fn input_is_resubmitted_once_after_the_exact_unloaded_error() {
    let (mut input, action) = DirectInput::new("thread-1", true, true);
    assert!(matches!(action, InputAction::Read { .. }));
    assert!(matches!(
        input.step(Ok(json(r#"{"thread": {}}"#))),
        InputAction::Submit
    ));
    let InputAction::Resume { params } = input.step(Err(rpc_error(
        "turn/start",
        -32600,
        "thread not found: thread-1",
    ))) else {
        panic!("expected a resume");
    };
    assert_eq!(
        parsed(&params),
        value(
            r#"{"threadId": "thread-1", "excludeTurns": true, "approvalPolicy": "never", "sandbox": "danger-full-access"}"#
        )
    );
    assert!(matches!(
        input.step(Ok(json(r#"{"thread": {"canAcceptDirectInput": true}}"#))),
        InputAction::Resubmit
    ));
    assert!(matches!(
        input.step(Err(rpc_error(
            "turn/start",
            -32600,
            "thread not found: thread-1"
        ))),
        InputAction::Fail(_)
    ));
    for error in [
        rpc_error("turn/start", -32603, "thread not found: thread-1"),
        rpc_error("turn/start", -32600, "missing thread: thread-1"),
        rpc_error("turn/start", -32600, "thread not found: thread-10"),
    ] {
        assert!(!is_unloaded_thread_error(&error, "thread-1"));
        let (mut input, _) = DirectInput::new("thread-1", true, false);
        input.step(Ok(json("{}")));
        assert!(matches!(input.step(Err(error)), InputAction::Fail(_)));
    }
}

#[test]
fn input_is_refused_by_a_thread_that_takes_none() {
    let refusal = r#"{"thread": {"canAcceptDirectInput": false}}"#;
    let (mut input, _) = DirectInput::new("t", false, false);
    let InputAction::Fail(error) = input.step(Ok(json(refusal))) else {
        panic!("expected a refusal");
    };
    assert_eq!(message(error), "thread `t` does not accept direct input");
    assert_eq!(input.phase, InputPhase::Ended);

    let (mut input, _) = DirectInput::new("t", true, false);
    input.step(Ok(json("{}")));
    input.step(Err(rpc_error("turn/start", -32600, "thread not found: t")));
    assert!(matches!(
        input.step(Ok(json(refusal))),
        InputAction::Fail(_)
    ));

    // A submission that may not resume does not.
    let (mut input, _) = DirectInput::new("t", false, false);
    input.step(Ok(json("{}")));
    assert!(matches!(
        input.step(Err(rpc_error("turn/steer", -32600, "thread not found: t"))),
        InputAction::Fail(_)
    ));
    assert_eq!(
        parsed(&resume_params("t", false, false)),
        value(r#"{"threadId": "t", "excludeTurns": false}"#)
    );
}

fn seeded(text: &str) -> AssistantResponses {
    let mut assistant = AssistantResponses::new();
    assistant.seed_snapshot_item(Some("item-1"), text).unwrap();
    assistant
}

#[test]
fn an_undeclared_stream_continues_the_seeded_item() {
    let mut assistant = seeded("par");
    let mut emitted = String::new();
    for delta in ["p", "art", "ial"] {
        if let Some((ids, fragment)) = assistant.apply_live_delta(Some("msg"), delta).unwrap() {
            assert_eq!(ids.item_id.as_deref(), Some("item-1"));
            assert_eq!(ids.alias_ids, ["item-1", "msg"]);
            emitted.push_str(&fragment);
        }
    }
    assert_eq!(emitted, "tial");
    assert_eq!(assistant.items.len(), 1);
    assert_eq!(assistant.final_text(), "partial");
}

#[test]
fn a_report_lists_all_that_was_emitted() {
    let target = target();
    let initial = vec![json(r#"{"type": "accepted"}"#)];
    let mut wait = wait_for_turn(context(&target), initial, AssistantResponses::new(), true, 0)
        .ok()
        .unwrap();
    let mut listed = vec![value(r#"{"type": "accepted"}"#)];
    listed.extend(emitted(notify(&mut wait, delta("m", "a"), 1)));
    wait.start_listening(2);
    let running = r#"{"data": [{"id": "turn-1", "status": "running", "items": [
        {"id": "m", "type": "agentMessage", "text": "ab"}
    ]}]}"#;
    listed.extend(emitted(polled(&mut wait, Ok(json(running)))));
    let WaitAction::Finish {
        events,
        outcome: TurnWaitOutcome::Terminal(terminal),
    } = notify(&mut wait, completed_turn("completed"), 3)
    else {
        panic!("expected the end");
    };
    listed.extend(all_parsed(&events));
    assert_eq!(listed.len(), 4);
    assert_eq!(parsed(&terminal.output)["progress"], Value::Array(listed));
}

fn fragments(assistant: &mut AssistantResponses, deltas: &[&str]) -> String {
    deltas
        .iter()
        .filter_map(|delta| assistant.apply_live_delta(Some("item-1"), delta).unwrap())
        .map(|(_, fragment)| fragment)
        .collect()
}

#[test]
fn a_replayed_text_is_swallowed_and_a_new_one_is_emitted() {
    let mut assistant = seeded("héllo");
    assert_eq!(
        fragments(&mut assistant, &["", "h", "él", "lo wor", "ld"]),
        " world"
    );
    assert_eq!(assistant.final_text(), "héllo world");

    let mut assistant = seeded("hello");
    assert_eq!(fragments(&mut assistant, &[" there", "hello"]), " therehello");
    assert_eq!(assistant.final_text(), "hello therehello");
}

#[test]
fn a_streamed_text_is_reported_once() {
    for retain in [true, false] {
        let target = target();
        let mut wait = waiting(&target, retain);
        notify(&mut wait, delta("msg", "an"), 1);
        notify(&mut wait, delta("msg", "swer"), 2);
        let completion = notification(
            "item/completed",
            r#"{"threadId": "thread-1", "turnId": "turn-1", "item": {"id": "msg", "type": "agentMessage", "text": "answer"}}"#,
        );
        assert!(emitted(notify(&mut wait, completion, 3)).is_empty());
        let poll = r#"{"data": [{"id": "turn-1", "status": "running", "items": [
            {"id": "item-0", "type": "reasoning"},
            {"id": "item-1", "type": "agentMessage", "text": "answer"}
        ]}]}"#;
        assert!(emitted(polled(&mut wait, Ok(json(poll)))).is_empty());
        let correction = notification(
            "item/completed",
            r#"{"threadId": "thread-1", "turnId": "turn-1", "item": {"id": "item-1", "type": "agentMessage", "text": "answers"}}"#,
        );
        assert_eq!(
            emitted(notify(&mut wait, correction, 4)),
            vec![value(
                r#"{"type": "assistantMessage", "server": "work", "threadId": "thread-1", "turnId": "turn-1", "itemId": "msg", "itemAliases": ["msg", "item-1"], "text": "answers"}"#
            )]
        );
    }
}

#[test]
fn a_snapshot_is_not_repeated_by_the_first_poll() {
    for retain in [true, false] {
        let target = target();
        let turn = r#"{"id": "turn-1", "status": "running", "items": [
            {"id": "item-1", "type": "agentMessage", "text": "one"},
            {"type": "agentMessage", "text": "nameless"}
        ]}"#;
        let outcome = attach_turn(
            &target,
            &attach_options(retain),
            EarlyNotificationBuffer::default(),
            &json(&format!(r#"{{"thread": {{"turns": [{turn}]}}}}"#)),
        );
        let Ok(AttachEnd::Waiting(started)) = outcome.end else {
            panic!("expected a wait");
        };
        let mut wait = wait_for_turn(
            context(&target),
            started.initial_events,
            started.assistant_seed,
            retain,
            0,
        )
        .ok()
        .unwrap();
        let reply = json(&format!(r#"{{"data": [{turn}]}}"#));
        assert!(emitted(polled(&mut wait, Ok(reply))).is_empty());
    }
}

#[test]
fn other_traffic_is_ignored() {
    let target = target();
    let mut wait = waiting(&target, true);
    for params in [
        r#"{"threadId": "thread-2", "turnId": "turn-1", "itemId": "m", "delta": "x"}"#,
        r#"{"threadId": "thread-1", "turnId": "turn-2", "itemId": "m", "delta": "x"}"#,
    ] {
        let other = notification("item/agentMessage/delta", params);
        assert!(emitted(notify(&mut wait, other, 1)).is_empty());
    }
    let ended = notification(
        "turn/completed",
        r#"{"threadId": "thread-1", "turn": {"id": "turn-2", "status": "completed"}}"#,
    );
    assert!(emitted(notify(&mut wait, ended, 1)).is_empty());
    assert_eq!(wait.assistant.final_text(), "");
}

#[test]
fn a_temporary_turn_id_is_replaced_by_the_one_that_answers_the_prompt() {
    let target = target();
    let mut context = context(&target);
    context.prompt = Some("go");
    context.started_after_epoch = Some(100);
    let mut wait = wait_for_turn(context, Vec::new(), AssistantResponses::new(), true, 0)
        .ok()
        .unwrap();
    let page = |started: i64| {
        json(&format!(
            r#"{{"data": [{{"id": "turn-real", "status": "running", "startedAt": {started}, "items": [
                {{"type": "userMessage", "content": [{{"type": "text", "text": "go"}}]}}
            ]}}]}}"#
        ))
    };
    polled(&mut wait, Ok(page(99)));
    assert_eq!(wait.context.turn_id, "turn-1");
    polled(&mut wait, Ok(page(100)));
    assert_eq!(wait.context.turn_id, "turn-real");
}
