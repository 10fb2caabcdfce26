use codex_tamer::config::{Endpoint, Target};
use codex_tamer::json::Json;
use codex_tamer::parse::parse_json;
use codex_tamer::rpc::Notification;
use codex_tamer::turns::buffers::{
    EarlyNotificationBuffer, ProgressEvents, MAX_EARLY_NOTIFICATIONS, MAX_EARLY_NOTIFICATION_BYTES,
    MAX_RETAINED_PROGRESS_BYTES, MAX_RETAINED_PROGRESS_EVENTS,
};
use codex_tamer::turns::events::turn_event;
use codex_tamer::turns::overlap::replayed_prefix_len;
use codex_tamer::turns::poll::poll_result_turn;
use codex_tamer::turns::registry::{AssistantResponses, MAX_ASSISTANT_ITEMS};
use codex_tamer::turns::replay::reconcile_replayed_deltas;
use codex_tamer::turns::snapshot::{assistant_for_wait, assistant_seed_from_thread_snapshot};
use codex_tamer::turns::wait::{process_turn_notification, TurnWaitContext};
use serde_json::Value;

fn to_value(json: &Json) -> Value {
    match json {
        Json::Null => Value::Null,
        Json::Bool(b) => Value::Bool(*b),
        Json::Number { text, .. } => serde_json::from_str(text).unwrap(),
        Json::Str(s) => Value::String(s.clone()),
        Json::Array(items) => Value::Array(items.iter().map(to_value).collect()),
        Json::Object(members) => Value::Object(
            members
                .iter()
                .map(|member| (member.key.clone(), to_value(&member.value)))
                .collect(),
        ),
    }
}

fn json(text: &str) -> Json {
    parse_json(text).unwrap()
}

fn quoted(text: &str) -> String {
    serde_json::to_string(text).unwrap()
}

fn notification(method: &str, params: &str) -> Notification {
    Notification {
        method: method.to_string(),
        params: json(params),
    }
}

fn delta_notification(item_id: &str, delta: &str) -> Notification {
    notification(
        "item/agentMessage/delta",
        &format!(
            r#"{{"threadId": "thread-1", "turnId": "turn-1", "itemId": {}, "delta": {}}}"#,
            quoted(item_id),
            quoted(delta)
        ),
    )
}

fn started_notification(item_id: &str) -> Notification {
    notification(
        "item/started",
        &format!(
            r#"{{"threadId": "thread-1", "turnId": "turn-1", "item": {{"id": {}, "type": "agentMessage"}}}}"#,
            quoted(item_id)
        ),
    )
}

fn completed_notification(item_id: &str, text: &str) -> Notification {
    notification(
        "item/completed",
        &format!(
            r#"{{"threadId": "thread-1", "turnId": "turn-1", "item": {{"id": {}, "type": "agentMessage", "text": {}}}}}"#,
            quoted(item_id),
            quoted(text)
        ),
    )
}

fn replayed_delta_texts(notifications: &[Notification]) -> Vec<String> {
    notifications
        .iter()
        .map(|notification| {
            to_value(&notification.params)["delta"]
                .as_str()
                .unwrap_or("")
                .to_string()
        })
        .collect()
}

fn target() -> Target {
    Target {
        server: "work".to_string(),
        endpoint: Endpoint::Unix {
            path: "/tmp/mock.sock".to_string(),
        },
        model: None,
        model_reasoning_effort: None,
    }
}

fn wait_for<'a>(target: &'a Target) -> TurnWaitContext<'a> {
    TurnWaitContext {
        target,
        thread_id: "thread-1",
        turn_id: "turn-1".to_string(),
        prompt: None,
        started_after_epoch: None,
        poll_limit: 50,
    }
}

#[test]
fn poll_snapshot_does_not_reemit_live_streamed_item_under_persisted_id() {
    let mut assistant = AssistantResponses::new();
    assistant.note_started("msg_a").unwrap();
    assert!(assistant
        .apply_live_delta(Some("msg_a"), "The CLI also ")
        .unwrap()
        .is_some());
    assert!(assistant
        .apply_live_delta(Some("msg_a"), "exposes this.")
        .unwrap()
        .is_some());
    assert!(assistant
        .complete_live(Some("msg_a"), "The CLI also exposes this.")
        .unwrap()
        .is_none());

    let turn = json(
        r#"{"items": [
            {"id": "item-3", "type": "agentMessage", "text": "The CLI also exposes this."}
        ]}"#,
    );
    assert!(assistant.sync_from_turn(&turn).unwrap().is_empty());
    assert_eq!(
        assistant.text_for_item(Some("item-3")),
        Some("The CLI also exposes this.")
    );
}

#[test]
fn undeclared_live_id_continues_seeded_snapshot_item() {
    let mut assistant = AssistantResponses::new();
    assistant
        .seed_snapshot_item(Some("item-7"), "Partial sn")
        .unwrap();

    assert!(assistant
        .apply_live_delta(Some("msg_b"), "Partial ")
        .unwrap()
        .is_none());
    let (ids, fragment) = assistant
        .apply_live_delta(Some("msg_b"), "snapshot text continues")
        .unwrap()
        .expect("boundary delta carries fresh tail");
    assert_eq!(ids.item_id.as_deref(), Some("item-7"));
    assert!(ids.alias_ids.contains(&"msg_b".to_string()));
    assert_eq!(fragment, "apshot text continues");
    assert_eq!(
        assistant.text_for_item(Some("item-7")),
        Some("Partial snapshot text continues")
    );
}

#[test]
fn declared_live_item_stays_separate_from_seeded_tail() {
    let mut assistant = AssistantResponses::new();
    assistant
        .seed_snapshot_item(Some("item-7"), "Earlier paragraph.")
        .unwrap();
    assistant.note_started("msg_c").unwrap();
    let (ids, fragment) = assistant
        .apply_live_delta(Some("msg_c"), "New paragraph.")
        .unwrap()
        .expect("new item delta emits");
    assert_eq!(ids.item_id.as_deref(), Some("msg_c"));
    assert_eq!(fragment, "New paragraph.");
    assert_eq!(
        assistant.text_for_item(Some("item-7")),
        Some("Earlier paragraph.")
    );

    let unchanged = json(
        r#"{"items": [
            {"id": "item-7", "type": "agentMessage", "text": "Earlier paragraph."},
            {"id": "item-8", "type": "agentMessage", "text": "New paragraph."}
        ]}"#,
    );
    assert!(assistant.sync_from_turn(&unchanged).unwrap().is_empty());

    let advanced = json(
        r#"{"items": [
            {"id": "item-7", "type": "agentMessage", "text": "Earlier paragraph."},
            {"id": "item-8", "type": "agentMessage", "text": "New paragraph. More."}
        ]}"#,
    );
    let updates = assistant.sync_from_turn(&advanced).unwrap();
    assert_eq!(updates.len(), 1);
    assert_eq!(updates[0].0.item_id.as_deref(), Some("msg_c"));
    assert!(updates[0].0.alias_ids.contains(&"item-8".to_string()));
    assert_eq!(updates[0].1, "New paragraph. More.");
}

#[test]
fn reconcile_replayed_deltas_drops_content_already_in_snapshot() {
    let mut assistant = AssistantResponses::new();
    assistant
        .set_text(Some("assistant-1"), "The full paragraph with live")
        .unwrap();

    let reconciled = reconcile_replayed_deltas(
        &assistant,
        "thread-1",
        "turn-1",
        vec![
            delta_notification("assistant-1", " paragraph"),
            delta_notification("assistant-1", " with live"),
            delta_notification("assistant-1", " suffix"),
        ],
    );

    assert_eq!(replayed_delta_texts(&reconciled), vec![" suffix"]);
}

#[test]
fn reconcile_trims_buffered_deltas_for_undeclared_live_id() {
    let mut assistant = AssistantResponses::new();
    assistant
        .seed_snapshot_item(Some("item-7"), "The full paragraph with live")
        .unwrap();

    let reconciled = reconcile_replayed_deltas(
        &assistant,
        "thread-1",
        "turn-1",
        vec![
            delta_notification("msg_z", " paragraph"),
            delta_notification("msg_z", " with live"),
            delta_notification("msg_z", " suffix"),
        ],
    );

    assert_eq!(replayed_delta_texts(&reconciled), vec![" suffix"]);
}

#[test]
fn reconcile_keeps_buffered_deltas_for_declared_new_item() {
    let mut assistant = AssistantResponses::new();
    assistant
        .seed_snapshot_item(Some("item-7"), "Earlier paragraph.")
        .unwrap();

    let reconciled = reconcile_replayed_deltas(
        &assistant,
        "thread-1",
        "turn-1",
        vec![
            started_notification("msg_y"),
            delta_notification("msg_y", "New paragraph."),
        ],
    );

    assert_eq!(reconciled.len(), 2);
    assert_eq!(to_value(&reconciled[1].params)["delta"], "New paragraph.");
}

#[test]
fn reconcile_keeps_declared_new_item_that_extends_snapshot_tail_text() {
    let mut assistant = AssistantResponses::new();
    assistant
        .seed_snapshot_item(Some("item-7"), "Hello")
        .unwrap();

    let reconciled = reconcile_replayed_deltas(
        &assistant,
        "thread-1",
        "turn-1",
        vec![
            started_notification("msg-new"),
            delta_notification("msg-new", "Hello world"),
        ],
    );

    assert_eq!(reconciled.len(), 2);
    assert_eq!(to_value(&reconciled[0].params)["item"]["id"], "msg-new");
    assert_eq!(to_value(&reconciled[1].params)["delta"], "Hello world");
    for notification in reconciled {
        let _ = turn_event("work", "thread-1", "turn-1", notification, &mut assistant)
            .expect("valid event");
    }
    assert_eq!(assistant.items.len(), 2);
    assert_eq!(assistant.final_text(), "Hello\nHello world");
}

#[test]
fn reconcile_handles_the_max_notification_window_without_nested_scans() {
    let mut assistant = AssistantResponses::new();
    assistant
        .seed_snapshot_item(Some("item-7"), "snapshot tail")
        .unwrap();
    let mut notifications = Vec::with_capacity(MAX_EARLY_NOTIFICATIONS);
    for index in 0..(MAX_EARLY_NOTIFICATIONS / 2) {
        notifications.push(started_notification(&format!("msg-{index}")));
        notifications.push(delta_notification(
            &format!("msg-{index}"),
            &format!("new response {index}"),
        ));
    }

    let reconciled = reconcile_replayed_deltas(&assistant, "thread-1", "turn-1", notifications);

    assert_eq!(reconciled.len(), MAX_EARLY_NOTIFICATIONS);
    assert_eq!(to_value(&reconciled[0].params)["item"]["id"], "msg-0");
    assert_eq!(
        to_value(&reconciled.last().expect("last delta").params)["delta"],
        format!("new response {}", MAX_EARLY_NOTIFICATIONS / 2 - 1)
    );
}

#[test]
fn replay_overlap_handles_one_max_sized_buffered_item() {
    let text = "x".repeat(MAX_EARLY_NOTIFICATION_BYTES);

    assert_eq!(replayed_prefix_len(&text, &text), text.len());
}

#[test]
fn reconcile_started_replay_already_in_snapshot_tail() {
    let mut assistant = AssistantResponses::new();
    assistant
        .seed_snapshot_item(Some("item-7"), "Partial response")
        .unwrap();

    let reconciled = reconcile_replayed_deltas(
        &assistant,
        "thread-1",
        "turn-1",
        vec![
            started_notification("msg_y"),
            delta_notification("msg_y", "Partial "),
            delta_notification("msg_y", "response"),
        ],
    );

    assert_eq!(reconciled.len(), 1);
    assert_eq!(reconciled[0].method, "item/started");
    assert_eq!(to_value(&reconciled[0].params)["item"]["id"], "item-7");

    let mut live_assistant = assistant;
    for notification in reconciled {
        assert!(turn_event(
            "work",
            "thread-1",
            "turn-1",
            notification,
            &mut live_assistant,
        )
        .expect("valid event")
        .is_none());
    }
    assert_eq!(live_assistant.items.len(), 1);
    assert_eq!(live_assistant.final_text(), "Partial response");
}

#[test]
fn reconcile_replayed_deltas_drops_replay_from_item_start() {
    let mut assistant = AssistantResponses::new();
    assistant.set_text(Some("assistant-1"), "Hello").unwrap();

    let reconciled = reconcile_replayed_deltas(
        &assistant,
        "thread-1",
        "turn-1",
        vec![
            delta_notification("assistant-1", "Hel"),
            delta_notification("assistant-1", "lo"),
            delta_notification("assistant-1", " world"),
        ],
    );

    assert_eq!(replayed_delta_texts(&reconciled), vec![" world"]);
}

#[test]
fn reconcile_replayed_deltas_trims_delta_spanning_snapshot_boundary() {
    let mut assistant = AssistantResponses::new();
    assistant.set_text(Some("assistant-1"), "AB").unwrap();

    let reconciled = reconcile_replayed_deltas(
        &assistant,
        "thread-1",
        "turn-1",
        vec![
            delta_notification("assistant-1", "A"),
            delta_notification("assistant-1", "BC"),
        ],
    );

    assert_eq!(replayed_delta_texts(&reconciled), vec!["C"]);
}

#[test]
fn reconcile_replayed_deltas_trims_at_multibyte_boundaries() {
    let mut assistant = AssistantResponses::new();
    assistant.set_text(Some("assistant-1"), "héllo wö").unwrap();

    let reconciled = reconcile_replayed_deltas(
        &assistant,
        "thread-1",
        "turn-1",
        vec![
            delta_notification("assistant-1", "héllo"),
            delta_notification("assistant-1", " wörld"),
        ],
    );

    assert_eq!(replayed_delta_texts(&reconciled), vec!["rld"]);
}

#[test]
fn reconcile_replayed_deltas_keeps_unknown_items_and_other_threads() {
    let mut assistant = AssistantResponses::new();
    assistant
        .set_text(Some("assistant-1"), "known text")
        .unwrap();

    let other_thread = notification(
        "item/agentMessage/delta",
        r#"{"threadId": "thread-2", "turnId": "turn-1", "itemId": "assistant-1", "delta": "known text"}"#,
    );
    let reconciled = reconcile_replayed_deltas(
        &assistant,
        "thread-1",
        "turn-1",
        vec![
            delta_notification("assistant-2", "new item text"),
            other_thread,
            completed_notification("assistant-1", "known text"),
        ],
    );

    assert_eq!(reconciled.len(), 3);
    assert_eq!(to_value(&reconciled[0].params)["delta"], "new item text");
    assert_eq!(to_value(&reconciled[1].params)["threadId"], "thread-2");
    assert_eq!(to_value(&reconciled[1].params)["delta"], "known text");
    assert_eq!(reconciled[2].method, "item/completed");
}

#[test]
fn assistant_seed_from_snapshot_suppresses_poll_rebroadcast() {
    let thread = json(
        r#"{
            "turns": [
                {
                    "id": "turn-1",
                    "items": [
                        {"id": "user-1", "type": "userMessage", "content": [{"text": "go"}]},
                        {"id": "assistant-1", "type": "agentMessage", "text": "First paragraph"},
                        {"id": "assistant-2", "type": "agentMessage", "text": "Second part"}
                    ]
                },
                {
                    "id": "turn-0",
                    "items": [
                        {"id": "assistant-0", "type": "agentMessage", "text": "Older turn"}
                    ]
                }
            ]
        }"#,
    );
    let mut assistant = assistant_seed_from_thread_snapshot(&thread, "turn-1")
        .ok()
        .unwrap();
    assert_eq!(
        assistant.text_for_item(Some("assistant-1")),
        Some("First paragraph")
    );
    assert_eq!(assistant.text_for_item(Some("assistant-0")), None);

    let unchanged = json(
        r#"{
            "id": "turn-1",
            "items": [
                {"id": "assistant-1", "type": "agentMessage", "text": "First paragraph"},
                {"id": "assistant-2", "type": "agentMessage", "text": "Second part"}
            ]
        }"#,
    );
    assert!(assistant.sync_from_turn(&unchanged).unwrap().is_empty());

    let advanced = json(
        r#"{
            "id": "turn-1",
            "items": [
                {"id": "assistant-1", "type": "agentMessage", "text": "First paragraph"},
                {"id": "assistant-2", "type": "agentMessage", "text": "Second part grew"}
            ]
        }"#,
    );
    let updates = assistant.sync_from_turn(&advanced).unwrap();
    assert_eq!(updates.len(), 1);
    assert_eq!(updates[0].0.item_id.as_deref(), Some("assistant-2"));
    assert_eq!(updates[0].1, "Second part grew");
}

#[test]
fn turn_terminal_preserves_multiple_assistant_item_responses() {
    let target = target();
    let wait = wait_for(&target);
    let mut assistant = AssistantResponses::new();
    let mut events = ProgressEvents::new(Vec::new(), true).unwrap();

    for notification in [
        delta_notification("assistant-1", "first"),
        delta_notification("assistant-1", " response"),
        delta_notification("assistant-2", "second"),
        completed_notification("assistant-2", "second corrected"),
    ] {
        assert!(
            process_turn_notification(&wait, notification, &mut assistant, &mut events)
                .unwrap()
                .is_none()
        );
    }

    let terminal = process_turn_notification(
        &wait,
        notification(
            "turn/completed",
            r#"{"threadId": "thread-1", "turn": {"id": "turn-1", "status": "completed", "items": []}}"#,
        ),
        &mut assistant,
        &mut events,
    )
    .unwrap()
    .expect("terminal turn");

    let output = to_value(&terminal.output);
    assert_eq!(
        output["finalAssistantText"],
        "first response\nsecond corrected"
    );
    let expected: Value = serde_json::from_str(
        r#"[
            {"itemId": "assistant-1", "text": "first response"},
            {"itemId": "assistant-2", "text": "second corrected"}
        ]"#,
    )
    .unwrap();
    assert_eq!(output["assistantResponses"], expected);
    assert_eq!(output["progress"][0]["itemId"], "assistant-1");
    assert_eq!(output["progress"][2]["itemId"], "assistant-2");
    assert_eq!(output["progress"][3]["type"], "assistantMessage");
    assert_eq!(output["progress"][3]["itemId"], "assistant-2");
    assert_eq!(terminal.exit_code, 0);
}

#[test]
fn assistant_response_adopts_item_id_for_provisional_delta() {
    let target = target();
    let wait = wait_for(&target);
    let mut assistant = AssistantResponses::new();
    let mut events = ProgressEvents::new(Vec::new(), true).unwrap();

    process_turn_notification(
        &wait,
        notification(
            "item/agentMessage/delta",
            r#"{"threadId": "thread-1", "turnId": "turn-1", "delta": "draft"}"#,
        ),
        &mut assistant,
        &mut events,
    )
    .unwrap();
    process_turn_notification(
        &wait,
        completed_notification("assistant-1", "draft final"),
        &mut assistant,
        &mut events,
    )
    .unwrap();

    assert_eq!(assistant.final_text(), "draft final");
    let responses: Vec<Value> = assistant.to_json().iter().map(to_value).collect();
    let expected: Value =
        serde_json::from_str(r#"{"itemId": "assistant-1", "text": "draft final"}"#).unwrap();
    assert_eq!(responses, vec![expected]);
}

#[test]
fn assistant_response_sync_from_turn_reports_changes_once() {
    let mut assistant = AssistantResponses::new();
    let turn = json(
        r#"{"items": [
            {"id": "assistant-1", "type": "agentMessage", "text": "current active text"}
        ]}"#,
    );

    let updates = assistant.sync_from_turn(&turn).unwrap();

    assert_eq!(updates.len(), 1);
    assert_eq!(updates[0].0.item_id.as_deref(), Some("assistant-1"));
    assert_eq!(updates[0].1, "current active text");
    assert_eq!(assistant.final_text(), "current active text");
    assert!(assistant.sync_from_turn(&turn).unwrap().is_empty());
}

#[test]
fn completion_under_an_undeclared_live_id_does_not_repeat_seeded_text() {
    let mut assistant = AssistantResponses::new();
    assistant
        .seed_snapshot_item(Some("item-7"), "already complete")
        .unwrap();

    assert!(assistant
        .complete_live(Some("msg-live"), "already complete")
        .unwrap()
        .is_none());
    assert_eq!(assistant.final_text(), "already complete");
}

#[test]
fn buffered_started_and_completed_events_alias_to_the_snapshot_item() {
    let mut assistant = AssistantResponses::new();
    assistant
        .seed_snapshot_item(Some("item-7"), "already complete")
        .unwrap();
    let notifications = vec![
        started_notification("msg-live"),
        completed_notification("msg-live", "already complete"),
    ];
    let notifications = reconcile_replayed_deltas(&assistant, "thread-1", "turn-1", notifications);

    for notification in notifications {
        assert!(
            turn_event("work", "thread-1", "turn-1", notification, &mut assistant)
                .expect("valid event")
                .is_none()
        );
    }
    assert_eq!(assistant.final_text(), "already complete");
    assert_eq!(assistant.items.len(), 1);
}

#[test]
fn streamed_event_history_is_released_after_emission() {
    let values = (0..1_000)
        .map(|_| json(r#"{"type": "progress", "delta": "chunk"}"#))
        .collect();
    let mut events = ProgressEvents::new(values, false).unwrap();
    events.release_emitted();
    assert!(events.as_slice().is_empty());

    let mut events = ProgressEvents::new(Vec::new(), true).unwrap();
    events
        .push(json(r#"{"type": "progress", "delta": "kept"}"#))
        .unwrap();
    events.release_emitted();
    assert_eq!(events.as_slice().len(), 1);
}

#[test]
fn assistant_registry_indexes_aliases_and_rejects_items_past_the_limit() {
    let mut assistant = AssistantResponses::new();
    assistant
        .seed_snapshot_item(Some("item-0"), "partial")
        .unwrap();
    assistant
        .apply_live_delta(Some("msg-live"), " continuation")
        .unwrap();

    assert_eq!(assistant.alias_to_index.get("item-0"), Some(&0));
    assert_eq!(assistant.alias_to_index.get("msg-live"), Some(&0));

    for index in 1..MAX_ASSISTANT_ITEMS {
        assistant.note_started(&format!("item-{index}")).unwrap();
    }
    let error = assistant.note_started("item-overflow").unwrap_err();

    assert!(error.message.contains("assistant item limit"));
    assert_eq!(assistant.items.len(), MAX_ASSISTANT_ITEMS);
    assert_eq!(assistant.alias_to_index.len(), MAX_ASSISTANT_ITEMS + 1);
}

#[test]
fn retained_progress_rejects_events_past_the_count_limit() {
    let mut events = ProgressEvents::new(Vec::new(), true).unwrap();
    for _ in 0..MAX_RETAINED_PROGRESS_EVENTS {
        events.push(json(r#"{"type": "progress"}"#)).unwrap();
    }

    let error = events
        .push(json(r#"{"type": "progress", "delta": "overflow"}"#))
        .unwrap_err();

    assert!(error.message.contains("progress retention limit"));
    assert_eq!(events.as_slice().len(), MAX_RETAINED_PROGRESS_EVENTS);
}

#[test]
fn retained_progress_rejects_aggregate_bytes_past_the_limit() {
    let mut events = ProgressEvents::new(Vec::new(), true).unwrap();
    let oversized = Json::object()
        .with("type", Json::string("progress"))
        .with("delta", Json::Str("x".repeat(MAX_RETAINED_PROGRESS_BYTES)));

    let error = events.push(oversized).unwrap_err();

    assert!(error.message.contains("progress retention limit"));
    assert!(events.as_slice().is_empty());
}

#[test]
fn non_retaining_assistant_releases_text_without_rebroadcasting_completion() {
    let mut assistant = AssistantResponses::new();
    assistant
        .seed_snapshot_item(Some("item-7"), &"x".repeat(1_000_000))
        .unwrap();
    let replay = reconcile_replayed_deltas(
        &assistant,
        "thread-1",
        "turn-1",
        vec![delta_notification("item-7", &"x".repeat(1_000_000))],
    );
    assert!(replay.is_empty());
    let mut assistant = assistant_for_wait(assistant, false);

    assert!(assistant.items[0].text.is_empty());
    assert_eq!(assistant.items[0].text.capacity(), 0);
    assert!(assistant
        .apply_live_delta(Some("item-7"), " continuation")
        .unwrap()
        .is_some());
    assert!(assistant.items[0].text.is_empty());
    let full = format!("{} continuation", "x".repeat(1_000_000));
    let turn = json(&format!(
        r#"{{"items": [{{"id": "item-7", "type": "agentMessage", "text": {}}}]}}"#,
        quoted(&full)
    ));
    assert!(assistant.sync_from_turn(&turn).unwrap().is_empty());
    assert!(assistant
        .complete_live(Some("item-7"), &full)
        .unwrap()
        .is_none());
    assert!(assistant.items[0].text.is_empty());
}

#[test]
fn non_retaining_assistant_aliases_late_live_id_to_snapshot_tail() {
    let mut assistant = AssistantResponses::new();
    assistant
        .seed_snapshot_item(Some("item-7"), "partial response")
        .unwrap();
    let mut assistant = assistant_for_wait(assistant, false);

    let (ids, fragment) = assistant
        .apply_live_delta(Some("msg-live"), " continued")
        .unwrap()
        .expect("new suffix emits");

    assert_eq!(ids.item_id.as_deref(), Some("item-7"));
    assert!(ids.alias_ids.contains(&"msg-live".to_string()));
    assert_eq!(fragment, " continued");
    assert_eq!(assistant.items.len(), 1);
    assert!(assistant
        .complete_live(Some("msg-live"), "partial response continued")
        .unwrap()
        .is_none());
}

#[test]
fn early_notification_buffer_enforces_its_byte_limit() {
    let mut buffer = EarlyNotificationBuffer {
        bytes: MAX_EARLY_NOTIFICATION_BYTES,
        ..EarlyNotificationBuffer::default()
    };
    buffer.push(notification("turn/completed", "{}"));

    assert!(buffer.overflowed);
    assert!(buffer.notifications.is_empty());
}

#[test]
fn poll_result_turn_adopts_persisted_turn_id_by_prompt_when_start_id_is_absent() {
    let target = target();
    let mut wait = TurnWaitContext {
        target: &target,
        thread_id: "thread-1",
        turn_id: "returned-id".to_string(),
        prompt: Some("Reply with exactly: ok"),
        started_after_epoch: Some(1_700_000_000),
        poll_limit: 50,
    };
    let result = json(
        r#"{
            "data": [
                {
                    "id": "persisted-id",
                    "status": "completed",
                    "startedAt": 1700000001,
                    "items": [
                        {
                            "id": "item-user",
                            "type": "userMessage",
                            "content": [{"type": "text", "text": "Reply with exactly: ok"}]
                        },
                        {"id": "item-agent", "type": "agentMessage", "text": "ok"}
                    ]
                }
            ]
        }"#,
    );

    let turn = poll_result_turn(&mut wait, &result).expect("aliased turn");

    assert_eq!(to_value(turn)["id"], "persisted-id");
    assert_eq!(wait.turn_id, "persisted-id");
}

#[test]
fn poll_result_turn_does_not_alias_to_older_repeated_prompt() {
    let target = target();
    let mut wait = TurnWaitContext {
        target: &target,
        thread_id: "thread-1",
        turn_id: "returned-id".to_string(),
        prompt: Some("repeat prompt"),
        started_after_epoch: Some(1_700_000_000),
        poll_limit: 50,
    };
    let result = json(
        r#"{
            "data": [
                {
                    "id": "newest-other-turn",
                    "status": "completed",
                    "startedAt": 1700000010,
                    "items": [
                        {
                            "id": "item-user-new",
                            "type": "userMessage",
                            "content": [{"type": "text", "text": "different prompt"}]
                        }
                    ]
                },
                {
                    "id": "older-repeated-turn",
                    "status": "completed",
                    "startedAt": 1699999000,
                    "items": [
                        {
                            "id": "item-user-old",
                            "type": "userMessage",
                            "content": [{"type": "text", "text": "repeat prompt"}]
                        }
                    ]
                }
            ]
        }"#,
    );

    assert!(poll_result_turn(&mut wait, &result).is_none());
    assert_eq!(wait.turn_id, "returned-id");
}
