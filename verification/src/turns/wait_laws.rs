use vstd::prelude::*;

use crate::json::{lemma_get_with, JsonView};
use crate::rpc::NotificationView;
use crate::turns::attach::{
    announced, attach_seeded, first_progress, Announced, AttachEndView, AttachTarget,
};
use crate::turns::buffers::ProgressView;
use crate::turns::events::{
    concerns_status, event_head, event_outcome, is_terminal_status, reported_status, status_event,
    status_fault,
};
use crate::turns::poll::{
    polled_state, polled_turn, processed_first, pushed_updates, wait_after_poll,
};
use crate::turns::registry::{responses_json, synced_turn, RegistryView};
use crate::turns::replay::{concerns, notification_views};
use crate::turns::wait::{
    is_evidence, is_last_error, processed, terminal_view, ProcessView, TerminalView, WaitView,
};
use crate::turns::waiter::{stepped, ActionView, WaitInput, WaiterView};

verus! {

/// The report of a turn says which status it ended with.
proof fn lemma_reported_status(
    wait: WaitView,
    status: Seq<char>,
    registry: RegistryView,
    events: Seq<JsonView>,
)
    ensures
        terminal_view(wait, status, registry, events).output.field("status"@) == JsonView::Str(
            status,
        ),
{
    reveal_strlit("status");
    reveal_strlit("progress");
    reveal_strlit("assistantResponses");
    reveal_strlit("finalAssistantText");
    reveal_strlit("error");
    let head = JsonView::empty_object().with("server"@, JsonView::Str(wait.server)).with(
        "threadId"@,
        JsonView::Str(wait.thread_id),
    ).with("turnId"@, JsonView::Str(wait.turn_id));
    let a = head.with("status"@, JsonView::Str(status));
    let b = a.with("progress"@, JsonView::Array(events));
    let c = b.with("assistantResponses"@, JsonView::Array(responses_json(registry.items)));
    let d = c.with("finalAssistantText"@, JsonView::Str(registry.final_text()));
    assert("status"@.len() == 6);
    assert("error"@.len() == 5);
    lemma_get_with(head, "status"@, JsonView::Str(status), "status"@);
    lemma_get_with(a, "progress"@, JsonView::Array(events), "status"@);
    lemma_get_with(
        b,
        "assistantResponses"@,
        JsonView::Array(responses_json(registry.items)),
        "status"@,
    );
    lemma_get_with(
        c,
        "finalAssistantText"@,
        JsonView::Str(registry.final_text()),
        "status"@,
    );
    if exists|i: int| is_last_error(events, i) {
        let i = choose|i: int| is_last_error(events, i);
        lemma_get_with(d, "error"@, events[i].field("error"@), "status"@);
    }
}

/// A report's exit code is zero just where the turn was completed.
pub proof fn law_exit_code_tells_completion(
    wait: WaitView,
    status: Seq<char>,
    registry: RegistryView,
    events: Seq<JsonView>,
)
    ensures
        ({
            let terminal = terminal_view(wait, status, registry, events);
            terminal.exit_code == 0 <==> terminal.output.field("status"@).is_text("completed"@)
        }),
{
    lemma_reported_status(wait, status, registry, events);
}

/// Whether a report is of a turn that has ended.
pub open spec fn reports_an_end(terminal: TerminalView) -> bool {
    terminal.output.field("status"@).as_str() matches Some(status) && is_terminal_status(status)
}

proof fn lemma_processed_end(
    wait: WaitView,
    notification: NotificationView,
    registry: RegistryView,
    progress: ProgressView,
)
    ensures
        processed(wait, notification, registry, progress).result matches Ok(Some(terminal))
            ==> reports_an_end(terminal),
{
    let after = processed(wait, notification, registry, progress);
    let outcome = event_outcome(
        registry,
        wait.server,
        wait.thread_id,
        wait.turn_id,
        notification,
    );
    if let Ok(Some(event)) = outcome.event {
        if let Some(status) = event.field("status"@).as_str() {
            lemma_reported_status(
                wait,
                status,
                outcome.registry,
                progress.pushed(event).values,
            );
        }
    }
}

proof fn lemma_processed_first_end(
    wait: WaitView,
    notifications: Seq<NotificationView>,
    n: nat,
    registry: RegistryView,
    progress: ProgressView,
)
    ensures
        processed_first(wait, notifications, n, registry, progress).result matches Ok(
            Some(terminal),
        ) ==> reports_an_end(terminal),
    decreases n,
{
    if n > 0 {
        lemma_processed_first_end(wait, notifications, (n - 1) as nat, registry, progress);
        let before = processed_first(wait, notifications, (n - 1) as nat, registry, progress);
        lemma_processed_end(wait, notifications[n - 1], before.registry, before.progress);
    }
}

proof fn lemma_polled_end(
    wait: WaitView,
    turn: JsonView,
    registry: RegistryView,
    progress: ProgressView,
)
    ensures
        polled_state(wait, turn, registry, progress).result matches Ok(Some(terminal))
            ==> reports_an_end(terminal),
{
    let status = reported_status(turn);
    let sync = synced_turn(registry, turn);
    let pushed = pushed_updates(
        wait,
        progress,
        sync.updates,
        sync.updates.len(),
    );
    let event = status_event(
        status,
        wait.server,
        wait.thread_id,
        wait.turn_id,
        Some("poll"@),
        turn,
    );
    lemma_reported_status(wait, status, sync.registry, pushed.progress.pushed(event).values);
}

/// A wait finishes with a report only of a turn that has ended, however it learned of it.
pub proof fn law_wait_reports_only_ended_turns(waiter: WaiterView, input: WaitInput)
    ensures
        stepped(waiter, input).1 matches ActionView::Terminal { terminal, .. } ==> reports_an_end(
            terminal,
        ),
{
    match input {
        WaitInput::Notification { notification, .. } => {
            lemma_processed_end(waiter.wait, notification@, waiter.registry, waiter.progress);
        },
        WaitInput::Polled { notifications, reply, .. } => {
            let list = notification_views(notifications.notifications@);
            lemma_processed_first_end(
                waiter.wait,
                list,
                list.len(),
                waiter.registry,
                waiter.progress,
            );
            let first = processed_first(
                waiter.wait,
                list,
                list.len(),
                waiter.registry,
                waiter.progress,
            );
            if let Ok(result) = reply {
                if let Some(turns) = result@.field("data"@).as_array() {
                    if let Some(turn) = polled_turn(waiter.wait, turns) {
                        lemma_polled_end(
                            wait_after_poll(waiter.wait, turns),
                            turn,
                            first.registry,
                            first.progress,
                        );
                    }
                }
            }
        },
        _ => {},
    }
}

/// While notifications for the turn are flowing it is not polled: after one that shows the
/// subscription to deliver, no poll is asked for until the quiet time is over.
pub proof fn law_no_poll_while_the_turn_is_heard(
    waiter: WaiterView,
    notification: crate::rpc::Notification,
    heard: u64,
    now: u64,
    quiet: u64,
)
    requires
        is_evidence(waiter.wait, notification@),
        now < heard + quiet,
    ensures
        ({
            let (after, _) = stepped(
                waiter,
                WaitInput::Notification { notification, now: heard },
            );
            stepped(after, WaitInput::Tick { now, quiet }).1 is Listen
        }),
{
}

/// A turn that stays silent for the quiet time is polled.
pub proof fn law_silence_leads_to_a_poll(waiter: WaiterView, now: u64, quiet: u64)
    requires
        now >= waiter.last_evidence + quiet,
    ensures
        stepped(waiter, WaitInput::Tick { now, quiet }).1 is Poll,
{
}

/// Traffic of another turn or thread changes nothing and is reported as nothing.
pub proof fn law_other_traffic_is_ignored(
    wait: WaitView,
    notification: NotificationView,
    registry: RegistryView,
    progress: ProgressView,
)
    requires
        !concerns(notification, wait.thread_id, wait.turn_id),
        !concerns_status(notification, wait.thread_id, wait.turn_id),
    ensures
        processed(wait, notification, registry, progress) == (ProcessView {
            registry,
            progress,
            result: Ok(None),
        }),
{
}

proof fn lemma_reported_error(
    wait: WaitView,
    status: Seq<char>,
    registry: RegistryView,
    events: Seq<JsonView>,
    i: int,
)
    requires
        is_last_error(events, i),
    ensures
        terminal_view(wait, status, registry, events).output.field("error"@) == events[i].field(
            "error"@,
        ),
{
    let k = choose|k: int| is_last_error(events, k);
    assert(k == i) by {
        if k < i {
            assert(events[i].field("error"@) is Null);
        }
        if i < k {
            assert(events[k].field("error"@) is Null);
        }
    }
    let report = JsonView::empty_object().with("server"@, JsonView::Str(wait.server)).with(
        "threadId"@,
        JsonView::Str(wait.thread_id),
    ).with("turnId"@, JsonView::Str(wait.turn_id)).with("status"@, JsonView::Str(status)).with(
        "progress"@,
        JsonView::Array(events),
    ).with("assistantResponses"@, JsonView::Array(responses_json(registry.items))).with(
        "finalAssistantText"@,
        JsonView::Str(registry.final_text()),
    );
    lemma_get_with(report, "error"@, events[i].field("error"@), "error"@);
}

/// The report of a turn that failed keeps the structured error that the server supplied: what
/// the completion notification carries is what the report carries.
pub proof fn law_report_keeps_the_error(
    wait: WaitView,
    notification: NotificationView,
    registry: RegistryView,
    progress: ProgressView,
)
    requires
        notification.method == "turn/completed"@,
        concerns_status(notification, wait.thread_id, wait.turn_id),
        !(notification.params.field("turn"@).field("error"@) is Null),
    ensures
        processed(wait, notification, registry, progress).result matches Ok(Some(terminal))
            ==> terminal.output.field("error"@) == notification.params.field("turn"@).field(
            "error"@,
        ),
{
    reveal_strlit("turn/completed");
    reveal_strlit("item/started");
    reveal_strlit("item/completed");
    reveal_strlit("item/agentMessage/delta");
    assert("turn/completed"@ != "item/started"@) by {
        assert("turn/completed"@.len() != "item/started"@.len());
    }
    assert("turn/completed"@ != "item/agentMessage/delta"@) by {
        assert("turn/completed"@.len() != "item/agentMessage/delta"@.len());
    }
    assert("turn/completed"@ != "item/completed"@) by {
        assert("turn/completed"@[0] != "item/completed"@[0]);
    }
    let turn = notification.params.field("turn"@);
    let status = reported_status(turn);
    let event = status_event(status, wait.server, wait.thread_id, wait.turn_id, None, turn);
    let bare = event_head(status, wait.server, wait.thread_id, wait.turn_id).with(
        "status"@,
        JsonView::Str(status),
    );
    lemma_get_with(bare, "error"@, turn.field("error"@), "error"@);
    assert(event.field("error"@) == turn.field("error"@));
    let values = progress.pushed(event).values;
    assert(is_last_error(values, values.len() - 1));
    let outcome = event_outcome(
        registry,
        wait.server,
        wait.thread_id,
        wait.turn_id,
        notification,
    );
    if status_fault(turn) is None {
        assert(outcome.event == Ok::<Option<JsonView>, Seq<char>>(Some(event)));
        if let Some(shown) = event.field("status"@).as_str() {
            lemma_reported_error(
                wait,
                shown,
                outcome.registry,
                values,
                values.len() - 1,
            );
        }
    }
}

/// So does the report of a turn that a poll found to have failed.
pub proof fn law_polled_report_keeps_the_error(
    wait: WaitView,
    turn: JsonView,
    registry: RegistryView,
    progress: ProgressView,
)
    requires
        !(turn.field("error"@) is Null),
    ensures
        polled_state(wait, turn, registry, progress).result matches Ok(Some(terminal))
            ==> terminal.output.field("error"@) == turn.field("error"@),
{
    let status = reported_status(turn);
    let sync = synced_turn(registry, turn);
    let pushed = pushed_updates(wait, progress, sync.updates, sync.updates.len());
    let source = Some("poll"@);
    let event = status_event(status, wait.server, wait.thread_id, wait.turn_id, source, turn);
    let bare = event_head(status, wait.server, wait.thread_id, wait.turn_id).with(
        "status"@,
        JsonView::Str(status),
    ).with("source"@, JsonView::Str("poll"@));
    lemma_get_with(bare, "error"@, turn.field("error"@), "error"@);
    let values = pushed.progress.pushed(event).values;
    assert(is_last_error(values, values.len() - 1));
    lemma_reported_error(wait, status, sync.registry, values, values.len() - 1);
}

proof fn lemma_announced(
    target: AttachTarget,
    before: Announced,
    responses: Seq<JsonView>,
    n: nat,
)
    requires
        n <= responses.len(),
        !announced(target, before, responses, n).failed,
    ensures
        announced(target, before, responses, n).emit == before.emit + responses.take(
            n as int,
        ).map_values(|response: JsonView| target.snapshot_event(response)),
    decreases n,
{
    let event = |response: JsonView| target.snapshot_event(response);
    if n == 0 {
        assert(before.emit + responses.take(0).map_values(event) =~= before.emit);
    } else {
        lemma_announced(target, before, responses, (n - 1) as nat);
        assert(responses.take(n as int).map_values(event) =~= responses.take(n - 1).map_values(
            event,
        ).push(target.snapshot_event(responses[n - 1])));
        let state = announced(target, before, responses, (n - 1) as nat);
        assert(announced(target, before, responses, n).emit =~= before.emit + responses.take(
            n as int,
        ).map_values(event));
    }
}

/// What an attach that goes well emits begins with the record that it attached, goes on with
/// each text that the snapshot holds, once and in order, and ends there, or with the end of a
/// turn that has ended already.
pub proof fn law_attach_replays_the_snapshot_once(
    target: AttachTarget,
    seed: RegistryView,
    turn: Option<JsonView>,
    reconciled: Seq<NotificationView>,
)
    ensures
        ({
            let attach = attach_seeded(target, seed, turn, reconciled);
            let replayed = seq![target.attached()] + responses_json(seed.items).map_values(
                |response: JsonView| target.snapshot_event(response),
            );
            &&& attach.end matches Ok(AttachEndView::Waiting(_)) ==> attach.emit == replayed
            &&& attach.end matches Ok(AttachEndView::Terminal(_)) ==> {
                &&& attach.emit.len() == replayed.len() + 1
                &&& attach.emit.drop_last() == replayed
            }
        }),
{
    let responses = responses_json(seed.items);
    if let Some(progress) = first_progress(target) {
        let before = Announced { emit: seq![target.attached()], progress, failed: false };
        if !announced(target, before, responses, responses.len()).failed {
            lemma_announced(target, before, responses, responses.len());
            assert(responses.take(responses.len() as int) =~= responses);
            let state = announced(target, before, responses, responses.len());
            assert forall|event: JsonView| #[trigger] state.emit.push(event).drop_last()
                == state.emit by {
                assert(state.emit.push(event).drop_last() =~= state.emit);
            }
        }
    }
}

} // verus!
