use vstd::prelude::*;

use crate::json::{lemma_get_with, JsonView};
use crate::rpc::NotificationView;
use crate::turns::assistant::ItemIdsView;
use crate::turns::buffers::ProgressView;
use crate::turns::events::{event_outcome, reported_status, status_event};
use crate::turns::poll::{
    poll_event, poll_outcome, polled_state, polled_turn, processed_first, pushed_updates, wait_after_poll,
    PollView,
};
use crate::turns::registry::{responses_json, synced_turn, RegistryView};
use crate::turns::replay::notification_views;
use crate::turns::wait::{is_last_error, processed, terminal_view, TerminalView, WaitView};
use crate::turns::waiter::{starting_wait, stepped, ActionView, WaitInput, WaiterView};

verus! {

/// Whether one progress is another with more events behind.
spec fn grows(before: ProgressView, after: ProgressView) -> bool {
    &&& after.retain == before.retain
    &&& before.values.is_prefix_of(after.values)
}

proof fn lemma_grows_twice(a: ProgressView, b: ProgressView, c: ProgressView)
    requires
        grows(a, b),
        grows(b, c),
    ensures
        grows(a, c),
{
    assert(a.values =~= c.values.subrange(0, a.values.len() as int)) by {
        assert(a.values =~= b.values.subrange(0, a.values.len() as int));
        assert(b.values =~= c.values.subrange(0, b.values.len() as int));
    }
}

proof fn lemma_pushed_grows(progress: ProgressView, event: JsonView)
    ensures
        grows(progress, progress.pushed(event)),
        grows(progress, progress),
{
    let n = progress.values.len() as int;
    assert(progress.values =~= progress.pushed(event).values.subrange(0, n));
    assert(progress.values =~= progress.values.subrange(0, n));
}

/// Whether a report lists just these events.
spec fn reports(terminal: TerminalView, events: Seq<JsonView>) -> bool {
    terminal.output.field("progress"@) == JsonView::Array(events)
}

proof fn lemma_reported_progress(
    wait: WaitView,
    status: Seq<char>,
    registry: RegistryView,
    events: Seq<JsonView>,
)
    ensures
        reports(terminal_view(wait, status, registry, events), events),
{
    reveal_strlit("progress");
    reveal_strlit("assistantResponses");
    reveal_strlit("finalAssistantText");
    reveal_strlit("error");
    assert("progress"@.len() == 8 && "error"@.len() == 5);
    let a = JsonView::empty_object().with("server"@, JsonView::Str(wait.server)).with(
        "threadId"@,
        JsonView::Str(wait.thread_id),
    ).with("turnId"@, JsonView::Str(wait.turn_id)).with("status"@, JsonView::Str(status));
    let list = JsonView::Array(events);
    let responses = JsonView::Array(responses_json(registry.items));
    let text = JsonView::Str(registry.final_text());
    let b = a.with("progress"@, list);
    let c = b.with("assistantResponses"@, responses);
    let d = c.with("finalAssistantText"@, text);
    lemma_get_with(a, "progress"@, list, "progress"@);
    lemma_get_with(b, "assistantResponses"@, responses, "progress"@);
    lemma_get_with(c, "finalAssistantText"@, text, "progress"@);
    if exists|i: int| is_last_error(events, i) {
        let i = choose|i: int| is_last_error(events, i);
        lemma_get_with(d, "error"@, events[i].field("error"@), "progress"@);
    }
}

proof fn lemma_processed_grows(
    wait: WaitView,
    notification: NotificationView,
    registry: RegistryView,
    progress: ProgressView,
)
    ensures
        ({
            let after = processed(wait, notification, registry, progress);
            &&& grows(progress, after.progress)
            &&& after.result matches Ok(Some(terminal)) ==> reports(
                terminal,
                after.progress.values,
            )
        }),
{
    let outcome = event_outcome(
        registry,
        wait.server,
        wait.thread_id,
        wait.turn_id,
        notification,
    );
    lemma_pushed_grows(progress, JsonView::Null);
    if let Ok(Some(event)) = outcome.event {
        lemma_pushed_grows(progress, event);
        if let Some(status) = event.field("status"@).as_str() {
            lemma_reported_progress(
                wait,
                status,
                outcome.registry,
                progress.pushed(event).values,
            );
        }
    }
}

proof fn lemma_processed_first_grows(
    wait: WaitView,
    notifications: Seq<NotificationView>,
    n: nat,
    registry: RegistryView,
    progress: ProgressView,
)
    ensures
        ({
            let after = processed_first(wait, notifications, n, registry, progress);
            &&& grows(progress, after.progress)
            &&& after.result matches Ok(Some(terminal)) ==> reports(
                terminal,
                after.progress.values,
            )
        }),
    decreases n,
{
    if n == 0 {
        lemma_pushed_grows(progress, JsonView::Null);
    } else {
        lemma_processed_first_grows(wait, notifications, (n - 1) as nat, registry, progress);
        let before = processed_first(wait, notifications, (n - 1) as nat, registry, progress);
        let last = notifications[n - 1];
        lemma_processed_grows(wait, last, before.registry, before.progress);
        lemma_grows_twice(
            progress,
            before.progress,
            processed(wait, last, before.registry, before.progress).progress,
        );
    }
}

proof fn lemma_updates_grow(
    wait: WaitView,
    progress: ProgressView,
    updates: Seq<(ItemIdsView, Seq<char>)>,
    n: nat,
)
    ensures
        grows(progress, pushed_updates(wait, progress, updates, n).progress),
    decreases n,
{
    if n == 0 {
        lemma_pushed_grows(progress, JsonView::Null);
    } else {
        lemma_updates_grow(wait, progress, updates, (n - 1) as nat);
        let before = pushed_updates(wait, progress, updates, (n - 1) as nat).progress;
        let event = poll_event(wait, updates[n - 1]);
        lemma_pushed_grows(before, event);
        lemma_grows_twice(progress, before, before.pushed(event));
    }
}

/// Whether a poll adds to the progress, and a report that it leads to lists all of it.
spec fn poll_grows(progress: ProgressView, after: PollView) -> bool {
    &&& grows(progress, after.progress)
    &&& after.result matches Ok(Some(terminal)) ==> reports(terminal, after.progress.values)
}

proof fn lemma_polled_state_grows(
    wait: WaitView,
    turn: JsonView,
    registry: RegistryView,
    progress: ProgressView,
)
    ensures
        poll_grows(progress, polled_state(wait, turn, registry, progress)),
{
    let status = reported_status(turn);
    let sync = synced_turn(registry, turn);
    let pushed = pushed_updates(wait, progress, sync.updates, sync.updates.len()).progress;
    let source = Some("poll"@);
    let event = status_event(status, wait.server, wait.thread_id, wait.turn_id, source, turn);
    lemma_updates_grow(wait, progress, sync.updates, sync.updates.len());
    lemma_pushed_grows(progress, event);
    lemma_pushed_grows(pushed, event);
    lemma_grows_twice(progress, pushed, pushed.pushed(event));
    lemma_reported_progress(wait, status, sync.registry, pushed.pushed(event).values);
}

/// Whether an action lets a wait go on.
pub open spec fn goes_on(action: ActionView) -> bool {
    action is Listen || action is Poll || action is Emit
}

/// The events that go with an action.
pub open spec fn events_of(action: ActionView) -> Seq<JsonView> {
    match action {
        ActionView::Emit { events } => events,
        ActionView::Terminal { events, .. } => events,
        _ => Seq::empty(),
    }
}

proof fn lemma_step_grows(waiter: WaiterView, input: WaitInput)
    requires
        waiter.progress.retain,
    ensures
        ({
            let (after, action) = stepped(waiter, input);
            let all = waiter.progress.values + events_of(action);
            &&& after.progress.retain
            &&& goes_on(action) ==> after.progress.values == all
            &&& action matches ActionView::Terminal { terminal, .. } ==> reports(terminal, all)
        }),
{
    let before = waiter.progress.values;
    assert(before + Seq::<JsonView>::empty() =~= before);
    match input {
        WaitInput::Notification { notification, .. } => {
            lemma_processed_grows(waiter.wait, notification@, waiter.registry, waiter.progress);
            let after = processed(
                waiter.wait,
                notification@,
                waiter.registry,
                waiter.progress,
            ).progress.values;
            assert(before + after.skip(before.len() as int) =~= after);
        },
        WaitInput::Polled { notifications, reply, .. } => {
            let list = notification_views(notifications.notifications@);
            let (wait, registry) = (waiter.wait, waiter.registry);
            lemma_processed_first_grows(wait, list, list.len(), registry, waiter.progress);
            let first = processed_first(wait, list, list.len(), registry, waiter.progress);
            let outcome = poll_outcome(
                wait,
                list,
                notifications.overflowed,
                reply,
                registry,
                waiter.progress,
            );
            if let Ok(result) = reply {
                if let Some(turns) = result@.field("data"@).as_array() {
                    if let Some(turn) = polled_turn(wait, turns) {
                        let next = wait_after_poll(wait, turns);
                        lemma_polled_state_grows(next, turn, first.registry, first.progress);
                        lemma_grows_twice(
                            waiter.progress,
                            first.progress,
                            polled_state(next, turn, first.registry, first.progress).progress,
                        );
                    }
                }
            }
            assert(poll_grows(waiter.progress, outcome));
            let after = outcome.progress.values;
            assert(before + after.skip(before.len() as int) =~= after);
        },
        _ => {},
    }
}

/// A wait after some inputs, and all that was emitted on the way.
pub open spec fn waited(waiter: WaiterView, inputs: Seq<WaitInput>) -> (WaiterView, Seq<JsonView>)
    decreases inputs.len(),
{
    if inputs.len() == 0 {
        (waiter, Seq::empty())
    } else {
        let (before, emitted) = waited(waiter, inputs.drop_last());
        let (after, action) = stepped(before, inputs.last());
        (after, emitted + events_of(action))
    }
}

/// Whether a wait goes on through all of some inputs.
pub open spec fn goes_on_through(waiter: WaiterView, inputs: Seq<WaitInput>) -> bool
    decreases inputs.len(),
{
    inputs.len() > 0 ==> {
        let (before, _) = waited(waiter, inputs.drop_last());
        &&& goes_on_through(waiter, inputs.drop_last())
        &&& goes_on(stepped(before, inputs.last()).1)
    }
}

proof fn lemma_waited(waiter: WaiterView, inputs: Seq<WaitInput>)
    requires
        waiter.progress.retain,
        goes_on_through(waiter, inputs),
    ensures
        ({
            let (after, emitted) = waited(waiter, inputs);
            &&& after.progress.retain
            &&& after.progress.values == waiter.progress.values + emitted
        }),
    decreases inputs.len(),
{
    let before = waiter.progress.values;
    if inputs.len() == 0 {
        assert(before + Seq::<JsonView>::empty() =~= before);
    } else {
        lemma_waited(waiter, inputs.drop_last());
        let (mid, emitted) = waited(waiter, inputs.drop_last());
        lemma_step_grows(mid, inputs.last());
        let events = events_of(stepped(mid, inputs.last()).1);
        assert((before + emitted) + events =~= before + (emitted + events));
    }
}

proof fn lemma_starts_with(progress: ProgressView, values: Seq<JsonView>, n: nat)
    requires
        n <= values.len(),
    ensures
        progress.pushed_all(values, n) matches Some(after) ==> {
            &&& after.retain == progress.retain
            &&& after.values == progress.values + values.take(n as int)
        },
    decreases n,
{
    if n == 0 {
        assert(progress.values + values.take(0) =~= progress.values);
    } else {
        lemma_starts_with(progress, values, (n - 1) as nat);
        assert(progress.values + values.take(n as int) =~= (progress.values + values.take(
            n - 1,
        )).push(values[n - 1]));
    }
}

/// Over a whole wait that keeps its progress, the report lists the events that the wait began
/// with, followed by all that was emitted: before the silence was counted, after that, and at
/// the end.
pub proof fn law_report_lists_all_that_was_emitted(
    wait: WaitView,
    initial: Seq<JsonView>,
    seed: RegistryView,
    begun: u64,
    early: Seq<WaitInput>,
    listening: u64,
    later: Seq<WaitInput>,
    last: WaitInput,
)
    requires
        starting_wait(wait, initial, seed, true, begun) is Some,
        ({
            let start = starting_wait(wait, initial, seed, true, begun)->0;
            let (mid, _) = waited(start, early);
            &&& goes_on_through(start, early)
            &&& goes_on_through(WaiterView { last_evidence: listening, ..mid }, later)
        }),
    ensures
        ({
            let start = starting_wait(wait, initial, seed, true, begun)->0;
            let (mid, first) = waited(start, early);
            let (after, second) = waited(WaiterView { last_evidence: listening, ..mid }, later);
            stepped(after, last).1 matches ActionView::Terminal { events, terminal }
                ==> terminal.output.field("progress"@) == JsonView::Array(
                initial + first + second + events,
            )
        }),
{
    let start = starting_wait(wait, initial, seed, true, begun)->0;
    let none = ProgressView { values: Seq::empty(), retained_bytes: 0, retain: true };
    lemma_starts_with(none, initial, initial.len());
    assert(initial.take(initial.len() as int) =~= initial);
    assert(none.values + initial =~= initial);
    lemma_waited(start, early);
    let (mid, first) = waited(start, early);
    let listener = WaiterView { last_evidence: listening, ..mid };
    lemma_waited(listener, later);
    let (after, second) = waited(listener, later);
    lemma_step_grows(after, last);
}

} // verus!
