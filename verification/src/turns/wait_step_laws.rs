use vstd::prelude::*;
use vstd::utf8::*;

use crate::json::{compact, Json, JsonView};
use crate::protocol_words::lemma_words;
use crate::rpc::{Notification, RequestError};
use crate::turns::buffers::EarlyNotificationBuffer;
use crate::turns::events::event_outcome;
use crate::turns::poll::{
    poll_event, polled_state, polled_turn, processed_first, pushed_updates, wait_after_poll,
    TurnFault,
};
use crate::turns::poll_laws::{
    law_poll_reports_how_the_turn_stands, law_polled_updates_are_recorded_in_order,
};
use crate::turns::progress_laws::events_of;
use crate::turns::registry::synced_turn;
use crate::turns::replay::notification_views;
use crate::turns::report_laws::{is_end, is_going_on, law_status_is_reported};
use crate::turns::waiter::{stepped, ActionView, WaitInput, WaiterView};

verus! {

/// A notification that gives rise to a record has just that record emitted, and one that gives
/// rise to none has nothing emitted; a fault in it fails the wait. It is a sign of life just
/// where it names the watched thread and, in one of two places, the watched turn.
pub proof fn law_each_record_is_emitted_once(
    waiter: WaiterView,
    notification: Notification,
    now: u64,
)
    ensures
        ({
            let (after, action) = stepped(waiter, WaitInput::Notification { notification, now });
            let outcome = event_outcome(
                waiter.registry,
                waiter.wait.server,
                waiter.wait.thread_id,
                waiter.wait.turn_id,
                notification@,
            );
            let params = notification@.params;
            let heard = params.field("threadId"@) == JsonView::Str(waiter.wait.thread_id) && (
            params.field("turnId"@) == JsonView::Str(waiter.wait.turn_id) || params.field(
                "turn"@,
            ).field("id"@) == JsonView::Str(waiter.wait.turn_id));
            &&& after.registry == outcome.registry
            &&& after.wait == waiter.wait
            &&& after.started_turn_id == waiter.started_turn_id
            &&& heard ==> after.last_evidence == now
            &&& !heard ==> after.last_evidence == waiter.last_evidence
            &&& outcome.event matches Err(fault) ==> action == ActionView::Fail {
                fault: TurnFault::AppServer(fault),
            }
            &&& outcome.event == Ok::<Option<JsonView>, Seq<char>>(None) ==> action is Emit
                && events_of(action).len() == 0
            &&& outcome.event matches Ok(Some(record)) ==> {
                &&& !waiter.progress.retain ==> {
                    &&& action is Emit || action is Terminal
                    &&& events_of(action) == seq![record]
                }
                &&& waiter.progress.values.len() < 10_000 && waiter.progress.retained_bytes
                    + encode_utf8(compact(record)).len() <= 16 * 1024 * 1024 ==> action is Emit
                    || action is Terminal
                &&& action is Emit || action is Terminal ==> events_of(action) == seq![record]
            }
            &&& !waiter.progress.retain && action is Emit ==> after.progress.values.len() == 0
        }),
{
    let values = waiter.progress.values;
    assert(values.skip(values.len() as int) =~= Seq::empty());
    assert forall|record: JsonView| (#[trigger] values.push(record)).skip(values.len() as int)
        == seq![record] by {
        assert(values.push(record).skip(values.len() as int) =~= seq![record]);
    }
}

/// A poll that is answered with the watched turn has each of its updates emitted, in order, and
/// the end of the turn after them, where it has ended; a poll that finds no such turn has nothing
/// emitted and ends nothing.
pub proof fn law_polled_updates_are_emitted(
    waiter: WaiterView,
    notifications: EarlyNotificationBuffer,
    result: Json,
    now: u64,
)
    requires
        !waiter.progress.retain,
        notifications.notifications@.len() == 0,
        !notifications.overflowed,
        result@.field("data"@) is Array,
    ensures
        ({
            let input = WaitInput::Polled { notifications, reply: Ok(result), now };
            let (after, action) = stepped(waiter, input);
            let turns = result@.field("data"@).items();
            let next = wait_after_poll(waiter.wait, turns);
            &&& polled_turn(waiter.wait, turns) is None ==> {
                &&& action is Emit
                &&& events_of(action).len() == 0
                &&& after.registry == waiter.registry
                &&& after.last_evidence == now
            }
            &&& polled_turn(waiter.wait, turns) matches Some(turn) ==> {
                let sync = synced_turn(waiter.registry, turn);
                let status = turn.field("status"@);
                let events = events_of(action);
                status is Str && !sync.failed ==> {
                    &&& is_going_on(status.text()) || is_end(status.text()) ==> {
                        &&& after.registry == sync.registry
                        &&& after.wait == next
                        &&& after.last_evidence == now
                        &&& forall|i: int|
                            0 <= i < sync.updates.len() ==> (#[trigger] events[i]) == poll_event(
                                next,
                                sync.updates[i],
                            )
                    }
                    &&& is_going_on(status.text()) ==> action is Emit && events.len()
                        == sync.updates.len()
                    &&& is_end(status.text()) ==> {
                        &&& action matches ActionView::Terminal { terminal, .. }
                            && terminal.output.field("status"@) == status
                        &&& events.len() == sync.updates.len() + 1
                        &&& events.last().field("type"@) == status
                    }
                }
            }
        }),
{
    let list = notification_views(notifications.notifications@);
    assert(list.len() == 0);
    let values = waiter.progress.values;
    assert(values.skip(values.len() as int) =~= Seq::empty());
    let turns = result@.field("data"@).items();
    let first = processed_first(waiter.wait, list, 0, waiter.registry, waiter.progress);
    if let Some(turn) = polled_turn(waiter.wait, turns) {
        let next = wait_after_poll(waiter.wait, turns);
        let sync = synced_turn(waiter.registry, turn);
        law_polled_updates_are_recorded_in_order(
            next,
            waiter.progress,
            sync.updates,
            sync.updates.len(),
        );
        law_poll_reports_how_the_turn_stands(next, turn, waiter.registry, waiter.progress);
        let pushed = pushed_updates(
            next,
            waiter.progress,
            sync.updates,
            sync.updates.len(),
        ).progress;
        let (after, action) = stepped(
            waiter,
            WaitInput::Polled { notifications, reply: Ok(result), now },
        );
        let events = events_of(action);
        lemma_words();
        law_status_is_reported(turn, turn.field("status"@).text());
        let state = polled_state(next, turn, waiter.registry, waiter.progress);
        let all = state.progress.values;
        assert(all.len() > values.len() ==> all.skip(values.len() as int).last() == all.last());
        if turn.field("status"@) is Str && !sync.failed && (is_going_on(
            turn.field("status"@).text(),
        ) || is_end(turn.field("status"@).text())) {
            assert forall|i: int| 0 <= i < sync.updates.len() implies (#[trigger] events[i])
                == poll_event(next, sync.updates[i]) by {
                assert(pushed.values[values.len() + i] == poll_event(next, sync.updates[i]));
            }
        }
    }
}

/// A poll that fails does so with what went wrong, and has nothing emitted; the silence goes on.
pub proof fn law_failed_poll_fails_the_wait(
    waiter: WaiterView,
    notifications: EarlyNotificationBuffer,
    reply: Result<Json, RequestError>,
    now: u64,
)
    ensures
        ({
            let input = WaitInput::Polled { notifications, reply, now };
            let (after, action) = stepped(waiter, input);
            let silent = notifications.notifications@.len() == 0;
            &&& silent && notifications.overflowed ==> action is Fail
            &&& silent && !notifications.overflowed && (reply matches Ok(result) && !(result@.field(
                "data"@,
            ) is Array)) ==> action is Fail
            &&& action is Fail ==> after.last_evidence == waiter.last_evidence
            &&& action is Emit ==> after.last_evidence == now
        }),
{
    let list = notification_views(notifications.notifications@);
    if notifications.notifications@.len() == 0 {
        assert(list.len() == 0);
    }
}

/// A wait that is interrupted names the thread and the turn that it is for by now; one that takes
/// too long names the turn that was asked for at first.
pub proof fn law_ended_wait_names_the_turn(waiter: WaiterView)
    ensures
        stepped(waiter, WaitInput::Interrupt).1 == (ActionView::Interrupted {
            thread_id: waiter.wait.thread_id,
            turn_id: waiter.wait.turn_id,
        }),
        stepped(waiter, WaitInput::Timeout).1 matches ActionView::Fail {
            fault: TurnFault::AppServer(message),
        } && waiter.started_turn_id.len() < message.len() && exists|at: int|
            0 <= at && at + waiter.started_turn_id.len() <= message.len() && #[trigger] message.subrange(
                at,
                at + waiter.started_turn_id.len(),
            ) == waiter.started_turn_id,
        stepped(waiter, WaitInput::Interrupt).0 == waiter,
        stepped(waiter, WaitInput::Timeout).0 == waiter,
{
    reveal_strlit("timed out waiting for turn `");
    let before = "timed out waiting for turn `"@;
    let id = waiter.started_turn_id;
    let message = before + id + "` to complete"@;
    let at = before.len() as int;
    assert(message.subrange(at, at + id.len()) =~= id);
}

} // verus!
