use vstd::prelude::*;
use vstd::utf8::*;

use crate::json::{compact, lemma_get_with, JsonView};
use crate::protocol_words::lemma_words;
use crate::rpc::NotificationView;
use crate::text::text_view;
use crate::turns::buffers::{total_bytes, EarlyNotificationBuffer, ProgressView};
use crate::turns::poll::is_first_with_id;
use crate::turns::report_laws::first_of_id;
use crate::turns::requests::{
    accepted_view, start_params_view, started_view, steer_params_view, steered_view,
    TurnStartOptions,
};
use crate::turns::search::{page_outcome, page_params, SearchView};
use crate::turns::waiter::quiet_secs;
use crate::words::{parsed_u64, trimmed};

verus! {

/// Whether an input is just this text.
pub open spec fn is_text_input(input: JsonView, text: Seq<char>) -> bool {
    &&& input is Array
    &&& input.items().len() == 1
    &&& input.items()[0].field("type"@) == JsonView::Str("text"@)
    &&& input.items()[0].field("text"@) == JsonView::Str(text)
    &&& input.items()[0].field("textElements"@) == JsonView::Array(Seq::empty())
}

/// Whether a value is under a key just where there is one, and is that text.
pub open spec fn has_just(params: JsonView, key: Seq<char>, value: Option<Seq<char>>) -> bool {
    match value {
        Some(text) => params.field(key) == JsonView::Str(text),
        None => params.get(key) is None,
    }
}

/// A request to start a turn names the thread, carries the prompt, and has each setting that was
/// asked for, and no other; it leaves everything to the agent just where that was asked for.
pub proof fn law_start_request_carries_what_was_asked(
    thread_id: Seq<char>,
    prompt: Seq<char>,
    options: TurnStartOptions,
)
    ensures
        ({
            let params = start_params_view(thread_id, prompt, options);
            &&& params.field("threadId"@) == JsonView::Str(thread_id)
            &&& is_text_input(params.field("input"@), prompt)
            &&& has_just(params, "model"@, text_view(options.model))
            &&& has_just(params, "effort"@, text_view(options.effort))
            &&& has_just(params, "serviceTier"@, text_view(options.service_tier))
            &&& options.yolo ==> {
                &&& params.field("approvalPolicy"@) == JsonView::Str("never"@)
                &&& params.field("sandboxPolicy"@).field("type"@) == JsonView::Str(
                    "dangerFullAccess"@,
                )
            }
            &&& !options.yolo ==> {
                &&& params.get("approvalPolicy"@) is None
                &&& params.get("sandboxPolicy"@) is None
            }
        }),
{
    broadcast use lemma_get_with;

    lemma_words();
    assert(forall|key: Seq<char>| (#[trigger] JsonView::empty_object().get(key)) is None);
}

/// A request to steer a turn names the thread and the turn that it expects, and carries the
/// prompt.
pub proof fn law_steer_request_names_the_turn(
    thread_id: Seq<char>,
    turn_id: Seq<char>,
    prompt: Seq<char>,
)
    ensures
        ({
            let params = steer_params_view(thread_id, turn_id, prompt);
            &&& params.field("threadId"@) == JsonView::Str(thread_id)
            &&& params.field("expectedTurnId"@) == JsonView::Str(turn_id)
            &&& is_text_input(params.field("input"@), prompt)
        }),
{
    broadcast use lemma_get_with;

    lemma_words();
}

/// Steering is accepted just where the answer names the turn that was to be steered, which has
/// an id that is not empty; and the report says so.
pub proof fn law_steering_is_accepted_for_the_turn(
    server: Seq<char>,
    thread_id: Seq<char>,
    turn_id: Seq<char>,
    result: JsonView,
)
    ensures
        steered_view(server, thread_id, turn_id, result) is Ok <==> result.field("turnId"@)
            == JsonView::Str(turn_id) && turn_id.len() > 0,
        steered_view(server, thread_id, turn_id, result) matches Ok(report) ==> {
            &&& report.field("server"@) == JsonView::Str(server)
            &&& report.field("threadId"@) == JsonView::Str(thread_id)
            &&& report.field("turnId"@) == JsonView::Str(turn_id)
            &&& report.field("status"@) == JsonView::Str("accepted"@)
        },
        ({
            let report = accepted_view(server, thread_id, turn_id);
            &&& report.field("server"@) == JsonView::Str(server)
            &&& report.field("threadId"@) == JsonView::Str(thread_id)
            &&& report.field("turnId"@) == JsonView::Str(turn_id)
            &&& report.field("status"@) == JsonView::Str("accepted"@)
        }),
{
    broadcast use lemma_get_with;

    lemma_words();
}

/// A turn counts as started just where the answer has its id and no notification was lost. What
/// is then waited for is that turn, with the prompt that was sent, from the second before it was
/// sent on, and with all the notifications that came before the answer.
pub proof fn law_started_turn_is_the_answered_one(
    server: Seq<char>,
    thread_id: Seq<char>,
    prompt: Seq<char>,
    now: i64,
    result: JsonView,
    notifications: Seq<NotificationView>,
    overflowed: bool,
)
    ensures
        ({
            let id = result.field("turn"@).field("id"@);
            let view = started_view(
                server,
                thread_id,
                prompt,
                now,
                result,
                notifications,
                overflowed,
            );
            &&& view is Ok <==> id is Str && !overflowed
            &&& view matches Ok(started) ==> {
                let record = started.acceptance;
                &&& started.thread_id == thread_id
                &&& started.turn_id == id.text()
                &&& started.prompt == Some(prompt)
                &&& started.started_after_epoch == Some(
                    if now > i64::MIN {
                        (now - 1) as i64
                    } else {
                        now
                    },
                )
                &&& started.early_notifications == notifications
                &&& started.seed.items.len() == 0
                &&& started.initial_events.len() == 1
                &&& started.initial_events[0] == record
                &&& record.field("type"@) == JsonView::Str("accepted"@)
                &&& record.field("status"@) == JsonView::Str("accepted"@)
                &&& record.field("server"@) == JsonView::Str(server)
                &&& record.field("threadId"@) == JsonView::Str(thread_id)
                &&& record.field("turnId"@) == id
            }
        }),
{
    broadcast use lemma_get_with;

    lemma_words();
}

/// A page request asks for the newest turns of the thread in full, for no more than may still be
/// looked at and no more than a page has, from the cursor on where there is one.
pub proof fn law_page_request_asks_for_what_is_left(
    thread_id: Seq<char>,
    limit: int,
    cursor: Option<Seq<char>>,
)
    requires
        i64::MIN <= limit <= i64::MAX,
    ensures
        ({
            let params = page_params(thread_id, limit, cursor);
            &&& params.field("threadId"@) == JsonView::Str(thread_id)
            &&& params.field("limit"@).as_i64() == Some(limit as i64)
            &&& params.field("sortDirection"@) == JsonView::Str("desc"@)
            &&& params.field("itemsView"@) == JsonView::Str("full"@)
            &&& has_just(params, "cursor"@, cursor)
        }),
{
    broadcast use lemma_get_with;

    lemma_words();
    assert(forall|key: Seq<char>| (#[trigger] JsonView::empty_object().get(key)) is None);
}

/// A page gives the first turn with the id that is searched for, among those that may be looked
/// at, wherever it has one. Otherwise it ends the search where there is no next cursor, and
/// leads on where there is a new one and the page had turns; and it is at fault where it has no
/// turns at all to look at but a cursor, where the cursor is the old one, where it is no text,
/// and where the page has no list of turns.
pub proof fn law_page_is_searched(
    turn_id: Seq<char>,
    cursor: Option<Seq<char>>,
    remaining: int,
    result: JsonView,
)
    requires
        remaining > 0,
    ensures
        ({
            let outcome = page_outcome(turn_id, cursor, remaining, result);
            let turns = result.field("data"@).items();
            let next = result.field("nextCursor"@);
            let absent = forall|i: int|
                0 <= i < turns.len() && i < remaining ==> (#[trigger] turns[i]).field("id"@)
                    != JsonView::Str(turn_id);
            &&& !(result.field("data"@) is Array) ==> outcome is Err
            &&& forall|i: int| #[trigger]
                first_of_id(turns, turn_id, i) && i < remaining ==> outcome == Ok::<
                    (int, SearchView),
                    Seq<char>,
                >((0int, SearchView::Found(turns[i])))
            &&& result.field("data"@) is Array && absent ==> {
                &&& next is Null ==> (outcome matches Ok((_, SearchView::Exhausted)))
                &&& next is Str && turns.len() > 0 && cursor != Some(next.text()) ==> (outcome
                    matches Ok((_, SearchView::More)))
                &&& next is Str && (turns.len() == 0 || cursor == Some(next.text())) ==> outcome is
                    Err
                &&& !(next is Null) && !(next is Str) ==> outcome is Err
            }
            &&& outcome matches Ok((_, SearchView::Found(turn))) ==> exists|i: int|
                #[trigger] first_of_id(turns, turn_id, i) && i < remaining && turns[i] == turn
        }),
{
    let turns = result.field("data"@).items();
    let inspected = if turns.len() <= remaining {
        turns.len() as int
    } else {
        remaining
    };
    assert forall|i: int| #[trigger] first_of_id(turns, turn_id, i) implies is_first_with_id(
        turns,
        turn_id,
        i,
    ) by {
        assert forall|j: int| 0 <= j < i implies (#[trigger] turns[j]).field("id"@).as_str()
            != Some(turn_id) by {
            assert(turns[j].field("id"@) != JsonView::Str(turn_id));
        }
    }
    assert forall|i: int| is_first_with_id(turns, turn_id, i) implies #[trigger] first_of_id(
        turns,
        turn_id,
        i,
    ) by {
        assert forall|j: int| 0 <= j < i implies (#[trigger] turns[j]).field("id"@)
            != JsonView::Str(turn_id) by {
            assert(turns[j].field("id"@).as_str() != Some(turn_id));
        }
    }
    assert forall|i: int, k: int|
        #![trigger first_of_id(turns, turn_id, i), first_of_id(turns, turn_id, k)]
        first_of_id(turns, turn_id, i) && first_of_id(turns, turn_id, k) implies i == k by {
        if i < k {
            assert(turns[i].field("id"@) != JsonView::Str(turn_id));
        }
        if k < i {
            assert(turns[k].field("id"@) != JsonView::Str(turn_id));
        }
    }
    if exists|i: int| i < inspected && is_first_with_id(turns, turn_id, i) {
        let i = choose|i: int| i < inspected && is_first_with_id(turns, turn_id, i);
        assert(first_of_id(turns, turn_id, i));
    }
    if forall|i: int|
        0 <= i < turns.len() && i < remaining ==> (#[trigger] turns[i]).field("id"@)
            != JsonView::Str(turn_id) {
        assert forall|i: int| i < inspected implies !is_first_with_id(turns, turn_id, i) by {
            if 0 <= i < turns.len() {
                assert(turns[i].field("id"@) != JsonView::Str(turn_id));
            }
        }
    }
}

/// A notification has room just where fewer than ten thousand are kept and all of them, with it,
/// have at most sixteen mebibytes: each counts for the bytes of its method and of its parameters
/// as JSON.
pub proof fn law_early_notifications_are_limited(
    buffer: EarlyNotificationBuffer,
    notification: NotificationView,
    before: Seq<NotificationView>,
)
    ensures
        buffer.has_room(notification) <==> buffer.notifications@.len() < 10_000 && buffer.bytes
            + encode_utf8(notification.method).len() + encode_utf8(
            compact(notification.params),
        ).len() <= 16 * 1024 * 1024,
        total_bytes(before.push(notification)) == total_bytes(before) + encode_utf8(
            notification.method,
        ).len() + encode_utf8(compact(notification.params)).len(),
        total_bytes(Seq::empty()) == 0,
{
    assert(before.push(notification).drop_last() =~= before);
}

/// Kept progress has room for an event just where it has fewer than ten thousand and, with it,
/// at most sixteen mebibytes of JSON; progress that is not kept always has. An event that has
/// room comes after all the others.
pub proof fn law_progress_is_limited(progress: ProgressView, event: JsonView)
    ensures
        progress.has_room(event) <==> !progress.retain || (progress.values.len() < 10_000
            && progress.retained_bytes + encode_utf8(compact(event)).len() <= 16 * 1024 * 1024),
        progress.pushed(event).values == progress.values.push(event),
        progress.pushed(event).retain == progress.retain,
        progress.retain ==> progress.pushed(event).retained_bytes == progress.retained_bytes
            + encode_utf8(compact(event)).len(),
        progress.released().retain == progress.retain,
        progress.retain ==> progress.released() == progress,
        !progress.retain ==> progress.released().values.len() == 0,
{
}

/// The quiet time is the number that the setting says, held between one second and three
/// hundred, and three seconds where it says none.
pub proof fn law_quiet_time_is_held_within_limits(setting: Option<Seq<char>>)
    ensures
        1 <= quiet_secs(setting) <= 300,
        setting is None ==> quiet_secs(setting) == 3,
        setting matches Some(text) ==> {
            let number = parsed_u64(trimmed(text));
            &&& number is None ==> quiet_secs(setting) == 3
            &&& number is Some && 1 <= number->0 <= 300 ==> quiet_secs(setting) == number->0
            &&& number is Some && number->0 > 300 ==> quiet_secs(setting) == 300
            &&& number == Some(0u64) ==> quiet_secs(setting) == 1
        },
{
}

} // verus!
