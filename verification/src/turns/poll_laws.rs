use vstd::prelude::*;

use crate::json::{lemma_get_with, JsonView};
use crate::protocol_words::lemma_words;
use crate::rpc::RequestError;
use crate::text::joined;
use crate::turns::assistant::ItemIdsView;
use crate::turns::buffers::ProgressView;
use crate::turns::event_laws::carries;
use crate::turns::events::{reported_status, status_event};
use crate::turns::poll::{
    answers_prompt, input_texts, is_first_with_id, is_prompt, poll_answered, poll_event,
    poll_params_view, polled_state, polled_turn, pushed_updates, user_text, wait_after_poll,
    TurnFault,
};
use crate::turns::registry::{synced_turn, RegistryView};
use crate::turns::report_laws::{
    first_of_id, is_end, is_going_on, law_report_says_how_the_turn_ended, law_status_is_reported,
};
use crate::turns::wait::{TerminalView, WaitView};
use crate::words::{contains_text, stands_at};

verus! {

/// A record of polled content says that it is progress, what was written, in which item, and
/// that it comes from a poll.
pub proof fn law_polled_record_says_what_was_written(
    wait: WaitView,
    ids: ItemIdsView,
    text: Seq<char>,
)
    ensures
        ({
            let record = poll_event(wait, (ids, text));
            &&& record.field("type"@) == JsonView::Str("progress"@)
            &&& record.field("text"@) == JsonView::Str(text)
            &&& record.field("source"@) == JsonView::Str("poll"@)
            &&& record.get("status"@) is None
            &&& record.get("error"@) is None
            &&& carries(record, ids)
        }),
{
    broadcast use lemma_get_with;

    lemma_words();
    assert(forall|key: Seq<char>| (#[trigger] JsonView::empty_object().get(key)) is None);
}

/// A poll that finds the watched turn ended, and has room for what it found, ends the wait with a
/// report of that turn's status and error; one that finds it going on does not end the wait; and
/// one that finds a status that is none fails.
pub proof fn law_poll_reports_how_the_turn_stands(
    wait: WaitView,
    turn: JsonView,
    registry: RegistryView,
    progress: ProgressView,
)
    ensures
        ({
            let poll = polled_state(wait, turn, registry, progress);
            let status = turn.field("status"@);
            &&& poll.wait == wait
            &&& !(status is Str) ==> poll.result is Err
            &&& status is Str && !is_end(status.text()) && !is_going_on(status.text())
                ==> poll.result is Err
            &&& poll.result matches Ok(Some(terminal)) ==> {
                let last = poll.progress.values.last();
                &&& status is Str && is_end(status.text())
                &&& terminal.output.field("status"@) == status
                &&& terminal.exit_code == 0 <==> status == JsonView::Str("completed"@)
                &&& terminal.output.field("progress"@) == JsonView::Array(poll.progress.values)
                &&& last.field("type"@) == status
                &&& last.field("status"@) == status
                &&& last.field("source"@) == JsonView::Str("poll"@)
                &&& last.field("error"@) == turn.field("error"@)
                &&& !(turn.field("error"@) is Null) ==> terminal.output.field("error"@)
                    == turn.field("error"@)
            }
            &&& poll.result == Ok::<Option<TerminalView>, TurnFault>(None)
                ==> status is Str && is_going_on(status.text())
            &&& poll.result is Ok ==> poll.registry == synced_turn(registry, turn).registry
        }),
{
    broadcast use lemma_get_with;

    lemma_words();
    assert(forall|key: Seq<char>| (#[trigger] JsonView::empty_object().get(key)) is None);
    let status = reported_status(turn);
    law_status_is_reported(turn, turn.field("status"@).text());
    let sync = synced_turn(registry, turn);
    let pushed = pushed_updates(wait, progress, sync.updates, sync.updates.len());
    let source = Some("poll"@);
    let event = status_event(status, wait.server, wait.thread_id, wait.turn_id, source, turn);
    let values = pushed.progress.pushed(event).values;
    law_report_says_how_the_turn_ended(wait, status, sync.registry, values);
    assert(values.last() == event);
    assert(values[values.len() - 1] == event);
    assert(event.field("error"@) == turn.field("error"@));
}

/// Where nothing limits the progress, each update of a poll is recorded, in order.
pub proof fn law_polled_updates_are_recorded_in_order(
    wait: WaitView,
    progress: ProgressView,
    updates: Seq<(ItemIdsView, Seq<char>)>,
    n: nat,
)
    requires
        n <= updates.len(),
        !progress.retain,
    ensures
        ({
            let pushed = pushed_updates(wait, progress, updates, n);
            &&& !pushed.failed
            &&& !pushed.progress.retain
            &&& pushed.progress.values.len() == progress.values.len() + n
            &&& forall|i: int|
                0 <= i < progress.values.len() ==> #[trigger] pushed.progress.values[i]
                    == progress.values[i]
            &&& forall|i: int|
                0 <= i < n ==> (#[trigger] pushed.progress.values[progress.values.len() + i])
                    == poll_event(wait, updates[i])
        }),
    decreases n,
{
    if n > 0 {
        law_polled_updates_are_recorded_in_order(wait, progress, updates, (n - 1) as nat);
    }
}

/// A user message is the texts among its inputs, in order, one to a line; an input without a
/// text leaves no line.
pub proof fn law_user_text_grows_by_lines(inputs: Seq<JsonView>, input: JsonView)
    ensures
        ({
            let before = input_texts(inputs);
            let after = input_texts(inputs.push(input));
            &&& inputs.len() == 0 ==> before.len() == 0
            &&& !(input.field("text"@) is Str) ==> after == before
            &&& input.field("text"@) is Str ==> {
                &&& after.len() == before.len() + 1
                &&& after.drop_last() == before
                &&& after.last() == input.field("text"@).text()
            }
        }),
        forall|item: JsonView|
            item.field("content"@) == JsonView::Array(inputs) ==> (#[trigger] user_text(
                item,
            ) matches Some(text) && {
                &&& input_texts(inputs).len() == 0 ==> text == Seq::<char>::empty()
                &&& input_texts(inputs).len() == 1 ==> text == input_texts(inputs)[0]
                &&& input_texts(inputs).len() == 2 ==> text == input_texts(inputs)[0] + seq!['\n']
                    + input_texts(inputs)[1]
            }),
        forall|item: JsonView|
            !(item.field("content"@) is Array) ==> (#[trigger] user_text(item)) is None,
{
    assert(inputs.push(input).drop_last() =~= inputs);
    let before = input_texts(inputs);
    if let Some(text) = input.field("text"@).as_str() {
        assert(before.push(text).drop_last() =~= before);
    }
    reveal_strlit("\n");
    assert("\n"@ =~= seq!['\n']);
    if before.len() == 2 {
        assert(before.drop_last().len() == 1);
        assert(joined(before.drop_last(), "\n"@) == before[0]);
    }
}

/// Whether a turn answers a prompt: it has a user message with that very text.
pub open spec fn is_answer(turn: JsonView, prompt: Seq<char>) -> bool {
    exists|i: int|
        0 <= i < turn.field("items"@).items().len() && {
            let item = #[trigger] turn.field("items"@).items()[i];
            &&& item.field("type"@) == JsonView::Str("userMessage"@)
            &&& user_text(item) == Some(prompt)
        }
}

/// Whether a turn is known to have started no earlier than this, or, where its start is not
/// known, to have ended no earlier.
pub open spec fn is_late_enough(turn: JsonView, since: i64) -> bool {
    let started = turn.field("startedAt"@).as_i64();
    let ended = turn.field("completedAt"@).as_i64();
    ||| started is Some && started->0 >= since
    ||| started is None && ended is Some && ended->0 >= since
}

/// The polled turn is the first with the watched id, which then stays the watched one. Without
/// one it is the newest turn, where that answers the prompt and is late enough, and its id is
/// watched from then on; otherwise there is none, and nothing changes.
pub proof fn law_polled_turn_is_the_watched_one(wait: WaitView, turns: Seq<JsonView>)
    ensures
        forall|i: int| #[trigger]
            first_of_id(turns, wait.turn_id, i) ==> {
                &&& polled_turn(wait, turns) == Some(turns[i])
                &&& wait_after_poll(wait, turns) == wait
            },
        (forall|i: int|
            0 <= i < turns.len() ==> (#[trigger] turns[i]).field("id"@) != JsonView::Str(
                wait.turn_id,
            )) ==> {
            let taken = turns.len() > 0 && wait.prompt is Some && wait.started_after_epoch is Some
                && is_answer(turns[0], wait.prompt->0) && is_late_enough(
                turns[0],
                wait.started_after_epoch->0,
            );
            let after = wait_after_poll(wait, turns);
            &&& taken ==> polled_turn(wait, turns) == Some(turns[0])
            &&& taken && turns[0].field("id"@) is Str ==> after.turn_id == turns[0].field(
                "id"@,
            ).text()
            &&& taken && !(turns[0].field("id"@) is Str) ==> after.turn_id == wait.turn_id
            &&& !taken ==> polled_turn(wait, turns) is None && after == wait
            &&& after.thread_id == wait.thread_id
            &&& after.server == wait.server
            &&& after.prompt == wait.prompt
        },
{
    assert forall|i: int| #[trigger] first_of_id(turns, wait.turn_id, i) implies {
        &&& polled_turn(wait, turns) == Some(turns[i])
        &&& wait_after_poll(wait, turns) == wait
    } by {
        assert forall|j: int| 0 <= j < i implies (#[trigger] turns[j]).field("id"@).as_str()
            != Some(wait.turn_id) by {
            assert(turns[j].field("id"@) != JsonView::Str(wait.turn_id));
        }
        assert(is_first_with_id(turns, wait.turn_id, i));
        let k = choose|k: int| is_first_with_id(turns, wait.turn_id, k);
        if k < i {
            assert(turns[k].field("id"@).as_str() != Some(wait.turn_id));
        }
        if i < k {
            assert(turns[i].field("id"@).as_str() != Some(wait.turn_id));
        }
    }
    if forall|i: int|
        0 <= i < turns.len() ==> (#[trigger] turns[i]).field("id"@) != JsonView::Str(wait.turn_id) {
        assert forall|i: int| !is_first_with_id(turns, wait.turn_id, i) by {
            if 0 <= i < turns.len() {
                assert(turns[i].field("id"@) != JsonView::Str(wait.turn_id));
            }
        }
        if turns.len() > 0 && wait.prompt is Some {
            let prompt = wait.prompt->0;
            let items = turns[0].field("items"@).items();
            assert(is_answer(turns[0], prompt) <==> answers_prompt(turns[0], prompt)) by {
                if is_answer(turns[0], prompt) {
                    let i = choose|i: int|
                        0 <= i < items.len() && {
                            let item = #[trigger] items[i];
                            &&& item.field("type"@) == JsonView::Str("userMessage"@)
                            &&& user_text(item) == Some(prompt)
                        };
                    assert(is_prompt(items[i], prompt));
                }
                if answers_prompt(turns[0], prompt) {
                    let i = choose|i: int| 0 <= i < items.len() && is_prompt(
                        #[trigger] items[i],
                        prompt,
                    );
                    assert(items[i].field("type"@) == JsonView::Str("userMessage"@));
                }
            }
        }
    }
}

/// A poll that the server refuses only because the thread has no history yet is no failure, and
/// changes nothing; any other refusal is.
pub proof fn law_missing_history_is_no_failure(
    wait: WaitView,
    error: RequestError,
    registry: RegistryView,
    progress: ProgressView,
)
    ensures
        ({
            let poll = poll_answered(wait, Err(error), registry, progress);
            let early = error matches RequestError::Rpc(request) && {
                &&& request.method@ == "thread/turns/list"@
                &&& request.error.code == -32600
                &&& exists|at: int|
                    0 <= at && at + "is not materialized yet"@.len() <= request.error.message@.len()
                        && #[trigger] request.error.message@.subrange(
                        at,
                        at + "is not materialized yet"@.len(),
                    ) == "is not materialized yet"@
            };
            &&& poll.registry == registry
            &&& poll.progress == progress
            &&& poll.wait == wait
            &&& early ==> poll.result == Ok::<
                Option<TerminalView>,
                TurnFault,
            >(None)
            &&& !early ==> poll.result == Err::<
                Option<TerminalView>,
                TurnFault,
            >(TurnFault::Request(error))
        }),
{
    if let RequestError::Rpc(request) = error {
        let message = request.error.message@;
        let part = "is not materialized yet"@;
        if exists|at: int|
            0 <= at && at + part.len() <= message.len() && #[trigger] message.subrange(
                at,
                at + part.len(),
            ) == part {
            let at = choose|at: int|
                0 <= at && at + part.len() <= message.len() && #[trigger] message.subrange(
                    at,
                    at + part.len(),
                ) == part;
            assert(stands_at(message, part, at));
        }
        if contains_text(message, part) {
            let at = choose|at: int| stands_at(message, part, at);
            assert(message.subrange(at, at + part.len()) == part);
        }
    }
}

/// A poll asks for the newest turns of the watched thread, in full.
pub proof fn law_poll_asks_for_the_newest_turns(wait: WaitView)
    ensures
        ({
            let params = poll_params_view(wait);
            &&& params.field("threadId"@) == JsonView::Str(wait.thread_id)
            &&& params.field("limit"@).as_i64() == Some(wait.poll_limit as i64)
            &&& params.field("sortDirection"@) == JsonView::Str("desc"@)
            &&& params.field("itemsView"@) == JsonView::Str("full"@)
            &&& params.get("cursor"@) is None
        }),
{
    broadcast use lemma_get_with;

    lemma_words();
    assert(forall|key: Seq<char>| (#[trigger] JsonView::empty_object().get(key)) is None);
}

} // verus!
