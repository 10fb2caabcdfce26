use vstd::prelude::*;
use vstd::utf8::*;

use crate::config::Target;
use crate::errors::AppServerError;
use crate::json::{lemma_get_with, Json, JsonView};
use crate::protocol_words::lemma_words;
use crate::rpc::NotificationView;
use crate::text::lemma_joined_push;
use crate::turns::assistant::EntryView;
use crate::turns::attach::{
    announced, attach_target, attach_turn, attach_view, first_progress, seed_for_wait,
    snapshot_turn, Announced, AttachEnd, AttachEndView, AttachOutcome, AttachTarget,
};
use crate::turns::buffers::EarlyNotificationBuffer;
use crate::turns::events::{reported_status, status_event, status_fault};
use crate::turns::laws::lemma_one_turn_seeds;
use crate::turns::poll::is_first_with_id;
use crate::turns::registry::{
    kept_texts, response_json, responses_json, synced_turn, RegistryView,
};
use crate::turns::replay::notification_views;
use crate::turns::requests::AttachTurnOptions;
use crate::turns::search::{read_turn_result, turn_result_view};
use crate::turns::snapshot::{seed_of_snapshot, seeded_items};
use crate::turns::sync_laws::{
    all_named, law_turn_read_anew_lists_its_messages, messages, messages_of,
};
use crate::turns::wait::{is_last_error, terminal_view, WaitView};

verus! {

/// Whether a status is one of those that a turn ends with.
pub open spec fn is_end(status: Seq<char>) -> bool {
    status == "completed"@ || status == "failed"@ || status == "interrupted"@
}

/// Whether a status is one of those that a turn has while it runs.
pub open spec fn is_going_on(status: Seq<char>) -> bool {
    status == "inProgress"@ || status == "running"@ || status == "pending"@
}

/// A turn is at fault just where its status is no text, or none that is known. The status of a
/// turn that has ended is reported as it is, and that of any other is "inProgress".
pub proof fn law_status_is_reported(turn: JsonView, status: Seq<char>)
    ensures
        !(turn.field("status"@) is Str) ==> status_fault(turn) is Some,
        turn.field("status"@) == JsonView::Str(status) ==> {
            &&& status_fault(turn) is None <==> is_end(status) || is_going_on(status)
            &&& is_end(status) ==> reported_status(turn) == status
            &&& !is_end(status) ==> reported_status(turn) == "inProgress"@
        },
{
}

/// The final text is made of the texts of the entries, in order, one to a line; an entry without
/// a text leaves no line.
pub proof fn law_final_text_grows_by_lines(registry: RegistryView, entry: EntryView)
    ensures
        ({
            let more = RegistryView { items: registry.items.push(entry), ..registry };
            let nothing_said = forall|i: int|
                0 <= i < registry.items.len() ==> (#[trigger] registry.items[i]).text.len() == 0;
            &&& registry.items.len() == 0 ==> registry.final_text() == Seq::<char>::empty()
            &&& entry.text.len() == 0 ==> more.final_text() == registry.final_text()
            &&& entry.text.len() > 0 && nothing_said ==> more.final_text() == entry.text
            &&& entry.text.len() > 0 && !nothing_said ==> more.final_text()
                == registry.final_text() + seq!['\n'] + entry.text
        }),
{
    let more = registry.items.push(entry);
    assert(more.drop_last() =~= registry.items);
    lemma_joined_push(kept_texts(registry.items), entry.text, "\n"@);
    reveal_strlit("\n");
    assert("\n"@ =~= seq!['\n']);
    lemma_nothing_kept(registry.items);
}

proof fn lemma_nothing_kept(items: Seq<EntryView>)
    ensures
        kept_texts(items).len() == 0 <==> forall|i: int|
            0 <= i < items.len() ==> (#[trigger] items[i]).text.len() == 0,
    decreases items.len(),
{
    if items.len() > 0 {
        let rest = items.drop_last();
        lemma_nothing_kept(rest);
        assert(forall|i: int| 0 <= i < rest.len() ==> rest[i] == #[trigger] items[i]);
        assert(items[items.len() - 1] == items.last());
        if forall|i: int| 0 <= i < items.len() ==> (#[trigger] items[i]).text.len() == 0 {
            assert forall|i: int| 0 <= i < rest.len() implies (#[trigger] rest[i]).text.len()
                == 0 by {
                assert(items[i].text.len() == 0);
            }
        }
    }
}

/// The responses are listed in order: each entry with a text gives one more, with its text and
/// its canonical id, where it has one; an entry without a text gives none.
pub proof fn law_responses_grow_by_entries(items: Seq<EntryView>, entry: EntryView)
    ensures
        ({
            let before = responses_json(items);
            let after = responses_json(items.push(entry));
            &&& items.len() == 0 ==> before.len() == 0
            &&& entry.text.len() == 0 ==> after == before
            &&& entry.text.len() > 0 ==> {
                &&& after.len() == before.len() + 1
                &&& after.drop_last() == before
                &&& after.last().field("text"@) == JsonView::Str(entry.text)
                &&& entry.item_id matches Some(id) ==> after.last().field("itemId"@)
                    == JsonView::Str(id)
                &&& entry.item_id is None ==> after.last().get("itemId"@) is None
            }
        }),
{
    broadcast use lemma_get_with;

    lemma_words();
    assert(items.push(entry).drop_last() =~= items);
    assert(responses_json(items).push(response_json(entry)).drop_last() =~= responses_json(items));
    let none = JsonView::empty_object();
    assert(none.get("itemId"@) is None);
}

/// What the report of a turn's end says: which server, thread and turn it is about, how the turn
/// ended, the events, the responses, the whole text, and the last error among the events, if
/// any; and its exit code is zero just where the turn was completed.
pub proof fn law_report_says_how_the_turn_ended(
    wait: WaitView,
    status: Seq<char>,
    registry: RegistryView,
    events: Seq<JsonView>,
)
    ensures
        ({
            let terminal = terminal_view(wait, status, registry, events);
            let report = terminal.output;
            &&& terminal.exit_code == 0 <==> status == "completed"@
            &&& terminal.exit_code == 0 || terminal.exit_code == 1
            &&& report.field("server"@) == JsonView::Str(wait.server)
            &&& report.field("threadId"@) == JsonView::Str(wait.thread_id)
            &&& report.field("turnId"@) == JsonView::Str(wait.turn_id)
            &&& report.field("status"@) == JsonView::Str(status)
            &&& report.field("progress"@) == JsonView::Array(events)
            &&& report.field("assistantResponses"@) == JsonView::Array(
                responses_json(registry.items),
            )
            &&& report.field("finalAssistantText"@) == JsonView::Str(registry.final_text())
            &&& (forall|i: int|
                0 <= i < events.len() ==> (#[trigger] events[i]).field("error"@) is Null)
                ==> report.get("error"@) is None
        }),
        forall|i: int|
            0 <= i < events.len() && !((#[trigger] events[i]).field("error"@) is Null) && (forall|
                j: int,
            |
                i < j < events.len() ==> (#[trigger] events[j]).field("error"@) is Null)
                ==> terminal_view(wait, status, registry, events).output.field("error"@)
                == events[i].field("error"@),
{
    broadcast use lemma_get_with;

    lemma_words();
    let none = JsonView::empty_object();
    assert(none.get("error"@) is None);
    assert forall|i: int|
        0 <= i < events.len() && !((#[trigger] events[i]).field("error"@) is Null) && (forall|
            j: int,
        |
            i < j < events.len() ==> (#[trigger] events[j]).field("error"@) is Null) implies
        terminal_view(wait, status, registry, events).output.field("error"@) == events[i].field(
        "error"@,
    ) by {
        assert(is_last_error(events, i));
        let k = choose|k: int| is_last_error(events, k);
        if k < i {
            assert(events[i].field("error"@) is Null);
        }
        if i < k {
            assert(events[k].field("error"@) is Null);
        }
    }
}

/// What the result of a persisted turn says: which server, thread and turn it is about, the
/// turn itself, and its status, which is that of the turn where it has ended, and "inProgress"
/// where it goes on.
pub proof fn law_result_says_how_the_turn_stands(
    server: Seq<char>,
    thread_id: Seq<char>,
    turn_id: Seq<char>,
    turn: JsonView,
)
    ensures
        turn_result_view(server, thread_id, turn_id, turn) matches Ok(report) ==> {
            &&& report.field("server"@) == JsonView::Str(server)
            &&& report.field("threadId"@) == JsonView::Str(thread_id)
            &&& report.field("turnId"@) == JsonView::Str(turn_id)
            &&& report.field("turn"@) == turn
            &&& turn.field("status"@) matches JsonView::Str(status) && {
                &&& is_end(status) ==> report.field("status"@) == JsonView::Str(status)
                &&& is_going_on(status) ==> report.field("status"@) == JsonView::Str(
                    "inProgress"@,
                )
                &&& is_end(status) || is_going_on(status)
            }
        },
{
    broadcast use lemma_get_with;

    lemma_words();
}

/// The result of a persisted turn of known status, whose messages each have an id of their own,
/// lists the messages that have a text, in order.
pub proof fn law_result_lists_the_messages(
    server: Seq<char>,
    thread_id: Seq<char>,
    turn_id: Seq<char>,
    turn: JsonView,
)
    requires
        all_named(messages_of(turn)),
        messages_of(turn).len() <= 4096,
        turn.field("status"@) matches JsonView::Str(status) && (is_end(status) || is_going_on(
            status,
        )),
    ensures
        ({
            let entries = messages_of(turn).map_values(
                |item: JsonView|
                    EntryView {
                        text: item.field("text"@).text(),
                        ..EntryView::new(item.field("id"@).as_str())
                    },
            );
            let told = RegistryView { items: entries, ..RegistryView::empty() };
            turn_result_view(server, thread_id, turn_id, turn) matches Ok(report) && {
                &&& report.field("assistantResponses"@) == JsonView::Array(responses_json(entries))
                &&& report.field("finalAssistantText"@) == JsonView::Str(told.final_text())
            }
        }),
{
    broadcast use lemma_get_with;

    lemma_words();
    law_turn_read_anew_lists_its_messages(turn);
    let entries = messages_of(turn).map_values(
        |item: JsonView|
            EntryView {
                text: item.field("text"@).text(),
                ..EntryView::new(item.field("id"@).as_str())
            },
    );
    lemma_same_told(synced_turn(RegistryView::empty(), turn).registry.items, entries);
}

/// What is told of entries rests on their canonical ids and their texts alone.
proof fn lemma_same_told(a: Seq<EntryView>, b: Seq<EntryView>)
    requires
        a.len() == b.len(),
        forall|i: int|
            0 <= i < a.len() ==> (#[trigger] a[i]).item_id == b[i].item_id && a[i].text
                == b[i].text,
    ensures
        responses_json(a) == responses_json(b),
        kept_texts(a) == kept_texts(b),
    decreases a.len(),
{
    if a.len() > 0 {
        assert forall|i: int| 0 <= i < a.drop_last().len() implies (
        #[trigger] a.drop_last()[i]).item_id == b.drop_last()[i].item_id && a.drop_last()[i].text
            == b.drop_last()[i].text by {
            assert(a[i].item_id == b[i].item_id);
        }
        lemma_same_told(a.drop_last(), b.drop_last());
        assert(a[a.len() - 1].item_id == b[a.len() - 1].item_id);
    }
}

/// Whether turn `i` of some is the first with this id.
pub open spec fn first_of_id(turns: Seq<JsonView>, turn_id: Seq<char>, i: int) -> bool {
    &&& 0 <= i < turns.len()
    &&& turns[i].field("id"@) == JsonView::Str(turn_id)
    &&& forall|j: int| 0 <= j < i ==> (#[trigger] turns[j]).field("id"@) != JsonView::Str(turn_id)
}

pub proof fn lemma_snapshot_turn_is_first(turns: Seq<JsonView>, turn_id: Seq<char>)
    ensures
        snapshot_turn(turns, turn_id) matches Some(turn) ==> exists|i: int|
            #[trigger] first_of_id(turns, turn_id, i) && turns[i] == turn,
        forall|i: int| #[trigger]
            first_of_id(turns, turn_id, i) ==> snapshot_turn(turns, turn_id) == Some(turns[i]),
{
    if exists|i: int| is_first_with_id(turns, turn_id, i) {
        let i = choose|i: int| is_first_with_id(turns, turn_id, i);
        assert forall|j: int| 0 <= j < i implies (#[trigger] turns[j]).field("id"@)
            != JsonView::Str(turn_id) by {
            assert(turns[j].field("id"@).as_str() != Some(turn_id));
        }
        assert(first_of_id(turns, turn_id, i));
    }
    assert forall|i: int| #[trigger]
        first_of_id(turns, turn_id, i) implies snapshot_turn(turns, turn_id) == Some(turns[i]) by {
        assert forall|j: int| 0 <= j < i implies (#[trigger] turns[j]).field("id"@).as_str()
            != Some(turn_id) by {
            assert(turns[j].field("id"@) != JsonView::Str(turn_id));
        }
        assert(is_first_with_id(turns, turn_id, i));
        let k = choose|k: int| is_first_with_id(turns, turn_id, k);
        if k < i {
            assert(turns[k].field("id"@).as_str() != Some(turn_id));
        }
        if i < k {
            assert(turns[i].field("id"@).as_str() != Some(turn_id));
        }
    }
}

/// An attach that ends with a report found the watched turn in the snapshot, and found it to
/// have ended: the report has the status of that turn, and the exit code that goes with it, and
/// keeps its error. The last record that is emitted says the same.
pub proof fn law_attach_reports_how_the_turn_ended(
    target: AttachTarget,
    notifications: Seq<NotificationView>,
    overflowed: bool,
    resume: JsonView,
)
    ensures
        ({
            let attach = attach_view(target, notifications, overflowed, resume);
            let turns = resume.field("thread"@).field("turns"@).items();
            attach.end matches Ok(AttachEndView::Terminal(terminal)) ==> exists|i: int|
                #[trigger] first_of_id(turns, target.turn_id, i) && {
                    let turn = turns[i];
                    let last = attach.emit.last();
                    &&& turn.field("status"@) matches JsonView::Str(status) && is_end(status) && {
                        &&& terminal.output.field("status"@) == JsonView::Str(status)
                        &&& terminal.exit_code == 0 <==> status == "completed"@
                        &&& last.field("type"@) == JsonView::Str(status)
                        &&& last.field("status"@) == JsonView::Str(status)
                    }
                    &&& terminal.output.field("server"@) == JsonView::Str(target.server)
                    &&& terminal.output.field("threadId"@) == JsonView::Str(target.thread_id)
                    &&& terminal.output.field("turnId"@) == JsonView::Str(target.turn_id)
                    &&& !(turn.field("error"@) is Null) ==> terminal.output.field("error"@)
                        == turn.field("error"@)
                    &&& last.field("error"@) == turn.field("error"@)
                    &&& last.field("source"@) == JsonView::Str("snapshot"@)
                    &&& attach.emit.len() > 0
                }
        }),
{
    broadcast use lemma_get_with;

    lemma_words();
    let attach = attach_view(target, notifications, overflowed, resume);
    let thread = resume.field("thread"@);
    let turns = thread.field("turns"@).items();
    if let Ok(AttachEndView::Terminal(terminal)) = attach.end {
        lemma_snapshot_turn_is_first(turns, target.turn_id);
        let turn = snapshot_turn(turns, target.turn_id)->0;
        let i = choose|i: int| #[trigger]
            first_of_id(turns, target.turn_id, i) && turns[i] == turn;
        let seed = seed_of_snapshot(thread, target.turn_id)->0;
        let responses = responses_json(seed.items);
        let start = Announced {
            emit: seq![target.attached()],
            progress: first_progress(target)->0,
            failed: false,
        };
        let state = announced(target, start, responses, responses.len());
        let status = reported_status(turn);
        let waiting = seed_for_wait(seed, target.retain_progress);
        let event = status_event(
            status,
            target.server,
            target.thread_id,
            target.turn_id,
            Some("snapshot"@),
            turn,
        );
        let values = state.progress.pushed(event).values;
        law_status_is_reported(turn, turn.field("status"@).text());
        law_report_says_how_the_turn_ended(target.wait(), status, waiting, values);
        let none = JsonView::empty_object();
        assert(none.get("error"@) is None);
        assert(event.field("error"@) == turn.field("error"@));
        assert(attach.emit == state.emit.push(event));
        assert(attach.emit.last() == event);
        assert(values.last() == event);
        assert(values[values.len() - 1] == event);
    }
}

/// An attach that is to be waited on found the watched turn going on, or found no such turn; the
/// wait is for that very turn, and nothing is known of its prompt.
pub proof fn law_attach_waits_for_what_goes_on(
    target: AttachTarget,
    notifications: Seq<NotificationView>,
    overflowed: bool,
    resume: JsonView,
)
    ensures
        ({
            let attach = attach_view(target, notifications, overflowed, resume);
            let turns = resume.field("thread"@).field("turns"@).items();
            attach.end matches Ok(AttachEndView::Waiting(started)) ==> {
                &&& forall|i: int| #[trigger]
                    first_of_id(turns, target.turn_id, i) ==> (turns[i].field(
                        "status"@,
                    ) matches JsonView::Str(status) && is_going_on(status))
                &&& started.thread_id == target.thread_id
                &&& started.turn_id == target.turn_id
                &&& started.prompt is None
                &&& started.started_after_epoch is None
                &&& !overflowed
            }
        }),
{
    let thread = resume.field("thread"@);
    let turns = thread.field("turns"@).items();
    lemma_snapshot_turn_is_first(turns, target.turn_id);
    if let Some(turn) = snapshot_turn(turns, target.turn_id) {
        law_status_is_reported(turn, turn.field("status"@).text());
    }
}

/// What a record of the snapshot says: that the agent wrote this text, in this item, and that it
/// comes from the snapshot.
pub proof fn law_snapshot_record_says_what_was_written(target: AttachTarget, entry: EntryView)
    ensures
        ({
            let record = target.snapshot_event(response_json(entry));
            &&& record.field("type"@) == JsonView::Str("assistantMessage"@)
            &&& record.field("text"@) == JsonView::Str(entry.text)
            &&& record.field("source"@) == JsonView::Str("snapshot"@)
            &&& entry.item_id matches Some(id) ==> record.field("itemId"@) == JsonView::Str(id)
            &&& entry.item_id is None ==> record.get("itemId"@) is None
            &&& target.attached().field("type"@) == JsonView::Str("attached"@)
            &&& target.attached().field("status"@) == JsonView::Str("attached"@)
        }),
{
    broadcast use lemma_get_with;

    lemma_words();
    let none = JsonView::empty_object();
    assert(none.get("itemId"@) is None);
}

proof fn lemma_seeds(items: Seq<JsonView>, n: nat)
    requires
        n <= items.len(),
    ensures
        seeded_items(Some(RegistryView::empty()), items, n) is None ==> messages(items, n).len()
            > 4096,
        seeded_items(Some(RegistryView::empty()), items, n) matches Some(seed) ==> {
            &&& seed.retain_text
            &&& seed.items.len() == messages(items, n).len()
            &&& forall|k: int|
                0 <= k < seed.items.len() ==> is_seed_of(
                    #[trigger] seed.items[k],
                    messages(items, n)[k],
                )
        },
    decreases n,
{
    if n > 0 {
        lemma_seeds(items, (n - 1) as nat);
    }
}

/// Whether an entry is what a snapshot message gives: under its id, with its text, which the
/// live stream may be about to replay from the start.
pub open spec fn is_seed_of(entry: EntryView, message: JsonView) -> bool {
    let text = message.field("text"@).text();
    &&& entry.item_id == message.field("id"@).as_str()
    &&& entry.live_id is None
    &&& entry.poll_id is None
    &&& entry.text == text
    &&& entry.observed == encode_utf8(text)
    &&& entry.replay_cursor == Some(0nat)
}

/// A snapshot seeds one entry for each of the agent's messages of the watched turn, empty ones
/// too, in order, and nothing else; it fails only where there are too many.
pub proof fn law_snapshot_seeds_the_messages(thread: JsonView, turn_id: Seq<char>, t: int)
    requires
        ({
            let turns = thread.field("turns"@).items();
            &&& 0 <= t < turns.len()
            &&& forall|i: int|
                0 <= i < turns.len() ==> ((#[trigger] turns[i]).field("id"@) == JsonView::Str(
                    turn_id,
                ) <==> i == t)
        }),
    ensures
        ({
            let told = messages_of(thread.field("turns"@).items()[t]);
            &&& seed_of_snapshot(thread, turn_id) is None ==> told.len() > 4096
            &&& seed_of_snapshot(thread, turn_id) matches Some(seed) ==> {
                &&& seed.items.len() == told.len()
                &&& forall|k: int|
                    0 <= k < told.len() ==> is_seed_of(#[trigger] seed.items[k], told[k])
            }
        }),
{
    let turns = thread.field("turns"@).items();
    assert forall|i: int|
        0 <= i < turns.len() && (#[trigger] turns[i]).field("id"@).as_str() == Some(turn_id)
            <==> i == t by {
        if 0 <= i < turns.len() {
            assert(turns[i].field("id"@) == JsonView::Str(turn_id) <==> i == t);
        }
    }
    lemma_one_turn_seeds(turns, turn_id, t, turns.len());
    let items = turns[t].field("items"@).items();
    lemma_seeds(items, items.len());
}

/// What the result of a persisted turn comes to, by what `read_turn_result` promises: a report just
/// where the status of the turn is known and its messages are not too many, with that status.
pub proof fn law_read_result_has_the_status_of_the_turn(
    server: &str,
    thread_id: &str,
    turn_id: &str,
    turn: &Json,
    report: Result<Json, AppServerError>,
)
    requires
        call_ensures(read_turn_result, (server, thread_id, turn_id, turn), report),
    ensures
        report matches Ok(told) ==> {
            let status = turn@.field("status"@);
            &&& status is Str
            &&& is_end(status.text()) ==> told@.field("status"@) == status
            &&& !is_end(status.text()) ==> is_going_on(status.text()) && told@.field("status"@)
                == JsonView::Str("inProgress"@)
            &&& told@.field("turn"@) == turn@
            &&& told@.field("turnId"@) == JsonView::Str(turn_id@)
        },
        !(turn@.field("status"@) is Str) ==> report is Err,
        ({
            let status = turn@.field("status"@).text();
            !is_end(status) && !is_going_on(status) ==> report is Err
        }),
{
    lemma_words();
    law_result_says_how_the_turn_stands(server@, thread_id@, turn_id@, turn@);
    law_status_is_reported(turn@, turn@.field("status"@).text());
}

/// What an attach comes to, by what `attach_turn` promises: it reports an end just where the
/// snapshot says that the watched turn has ended, and with the status that it gives.
pub proof fn law_attach_ends_as_the_snapshot_says(
    target: &Target,
    options: &AttachTurnOptions,
    early: EarlyNotificationBuffer,
    resume: &Json,
    outcome: AttachOutcome,
)
    requires
        call_ensures(attach_turn, (target, options, early, resume), outcome),
    ensures
        ({
            let turns = resume@.field("thread"@).field("turns"@).items();
            &&& outcome.end matches Ok(AttachEnd::Terminal(terminal)) ==> exists|i: int|
                #[trigger] first_of_id(turns, options.turn_id@, i) && {
                    let status = turns[i].field("status"@);
                    &&& status is Str && is_end(status.text())
                    &&& terminal.output@.field("status"@) == status
                    &&& terminal.exit_code == 0 <==> status == JsonView::Str("completed"@)
                }
            &&& outcome.end matches Ok(AttachEnd::Waiting(started)) ==> {
                &&& forall|i: int| #[trigger]
                    first_of_id(turns, options.turn_id@, i) ==> turns[i].field("status"@) is Str
                        && is_going_on(turns[i].field("status"@).text())
                &&& started.turn_id@ == options.turn_id@
                &&& started.thread_id@ == options.thread_id@
            }
        }),
{
    let told = attach_target(*target, *options);
    let heard = notification_views(early.notifications@);
    law_attach_reports_how_the_turn_ended(told, heard, early.overflowed, resume@);
    law_attach_waits_for_what_goes_on(told, heard, early.overflowed, resume@);
    let view = attach_view(told, heard, early.overflowed, resume@);
    assert(outcome@ == view);
    assert(outcome@.end == view.end);
}

} // verus!
