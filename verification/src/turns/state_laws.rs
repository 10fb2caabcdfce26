use vstd::prelude::*;

use crate::json::{Json, JsonView};
use crate::protocol_words::lemma_words;
use crate::rpc::{NotificationView, RequestError};
use crate::turns::assistant::EntryView;
use crate::turns::attach::{
    announced, attach_view, first_progress, seed_for_wait, snapshot_turn, Announced, AttachEndView,
    AttachTarget,
};
use crate::turns::buffers::ProgressView;
use crate::turns::poll::{poll_outcome, processed_first, TurnFault};
use crate::turns::registry::{lemma_alias_ids, responses_json, RegistryView};
use crate::turns::report_laws::{
    first_of_id, is_end, is_going_on, law_status_is_reported, lemma_snapshot_turn_is_first,
};
use crate::turns::search::{lesser, TURN_RESULT_PAGE_LIMIT};
use crate::turns::snapshot::seed_of_snapshot;
use crate::turns::wait::{processed, TerminalView, WaitView};
use crate::turns::waiter::starting_wait;

verus! {

/// The aliases of an item are all its ids, once each, with the canonical one first, then the
/// live one, then the one of the poll.
pub proof fn law_aliases_are_all_ids(entry: EntryView)
    ensures
        ({
            let ids = entry.alias_ids();
            &&& entry.ids().item_id == entry.item_id
            &&& entry.ids().alias_ids == ids
            &&& forall|id: Seq<char>| #[trigger]
                ids.contains(id) <==> entry.item_id == Some(id) || entry.live_id == Some(id)
                    || entry.poll_id == Some(id)
            &&& forall|i: int, j: int| 0 <= i < j < ids.len() ==> ids[i] != ids[j]
            &&& ids.len() <= 3
            &&& entry.item_id matches Some(id) ==> ids.len() > 0 && ids[0] == id
            &&& entry.item_id is Some && entry.live_id is Some && entry.live_id != entry.item_id
                ==> ids.len() > 1 && Some(ids[1]) == entry.live_id
            &&& entry.poll_id is Some && entry.poll_id != entry.item_id && entry.poll_id
                != entry.live_id ==> Some(ids.last()) == entry.poll_id
        }),
{
    lemma_alias_ids(entry);
}

/// A wait that goes on without texts keeps every entry, with its ids, what was observed of it
/// and how far it was replayed; one that keeps texts keeps everything.
pub proof fn law_letting_go_of_texts_keeps_the_rest(seed: RegistryView, retain_progress: bool)
    ensures
        ({
            let kept = seed_for_wait(seed, retain_progress);
            &&& retain_progress ==> kept == seed
            &&& kept.aliases == seed.aliases
            &&& kept.items.len() == seed.items.len()
            &&& !retain_progress ==> !kept.retain_text
            &&& forall|i: int|
                0 <= i < seed.items.len() ==> {
                    let entry = #[trigger] kept.items[i];
                    &&& entry.item_id == seed.items[i].item_id
                    &&& entry.live_id == seed.items[i].live_id
                    &&& entry.poll_id == seed.items[i].poll_id
                    &&& entry.observed == seed.items[i].observed
                    &&& entry.replay_cursor == seed.items[i].replay_cursor
                    &&& !retain_progress ==> entry.text.len() == 0
                }
        }),
{
}

/// A wait begins with the events that it was given, for the turn that it was given, and counts
/// the silence from its beginning. It cannot begin only where it is to keep more events than may
/// be kept.
pub proof fn law_wait_begins_as_asked(
    wait: WaitView,
    initial: Seq<JsonView>,
    seed: RegistryView,
    retain: bool,
    now: u64,
)
    ensures
        !retain ==> starting_wait(wait, initial, seed, retain, now) is Some,
        starting_wait(wait, initial, seed, retain, now) matches Some(waiter) ==> {
            &&& waiter.wait == wait
            &&& waiter.started_turn_id == wait.turn_id
            &&& waiter.last_evidence == now
            &&& waiter.progress.values == initial
            &&& waiter.progress.retain == retain
            &&& waiter.registry.aliases == seed.aliases
            &&& waiter.registry.items.len() == seed.items.len()
            &&& retain ==> waiter.registry == seed
            &&& !retain ==> !waiter.registry.retain_text
            &&& forall|i: int|
                0 <= i < seed.items.len() ==> (#[trigger] waiter.registry.items[i]).observed
                    == seed.items[i].observed && waiter.registry.items[i].item_id
                    == seed.items[i].item_id
        },
{
    let none = ProgressView { values: Seq::empty(), retained_bytes: 0, retain };
    lemma_pushed_in_order(none, initial, initial.len());
    assert(initial.take(initial.len() as int) =~= initial);
    assert(none.values + initial =~= initial);
}

proof fn lemma_pushed_in_order(progress: ProgressView, values: Seq<JsonView>, n: nat)
    requires
        n <= values.len(),
    ensures
        progress.pushed_all(values, n) matches Some(after) ==> {
            &&& after.retain == progress.retain
            &&& after.values == progress.values + values.take(n as int)
        },
    decreases n,
{
    if n == 0 {
        assert(progress.values + values.take(0) =~= progress.values);
    } else {
        lemma_pushed_in_order(progress, values, (n - 1) as nat);
        assert(progress.values + values.take(n as int) =~= (progress.values + values.take(
            n - 1,
        )).push(values[n - 1]));
    }
}

/// An attach is refused, with nothing emitted, where notifications were lost, where the answer has
/// no thread or the thread no list of turns, and where the watched turn has no status that is
/// known. Where none of this holds and the messages are not too many, an attach that keeps no
/// progress succeeds.
pub proof fn law_attach_asks_for_a_sound_snapshot(
    target: AttachTarget,
    notifications: Seq<NotificationView>,
    overflowed: bool,
    resume: JsonView,
)
    ensures
        ({
            let attach = attach_view(target, notifications, overflowed, resume);
            let thread = resume.field("thread"@);
            let turns = thread.field("turns"@).items();
            let unknown = exists|i: int|
                #[trigger] first_of_id(turns, target.turn_id, i) && !(turns[i].field("status"@) is
                    Str && (is_end(turns[i].field("status"@).text()) || is_going_on(
                    turns[i].field("status"@).text(),
                )));
            let unsound = overflowed || !(thread is Object) || !(thread.field("turns"@) is Array)
                || unknown;
            &&& unsound ==> attach.end is Err && attach.emit.len() == 0
            &&& !unsound && !target.retain_progress && seed_of_snapshot(
                thread,
                target.turn_id,
            ) is Some ==> attach.end is Ok
        }),
{
    lemma_words();
    let thread = resume.field("thread"@);
    let turns = thread.field("turns"@).items();
    lemma_snapshot_turn_is_first(turns, target.turn_id);
    if let Some(turn) = snapshot_turn(turns, target.turn_id) {
        law_status_is_reported(turn, turn.field("status"@).text());
        let i = choose|i: int| #[trigger]
            first_of_id(turns, target.turn_id, i) && turns[i] == turn;
        assert(first_of_id(turns, target.turn_id, i));
    }
    if let Some(seed) = seed_of_snapshot(thread, target.turn_id) {
        if !target.retain_progress {
            let responses = responses_json(seed.items);
            let start = Announced {
                emit: seq![target.attached()],
                progress: first_progress(target)->0,
                failed: false,
            };
            lemma_announcing_succeeds(target, start, responses, responses.len());
        }
    }
}

/// An attach that goes on waiting hands on what it emitted, record for record, where progress is
/// kept, and nothing of it where progress is not kept. Either way it emitted that it is attached
/// before anything else.
pub proof fn law_attach_hands_on_what_it_emitted(
    target: AttachTarget,
    notifications: Seq<NotificationView>,
    overflowed: bool,
    resume: JsonView,
)
    ensures
        ({
            let attach = attach_view(target, notifications, overflowed, resume);
            attach.end matches Ok(AttachEndView::Waiting(started)) ==> {
                &&& target.retain_progress ==> started.initial_events == attach.emit
                &&& !target.retain_progress ==> started.initial_events.len() == 0
                &&& attach.emit.len() > 0
                &&& attach.emit[0] == started.acceptance
                &&& started.turn_id == target.turn_id
                &&& started.thread_id == target.thread_id
            }
        }),
{
    if let Some(seed) = seed_of_snapshot(resume.field("thread"@), target.turn_id) {
        if let Some(progress) = first_progress(target) {
            let emit = seq![target.attached()];
            let none = ProgressView {
                values: Seq::empty(),
                retained_bytes: 0,
                retain: target.retain_progress,
            };
            lemma_pushed_in_order(none, emit, emit.len());
            assert(emit.take(emit.len() as int) =~= emit);
            assert(none.values + emit =~= emit);
            let responses = responses_json(seed.items);
            lemma_announced_progress(
                target,
                Announced { emit, progress, failed: false },
                responses,
                responses.len(),
            );
        }
    }
}

proof fn lemma_announced_progress(
    target: AttachTarget,
    before: Announced,
    responses: Seq<JsonView>,
    n: nat,
)
    requires
        before.emit.len() > 0,
        target.retain_progress ==> before.progress.retain && before.progress.values == before.emit,
    ensures
        ({
            let after = announced(target, before, responses, n);
            &&& after.emit.len() > 0
            &&& after.emit[0] == before.emit[0]
            &&& target.retain_progress ==> after.progress.retain && after.progress.values
                == after.emit
            &&& !target.retain_progress ==> after.progress == before.progress
        }),
    decreases n,
{
    if n > 0 {
        lemma_announced_progress(target, before, responses, (n - 1) as nat);
    }
}

proof fn lemma_announcing_succeeds(
    target: AttachTarget,
    before: Announced,
    responses: Seq<JsonView>,
    n: nat,
)
    requires
        !target.retain_progress,
        !before.failed,
        !before.progress.retain,
    ensures
        !announced(target, before, responses, n).failed,
        !announced(target, before, responses, n).progress.retain,
    decreases n,
{
    if n > 0 {
        lemma_announcing_succeeds(target, before, responses, (n - 1) as nat);
    }
}

proof fn lemma_first_comes_first(
    wait: WaitView,
    list: Seq<NotificationView>,
    n: nat,
    registry: RegistryView,
    progress: ProgressView,
)
    requires
        0 < n <= list.len(),
    ensures
        ({
            let first = processed(wait, list[0], registry, progress);
            processed_first(wait, list, n, registry, progress) == if first.result == Ok::<
                Option<TerminalView>,
                Seq<char>,
            >(None) {
                processed_first(
                    wait,
                    list.drop_first(),
                    (n - 1) as nat,
                    first.registry,
                    first.progress,
                )
            } else {
                first
            }
        }),
    decreases n,
{
    let first = processed(wait, list[0], registry, progress);
    if n > 1 {
        lemma_first_comes_first(wait, list, (n - 1) as nat, registry, progress);
        assert(list.drop_first()[n - 2] == list[n - 1]);
    } else {
        assert(processed_first(wait, list, 0, registry, progress).registry == registry);
        assert(processed_first(
            wait,
            list.drop_first(),
            0,
            first.registry,
            first.progress,
        ).result == Ok::<Option<TerminalView>, Seq<char>>(None));
    }
}

/// The notifications that come in before the answer to a poll count as if they had come in before
/// the poll, one after the other: the first that ends the wait, or fails it, does so whatever the
/// answer is, and otherwise the answer is taken after all of them.
pub proof fn law_notifications_before_an_answer_come_first(
    wait: WaitView,
    list: Seq<NotificationView>,
    overflowed: bool,
    reply: Result<Json, RequestError>,
    registry: RegistryView,
    progress: ProgressView,
)
    requires
        list.len() > 0,
    ensures
        ({
            let first = processed(wait, list[0], registry, progress);
            let all = poll_outcome(wait, list, overflowed, reply, registry, progress);
            match first.result {
                Err(fault) => all.result == Err::<Option<TerminalView>, TurnFault>(
                    TurnFault::AppServer(fault),
                ),
                Ok(Some(terminal)) => {
                    &&& all.result == Ok::<Option<TerminalView>, TurnFault>(Some(terminal))
                    &&& all.registry == first.registry
                    &&& all.progress == first.progress
                    &&& all.wait == wait
                },
                Ok(None) => all == poll_outcome(
                    wait,
                    list.drop_first(),
                    overflowed,
                    reply,
                    first.registry,
                    first.progress,
                ),
            }
        }),
{
    lemma_first_comes_first(wait, list, list.len(), registry, progress);
}

/// A page of a search has at most a hundred turns, and no more than are still to be looked at.
pub proof fn law_page_is_limited(remaining: int)
    requires
        remaining > 0,
    ensures
        ({
            let limit = lesser(remaining, TURN_RESULT_PAGE_LIMIT as int);
            &&& 0 < limit <= 100
            &&& limit <= remaining
            &&& limit == 100 || limit == remaining
        }),
{
}

} // verus!
