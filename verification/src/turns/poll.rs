use vstd::prelude::*;

use crate::errors::{app_server_error, AppServerError};
use crate::json::{Json, JsonView};
use crate::rpc::{NotificationView, RequestError};
use crate::text::{joined, lemma_joined_push, same_text};
use crate::turns::assistant::ItemIdsView;
use crate::turns::buffers::{
    json_views, progress_limit_message, EarlyNotificationBuffer, ProgressEvents, ProgressView,
};
use crate::turns::events::{
    event_head, insert_item_ids, is_terminal, is_terminal_status, new_event, new_status_event,
    reject_unknown_turn_status, reported_status, status_event, status_fault, turn_status,
    with_item_ids,
};
use crate::turns::registry::{
    item_limit_message, synced_turn, updates_view, AssistantResponses, RegistryView,
};
use crate::turns::replay::notification_views;
use crate::turns::wait::{
    process_turn_notification, processed, terminal_view, turn_terminal, ProcessView, TerminalView,
    TurnTerminal, TurnWaitContext, WaitView,
};
use crate::words::{contains, contains_text};

verus! {

/// What a wait can fail with.
#[derive(Debug)]
pub enum TurnError {
    AppServer(AppServerError),
    Request(RequestError),
}

/// The mathematical value of a [`TurnError`].
pub enum TurnFault {
    AppServer(Seq<char>),
    Request(RequestError),
}

impl View for TurnError {
    type V = TurnFault;

    open spec fn view(&self) -> TurnFault {
        match *self {
            TurnError::AppServer(error) => TurnFault::AppServer(error.message@),
            TurnError::Request(error) => TurnFault::Request(error),
        }
    }
}

/// The texts among some inputs.
pub open spec fn input_texts(inputs: Seq<JsonView>) -> Seq<Seq<char>>
    decreases inputs.len(),
{
    if inputs.len() == 0 {
        Seq::empty()
    } else {
        let before = input_texts(inputs.drop_last());
        match inputs.last().field("text"@).as_str() {
            Some(text) => before.push(text),
            None => before,
        }
    }
}

/// The text of a user message: its inputs' texts, one per line.
pub open spec fn user_text(item: JsonView) -> Option<Seq<char>> {
    match item.field("content"@).as_array() {
        Some(inputs) => Some(joined(input_texts(inputs), "\n"@)),
        None => None,
    }
}

pub fn user_message_text(item: &Json) -> (text: Option<String>)
    ensures
        crate::text::text_view(text) == user_text(item@),
{
    let inputs = match item.field("content").as_array() {
        Some(inputs) => inputs,
        None => {
            return None;
        },
    };
    let ghost views = json_views(inputs@);
    assert(item@.field("content"@).as_array() == Some(views));
    let mut text = String::new();
    let mut any = false;
    let mut i: usize = 0;
    assert(views.take(0) =~= Seq::empty());
    while i < inputs.len()
        invariant
            i <= inputs@.len(),
            views == json_views(inputs@),
            text@ == joined(input_texts(views.take(i as int)), "\n"@),
            any == (input_texts(views.take(i as int)).len() > 0),
        decreases inputs@.len() - i,
    {
        let input = &inputs[i];
        proof {
            assert(views[i as int] == input@);
            assert(views.take(i + 1).drop_last() =~= views.take(i as int));
        }
        if let Some(part) = input.field("text").as_str() {
            proof {
                lemma_joined_push(input_texts(views.take(i as int)), part@, "\n"@);
            }
            if any {
                text.append("\n");
            }
            text.append(part);
            proof {
                if !any {
                    assert(text@ =~= part@);
                }
            }
            any = true;
        }
        i += 1;
    }
    assert(views.take(i as int) =~= views);
    Some(text)
}

/// Whether an item is the user message with this text.
pub open spec fn is_prompt(item: JsonView, prompt: Seq<char>) -> bool {
    item.field("type"@).as_str() == Some("userMessage"@) && user_text(item) == Some(prompt)
}

/// Whether a turn answers a prompt.
pub open spec fn answers_prompt(turn: JsonView, prompt: Seq<char>) -> bool {
    exists|i: int|
        0 <= i < turn.field("items"@).items().len() && is_prompt(
            #[trigger] turn.field("items"@).items()[i],
            prompt,
        )
}

pub fn turn_matches_prompt(turn: &Json, prompt: &str) -> (matches: bool)
    ensures
        matches == answers_prompt(turn@, prompt@),
{
    let items = match turn.field("items").as_array() {
        Some(items) => items,
        None => {
            return false;
        },
    };
    let ghost views = turn@.field("items"@).items();
    let mut i: usize = 0;
    while i < items.len()
        invariant
            i <= items@.len(),
            views == items@.map_values(|j: Json| j@),
            views == turn@.field("items"@).items(),
            forall|j: int| 0 <= j < i ==> !is_prompt(#[trigger] views[j], prompt@),
        decreases items@.len() - i,
    {
        let item = &items[i];
        assert(views[i as int] == item@);
        if item.field("type").is_text("userMessage") {
            if let Some(text) = user_message_text(item) {
                if same_text(text.as_str(), prompt) {
                    assert(is_prompt(turn@.field("items"@).items()[i as int], prompt@));
                    return true;
                }
            }
        }
        i += 1;
    }
    false
}

/// Whether a turn is known to have started, or else to have ended, no earlier than this.
pub open spec fn is_recent(turn: JsonView, started_after_epoch: Option<i64>) -> bool {
    match started_after_epoch {
        None => false,
        Some(after) => match (turn.field("startedAt"@).as_i64(), turn.field("completedAt"@).as_i64()) {
            (Some(time), _) => time >= after,
            (None, Some(time)) => time >= after,
            (None, None) => false,
        },
    }
}

pub fn turn_started_after(turn: &Json, started_after_epoch: Option<i64>) -> (recent: bool)
    ensures
        recent == is_recent(turn@, started_after_epoch),
{
    match started_after_epoch {
        None => false,
        Some(after) => match turn.field("startedAt").as_i64() {
            Some(time) => time >= after,
            None => match turn.field("completedAt").as_i64() {
                Some(time) => time >= after,
                None => false,
            },
        },
    }
}

/// Whether turn `i` is the first with this id.
pub open spec fn is_first_with_id(turns: Seq<JsonView>, id: Seq<char>, i: int) -> bool {
    &&& 0 <= i < turns.len()
    &&& turns[i].field("id"@).as_str() == Some(id)
    &&& forall|j: int| 0 <= j < i ==> (#[trigger] turns[j]).field("id"@).as_str() != Some(id)
}

/// The turn among the polled ones that is waited for: the one with its id, or else the newest
/// one, where it answers the prompt and is recent.
pub open spec fn polled_turn(wait: WaitView, turns: Seq<JsonView>) -> Option<JsonView> {
    if exists|i: int| is_first_with_id(turns, wait.turn_id, i) {
        Some(turns[choose|i: int| is_first_with_id(turns, wait.turn_id, i)])
    } else if turns.len() > 0 && wait.prompt is Some && answers_prompt(turns[0], wait.prompt->0)
        && is_recent(turns[0], wait.started_after_epoch) {
        Some(turns[0])
    } else {
        None
    }
}

/// The wait after a poll: a turn that was found by its prompt has its id adopted.
pub open spec fn wait_after_poll(wait: WaitView, turns: Seq<JsonView>) -> WaitView {
    if exists|i: int| is_first_with_id(turns, wait.turn_id, i) {
        wait
    } else {
        match polled_turn(wait, turns) {
            Some(turn) => match turn.field("id"@).as_str() {
                Some(id) => WaitView { turn_id: id, ..wait },
                None => wait,
            },
            None => wait,
        }
    }
}

/// The place of the first turn with this id.
pub fn find_turn(turns: &Vec<Json>, id: &str, bound: usize) -> (place: Option<usize>)
    requires
        bound <= turns@.len(),
    ensures
        match place {
            Some(i) => i < bound && is_first_with_id(json_views(turns@), id@, i as int),
            None => forall|j: int|
                0 <= j < bound ==> (#[trigger] json_views(turns@)[j]).field("id"@).as_str()
                    != Some(id@),
        },
{
    let ghost views = json_views(turns@);
    let mut i: usize = 0;
    while i < bound
        invariant
            i <= bound <= turns@.len(),
            views == json_views(turns@),
            forall|j: int|
                0 <= j < i ==> (#[trigger] views[j]).field("id"@).as_str() != Some(id@),
        decreases bound - i,
    {
        assert(views[i as int] == turns@[i as int]@);
        if turns[i].field("id").is_text(id) {
            return Some(i);
        }
        i += 1;
    }
    None
}

proof fn lemma_found_by_id(wait: WaitView, turns: Seq<JsonView>, i: int)
    requires
        is_first_with_id(turns, wait.turn_id, i),
    ensures
        polled_turn(wait, turns) == Some(turns[i]),
        wait_after_poll(wait, turns) == wait,
{
    let k = choose|k: int| is_first_with_id(turns, wait.turn_id, k);
    if k < i {
        assert(turns[k].field("id"@).as_str() != Some(wait.turn_id));
    }
    if i < k {
        assert(turns[i].field("id"@).as_str() != Some(wait.turn_id));
    }
}

pub fn poll_result_turn<'a>(wait: &mut TurnWaitContext, result: &'a Json) -> (turn: Option<
    &'a Json,
>)
    ensures
        final(wait).target == old(wait).target,
        match (turn, result@.field("data"@).as_array()) {
            (_, None) => turn is None && final(wait)@ == old(wait)@,
            (Some(turn), Some(turns)) => {
                &&& polled_turn(old(wait)@, turns) == Some(turn@)
                &&& final(wait)@ == wait_after_poll(old(wait)@, turns)
            },
            (None, Some(turns)) => {
                &&& polled_turn(old(wait)@, turns) is None
                &&& final(wait)@ == old(wait)@
            },
        },
{
    let turns = match result.field("data").as_array() {
        Some(turns) => turns,
        None => {
            return None;
        },
    };
    let ghost views = json_views(turns@);
    assert(result@.field("data"@).as_array() == Some(views));
    if let Some(i) = find_turn(turns, wait.turn_id.as_str(), turns.len()) {
        proof {
            lemma_found_by_id(wait@, views, i as int);
            assert(views[i as int] == turns@[i as int]@);
        }
        return Some(&turns[i]);
    }
    assert(forall|i: int| !is_first_with_id(views, wait.turn_id@, i));
    let prompt = match wait.prompt {
        Some(prompt) => prompt,
        None => {
            return None;
        },
    };
    if turns.len() == 0 {
        return None;
    }
    let turn = &turns[0];
    assert(views[0] == turn@);
    if !turn_matches_prompt(turn, prompt) || !turn_started_after(turn, wait.started_after_epoch) {
        return None;
    }
    if let Some(turn_id) = turn.field("id").as_str() {
        wait.turn_id = turn_id.to_owned();
    }
    Some(turn)
}

/// Whether a poll failed only because the thread has no history yet.
pub open spec fn is_unmaterialized(error: RequestError) -> bool {
    match error {
        RequestError::Rpc(request) => {
            &&& request.method@ == "thread/turns/list"@
            &&& request.error.code == -32600
            &&& contains_text(request.error.message@, "is not materialized yet"@)
        },
        RequestError::Failed(_) => false,
    }
}

pub fn is_unmaterialized_turn_history_error(error: &RequestError) -> (unmaterialized: bool)
    ensures
        unmaterialized == is_unmaterialized(*error),
{
    match error {
        RequestError::Rpc(request) => same_text(request.method.as_str(), "thread/turns/list")
            && request.error.code == -32600 && contains(
            request.error.message.as_str(),
            "is not materialized yet",
        ),
        RequestError::Failed(_) => false,
    }
}

/// The parameters of a poll.
pub open spec fn poll_params_view(wait: WaitView) -> JsonView {
    JsonView::empty_object().with("threadId"@, JsonView::Str(wait.thread_id)).with(
        "limit"@,
        JsonView::Number {
            text: crate::text::decimal(wait.poll_limit as int),
            integer: Some(wait.poll_limit as i64),
        },
    ).with("sortDirection"@, JsonView::Str("desc"@)).with("itemsView"@, JsonView::Str("full"@))
}

pub fn poll_params(wait: &TurnWaitContext) -> (params: Json)
    ensures
        params@ == poll_params_view(wait@),
{
    Json::object().with("threadId", Json::string(wait.thread_id)).with(
        "limit",
        Json::integer(wait.poll_limit as i64),
    ).with("sortDirection", Json::string("desc")).with("itemsView", Json::string("full"))
}

/// What comes of the first `n` of some notifications, up to the one that ends the turn or
/// is at fault.
pub open spec fn processed_first(
    wait: WaitView,
    notifications: Seq<NotificationView>,
    n: nat,
    registry: RegistryView,
    progress: ProgressView,
) -> ProcessView
    decreases n,
{
    if n == 0 {
        ProcessView { registry, progress, result: Ok(None) }
    } else {
        let before = processed_first(wait, notifications, (n - 1) as nat, registry, progress);
        if before.result == Ok::<Option<TerminalView>, Seq<char>>(None) {
            processed(wait, notifications[n - 1], before.registry, before.progress)
        } else {
            before
        }
    }
}

proof fn lemma_processed_ends(
    wait: WaitView,
    notifications: Seq<NotificationView>,
    n: nat,
    m: nat,
    registry: RegistryView,
    progress: ProgressView,
)
    requires
        n <= m,
        processed_first(wait, notifications, n, registry, progress).result != Ok::<
            Option<TerminalView>,
            Seq<char>,
        >(None),
    ensures
        processed_first(wait, notifications, m, registry, progress) == processed_first(
            wait,
            notifications,
            n,
            registry,
            progress,
        ),
    decreases m,
{
    if n < m {
        lemma_processed_ends(wait, notifications, n, (m - 1) as nat, registry, progress);
    }
}

/// The event about new content that a poll found.
pub open spec fn poll_event(wait: WaitView, update: (ItemIdsView, Seq<char>)) -> JsonView {
    with_item_ids(
        event_head("progress"@, wait.server, wait.thread_id, wait.turn_id),
        update.0,
    ).with("text"@, JsonView::Str(update.1)).with("source"@, JsonView::Str("poll"@))
}

/// The progress with the events of the first `n` updates, up to one too many.
#[verifier::ext_equal]
pub struct PushedView {
    pub progress: ProgressView,
    pub failed: bool,
}

pub open spec fn pushed_updates(
    wait: WaitView,
    progress: ProgressView,
    updates: Seq<(ItemIdsView, Seq<char>)>,
    n: nat,
) -> PushedView
    decreases n,
{
    if n == 0 {
        PushedView { progress, failed: false }
    } else {
        let before = pushed_updates(wait, progress, updates, (n - 1) as nat);
        let event = poll_event(wait, updates[n - 1]);
        if before.failed {
            before
        } else if before.progress.has_room(event) {
            PushedView { progress: before.progress.pushed(event), failed: false }
        } else {
            PushedView { failed: true, ..before }
        }
    }
}

proof fn lemma_pushed_failed(
    wait: WaitView,
    progress: ProgressView,
    updates: Seq<(ItemIdsView, Seq<char>)>,
    n: nat,
    m: nat,
)
    requires
        n <= m,
        pushed_updates(wait, progress, updates, n).failed,
    ensures
        pushed_updates(wait, progress, updates, m) == pushed_updates(wait, progress, updates, n),
    decreases m,
{
    if n < m {
        lemma_pushed_failed(wait, progress, updates, n, (m - 1) as nat);
    }
}

/// What comes of a poll.
#[verifier::ext_equal]
pub struct PollView {
    pub wait: WaitView,
    pub registry: RegistryView,
    pub progress: ProgressView,
    pub result: Result<Option<TerminalView>, TurnFault>,
}

pub open spec fn app_server_fault<T>(text: Seq<char>) -> Result<T, TurnFault> {
    Err(TurnFault::AppServer(text))
}

/// What comes of the turn that a poll found.
pub open spec fn polled_state(
    wait: WaitView,
    turn: JsonView,
    registry: RegistryView,
    progress: ProgressView,
) -> PollView {
    let status = reported_status(turn);
    let sync = synced_turn(registry, turn);
    let pushed = pushed_updates(wait, progress, sync.updates, sync.updates.len());
    let event = status_event(
        status,
        wait.server,
        wait.thread_id,
        wait.turn_id,
        Some("poll"@),
        turn,
    );
    if status_fault(turn) is Some {
        PollView { wait, registry, progress, result: app_server_fault(status_fault(turn)->0) }
    } else if sync.failed {
        PollView {
            wait,
            registry: sync.registry,
            progress,
            result: app_server_fault(item_limit_message()),
        }
    } else if pushed.failed {
        PollView {
            wait,
            registry: sync.registry,
            progress: pushed.progress,
            result: app_server_fault(progress_limit_message()),
        }
    } else if !is_terminal_status(status) {
        PollView { wait, registry: sync.registry, progress: pushed.progress, result: Ok(None) }
    } else if !pushed.progress.has_room(event) {
        PollView {
            wait,
            registry: sync.registry,
            progress: pushed.progress,
            result: app_server_fault(progress_limit_message()),
        }
    } else {
        let after = pushed.progress.pushed(event);
        PollView {
            wait,
            registry: sync.registry,
            progress: after,
            result: Ok(Some(terminal_view(wait, status, sync.registry, after.values))),
        }
    }
}

/// What comes of the answer to a poll.
pub open spec fn poll_answered(
    wait: WaitView,
    reply: Result<Json, RequestError>,
    registry: RegistryView,
    progress: ProgressView,
) -> PollView {
    match reply {
        Err(error) => PollView {
            wait,
            registry,
            progress,
            result: if is_unmaterialized(error) {
                Ok(None)
            } else {
                Err(TurnFault::Request(error))
            },
        },
        Ok(result) => match result@.field("data"@).as_array() {
            None => PollView {
                wait,
                registry,
                progress,
                result: app_server_fault("thread/turns/list response missing data array"@),
            },
            Some(turns) => match polled_turn(wait, turns) {
                None => PollView { wait, registry, progress, result: Ok(None) },
                Some(turn) => polled_state(
                    wait_after_poll(wait, turns),
                    turn,
                    registry,
                    progress,
                ),
            },
        },
    }
}

/// What an overfull buffer is refused with.
pub open spec fn early_limit_message(method: Seq<char>) -> Seq<char> {
    method
        + " exceeded the pre-response notification limit (10000 events or 16777216 bytes)"@
}

pub fn early_limit_error(method: &str) -> (error: AppServerError)
    ensures
        error.message@ == early_limit_message(method@),
{
    let mut message = method.to_owned();
    message.append(
        " exceeded the pre-response notification limit (10000 events or 16777216 bytes)",
    );
    AppServerError { message }
}

/// What comes of a poll: first of the notifications that came in before its answer, then of
/// the answer.
pub open spec fn poll_outcome(
    wait: WaitView,
    notifications: Seq<NotificationView>,
    overflowed: bool,
    reply: Result<Json, RequestError>,
    registry: RegistryView,
    progress: ProgressView,
) -> PollView {
    let first = processed_first(wait, notifications, notifications.len(), registry, progress);
    match first.result {
        Err(fault) => PollView {
            wait,
            registry: first.registry,
            progress: first.progress,
            result: app_server_fault(fault),
        },
        Ok(Some(terminal)) => PollView {
            wait,
            registry: first.registry,
            progress: first.progress,
            result: Ok(Some(terminal)),
        },
        Ok(None) => if overflowed {
            PollView {
                wait,
                registry: first.registry,
                progress: first.progress,
                result: app_server_fault(early_limit_message("thread/turns/list"@)),
            }
        } else {
            poll_answered(wait, reply, first.registry, first.progress)
        },
    }
}

/// The view of what came of a poll.
pub open spec fn poll_result_view(result: Result<Option<TurnTerminal>, TurnError>) -> Result<
    Option<TerminalView>,
    TurnFault,
> {
    match result {
        Ok(Some(terminal)) => Ok(Some(terminal@)),
        Ok(None) => Ok(None),
        Err(error) => Err(error@),
    }
}

/// Takes over the turn that a poll found.
fn take_over_turn(
    wait: &TurnWaitContext,
    turn: &Json,
    assistant: &mut AssistantResponses,
    events: &mut ProgressEvents,
) -> (result: Result<Option<TurnTerminal>, TurnError>)
    requires
        old(assistant).wf(),
    ensures
        final(assistant).wf(),
        polled_state(wait@, turn@, old(assistant)@, old(events)@) == (PollView {
            wait: wait@,
            registry: final(assistant)@,
            progress: final(events)@,
            result: poll_result_view(result),
        }),
        old(events)@.wf() ==> final(events)@.wf(),
        final(events)@.values.len() >= old(events)@.values.len(),
{
    if let Err(error) = reject_unknown_turn_status(turn) {
        return Err(TurnError::AppServer(error));
    }
    let status = turn_status(turn);
    let updates = match assistant.sync_from_turn(turn) {
        Ok(updates) => updates,
        Err(error) => {
            return Err(TurnError::AppServer(error));
        },
    };
    let ghost all = updates_view(updates@);
    let ghost before = events@;
    let ghost registry = assistant@;
    let mut i: usize = 0;
    while i < updates.len()
        invariant
            i <= updates@.len(),
            assistant.wf(),
            assistant@ == registry,
            before == old(events)@,
            all == updates_view(updates@),
            status_fault(turn@) is None,
            synced_turn(old(assistant)@, turn@).registry == registry,
            synced_turn(old(assistant)@, turn@).updates == all,
            !synced_turn(old(assistant)@, turn@).failed,
            pushed_updates(wait@, before, all, i as nat) == (PushedView {
                progress: events@,
                failed: false,
            }),
            before.wf() ==> events@.wf(),
            events@.values.len() >= before.values.len(),
        decreases updates@.len() - i,
    {
        let update = &updates[i];
        assert(all[i as int] == (update.0@, update.1@));
        let mut event = new_event(
            "progress",
            wait.target.server.as_str(),
            wait.thread_id,
            wait.turn_id.as_str(),
        );
        insert_item_ids(&mut event, &update.0);
        event.set("text", Json::string(update.1.as_str()));
        event.set("source", Json::string("poll"));
        i += 1;
        if let Err(error) = events.push(event) {
            proof {
                lemma_pushed_failed(wait@, before, all, i as nat, all.len());
            }
            return Err(TurnError::AppServer(error));
        }
    }
    if !is_terminal(status) {
        return Ok(None);
    }
    let event = new_status_event(
        status,
        wait.target.server.as_str(),
        wait.thread_id,
        wait.turn_id.as_str(),
        Some("poll"),
        turn,
    );
    if let Err(error) = events.push(event) {
        return Err(TurnError::AppServer(error));
    }
    Ok(Some(turn_terminal(wait, status, assistant, events.as_slice())))
}

/// Takes the outcome of a poll: the notifications that came in before the answer, and the
/// answer.
pub fn poll_turn_completion(
    wait: &mut TurnWaitContext,
    notifications: EarlyNotificationBuffer,
    reply: Result<Json, RequestError>,
    assistant: &mut AssistantResponses,
    events: &mut ProgressEvents,
) -> (result: Result<Option<TurnTerminal>, TurnError>)
    requires
        old(assistant).wf(),
    ensures
        final(assistant).wf(),
        final(wait).target == old(wait).target,
        poll_outcome(
            old(wait)@,
            notification_views(notifications.notifications@),
            notifications.overflowed,
            reply,
            old(assistant)@,
            old(events)@,
        ) == (PollView {
            wait: final(wait)@,
            registry: final(assistant)@,
            progress: final(events)@,
            result: poll_result_view(result),
        }),
        old(events)@.wf() ==> final(events)@.wf(),
        final(events)@.values.len() >= old(events)@.values.len(),
{
    let overflowed = notifications.overflowed;
    let ghost all = notification_views(notifications.notifications@);
    let ghost list = notifications.notifications@;
    for notification in it: notifications.notifications
        invariant
            it.seq() == list,
            all == notification_views(list),
            assistant.wf(),
            *wait == *old(wait),
            processed_first(old(wait)@, all, it.index() as nat, old(assistant)@, old(events)@) == (
            ProcessView { registry: assistant@, progress: events@, result: Ok(None) }),
            all == notification_views(notifications.notifications@),
            old(events)@.wf() ==> events@.wf(),
            events@.values.len() >= old(events)@.values.len(),
    {
        let ghost n = (it.index() + 1) as nat;
        assert(all[it.index()] == notification@);
        match process_turn_notification(wait, notification, assistant, events) {
            Ok(Some(terminal)) => {
                proof {
                    lemma_processed_ends(
                        old(wait)@,
                        all,
                        n,
                        all.len(),
                        old(assistant)@,
                        old(events)@,
                    );
                }
                return Ok(Some(terminal));
            },
            Ok(None) => {},
            Err(error) => {
                proof {
                    lemma_processed_ends(
                        old(wait)@,
                        all,
                        n,
                        all.len(),
                        old(assistant)@,
                        old(events)@,
                    );
                }
                return Err(TurnError::AppServer(error));
            },
        }
    }
    if overflowed {
        return Err(TurnError::AppServer(early_limit_error("thread/turns/list")));
    }
    let result = match reply {
        Ok(result) => result,
        Err(error) => {
            return if is_unmaterialized_turn_history_error(&error) {
                Ok(None)
            } else {
                Err(TurnError::Request(error))
            };
        },
    };
    if result.field("data").as_array().is_none() {
        return Err(
            TurnError::AppServer(
                app_server_error("thread/turns/list response missing data array"),
            ),
        );
    }
    match poll_result_turn(wait, &result) {
        Some(turn) => take_over_turn(wait, turn, assistant, events),
        None => Ok(None),
    }
}

} // verus!
