use vstd::prelude::*;

use crate::config::Target;
use crate::errors::AppServerError;
use crate::json::{Json, JsonView};
use crate::rpc::{Notification, NotificationView};
use crate::text::{same_text, slice_view};
use crate::turns::buffers::{json_views, progress_limit_message, ProgressEvents, ProgressView};
use crate::turns::events::{event_outcome, is_terminal, is_terminal_status, turn_event};
use crate::turns::registry::{responses_json, AssistantResponses, RegistryView};

verus! {

/// What a wait is for.
pub struct TurnWaitContext<'a> {
    pub target: &'a Target,
    pub thread_id: &'a str,
    pub turn_id: String,
    pub prompt: Option<&'a str>,
    pub started_after_epoch: Option<i64>,
    pub poll_limit: u32,
}

/// The mathematical value of a [`TurnWaitContext`].
#[verifier::ext_equal]
pub struct WaitView {
    pub server: Seq<char>,
    pub thread_id: Seq<char>,
    pub turn_id: Seq<char>,
    pub prompt: Option<Seq<char>>,
    pub started_after_epoch: Option<i64>,
    pub poll_limit: u32,
}

impl<'a> View for TurnWaitContext<'a> {
    type V = WaitView;

    open spec fn view(&self) -> WaitView {
        WaitView {
            server: self.target.server@,
            thread_id: self.thread_id@,
            turn_id: self.turn_id@,
            prompt: slice_view(self.prompt),
            started_after_epoch: self.started_after_epoch,
            poll_limit: self.poll_limit,
        }
    }
}

/// The report of a turn that has ended, and the exit code that goes with it.
#[derive(Debug)]
pub struct TurnTerminal {
    pub output: Json,
    pub exit_code: i32,
}

#[verifier::ext_equal]
pub struct TerminalView {
    pub output: JsonView,
    pub exit_code: i32,
}

impl View for TurnTerminal {
    type V = TerminalView;

    open spec fn view(&self) -> TerminalView {
        TerminalView { output: self.output@, exit_code: self.exit_code }
    }
}

/// What a wait ended with.
#[derive(Debug)]
pub enum TurnWaitOutcome {
    Terminal(TurnTerminal),
    LocalInterrupt { thread_id: String, turn_id: String },
}

/// Whether a notification shows that the live subscription still delivers traffic for the
/// watched turn. One for another turn does not: it leaves open that the watched id is stale
/// or temporary, and that only a poll can find the real turn.
pub open spec fn is_evidence(wait: WaitView, notification: NotificationView) -> bool {
    let params = notification.params;
    &&& params.field("threadId"@).is_text(wait.thread_id)
    &&& params.field("turnId"@).is_text(wait.turn_id) || params.field("turn"@).field(
        "id"@,
    ).is_text(wait.turn_id)
}

pub fn notification_concerns_turn(wait: &TurnWaitContext, notification: &Notification) -> (
concerned: bool)
    ensures
        concerned == is_evidence(wait@, notification@),
{
    let params = &notification.params;
    params.field("threadId").is_text(wait.thread_id) && (params.field("turnId").is_text(
        wait.turn_id.as_str(),
    ) || params.field("turn").field("id").is_text(wait.turn_id.as_str()))
}

/// Whether event `i` is the last one with an error.
pub open spec fn is_last_error(events: Seq<JsonView>, i: int) -> bool {
    &&& 0 <= i < events.len()
    &&& !(events[i].field("error"@) is Null)
    &&& forall|j: int| i < j < events.len() ==> (#[trigger] events[j]).field("error"@) is Null
}

/// The report of a turn that ended with this status: what the agent said, the progress that
/// was kept, and the last error among it.
pub open spec fn terminal_view(
    wait: WaitView,
    status: Seq<char>,
    registry: RegistryView,
    events: Seq<JsonView>,
) -> TerminalView {
    let report = JsonView::empty_object().with("server"@, JsonView::Str(wait.server)).with(
        "threadId"@,
        JsonView::Str(wait.thread_id),
    ).with("turnId"@, JsonView::Str(wait.turn_id)).with("status"@, JsonView::Str(status)).with(
        "progress"@,
        JsonView::Array(events),
    ).with("assistantResponses"@, JsonView::Array(responses_json(registry.items))).with(
        "finalAssistantText"@,
        JsonView::Str(registry.final_text()),
    );
    TerminalView {
        output: if exists|i: int| is_last_error(events, i) {
            report.with(
                "error"@,
                events[choose|i: int| is_last_error(events, i)].field("error"@),
            )
        } else {
            report
        },
        exit_code: if status == "completed"@ {
            0
        } else {
            1
        },
    }
}

/// The last error among some events.
fn last_error(events: &[Json]) -> (error: Option<&Json>)
    ensures
        match error {
            Some(error) => exists|i: int|
                is_last_error(json_views(events@), i) && error@ == json_views(events@)[i].field(
                    "error"@,
                ),
            None => forall|i: int| !is_last_error(json_views(events@), i),
        },
{
    let ghost views = json_views(events@);
    let mut i: usize = events.len();
    while i > 0
        invariant
            i <= events@.len(),
            views == json_views(events@),
            forall|j: int|
                i <= j < views.len() ==> (#[trigger] views[j]).field("error"@) is Null,
        decreases i,
    {
        i -= 1;
        let event = &events[i];
        assert(views[i as int] == event@);
        let error = event.field("error");
        if !error.is_null() {
            assert(is_last_error(views, i as int));
            return Some(error);
        }
    }
    None
}

/// Copies of some values, as a JSON array.
fn array_of(values: &[Json]) -> (array: Json)
    ensures
        array@ == JsonView::Array(json_views(values@)),
{
    let mut items: Vec<Json> = Vec::new();
    let mut i: usize = 0;
    while i < values.len()
        invariant
            i <= values@.len(),
            items@.len() == i,
            forall|j: int| 0 <= j < i ==> (#[trigger] items@[j])@ == values@[j]@,
        decreases values@.len() - i,
    {
        items.push(values[i].duplicate());
        i += 1;
    }
    let array = Json::Array(items);
    assert(array@->Array_0 =~= json_views(values@));
    array
}

pub fn turn_terminal(
    wait: &TurnWaitContext,
    status: &str,
    assistant: &AssistantResponses,
    events: &[Json],
) -> (terminal: TurnTerminal)
    ensures
        terminal@ == terminal_view(wait@, status@, assistant@, json_views(events@)),
{
    let ghost views = json_views(events@);
    let responses = Json::Array(assistant.to_json());
    assert(responses@->Array_0 =~= responses_json(assistant@.items));
    let mut output = Json::object().with("server", Json::string(wait.target.server.as_str())).with(
        "threadId",
        Json::string(wait.thread_id),
    ).with("turnId", Json::string(wait.turn_id.as_str())).with("status", Json::string(status)).with(
        "progress",
        array_of(events),
    ).with("assistantResponses", responses).with(
        "finalAssistantText",
        Json::Str(assistant.final_text()),
    );
    if let Some(error) = last_error(events) {
        proof {
            let i = choose|i: int| is_last_error(views, i) && error@ == views[i].field("error"@);
            let k = choose|k: int| is_last_error(views, k);
            assert(i == k) by {
                if i < k {
                    assert(views[k].field("error"@) is Null);
                }
                if k < i {
                    assert(views[i].field("error"@) is Null);
                }
            }
        }
        output.set("error", error.duplicate());
    }
    let exit_code: i32 = if same_text(status, "completed") {
        0
    } else {
        1
    };
    TurnTerminal { output, exit_code }
}

/// What comes of a notification for a wait: the registry and the progress after it, and the
/// report, where it ended the turn, or what went wrong.
#[verifier::ext_equal]
pub struct ProcessView {
    pub registry: RegistryView,
    pub progress: ProgressView,
    pub result: Result<Option<TerminalView>, Seq<char>>,
}

pub open spec fn processed(
    wait: WaitView,
    notification: NotificationView,
    registry: RegistryView,
    progress: ProgressView,
) -> ProcessView {
    let outcome = event_outcome(
        registry,
        wait.server,
        wait.thread_id,
        wait.turn_id,
        notification,
    );
    let after = outcome.registry;
    match outcome.event {
        Err(fault) => ProcessView { registry: after, progress, result: Err(fault) },
        Ok(None) => ProcessView { registry: after, progress, result: Ok(None) },
        Ok(Some(event)) => if !progress.has_room(event) {
            ProcessView { registry: after, progress, result: Err(progress_limit_message()) }
        } else {
            let kept = progress.pushed(event);
            ProcessView {
                registry: after,
                progress: kept,
                result: Ok(
                    match event.field("status"@).as_str() {
                        Some(status) => if is_terminal_status(status) {
                            Some(terminal_view(wait, status, after, kept.values))
                        } else {
                            None
                        },
                        None => None,
                    },
                ),
            }
        },
    }
}

/// The view of what came of a notification or a poll.
pub open spec fn process_result_view(result: Result<Option<TurnTerminal>, AppServerError>) -> Result<
    Option<TerminalView>,
    Seq<char>,
> {
    match result {
        Ok(Some(terminal)) => Ok(Some(terminal@)),
        Ok(None) => Ok(None),
        Err(error) => Err(error.message@),
    }
}

pub fn process_turn_notification(
    wait: &TurnWaitContext,
    notification: Notification,
    assistant: &mut AssistantResponses,
    events: &mut ProgressEvents,
) -> (result: Result<Option<TurnTerminal>, AppServerError>)
    requires
        old(assistant).wf(),
    ensures
        final(assistant).wf(),
        processed(wait@, notification@, old(assistant)@, old(events)@) == (ProcessView {
            registry: final(assistant)@,
            progress: final(events)@,
            result: process_result_view(result),
        }),
        old(events)@.wf() ==> final(events)@.wf(),
        final(events)@.values.len() >= old(events)@.values.len(),
{
    let event = match turn_event(
        wait.target.server.as_str(),
        wait.thread_id,
        wait.turn_id.as_str(),
        notification,
        assistant,
    ) {
        Ok(Some(event)) => event,
        Ok(None) => {
            return Ok(None);
        },
        Err(error) => {
            return Err(error);
        },
    };
    let status: Option<String> = match event.field("status").as_str() {
        Some(status) => Some(status.to_owned()),
        None => None,
    };
    if let Err(error) = events.push(event) {
        return Err(error);
    }
    match status {
        Some(status) => if is_terminal(status.as_str()) {
            Ok(Some(turn_terminal(wait, status.as_str(), assistant, events.as_slice())))
        } else {
            Ok(None)
        },
        None => Ok(None),
    }
}

} // verus!
