use vstd::prelude::*;

use crate::errors::AppServerError;
use crate::json::{Json, JsonView};
use crate::rpc::{Notification, RequestError};
use crate::text::{concat3, slice_view};
use crate::turns::assistant::EntryView;
use crate::turns::buffers::{
    json_views, new_events, progress_limit_message, EarlyNotificationBuffer, ProgressEvents,
    ProgressView,
};
use crate::turns::poll::{
    poll_outcome, poll_params, poll_params_view, poll_turn_completion, TurnError, TurnFault,
};
use crate::turns::registry::{AssistantResponses, RegistryView};
use crate::turns::replay::notification_views;
use crate::turns::requests::AttachedTurnWaitOptions;
use crate::turns::snapshot::assistant_for_wait;
use crate::turns::wait::{
    is_evidence, notification_concerns_turn, process_turn_notification, processed, TerminalView,
    TurnWaitContext, TurnWaitOutcome, WaitView,
};
use crate::words::{parse_u64, parsed_u64, trim, trimmed};

verus! {

/// How long the watched turn must stay silent before it is polled, where nothing else is
/// set, in seconds.
pub const TURN_POLL_QUIET_SECS_DEFAULT: u64 = 3;

/// The environment variable that sets it.
pub const TURN_POLL_QUIET_SECS_ENV: &'static str = "CODEX_TAMER_TURN_POLL_QUIET_SECS";

/// The seconds of silence that a setting asks for: at least one and at most three hundred,
/// and the default where it is absent or no number.
pub open spec fn quiet_secs(setting: Option<Seq<char>>) -> u64 {
    match setting {
        Some(text) => match parsed_u64(trimmed(text)) {
            Some(n) => if n < 1 {
                1
            } else if n > 300 {
                300
            } else {
                n
            },
            None => TURN_POLL_QUIET_SECS_DEFAULT,
        },
        None => TURN_POLL_QUIET_SECS_DEFAULT,
    }
}

pub fn turn_poll_quiet_secs(setting: Option<&str>) -> (seconds: u64)
    ensures
        seconds == quiet_secs(slice_view(setting)),
{
    match setting {
        Some(text) => match parse_u64(trim(text)) {
            Some(n) => if n < 1 {
                1
            } else if n > 300 {
                300
            } else {
                n
            },
            None => TURN_POLL_QUIET_SECS_DEFAULT,
        },
        None => TURN_POLL_QUIET_SECS_DEFAULT,
    }
}

/// A wait for the end of a turn. The live subscription is its primary source; polling is the
/// fallback for a turn whose notifications stop arriving or never match, such as one that
/// was started under a temporary id.
pub struct TurnWait<'a> {
    pub context: TurnWaitContext<'a>,
    /// The id that the turn was first known under.
    pub started_turn_id: String,
    pub assistant: AssistantResponses,
    pub events: ProgressEvents,
    /// When the turn last gave a sign of life, in nanoseconds of a monotonic clock.
    pub last_evidence: u64,
}

/// The mathematical value of a [`TurnWait`].
#[verifier::ext_equal]
pub struct WaiterView {
    pub wait: WaitView,
    pub started_turn_id: Seq<char>,
    pub registry: RegistryView,
    pub progress: ProgressView,
    pub last_evidence: u64,
}

impl<'a> View for TurnWait<'a> {
    type V = WaiterView;

    open spec fn view(&self) -> WaiterView {
        WaiterView {
            wait: self.context@,
            started_turn_id: self.started_turn_id@,
            registry: self.assistant@,
            progress: self.events@,
            last_evidence: self.last_evidence,
        }
    }
}

/// What a wait is told. Times are in nanoseconds of a monotonic clock.
pub enum WaitInput {
    /// The wait has taken as long as it may.
    Timeout,
    /// The user wants to wait no longer.
    Interrupt,
    Notification { notification: Notification, now: u64 },
    /// The clock ticked; the turn is polled after `quiet` nanoseconds of silence.
    Tick { now: u64, quiet: u64 },
    /// A poll was answered, after these notifications.
    Polled {
        notifications: EarlyNotificationBuffer,
        reply: Result<Json, RequestError>,
        now: u64,
    },
}

/// What to do next.
pub enum WaitAction {
    Listen,
    Poll { params: Json },
    Emit { events: Vec<Json> },
    Finish { events: Vec<Json>, outcome: TurnWaitOutcome },
    Fail { error: TurnError },
}

/// The mathematical value of a [`WaitAction`].
pub enum ActionView {
    Listen,
    Poll { params: JsonView },
    Emit { events: Seq<JsonView> },
    Terminal { events: Seq<JsonView>, terminal: TerminalView },
    Interrupted { thread_id: Seq<char>, turn_id: Seq<char> },
    Fail { fault: TurnFault },
}

pub open spec fn action_is(action: WaitAction, view: ActionView) -> bool {
    match (action, view) {
        (WaitAction::Listen, ActionView::Listen) => true,
        (WaitAction::Poll { params }, ActionView::Poll { params: expected }) => params@ == expected,
        (WaitAction::Emit { events }, ActionView::Emit { events: expected }) => json_views(events@)
            == expected,
        (
            WaitAction::Finish { events, outcome: TurnWaitOutcome::Terminal(terminal) },
            ActionView::Terminal { events: expected, terminal: report },
        ) => json_views(events@) == expected && terminal@ == report,
        (
            WaitAction::Finish {
                events,
                outcome: TurnWaitOutcome::LocalInterrupt { thread_id, turn_id },
            },
            ActionView::Interrupted { thread_id: thread, turn_id: turn },
        ) => events@.len() == 0 && thread_id@ == thread && turn_id@ == turn,
        (WaitAction::Fail { error }, ActionView::Fail { fault }) => error@ == fault,
        _ => false,
    }
}

/// What a wait that took too long fails with.
pub open spec fn timeout_message(turn_id: Seq<char>) -> Seq<char> {
    "timed out waiting for turn `"@ + turn_id + "` to complete"@
}

pub fn turn_timeout_error(turn_id: &str) -> (error: AppServerError)
    ensures
        error.message@ == timeout_message(turn_id@),
{
    AppServerError { message: concat3("timed out waiting for turn `", turn_id, "` to complete") }
}

/// A wait after what it was told, and what to do next.
pub open spec fn stepped(waiter: WaiterView, input: WaitInput) -> (WaiterView, ActionView) {
    match input {
        WaitInput::Timeout => (
            waiter,
            ActionView::Fail {
                fault: TurnFault::AppServer(timeout_message(waiter.started_turn_id)),
            },
        ),
        WaitInput::Interrupt => (
            waiter,
            ActionView::Interrupted {
                thread_id: waiter.wait.thread_id,
                turn_id: waiter.wait.turn_id,
            },
        ),
        WaitInput::Notification { notification, now } => {
            let after = processed(waiter.wait, notification@, waiter.registry, waiter.progress);
            let next = WaiterView {
                registry: after.registry,
                progress: after.progress,
                last_evidence: if is_evidence(waiter.wait, notification@) {
                    now
                } else {
                    waiter.last_evidence
                },
                ..waiter
            };
            let new = after.progress.values.skip(waiter.progress.values.len() as int);
            match after.result {
                Err(fault) => (next, ActionView::Fail { fault: TurnFault::AppServer(fault) }),
                Ok(Some(terminal)) => (next, ActionView::Terminal { events: new, terminal }),
                Ok(None) => (
                    WaiterView { progress: after.progress.released(), ..next },
                    ActionView::Emit { events: new },
                ),
            }
        },
        WaitInput::Tick { now, quiet } => (
            waiter,
            if now < waiter.last_evidence + quiet {
                ActionView::Listen
            } else {
                ActionView::Poll { params: poll_params_view(waiter.wait) }
            },
        ),
        WaitInput::Polled { notifications, reply, now } => {
            let after = poll_outcome(
                waiter.wait,
                notification_views(notifications.notifications@),
                notifications.overflowed,
                reply,
                waiter.registry,
                waiter.progress,
            );
            let next = WaiterView {
                wait: after.wait,
                registry: after.registry,
                progress: after.progress,
                last_evidence: now,
                ..waiter
            };
            let new = after.progress.values.skip(waiter.progress.values.len() as int);
            match after.result {
                Err(fault) => (
                    WaiterView { last_evidence: waiter.last_evidence, ..next },
                    ActionView::Fail { fault },
                ),
                Ok(Some(terminal)) => (next, ActionView::Terminal { events: new, terminal }),
                Ok(None) => (
                    WaiterView { progress: after.progress.released(), ..next },
                    ActionView::Emit { events: new },
                ),
            }
        },
    }
}

/// A wait that begins: with these events kept, as far as events are kept at all.
pub open spec fn starting_wait(
    wait: WaitView,
    initial_events: Seq<JsonView>,
    seed: RegistryView,
    retain_progress: bool,
    now: u64,
) -> Option<WaiterView> {
    match ProgressView::starting(initial_events, retain_progress) {
        Some(progress) => Some(
            WaiterView {
                wait,
                started_turn_id: wait.turn_id,
                registry: if retain_progress {
                    seed
                } else {
                    RegistryView {
                        items: seed.items.map_values(
                            |entry: EntryView| EntryView { text: Seq::empty(), ..entry },
                        ),
                        retain_text: false,
                        ..seed
                    }
                },
                progress,
                last_evidence: now,
            },
        ),
        None => None,
    }
}

/// Begins to wait.
fn begin_wait<'a>(
    context: TurnWaitContext<'a>,
    initial_events: Vec<Json>,
    assistant_seed: AssistantResponses,
    retain_progress: bool,
    now: u64,
) -> (waiting: Result<TurnWait<'a>, AppServerError>)
    requires
        assistant_seed.wf(),
    ensures
        match waiting {
            Ok(wait) => wait.assistant.wf() && wait.events@.wf() && starting_wait(
                context@,
                json_views(initial_events@),
                assistant_seed@,
                retain_progress,
                now,
            ) == Some(wait@),
            Err(error) => ProgressView::starting(
                json_views(initial_events@),
                retain_progress,
            ) is None && error.message@ == progress_limit_message(),
        },
{
    let events = match ProgressEvents::new(initial_events, retain_progress) {
        Ok(events) => events,
        Err(error) => {
            return Err(error);
        },
    };
    let assistant = assistant_for_wait(assistant_seed, retain_progress);
    let started_turn_id = context.turn_id.clone();
    Ok(TurnWait { context, started_turn_id, assistant, events, last_evidence: now })
}

/// Begins to wait for a turn that was attached to.
pub fn wait_for_attached_turn<'a>(
    context: TurnWaitContext<'a>,
    initial_events: Vec<Json>,
    assistant_seed: AssistantResponses,
    options: &AttachedTurnWaitOptions,
    now: u64,
) -> (waiting: Result<TurnWait<'a>, AppServerError>)
    requires
        assistant_seed.wf(),
    ensures
        match waiting {
            Ok(wait) => wait.assistant.wf() && wait.events@.wf() && starting_wait(
                WaitView { poll_limit: options.poll_limit, ..context@ },
                json_views(initial_events@),
                assistant_seed@,
                options.retain_progress,
                now,
            ) == Some(wait@),
            Err(error) => ProgressView::starting(
                json_views(initial_events@),
                options.retain_progress,
            ) is None && error.message@ == progress_limit_message(),
        },
{
    let mut context = context;
    context.poll_limit = options.poll_limit;
    begin_wait(context, initial_events, assistant_seed, options.retain_progress, now)
}

/// Begins to wait for a turn that was started. Events that need not be kept are not even
/// taken over.
pub fn wait_for_turn<'a>(
    context: TurnWaitContext<'a>,
    initial_events: Vec<Json>,
    assistant_seed: AssistantResponses,
    retain_progress: bool,
    now: u64,
) -> (waiting: Result<TurnWait<'a>, AppServerError>)
    requires
        assistant_seed.wf(),
    ensures
        ({
            let kept = if retain_progress {
                json_views(initial_events@)
            } else {
                Seq::empty()
            };
            match waiting {
                Ok(wait) => wait.assistant.wf() && wait.events@.wf() && starting_wait(
                    context@,
                    kept,
                    assistant_seed@,
                    retain_progress,
                    now,
                ) == Some(wait@),
                Err(error) => ProgressView::starting(kept, retain_progress) is None
                    && error.message@ == progress_limit_message(),
            }
        }),
{
    let kept = if retain_progress {
        initial_events
    } else {
        Vec::new()
    };
    assert(!retain_progress ==> json_views(kept@) =~= Seq::empty());
    begin_wait(context, kept, assistant_seed, retain_progress, now)
}

impl<'a> TurnWait<'a> {
    /// Starts the silence anew.
    pub fn start_listening(&mut self, now: u64)
        ensures
            final(self)@ == (WaiterView { last_evidence: now, ..old(self)@ }),
            final(self).assistant == old(self).assistant,
            final(self).events == old(self).events,
    {
        self.last_evidence = now;
    }

    /// Takes in what the wait is told and says what to do next.
    pub fn step(&mut self, input: WaitInput) -> (action: WaitAction)
        requires
            old(self).assistant.wf(),
        ensures
            final(self).assistant.wf(),
            final(self)@ == stepped(old(self)@, input).0,
            action_is(action, stepped(old(self)@, input).1),
            old(self).events@.wf() ==> final(self).events@.wf(),
    {
        match input {
            WaitInput::Timeout => WaitAction::Fail {
                error: TurnError::AppServer(turn_timeout_error(self.started_turn_id.as_str())),
            },
            WaitInput::Interrupt => WaitAction::Finish {
                events: Vec::new(),
                outcome: TurnWaitOutcome::LocalInterrupt {
                    thread_id: self.context.thread_id.to_owned(),
                    turn_id: self.context.turn_id.clone(),
                },
            },
            WaitInput::Notification { notification, now } => {
                if notification_concerns_turn(&self.context, &notification) {
                    self.last_evidence = now;
                }
                let before_len = self.events.len();
                match process_turn_notification(
                    &self.context,
                    notification,
                    &mut self.assistant,
                    &mut self.events,
                ) {
                    Ok(Some(terminal)) => WaitAction::Finish {
                        events: new_events(&self.events, before_len),
                        outcome: TurnWaitOutcome::Terminal(terminal),
                    },
                    Ok(None) => {
                        let events = new_events(&self.events, before_len);
                        self.events.release_emitted();
                        WaitAction::Emit { events }
                    },
                    Err(error) => WaitAction::Fail { error: TurnError::AppServer(error) },
                }
            },
            WaitInput::Tick { now, quiet } => {
                if now < self.last_evidence || now - self.last_evidence < quiet {
                    WaitAction::Listen
                } else {
                    WaitAction::Poll { params: poll_params(&self.context) }
                }
            },
            WaitInput::Polled { notifications, reply, now } => {
                let before_len = self.events.len();
                match poll_turn_completion(
                    &mut self.context,
                    notifications,
                    reply,
                    &mut self.assistant,
                    &mut self.events,
                ) {
                    Ok(Some(terminal)) => {
                        self.last_evidence = now;
                        WaitAction::Finish {
                            events: new_events(&self.events, before_len),
                            outcome: TurnWaitOutcome::Terminal(terminal),
                        }
                    },
                    Ok(None) => {
                        self.last_evidence = now;
                        let events = new_events(&self.events, before_len);
                        self.events.release_emitted();
                        WaitAction::Emit { events }
                    },
                    Err(error) => WaitAction::Fail { error },
                }
            },
        }
    }
}

} // verus!
