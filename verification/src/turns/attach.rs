use vstd::prelude::*;

use crate::config::Target;
use crate::errors::{app_server_error, AppServerError};
use crate::json::{Json, JsonView};
use crate::rpc::NotificationView;
use crate::turns::assistant::EntryView;
use crate::turns::buffers::{
    json_views, progress_limit_message, EarlyNotificationBuffer, ProgressEvents, ProgressView,
};
use crate::turns::events::{
    event_head, is_terminal, is_terminal_status, new_event, new_status_event,
    reject_unknown_turn_status, reported_status, status_event, status_fault, turn_status,
};
use crate::turns::poll::{early_limit_error, early_limit_message, find_turn, is_first_with_id};
use crate::turns::registry::{item_limit_message, responses_json, AssistantResponses, RegistryView};
use crate::turns::replay::{notification_views, reconcile_replayed_deltas, Replay};
use crate::turns::requests::{AttachTurnOptions, StartedTurn, StartedView};
use crate::turns::snapshot::{
    assistant_for_wait, assistant_seed_from_thread_snapshot, seed_of_snapshot,
};
use crate::turns::wait::{
    terminal_view, turn_terminal, TerminalView, TurnTerminal, TurnWaitContext, WaitView,
};
use crate::turns::waiter::{turn_timeout_error, timeout_message};

verus! {

/// What an attach leads to.
pub enum AttachEnd {
    /// The turn has ended already.
    Terminal(TurnTerminal),
    /// The turn is to be waited for.
    Waiting(StartedTurn),
}

/// What comes of the answer to a resume request: the events to emit, in order, and then the
/// end, or a failure.
pub struct AttachOutcome {
    pub emit: Vec<Json>,
    pub end: Result<AttachEnd, AppServerError>,
}

/// The mathematical value of an [`AttachEnd`].
pub enum AttachEndView {
    Terminal(TerminalView),
    Waiting(StartedView),
}

/// The mathematical value of an [`AttachOutcome`].
#[verifier::ext_equal]
pub struct AttachView {
    pub emit: Seq<JsonView>,
    pub end: Result<AttachEndView, Seq<char>>,
}

impl View for AttachOutcome {
    type V = AttachView;

    open spec fn view(&self) -> AttachView {
        AttachView {
            emit: json_views(self.emit@),
            end: match self.end {
                Ok(AttachEnd::Terminal(terminal)) => Ok(AttachEndView::Terminal(terminal@)),
                Ok(AttachEnd::Waiting(started)) => Ok(AttachEndView::Waiting(started@)),
                Err(error) => Err(error.message@),
            },
        }
    }
}

/// What an attach is for.
#[verifier::ext_equal]
pub struct AttachTarget {
    pub server: Seq<char>,
    pub thread_id: Seq<char>,
    pub turn_id: Seq<char>,
    pub poll_limit: u32,
    pub retain_progress: bool,
}

impl AttachTarget {
    /// The event with which an attach begins.
    pub open spec fn attached(self) -> JsonView {
        event_head("attached"@, self.server, self.thread_id, self.turn_id).with(
            "status"@,
            JsonView::Str("attached"@),
        )
    }

    /// The event about what the snapshot holds of one item.
    pub open spec fn snapshot_event(self, response: JsonView) -> JsonView {
        response.with("type"@, JsonView::Str("assistantMessage"@)).with(
            "server"@,
            JsonView::Str(self.server),
        ).with("threadId"@, JsonView::Str(self.thread_id)).with(
            "turnId"@,
            JsonView::Str(self.turn_id),
        ).with("source"@, JsonView::Str("snapshot"@))
    }

    pub open spec fn wait(self) -> WaitView {
        WaitView {
            server: self.server,
            thread_id: self.thread_id,
            turn_id: self.turn_id,
            prompt: None,
            started_after_epoch: None,
            poll_limit: self.poll_limit,
        }
    }
}

/// The events so far: those to emit, those kept, and whether one was too many.
#[verifier::ext_equal]
pub struct Announced {
    pub emit: Seq<JsonView>,
    pub progress: ProgressView,
    pub failed: bool,
}

/// The first `n` snapshot items announced, after `before`.
pub open spec fn announced(
    target: AttachTarget,
    before: Announced,
    responses: Seq<JsonView>,
    n: nat,
) -> Announced
    decreases n,
{
    if n == 0 {
        before
    } else {
        let state = announced(target, before, responses, (n - 1) as nat);
        let event = target.snapshot_event(responses[n - 1]);
        if state.failed {
            state
        } else if !target.retain_progress {
            Announced { emit: state.emit.push(event), ..state }
        } else if state.progress.has_room(event) {
            Announced {
                emit: state.emit.push(event),
                progress: state.progress.pushed(event),
                failed: false,
            }
        } else {
            Announced { failed: true, ..state }
        }
    }
}

proof fn lemma_announced_failed(
    target: AttachTarget,
    before: Announced,
    responses: Seq<JsonView>,
    n: nat,
    m: nat,
)
    requires
        n <= m,
        announced(target, before, responses, n).failed,
    ensures
        announced(target, before, responses, m) == announced(target, before, responses, n),
    decreases m,
{
    if n < m {
        lemma_announced_failed(target, before, responses, n, (m - 1) as nat);
    }
}

/// The accumulator that a wait goes on with.
pub open spec fn seed_for_wait(seed: RegistryView, retain_progress: bool) -> RegistryView {
    if retain_progress {
        seed
    } else {
        RegistryView {
            items: seed.items.map_values(
                |entry: EntryView| EntryView { text: Seq::empty(), ..entry },
            ),
            retain_text: false,
            ..seed
        }
    }
}

/// The turn of the snapshot with this id.
pub open spec fn snapshot_turn(turns: Seq<JsonView>, turn_id: Seq<char>) -> Option<JsonView> {
    if exists|i: int| is_first_with_id(turns, turn_id, i) {
        Some(turns[choose|i: int| is_first_with_id(turns, turn_id, i)])
    } else {
        None
    }
}

/// The progress that an attach starts with.
pub open spec fn first_progress(target: AttachTarget) -> Option<ProgressView> {
    ProgressView::starting(
        if target.retain_progress {
            seq![target.attached()]
        } else {
            Seq::empty()
        },
        target.retain_progress,
    )
}

/// What comes of an attach once the snapshot is known to be sound.
pub open spec fn attach_seeded(
    target: AttachTarget,
    seed: RegistryView,
    turn: Option<JsonView>,
    reconciled: Seq<NotificationView>,
) -> AttachView {
    let emit = seq![target.attached()];
    match first_progress(target) {
        None => AttachView { emit, end: Err(progress_limit_message()) },
        Some(progress) => {
            let responses = responses_json(seed.items);
            let state = announced(
                target,
                Announced { emit, progress, failed: false },
                responses,
                responses.len(),
            );
            let waiting = seed_for_wait(seed, target.retain_progress);
            if state.failed {
                AttachView { emit: state.emit, end: Err(progress_limit_message()) }
            } else if turn is Some && is_terminal_status(reported_status(turn->0)) {
                let status = reported_status(turn->0);
                let event = status_event(
                    status,
                    target.server,
                    target.thread_id,
                    target.turn_id,
                    Some("snapshot"@),
                    turn->0,
                );
                if state.progress.has_room(event) {
                    AttachView {
                        emit: state.emit.push(event),
                        end: Ok(
                            AttachEndView::Terminal(
                                terminal_view(
                                    target.wait(),
                                    status,
                                    waiting,
                                    state.progress.pushed(event).values,
                                ),
                            ),
                        ),
                    }
                } else {
                    AttachView { emit: state.emit, end: Err(progress_limit_message()) }
                }
            } else {
                AttachView {
                    emit: state.emit,
                    end: Ok(
                        AttachEndView::Waiting(
                            StartedView {
                                acceptance: target.attached(),
                                initial_events: state.progress.values,
                                thread_id: target.thread_id,
                                turn_id: target.turn_id,
                                prompt: None,
                                started_after_epoch: None,
                                early_notifications: reconciled,
                                seed: waiting,
                            },
                        ),
                    ),
                }
            }
        },
    }
}

/// What comes of the answer to a resume request, given the notifications that came in before
/// it.
pub open spec fn attach_view(
    target: AttachTarget,
    notifications: Seq<NotificationView>,
    overflowed: bool,
    resume: JsonView,
) -> AttachView {
    let none = Seq::<JsonView>::empty();
    let thread = resume.field("thread"@);
    let turns = thread.field("turns"@).items();
    let turn = snapshot_turn(turns, target.turn_id);
    let seed = seed_of_snapshot(thread, target.turn_id);
    if overflowed {
        AttachView { emit: none, end: Err(early_limit_message("thread/resume"@)) }
    } else if !(thread is Object) {
        AttachView { emit: none, end: Err("thread/resume response missing thread object"@) }
    } else if thread.field("turns"@).as_array() is None {
        AttachView { emit: none, end: Err("thread/resume response missing thread.turns array"@) }
    } else if turn is Some && status_fault(turn->0) is Some {
        AttachView { emit: none, end: Err(status_fault(turn->0)->0) }
    } else if seed is None {
        AttachView { emit: none, end: Err(item_limit_message()) }
    } else {
        let replay = Replay {
            items: seed->0.items,
            thread_id: target.thread_id,
            turn_id: target.turn_id,
            notifications,
        };
        attach_seeded(target, seed->0, turn, replay.output(notifications.len()))
    }
}

proof fn lemma_snapshot_turn(turns: Seq<JsonView>, turn_id: Seq<char>, i: int)
    requires
        is_first_with_id(turns, turn_id, i),
    ensures
        snapshot_turn(turns, turn_id) == Some(turns[i]),
{
    let k = choose|k: int| is_first_with_id(turns, turn_id, k);
    if k < i {
        assert(turns[k].field("id"@).as_str() != Some(turn_id));
    }
    if i < k {
        assert(turns[i].field("id"@).as_str() != Some(turn_id));
    }
}

/// The view of what an attach is for.
pub open spec fn attach_target(target: Target, options: AttachTurnOptions) -> AttachTarget {
    AttachTarget {
        server: target.server@,
        thread_id: options.thread_id@,
        turn_id: options.turn_id@,
        poll_limit: options.poll_limit,
        retain_progress: options.retain_progress,
    }
}

fn failed(emit: Vec<Json>, error: AppServerError) -> (outcome: AttachOutcome)
    ensures
        outcome@ == (AttachView { emit: json_views(emit@), end: Err(error.message@) }),
        !(outcome.end is Ok),
{
    AttachOutcome { emit, end: Err(error) }
}

/// Announces what the snapshot holds and ends the attach.
fn attach_to_seed(
    target: &Target,
    options: &AttachTurnOptions,
    seed: AssistantResponses,
    turn: Option<&Json>,
    reconciled: Vec<crate::rpc::Notification>,
) -> (outcome: AttachOutcome)
    requires
        seed.wf(),
        turn matches Some(turn) ==> turn@.field("status"@).as_str() is Some,
    ensures
        outcome@ == attach_seeded(
            attach_target(*target, *options),
            seed@,
            match turn {
                Some(turn) => Some(turn@),
                None => None,
            },
            notification_views(reconciled@),
        ),
        outcome.end matches Ok(AttachEnd::Waiting(started)) ==> started.assistant_seed.wf(),
{
    let ghost goal = attach_target(*target, *options);
    let server = target.server.as_str();
    let thread_id = options.thread_id.as_str();
    let turn_id = options.turn_id.as_str();
    let retain = options.retain_progress;
    let attached = new_event("attached", server, thread_id, turn_id).with(
        "status",
        Json::string("attached"),
    );
    let mut emit: Vec<Json> = Vec::new();
    emit.push(attached.duplicate());
    assert(json_views(emit@) =~= seq![goal.attached()]);
    let mut first: Vec<Json> = Vec::new();
    if retain {
        first.push(attached.duplicate());
        assert(json_views(first@) =~= seq![goal.attached()]);
    } else {
        assert(json_views(first@) =~= Seq::empty());
    }
    let mut initial_events = match ProgressEvents::new(first, retain) {
        Ok(events) => events,
        Err(error) => {
            return failed(emit, error);
        },
    };
    let ghost before = Announced {
        emit: json_views(emit@),
        progress: initial_events@,
        failed: false,
    };
    let responses = seed.to_json();
    let ghost views = responses_json(seed@.items);
    assert(json_views(responses@) == views);
    let mut i: usize = 0;
    while i < responses.len()
        invariant
            i <= responses@.len(),
            goal == attach_target(*target, *options),
            server@ == goal.server,
            thread_id@ == goal.thread_id,
            turn_id@ == goal.turn_id,
            retain == goal.retain_progress,
            views == json_views(responses@),
            views == responses_json(seed@.items),
            before.emit == seq![goal.attached()],
            first_progress(goal) == Some(before.progress),
            !before.failed,
            announced(goal, before, views, i as nat) == (Announced {
                emit: json_views(emit@),
                progress: initial_events@,
                failed: false,
            }),
        decreases responses@.len() - i,
    {
        let response = &responses[i];
        proof {
            assert(views[i as int] == response@);
            lemma_responses_are_objects(seed@.items, i as int);
        }
        let event = response.duplicate().with("type", Json::string("assistantMessage")).with(
            "server",
            Json::string(server),
        ).with("threadId", Json::string(thread_id)).with("turnId", Json::string(turn_id)).with(
            "source",
            Json::string("snapshot"),
        );
        i += 1;
        if retain {
            if let Err(error) = initial_events.push(event.duplicate()) {
                proof {
                    lemma_announced_failed(goal, before, views, i as nat, views.len());
                }
                return failed(emit, error);
            }
        }
        let ghost so_far = json_views(emit@);
        emit.push(event);
        assert(json_views(emit@) =~= so_far.push(event@));
    }
    let waiting = assistant_for_wait(seed, retain);
    assert(waiting@ =~= seed_for_wait(seed@, retain));
    if let Some(turn) = turn {
        let status = turn_status(turn);
        if is_terminal(status) {
            let event = new_status_event(
                status,
                server,
                thread_id,
                turn_id,
                Some("snapshot"),
                turn,
            );
            if let Err(error) = initial_events.push(event.duplicate()) {
                return failed(emit, error);
            }
            let ghost so_far = json_views(emit@);
            emit.push(event);
            assert(json_views(emit@) =~= so_far.push(event@));
            let wait = TurnWaitContext {
                target,
                thread_id,
                turn_id: turn_id.to_owned(),
                prompt: None,
                started_after_epoch: None,
                poll_limit: options.poll_limit,
            };
            let terminal = turn_terminal(&wait, status, &waiting, initial_events.as_slice());
            return AttachOutcome { emit, end: Ok(AttachEnd::Terminal(terminal)) };
        }
    }
    AttachOutcome {
        emit,
        end: Ok(
            AttachEnd::Waiting(
                StartedTurn {
                    acceptance: attached,
                    initial_events: initial_events.into_values(),
                    thread_id: thread_id.to_owned(),
                    turn_id: turn_id.to_owned(),
                    prompt: None,
                    started_after_epoch: None,
                    early_notifications: reconciled,
                    assistant_seed: waiting,
                },
            ),
        ),
    }
}

proof fn lemma_responses_are_objects(items: Seq<EntryView>, i: int)
    requires
        0 <= i < responses_json(items).len(),
    ensures
        responses_json(items)[i] is Object,
    decreases items.len(),
{
    if items.len() > 0 {
        let before = responses_json(items.drop_last());
        if i < before.len() {
            lemma_responses_are_objects(items.drop_last(), i);
        }
    }
}

/// Takes the answer to a resume request and the notifications that came in before it: says
/// what the snapshot holds, and whether the turn has ended or is to be waited for.
pub fn attach_turn(
    target: &Target,
    options: &AttachTurnOptions,
    early: EarlyNotificationBuffer,
    resume: &Json,
) -> (outcome: AttachOutcome)
    ensures
        outcome@ == attach_view(
            attach_target(*target, *options),
            notification_views(early.notifications@),
            early.overflowed,
            resume@,
        ),
        outcome.end matches Ok(AttachEnd::Waiting(started)) ==> started.assistant_seed.wf(),
{
    let none: Vec<Json> = Vec::new();
    assert(json_views(none@) =~= Seq::empty());
    if early.overflowed {
        return failed(none, early_limit_error("thread/resume"));
    }
    let thread = resume.field("thread");
    if !thread.is_object() {
        return failed(none, app_server_error("thread/resume response missing thread object"));
    }
    let turns = match thread.field("turns").as_array() {
        Some(turns) => turns,
        None => {
            return failed(
                none,
                app_server_error("thread/resume response missing thread.turns array"),
            );
        },
    };
    let ghost views = json_views(turns@);
    assert(thread@.field("turns"@).items() == views);
    let mut turn: Option<&Json> = None;
    if let Some(i) = find_turn(turns, options.turn_id.as_str(), turns.len()) {
        proof {
            lemma_snapshot_turn(views, options.turn_id@, i as int);
            assert(views[i as int] == turns@[i as int]@);
        }
        if let Err(error) = reject_unknown_turn_status(&turns[i]) {
            return failed(none, error);
        }
        turn = Some(&turns[i]);
    } else {
        assert(forall|i: int| !is_first_with_id(views, options.turn_id@, i));
    }
    let seed = match assistant_seed_from_thread_snapshot(thread, options.turn_id.as_str()) {
        Ok(seed) => seed,
        Err(error) => {
            return failed(none, error);
        },
    };
    let reconciled = reconcile_replayed_deltas(
        &seed,
        options.thread_id.as_str(),
        options.turn_id.as_str(),
        early.notifications,
    );
    attach_to_seed(target, options, seed, turn, reconciled)
}

/// How long is left of a wait that may last until `deadline`, in nanoseconds.
pub fn remaining_wait(deadline: u64, now: u64, turn_id: &str) -> (remaining: Result<
    u64,
    AppServerError,
>)
    ensures
        match remaining {
            Ok(left) => now < deadline && left == deadline - now,
            Err(error) => deadline <= now && error.message@ == timeout_message(turn_id@),
        },
{
    if deadline <= now {
        return Err(turn_timeout_error(turn_id));
    }
    Ok(deadline - now)
}

} // verus!
