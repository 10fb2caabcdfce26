use core::time::Duration;

use vstd::prelude::*;

use crate::config::Target;
use crate::errors::{app_server_error, AppServerError};
use crate::json::{Json, JsonView};
use crate::rpc::{Notification, NotificationView};
use crate::text::{concat5, same_text, text_view};
use crate::turns::buffers::{json_views, EarlyNotificationBuffer};
use crate::turns::events::{event_head, insert_opt, new_event};
use crate::turns::poll::{early_limit_error, early_limit_message};
use crate::turns::registry::{AssistantResponses, RegistryView};
use crate::turns::replay::notification_views;

verus! {

/// How a turn is to be started.
#[derive(Debug)]
pub struct TurnStartOptions {
    pub model: Option<String>,
    pub effort: Option<String>,
    pub service_tier: Option<String>,
    pub yolo: bool,
}

/// How a turn is to be attached to.
pub struct AttachTurnOptions {
    pub thread_id: String,
    pub turn_id: String,
    pub yolo: bool,
    pub poll_limit: u32,
    pub timeout: Duration,
    pub retain_progress: bool,
}

/// How a turn that was attached to is to be waited for.
pub struct AttachedTurnWaitOptions {
    pub poll_limit: u32,
    pub timeout: Duration,
    pub retain_progress: bool,
}

/// A turn that was started or attached to and can be waited for.
pub struct StartedTurn {
    pub acceptance: Json,
    pub initial_events: Vec<Json>,
    pub thread_id: String,
    pub turn_id: String,
    pub prompt: Option<String>,
    pub started_after_epoch: Option<i64>,
    pub early_notifications: Vec<Notification>,
    pub assistant_seed: AssistantResponses,
}

/// The mathematical value of a [`StartedTurn`].
#[verifier::ext_equal]
pub struct StartedView {
    pub acceptance: JsonView,
    pub initial_events: Seq<JsonView>,
    pub thread_id: Seq<char>,
    pub turn_id: Seq<char>,
    pub prompt: Option<Seq<char>>,
    pub started_after_epoch: Option<i64>,
    pub early_notifications: Seq<NotificationView>,
    pub seed: RegistryView,
}

impl View for StartedTurn {
    type V = StartedView;

    open spec fn view(&self) -> StartedView {
        StartedView {
            acceptance: self.acceptance@,
            initial_events: json_views(self.initial_events@),
            thread_id: self.thread_id@,
            turn_id: self.turn_id@,
            prompt: text_view(self.prompt),
            started_after_epoch: self.started_after_epoch,
            early_notifications: notification_views(self.early_notifications@),
            seed: self.assistant_seed@,
        }
    }
}

/// A prompt as the input of a turn.
pub open spec fn prompt_input(prompt: Seq<char>) -> JsonView {
    let text = JsonView::empty_object().with("type"@, JsonView::Str("text"@)).with(
        "text"@,
        JsonView::Str(prompt),
    ).with("textElements"@, JsonView::Array(Seq::empty()));
    JsonView::Array(seq![text])
}

fn input_of(prompt: &str) -> (input: Json)
    ensures
        input@ == prompt_input(prompt@),
{
    let none = Json::Array(Vec::new());
    assert(none@->Array_0 =~= Seq::empty());
    let text = Json::object().with("type", Json::string("text")).with(
        "text",
        Json::string(prompt),
    ).with("textElements", none);
    let mut items: Vec<Json> = Vec::new();
    items.push(text);
    let input = Json::Array(items);
    assert(input@->Array_0 =~= prompt_input(prompt@)->Array_0);
    input
}

/// Parameters with one more, where there is a value for it.
pub open spec fn with_opt(params: JsonView, key: Seq<char>, value: Option<Seq<char>>) -> JsonView {
    match value {
        Some(value) => params.with(key, JsonView::Str(value)),
        None => params,
    }
}

/// Parameters that leave everything to the agent.
pub open spec fn with_yolo_permissions(params: JsonView) -> JsonView {
    params.with("approvalPolicy"@, JsonView::Str("never"@)).with(
        "sandboxPolicy"@,
        JsonView::empty_object().with("type"@, JsonView::Str("dangerFullAccess"@)),
    )
}

pub fn insert_turn_yolo_permissions(map: &mut Json)
    requires
        old(map)@ is Object,
    ensures
        final(map)@ is Object,
        final(map)@ == with_yolo_permissions(old(map)@),
{
    map.set("approvalPolicy", Json::string("never"));
    map.set("sandboxPolicy", Json::object().with("type", Json::string("dangerFullAccess")));
}

/// The parameters with which a turn is started.
pub open spec fn start_params_view(
    thread_id: Seq<char>,
    prompt: Seq<char>,
    options: TurnStartOptions,
) -> JsonView {
    let bare = JsonView::empty_object().with("threadId"@, JsonView::Str(thread_id)).with(
        "input"@,
        prompt_input(prompt),
    );
    let permitted = if options.yolo {
        with_yolo_permissions(bare)
    } else {
        bare
    };
    with_opt(
        with_opt(
            with_opt(permitted, "model"@, text_view(options.model)),
            "effort"@,
            text_view(options.effort),
        ),
        "serviceTier"@,
        text_view(options.service_tier),
    )
}

pub fn start_turn_params(thread_id: &str, prompt: &str, options: &TurnStartOptions) -> (params:
    Json)
    ensures
        params@ == start_params_view(thread_id@, prompt@, *options),
{
    let mut params = Json::object().with("threadId", Json::string(thread_id)).with(
        "input",
        input_of(prompt),
    );
    if options.yolo {
        insert_turn_yolo_permissions(&mut params);
    }
    insert_opt(&mut params, "model", &options.model);
    insert_opt(&mut params, "effort", &options.effort);
    insert_opt(&mut params, "serviceTier", &options.service_tier);
    params
}

/// The report that a request about a turn was accepted.
pub open spec fn accepted_view(
    server: Seq<char>,
    thread_id: Seq<char>,
    turn_id: Seq<char>,
) -> JsonView {
    JsonView::empty_object().with("server"@, JsonView::Str(server)).with(
        "threadId"@,
        JsonView::Str(thread_id),
    ).with("turnId"@, JsonView::Str(turn_id)).with("status"@, JsonView::Str("accepted"@))
}

fn accepted(server: &str, thread_id: &str, turn_id: &str) -> (report: Json)
    ensures
        report@ == accepted_view(server@, thread_id@, turn_id@),
{
    Json::object().with("server", Json::string(server)).with(
        "threadId",
        Json::string(thread_id),
    ).with("turnId", Json::string(turn_id)).with("status", Json::string("accepted"))
}

/// The second before the given one, which a turn started then is not older than.
pub open spec fn second_before(now: i64) -> i64 {
    if now == i64::MIN {
        now
    } else {
        (now - 1) as i64
    }
}

/// The turn that the answer to a start request speaks of, or what is wrong with it.
pub open spec fn started_view(
    server: Seq<char>,
    thread_id: Seq<char>,
    prompt: Seq<char>,
    now: i64,
    result: JsonView,
    notifications: Seq<NotificationView>,
    overflowed: bool,
) -> Result<StartedView, Seq<char>> {
    match result.field("turn"@).field("id"@).as_str() {
        None => Err("turn/start response missing turn.id"@),
        Some(turn_id) => if overflowed {
            Err(early_limit_message("turn/start"@))
        } else {
            let acceptance = event_head("accepted"@, server, thread_id, turn_id).with(
                "status"@,
                JsonView::Str("accepted"@),
            );
            Ok(
                StartedView {
                    acceptance,
                    initial_events: seq![acceptance],
                    thread_id,
                    turn_id,
                    prompt: Some(prompt),
                    started_after_epoch: Some(second_before(now)),
                    early_notifications: notifications,
                    seed: RegistryView::empty(),
                },
            )
        },
    }
}

/// Takes the answer to a start request that was sent at `now`, in seconds of the epoch.
pub fn start_turn(
    target: &Target,
    thread_id: String,
    prompt: String,
    now: i64,
    result: &Json,
    early: EarlyNotificationBuffer,
) -> (started: Result<StartedTurn, AppServerError>)
    ensures
        match started {
            Ok(turn) => turn.assistant_seed.wf() && started_view(
                target.server@,
                thread_id@,
                prompt@,
                now,
                result@,
                notification_views(early.notifications@),
                early.overflowed,
            ) == Ok::<StartedView, Seq<char>>(turn@),
            Err(error) => started_view(
                target.server@,
                thread_id@,
                prompt@,
                now,
                result@,
                notification_views(early.notifications@),
                early.overflowed,
            ) == Err::<StartedView, Seq<char>>(error.message@),
        },
{
    let turn_id = match result.field("turn").field("id").as_str() {
        Some(turn_id) => turn_id,
        None => {
            return Err(app_server_error("turn/start response missing turn.id"));
        },
    };
    if early.overflowed {
        return Err(early_limit_error("turn/start"));
    }
    let acceptance = new_event(
        "accepted",
        target.server.as_str(),
        thread_id.as_str(),
        turn_id,
    ).with("status", Json::string("accepted"));
    let started_after: i64 = if now == i64::MIN {
        now
    } else {
        now - 1
    };
    let mut initial_events: Vec<Json> = Vec::new();
    initial_events.push(acceptance.duplicate());
    assert(json_views(initial_events@) =~= seq![acceptance@]);
    Ok(
        StartedTurn {
            acceptance,
            initial_events,
            thread_id,
            turn_id: turn_id.to_owned(),
            prompt: Some(prompt),
            started_after_epoch: Some(started_after),
            early_notifications: early.notifications,
            assistant_seed: AssistantResponses::new(),
        },
    )
}

/// The parameters with which a turn is steered.
pub open spec fn steer_params_view(
    thread_id: Seq<char>,
    turn_id: Seq<char>,
    prompt: Seq<char>,
) -> JsonView {
    JsonView::empty_object().with("threadId"@, JsonView::Str(thread_id)).with(
        "expectedTurnId"@,
        JsonView::Str(turn_id),
    ).with("input"@, prompt_input(prompt))
}

pub fn steer_turn_params(thread_id: &str, turn_id: &str, prompt: &str) -> (params: Json)
    ensures
        params@ == steer_params_view(thread_id@, turn_id@, prompt@),
{
    Json::object().with("threadId", Json::string(thread_id)).with(
        "expectedTurnId",
        Json::string(turn_id),
    ).with("input", input_of(prompt))
}

/// What the answer to a steer request comes to: it must name the turn that was to be steered.
pub open spec fn steered_view(
    server: Seq<char>,
    thread_id: Seq<char>,
    turn_id: Seq<char>,
    result: JsonView,
) -> Result<JsonView, Seq<char>> {
    match result.field("turnId"@).as_str() {
        None => Err("turn/steer response missing turnId"@),
        Some(answered) => if answered.len() == 0 {
            Err("turn/steer response missing turnId"@)
        } else if answered != turn_id {
            Err(
                "turn/steer response turnId `"@ + answered + "` does not match requested turn `"@
                    + turn_id + "`"@,
            )
        } else {
            Ok(accepted_view(server, thread_id, turn_id))
        },
    }
}

pub fn steer_turn(target: &Target, thread_id: &str, turn_id: &str, result: &Json) -> (steered: Result<
    Json,
    AppServerError,
>)
    ensures
        match steered {
            Ok(report) => steered_view(target.server@, thread_id@, turn_id@, result@) == Ok::<
                JsonView,
                Seq<char>,
            >(report@),
            Err(error) => steered_view(target.server@, thread_id@, turn_id@, result@) == Err::<
                JsonView,
                Seq<char>,
            >(error.message@),
        },
{
    let answered = match result.field("turnId").as_str() {
        Some(answered) => answered,
        None => {
            return Err(app_server_error("turn/steer response missing turnId"));
        },
    };
    if answered.is_empty() {
        return Err(app_server_error("turn/steer response missing turnId"));
    }
    if !same_text(answered, turn_id) {
        return Err(
            AppServerError {
                message: concat5(
                    "turn/steer response turnId `",
                    answered,
                    "` does not match requested turn `",
                    turn_id,
                    "`",
                ),
            },
        );
    }
    Ok(accepted(target.server.as_str(), thread_id, turn_id))
}

pub fn interrupt_turn_params(thread_id: &str, turn_id: &str) -> (params: Json)
    ensures
        params@ == JsonView::empty_object().with("threadId"@, JsonView::Str(thread_id@)).with(
            "turnId"@,
            JsonView::Str(turn_id@),
        ),
{
    Json::object().with("threadId", Json::string(thread_id)).with(
        "turnId",
        Json::string(turn_id),
    )
}

pub fn interrupt_turn(
    target: &Target,
    thread_id: &str,
    turn_id: &str,
    result: &Json,
) -> (interrupted: Result<Json, AppServerError>)
    ensures
        match interrupted {
            Ok(report) => result@ is Object && report@ == accepted_view(
                target.server@,
                thread_id@,
                turn_id@,
            ),
            Err(error) => !(result@ is Object) && error.message@
                == "turn/interrupt response must be an object"@,
        },
{
    if !result.is_object() {
        return Err(app_server_error("turn/interrupt response must be an object"));
    }
    Ok(accepted(target.server.as_str(), thread_id, turn_id))
}

} // verus!
