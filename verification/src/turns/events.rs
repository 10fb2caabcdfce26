use vstd::prelude::*;

use crate::errors::{app_server_error, AppServerError};
use crate::json::{Json, JsonView};
use crate::rpc::{Notification, NotificationView};
use crate::text::{concat3, same_text, slice_view};
use crate::turns::assistant::{AssistantItemIds, ItemIdsView};
use crate::turns::registry::{
    is_agent_message, item_limit_message, AssistantResponses, RegistryView,
};
use crate::turns::replay::{concerns, concerns_turn, delta_id, delta_text, item_of};

verus! {

/// Whether a status is one that a turn can have.
pub open spec fn is_known_status(status: Seq<char>) -> bool {
    ||| is_terminal_status(status)
    ||| status == "inProgress"@
    ||| status == "running"@
    ||| status == "pending"@
}

/// Whether a status is one that a turn ends with.
pub open spec fn is_terminal_status(status: Seq<char>) -> bool {
    ||| status == "completed"@
    ||| status == "interrupted"@
    ||| status == "failed"@
}

/// What is wrong with the status of a turn, if anything is.
pub open spec fn status_fault(turn: JsonView) -> Option<Seq<char>> {
    match turn.field("status"@).as_str() {
        None => Some("app-server returned a turn without a string status"@),
        Some(status) => if is_known_status(status) {
            None
        } else {
            Some("app-server returned unrecognized turn status `"@ + status + "`"@)
        },
    }
}

/// The status of a turn as it is reported: one that does not end a turn is in progress.
pub open spec fn reported_status(turn: JsonView) -> Seq<char> {
    let status = turn.field("status"@).text();
    if is_terminal_status(status) {
        status
    } else {
        "inProgress"@
    }
}

pub fn is_terminal(status: &str) -> (terminal: bool)
    ensures
        terminal == is_terminal_status(status@),
{
    same_text(status, "completed") || same_text(status, "interrupted") || same_text(
        status,
        "failed",
    )
}

pub fn reject_unknown_turn_status(turn: &Json) -> (known: Result<(), AppServerError>)
    ensures
        match known {
            Ok(()) => status_fault(turn@) is None && turn@.field("status"@).as_str() is Some,
            Err(error) => status_fault(turn@) == Some(error.message@),
        },
{
    let status = match turn.field("status").as_str() {
        Some(status) => status,
        None => {
            return Err(app_server_error("app-server returned a turn without a string status"));
        },
    };
    if is_terminal(status) || same_text(status, "inProgress") || same_text(status, "running")
        || same_text(status, "pending") {
        Ok(())
    } else {
        Err(
            AppServerError {
                message: concat3(
                    "app-server returned unrecognized turn status `",
                    status,
                    "`",
                ),
            },
        )
    }
}

pub fn turn_status(turn: &Json) -> (status: &'static str)
    requires
        turn@.field("status"@).as_str() is Some,
    ensures
        status@ == reported_status(turn@),
{
    match turn.field("status").as_str() {
        Some(status) => if same_text(status, "completed") {
            "completed"
        } else if same_text(status, "interrupted") {
            "interrupted"
        } else if same_text(status, "failed") {
            "failed"
        } else {
            "inProgress"
        },
        None => "inProgress",
    }
}

/// Some ids as a JSON array.
pub open spec fn ids_json(ids: Seq<Seq<char>>) -> JsonView {
    JsonView::Array(ids.map_values(|id: Seq<char>| JsonView::Str(id)))
}

fn ids_to_json(ids: &Vec<String>) -> (json: Json)
    ensures
        json@ == ids_json(ids@.map_values(|id: String| id@)),
{
    let mut items: Vec<Json> = Vec::new();
    let mut i: usize = 0;
    while i < ids.len()
        invariant
            i <= ids@.len(),
            items@.len() == i,
            forall|j: int| 0 <= j < i ==> (#[trigger] items@[j])@ == JsonView::Str(ids@[j]@),
        decreases ids@.len() - i,
    {
        items.push(Json::string(ids[i].as_str()));
        i += 1;
    }
    let json = Json::Array(items);
    assert(json@->Array_0 =~= ids@.map_values(|id: String| id@).map_values(
        |id: Seq<char>| JsonView::Str(id),
    ));
    json
}

/// An event about an item: with the canonical id, where there is one, and, where the item is
/// known under several ids, with all of them.
pub open spec fn with_item_ids(event: JsonView, ids: ItemIdsView) -> JsonView {
    let named = match ids.item_id {
        Some(id) => event.with("itemId"@, JsonView::Str(id)),
        None => event,
    };
    if ids.alias_ids.len() > 1 {
        named.with("itemAliases"@, ids_json(ids.alias_ids))
    } else {
        named
    }
}

pub fn insert_opt(map: &mut Json, key: &str, value: &Option<String>)
    requires
        old(map)@ is Object,
    ensures
        final(map)@ is Object,
        final(map)@ == match *value {
            Some(value) => old(map)@.with(key@, JsonView::Str(value@)),
            None => old(map)@,
        },
{
    if let Some(value) = value {
        map.set(key, Json::string(value.as_str()));
    }
}

pub fn insert_item_ids(map: &mut Json, ids: &AssistantItemIds)
    requires
        old(map)@ is Object,
    ensures
        final(map)@ is Object,
        final(map)@ == with_item_ids(old(map)@, ids@),
{
    insert_opt(map, "itemId", &ids.item_id);
    if ids.alias_ids.len() > 1 {
        map.set("itemAliases", ids_to_json(&ids.alias_ids));
    }
}

/// The start that all events share.
pub open spec fn event_head(
    kind: Seq<char>,
    server: Seq<char>,
    thread_id: Seq<char>,
    turn_id: Seq<char>,
) -> JsonView {
    JsonView::empty_object().with("type"@, JsonView::Str(kind)).with(
        "server"@,
        JsonView::Str(server),
    ).with("threadId"@, JsonView::Str(thread_id)).with("turnId"@, JsonView::Str(turn_id))
}

pub fn new_event(kind: &str, server: &str, thread_id: &str, turn_id: &str) -> (event: Json)
    ensures
        event@ is Object,
        event@ == event_head(kind@, server@, thread_id@, turn_id@),
{
    Json::object().with("type", Json::string(kind)).with("server", Json::string(server)).with(
        "threadId",
        Json::string(thread_id),
    ).with("turnId", Json::string(turn_id))
}

/// An event about a turn's status, with the turn's error, where it has one.
pub open spec fn status_event(
    status: Seq<char>,
    server: Seq<char>,
    thread_id: Seq<char>,
    turn_id: Seq<char>,
    source: Option<Seq<char>>,
    turn: JsonView,
) -> JsonView {
    let bare = event_head(status, server, thread_id, turn_id).with(
        "status"@,
        JsonView::Str(status),
    );
    let sourced = match source {
        Some(source) => bare.with("source"@, JsonView::Str(source)),
        None => bare,
    };
    if turn.field("error"@) is Null {
        sourced
    } else {
        sourced.with("error"@, turn.field("error"@))
    }
}

pub fn new_status_event(
    status: &str,
    server: &str,
    thread_id: &str,
    turn_id: &str,
    source: Option<&str>,
    turn: &Json,
) -> (event: Json)
    ensures
        event@ == status_event(
            status@,
            server@,
            thread_id@,
            turn_id@,
            slice_view(source),
            turn@,
        ),
{
    let mut event = new_event(status, server, thread_id, turn_id);
    event.set("status", Json::string(status));
    if let Some(source) = source {
        event.set("source", Json::string(source));
    }
    let error = turn.field("error");
    if !error.is_null() {
        event.set("error", error.duplicate());
    }
    event
}

/// What comes of a notification: the registry after it, and the event to emit, if any, or
/// what is wrong with it.
#[verifier::ext_equal]
pub struct EventOutcome {
    pub registry: RegistryView,
    pub event: Result<Option<JsonView>, Seq<char>>,
}

pub open spec fn started_outcome(registry: RegistryView, item: JsonView) -> EventOutcome {
    match item.field("id"@).as_str() {
        Some(id) => if is_agent_message(item) {
            match registry.started(id) {
                Some(after) => EventOutcome { registry: after, event: Ok(None) },
                None => EventOutcome { registry, event: Err(item_limit_message()) },
            }
        } else {
            EventOutcome { registry, event: Ok(None) }
        },
        None => EventOutcome { registry, event: Ok(None) },
    }
}

pub open spec fn delta_outcome(
    registry: RegistryView,
    server: Seq<char>,
    thread_id: Seq<char>,
    turn_id: Seq<char>,
    notification: NotificationView,
) -> EventOutcome {
    match registry.live_delta(delta_id(notification), delta_text(notification)) {
        None => EventOutcome { registry, event: Err(item_limit_message()) },
        Some((after, None)) => EventOutcome { registry: after, event: Ok(None) },
        Some((after, Some((ids, fragment)))) => EventOutcome {
            registry: after,
            event: Ok(
                Some(
                    with_item_ids(
                        event_head("progress"@, server, thread_id, turn_id),
                        ids,
                    ).with("delta"@, JsonView::Str(fragment)),
                ),
            ),
        },
    }
}

pub open spec fn completed_outcome(
    registry: RegistryView,
    server: Seq<char>,
    thread_id: Seq<char>,
    turn_id: Seq<char>,
    item: JsonView,
) -> EventOutcome {
    match item.field("text"@).as_str() {
        Some(text) => if is_agent_message(item) {
            match registry.live_completion(item.field("id"@).as_str(), text) {
                None => EventOutcome { registry, event: Err(item_limit_message()) },
                Some((after, None)) => EventOutcome { registry: after, event: Ok(None) },
                Some((after, Some(ids))) => EventOutcome {
                    registry: after,
                    event: Ok(
                        Some(
                            with_item_ids(
                                event_head("assistantMessage"@, server, thread_id, turn_id),
                                ids,
                            ).with("text"@, JsonView::Str(text)),
                        ),
                    ),
                },
            }
        } else {
            EventOutcome { registry, event: Ok(None) }
        },
        None => EventOutcome { registry, event: Ok(None) },
    }
}

/// Whether a notification is about the turn's status.
pub open spec fn concerns_status(
    notification: NotificationView,
    thread_id: Seq<char>,
    turn_id: Seq<char>,
) -> bool {
    &&& notification.params.field("threadId"@).is_text(thread_id)
    &&& notification.params.field("turn"@).field("id"@).is_text(turn_id)
}

/// What comes of a notification for the watched turn. One for anything else does nothing.
pub open spec fn event_outcome(
    registry: RegistryView,
    server: Seq<char>,
    thread_id: Seq<char>,
    turn_id: Seq<char>,
    notification: NotificationView,
) -> EventOutcome {
    let method = notification.method;
    if method == "item/started"@ && concerns(notification, thread_id, turn_id) {
        started_outcome(registry, item_of(notification))
    } else if method == "item/agentMessage/delta"@ && concerns(notification, thread_id, turn_id) {
        delta_outcome(registry, server, thread_id, turn_id, notification)
    } else if method == "item/completed"@ && concerns(notification, thread_id, turn_id) {
        completed_outcome(registry, server, thread_id, turn_id, item_of(notification))
    } else if method == "turn/completed"@ && concerns_status(notification, thread_id, turn_id) {
        let turn = notification.params.field("turn"@);
        EventOutcome {
            registry,
            event: match status_fault(turn) {
                Some(fault) => Err(fault),
                None => Ok(
                    Some(
                        status_event(
                            reported_status(turn),
                            server,
                            thread_id,
                            turn_id,
                            None,
                            turn,
                        ),
                    ),
                ),
            },
        }
    } else {
        EventOutcome { registry, event: Ok(None) }
    }
}

/// The view of what came of a notification.
pub open spec fn event_view(event: Result<Option<Json>, AppServerError>) -> Result<
    Option<JsonView>,
    Seq<char>,
> {
    match event {
        Ok(Some(event)) => Ok(Some(event@)),
        Ok(None) => Ok(None),
        Err(error) => Err(error.message@),
    }
}

pub fn turn_event(
    server: &str,
    thread_id: &str,
    turn_id: &str,
    notification: Notification,
    assistant: &mut AssistantResponses,
) -> (event: Result<Option<Json>, AppServerError>)
    requires
        old(assistant).wf(),
    ensures
        final(assistant).wf(),
        event_outcome(old(assistant)@, server@, thread_id@, turn_id@, notification@) == (
        EventOutcome { registry: final(assistant)@, event: event_view(event) }),
{
    let method = notification.method.as_str();
    let concerned = concerns_turn(&notification, thread_id, turn_id);
    if same_text(method, "item/started") && concerned {
        let item = notification.params.field("item");
        if item.field("type").is_text("agentMessage") {
            if let Some(item_id) = item.field("id").as_str() {
                if let Err(error) = assistant.note_started(item_id) {
                    return Err(error);
                }
            }
        }
        return Ok(None);
    }
    if same_text(method, "item/agentMessage/delta") && concerned {
        proof {
            reveal_strlit("");
        }
        let empty = "";
        assert(empty@ =~= Seq::empty());
        let delta = match notification.params.field("delta").as_str() {
            Some(delta) => delta,
            None => empty,
        };
        let item_id = notification.params.field("itemId").as_str();
        return match assistant.apply_live_delta(item_id, delta) {
            Ok(Some((ids, fragment))) => {
                let mut event = new_event("progress", server, thread_id, turn_id);
                insert_item_ids(&mut event, &ids);
                event.set("delta", Json::Str(fragment));
                Ok(Some(event))
            },
            Ok(None) => Ok(None),
            Err(error) => Err(error),
        };
    }
    if same_text(method, "item/completed") && concerned {
        let item = notification.params.field("item");
        if item.field("type").is_text("agentMessage") {
            if let Some(text) = item.field("text").as_str() {
                return match assistant.complete_live(item.field("id").as_str(), text) {
                    Ok(Some(ids)) => {
                        let mut event = new_event("assistantMessage", server, thread_id, turn_id);
                        insert_item_ids(&mut event, &ids);
                        event.set("text", Json::string(text));
                        Ok(Some(event))
                    },
                    Ok(None) => Ok(None),
                    Err(error) => Err(error),
                };
            }
        }
        return Ok(None);
    }
    let turn = notification.params.field("turn");
    if same_text(method, "turn/completed") && notification.params.field("threadId").is_text(
        thread_id,
    ) && turn.field("id").is_text(turn_id) {
        if let Err(error) = reject_unknown_turn_status(turn) {
            return Err(error);
        }
        let status = turn_status(turn);
        return Ok(Some(new_status_event(status, server, thread_id, turn_id, None, turn)));
    }
    Ok(None)
}

} // verus!
