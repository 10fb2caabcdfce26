use vstd::prelude::*;

use crate::json::{lemma_get_with, JsonView};
use crate::rpc::NotificationView;
use crate::turns::assistant::{EntryView, ItemIdsView};
use crate::turns::attach::AttachTarget;
use crate::turns::events::{
    event_head, event_outcome, ids_json, reported_status, status_event, with_item_ids,
};
use crate::turns::poll::poll_event;
use crate::turns::registry::{
    awaiting_live_id, is_last, last_index, provisional, response_json, RegistryView,
};
use crate::turns::replay::{delta_id, delta_text, item_of};
use crate::turns::wait::WaitView;

verus! {

/// Whether a record says which server, thread and turn it is about.
pub open spec fn names_turn(
    record: JsonView,
    server: Seq<char>,
    thread_id: Seq<char>,
    turn_id: Seq<char>,
) -> bool {
    &&& record is Object
    &&& record.field("server"@) == JsonView::Str(server)
    &&& record.field("threadId"@) == JsonView::Str(thread_id)
    &&& record.field("turnId"@) == JsonView::Str(turn_id)
}

/// Whether a key is none of those that say what a record is about.
spec fn is_other_key(key: Seq<char>) -> bool {
    key != "server"@ && key != "threadId"@ && key != "turnId"@
}

proof fn lemma_other_keys()
    ensures
        is_other_key("type"@),
        is_other_key("itemId"@),
        is_other_key("itemAliases"@),
        is_other_key("delta"@),
        is_other_key("text"@),
        is_other_key("status"@),
        is_other_key("source"@),
        is_other_key("error"@),
        "server"@ != "threadId"@,
        "server"@ != "turnId"@,
        "threadId"@ != "turnId"@,
{
    reveal_strlit("server");
    reveal_strlit("threadId");
    reveal_strlit("turnId");
    reveal_strlit("type");
    reveal_strlit("itemId");
    reveal_strlit("itemAliases");
    reveal_strlit("delta");
    reveal_strlit("text");
    reveal_strlit("status");
    reveal_strlit("source");
    reveal_strlit("error");
    assert("server"@.len() == 6 && "threadId"@.len() == 8 && "turnId"@.len() == 6);
    assert("type"@.len() == 4 && "itemAliases"@.len() == 11 && "delta"@.len() == 5);
    assert("text"@.len() == 4 && "error"@.len() == 5 && "itemId"@.len() == 6);
    assert("server"@[1] == 'e' && "turnId"@[1] == 'u' && "itemId"@[1] == 't');
    assert("status"@.len() == 6 && "status"@[1] == 't');
    assert("source"@.len() == 6 && "source"@[1] == 'o');
}

proof fn lemma_still_named(
    record: JsonView,
    server: Seq<char>,
    thread_id: Seq<char>,
    turn_id: Seq<char>,
    key: Seq<char>,
    value: JsonView,
)
    requires
        names_turn(record, server, thread_id, turn_id),
        is_other_key(key),
    ensures
        names_turn(record.with(key, value), server, thread_id, turn_id),
{
    lemma_get_with(record, key, value, "server"@);
    lemma_get_with(record, key, value, "threadId"@);
    lemma_get_with(record, key, value, "turnId"@);
}

proof fn lemma_named(record: JsonView, server: Seq<char>, thread_id: Seq<char>, turn_id: Seq<char>)
    requires
        record is Object,
    ensures
        names_turn(
            record.with("server"@, JsonView::Str(server)).with(
                "threadId"@,
                JsonView::Str(thread_id),
            ).with("turnId"@, JsonView::Str(turn_id)),
            server,
            thread_id,
            turn_id,
        ),
{
    lemma_other_keys();
    let s = JsonView::Str(server);
    let t = JsonView::Str(thread_id);
    let u = JsonView::Str(turn_id);
    let first = record.with("server"@, s);
    let second = first.with("threadId"@, t);
    lemma_get_with(record, "server"@, s, "server"@);
    lemma_get_with(first, "threadId"@, t, "server"@);
    lemma_get_with(first, "threadId"@, t, "threadId"@);
    lemma_get_with(second, "turnId"@, u, "server"@);
    lemma_get_with(second, "turnId"@, u, "threadId"@);
    lemma_get_with(second, "turnId"@, u, "turnId"@);
}

proof fn lemma_head_named(
    kind: Seq<char>,
    server: Seq<char>,
    thread_id: Seq<char>,
    turn_id: Seq<char>,
)
    ensures
        names_turn(event_head(kind, server, thread_id, turn_id), server, thread_id, turn_id),
{
    lemma_named(
        JsonView::empty_object().with("type"@, JsonView::Str(kind)),
        server,
        thread_id,
        turn_id,
    );
}

proof fn lemma_item_named(
    kind: Seq<char>,
    server: Seq<char>,
    thread_id: Seq<char>,
    turn_id: Seq<char>,
    ids: ItemIdsView,
)
    ensures
        names_turn(
            with_item_ids(event_head(kind, server, thread_id, turn_id), ids),
            server,
            thread_id,
            turn_id,
        ),
{
    lemma_other_keys();
    lemma_head_named(kind, server, thread_id, turn_id);
    let head = event_head(kind, server, thread_id, turn_id);
    let named = match ids.item_id {
        Some(id) => {
            lemma_still_named(
                head,
                server,
                thread_id,
                turn_id,
                "itemId"@,
                JsonView::Str(id),
            );
            head.with("itemId"@, JsonView::Str(id))
        },
        None => head,
    };
    lemma_still_named(
        named,
        server,
        thread_id,
        turn_id,
        "itemAliases"@,
        ids_json(ids.alias_ids),
    );
}

proof fn lemma_status_named(
    status: Seq<char>,
    server: Seq<char>,
    thread_id: Seq<char>,
    turn_id: Seq<char>,
    source: Option<Seq<char>>,
    turn: JsonView,
)
    ensures
        names_turn(
            status_event(status, server, thread_id, turn_id, source, turn),
            server,
            thread_id,
            turn_id,
        ),
{
    lemma_other_keys();
    lemma_head_named(status, server, thread_id, turn_id);
    let head = event_head(status, server, thread_id, turn_id);
    let value = JsonView::Str(status);
    lemma_still_named(head, server, thread_id, turn_id, "status"@, value);
    let bare = head.with("status"@, value);
    let sourced = match source {
        Some(source) => {
            let value = JsonView::Str(source);
            lemma_still_named(bare, server, thread_id, turn_id, "source"@, value);
            bare.with("source"@, value)
        },
        None => bare,
    };
    lemma_still_named(sourced, server, thread_id, turn_id, "error"@, turn.field("error"@));
}

/// Every record of a live event says which server, thread and turn it is about.
pub proof fn law_live_records_name_their_turn(
    registry: RegistryView,
    server: Seq<char>,
    thread_id: Seq<char>,
    turn_id: Seq<char>,
    notification: NotificationView,
)
    ensures
        event_outcome(registry, server, thread_id, turn_id, notification).event matches Ok(
            Some(record),
        ) ==> names_turn(record, server, thread_id, turn_id),
{
    lemma_other_keys();
    if let Some((_, Some((ids, fragment)))) = registry.live_delta(
        delta_id(notification),
        delta_text(notification),
    ) {
        lemma_item_named("progress"@, server, thread_id, turn_id, ids);
        lemma_still_named(
            with_item_ids(event_head("progress"@, server, thread_id, turn_id), ids),
            server,
            thread_id,
            turn_id,
            "delta"@,
            JsonView::Str(fragment),
        );
    }
    let item = item_of(notification);
    if let Some(text) = item.field("text"@).as_str() {
        if let Some((_, Some(ids))) = registry.live_completion(item.field("id"@).as_str(), text) {
            lemma_item_named("assistantMessage"@, server, thread_id, turn_id, ids);
            lemma_still_named(
                with_item_ids(event_head("assistantMessage"@, server, thread_id, turn_id), ids),
                server,
                thread_id,
                turn_id,
                "text"@,
                JsonView::Str(text),
            );
        }
    }
    let turn = notification.params.field("turn"@);
    lemma_status_named(reported_status(turn), server, thread_id, turn_id, None, turn);
}

/// So does every record of a poll: of new content, and of the turn's end.
pub proof fn law_polled_records_name_their_turn(
    wait: WaitView,
    update: (ItemIdsView, Seq<char>),
    turn: JsonView,
)
    ensures
        names_turn(poll_event(wait, update), wait.server, wait.thread_id, wait.turn_id),
        names_turn(
            status_event(
                reported_status(turn),
                wait.server,
                wait.thread_id,
                wait.turn_id,
                Some("poll"@),
                turn,
            ),
            wait.server,
            wait.thread_id,
            wait.turn_id,
        ),
{
    lemma_other_keys();
    let (server, thread_id, turn_id) = (wait.server, wait.thread_id, wait.turn_id);
    lemma_item_named("progress"@, server, thread_id, turn_id, update.0);
    let bare = with_item_ids(event_head("progress"@, server, thread_id, turn_id), update.0);
    let text = JsonView::Str(update.1);
    lemma_still_named(bare, server, thread_id, turn_id, "text"@, text);
    lemma_still_named(
        bare.with("text"@, text),
        server,
        thread_id,
        turn_id,
        "source"@,
        JsonView::Str("poll"@),
    );
    lemma_status_named(reported_status(turn), server, thread_id, turn_id, Some("poll"@), turn);
}

/// So does every record of an attach: that it attached, what the snapshot holds, and the end
/// of a turn that has ended already.
pub proof fn law_attach_records_name_their_turn(
    target: AttachTarget,
    entry: EntryView,
    turn: JsonView,
)
    ensures
        names_turn(target.attached(), target.server, target.thread_id, target.turn_id),
        names_turn(
            target.snapshot_event(response_json(entry)),
            target.server,
            target.thread_id,
            target.turn_id,
        ),
        names_turn(
            status_event(
                reported_status(turn),
                target.server,
                target.thread_id,
                target.turn_id,
                Some("snapshot"@),
                turn,
            ),
            target.server,
            target.thread_id,
            target.turn_id,
        ),
{
    lemma_other_keys();
    let (server, thread_id, turn_id) = (target.server, target.thread_id, target.turn_id);
    lemma_head_named("attached"@, server, thread_id, turn_id);
    lemma_still_named(
        event_head("attached"@, server, thread_id, turn_id),
        server,
        thread_id,
        turn_id,
        "status"@,
        JsonView::Str("attached"@),
    );
    let typed = response_json(entry).with("type"@, JsonView::Str("assistantMessage"@));
    lemma_named(typed, server, thread_id, turn_id);
    lemma_still_named(
        typed.with("server"@, JsonView::Str(server)).with(
            "threadId"@,
            JsonView::Str(thread_id),
        ).with("turnId"@, JsonView::Str(turn_id)),
        server,
        thread_id,
        turn_id,
        "source"@,
        JsonView::Str("snapshot"@),
    );
    lemma_status_named(
        reported_status(turn),
        server,
        thread_id,
        turn_id,
        Some("snapshot"@),
        turn,
    );
}

/// Where some entry has a property, there is a last one that has it.
proof fn lemma_some_last(items: Seq<EntryView>, p: spec_fn(EntryView) -> bool, i: int)
    requires
        0 <= i < items.len(),
        p(items[i]),
    ensures
        last_index(items, p) is Some,
    decreases items.len() - i,
{
    if forall|j: int| i < j < items.len() ==> !p(#[trigger] items[j]) {
        assert(is_last(items, p, i));
    } else {
        let j = choose|j: int| i < j < items.len() && p(#[trigger] items[j]);
        lemma_some_last(items, p, j);
    }
}

/// The entry that a live event with an id is about has a canonical id, unless the id is only
/// a poll's for an entry that no event has identified.
proof fn lemma_resolved_has_id(registry: RegistryView, id: Seq<char>)
    requires
        registry.wf(),
        registry.find(Some(id)) matches Some(index) ==> registry.items[index].item_id is Some,
    ensures
        registry.resolved(Some(id)) matches Some((after, index)) ==> {
            &&& 0 <= index < after.items.len()
            &&& after.items[index].item_id is Some
        },
{
    if registry.find(Some(id)) is None {
        if let Some(index) = last_index(registry.items, provisional()) {
            assert(is_last(registry.items, provisional(), index));
        } else if let Some(index) = last_index(registry.items, awaiting_live_id()) {
            assert(is_last(registry.items, awaiting_live_id(), index));
            if provisional()(registry.items[index]) {
                lemma_some_last(registry.items, provisional(), index);
            }
        }
    }
}

/// The record of a live event that comes with an item id carries the item's canonical id, but
/// where the id is only a poll's for an item that no event has identified.
pub proof fn law_assistant_records_carry_the_item_id(
    registry: RegistryView,
    id: Seq<char>,
    text: Seq<char>,
    record: JsonView,
)
    requires
        registry.wf(),
        registry.find(Some(id)) matches Some(index) ==> registry.items[index].item_id is Some,
        record is Object,
    ensures
        registry.live_delta(Some(id), text) matches Some((_, Some((ids, _)))) ==> {
            &&& ids.item_id is Some
            &&& with_item_ids(record, ids).field("itemId"@) == JsonView::Str(ids.item_id->0)
        },
        registry.live_completion(Some(id), text) matches Some((_, Some(ids))) ==> {
            &&& ids.item_id is Some
            &&& with_item_ids(record, ids).field("itemId"@) == JsonView::Str(ids.item_id->0)
        },
{
    lemma_resolved_has_id(registry, id);
    if let Some((_, Some((ids, _)))) = registry.live_delta(Some(id), text) {
        lemma_item_id_carried(record, ids);
    }
    if let Some((_, Some(ids))) = registry.live_completion(Some(id), text) {
        lemma_item_id_carried(record, ids);
    }
}

proof fn lemma_item_id_carried(record: JsonView, ids: ItemIdsView)
    requires
        record is Object,
        ids.item_id is Some,
    ensures
        with_item_ids(record, ids).field("itemId"@) == JsonView::Str(ids.item_id->0),
{
    reveal_strlit("itemId");
    reveal_strlit("itemAliases");
    assert("itemId"@.len() != "itemAliases"@.len());
    let value = JsonView::Str(ids.item_id->0);
    lemma_get_with(record, "itemId"@, value, "itemId"@);
    lemma_get_with(
        record.with("itemId"@, value),
        "itemAliases"@,
        ids_json(ids.alias_ids),
        "itemId"@,
    );
}

} // verus!
