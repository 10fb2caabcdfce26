use vstd::prelude::*;
use vstd::utf8::*;

use crate::json::{lemma_get_with, JsonView};
use crate::protocol_words::lemma_words;
use crate::rpc::NotificationView;
use crate::turns::assistant::{EntryView, ItemIdsView};
use crate::turns::buffers::ProgressView;
use crate::turns::events::event_outcome;
use crate::turns::registry::{
    awaiting_live_id, is_last, last_index, lemma_alias_ids, lemma_registered_ids, provisional,
    RegistryView,
};
use crate::turns::report_laws::{
    is_end, is_going_on, law_report_says_how_the_turn_ended, law_status_is_reported,
};
use crate::turns::wait::{processed, WaitView};

verus! {

/// Whether a notification is about an item of this turn.
pub open spec fn is_about(
    notification: NotificationView,
    thread_id: Seq<char>,
    turn_id: Seq<char>,
) -> bool {
    &&& notification.params.field("threadId"@) == JsonView::Str(thread_id)
    &&& notification.params.field("turnId"@) == JsonView::Str(turn_id)
}

/// Whether a record carries the ids of an item: the canonical one, where there is one, and all
/// of them, where there are several.
pub open spec fn carries(record: JsonView, ids: ItemIdsView) -> bool {
    &&& ids.item_id matches Some(id) ==> record.field("itemId"@) == JsonView::Str(id)
    &&& ids.item_id is None ==> record.get("itemId"@) is None
    &&& ids.alias_ids.len() <= 1 ==> record.get("itemAliases"@) is None
    &&& ids.alias_ids.len() > 1 ==> {
        &&& record.field("itemAliases"@).items().len() == ids.alias_ids.len()
        &&& forall|i: int|
            0 <= i < ids.alias_ids.len() ==> (#[trigger] record.field("itemAliases"@).items()[i])
                == JsonView::Str(ids.alias_ids[i])
    }
}

/// A delta for the turn does to the registry what the live delta of its item does, with its
/// text; and what that gives rise to is recorded as progress, with the fragment that is new and
/// the ids of the item.
pub proof fn law_delta_is_recorded(
    registry: RegistryView,
    server: Seq<char>,
    thread_id: Seq<char>,
    turn_id: Seq<char>,
    notification: NotificationView,
)
    requires
        notification.method == "item/agentMessage/delta"@,
        is_about(notification, thread_id, turn_id),
    ensures
        ({
            let outcome = event_outcome(registry, server, thread_id, turn_id, notification);
            let applied = registry.live_delta(
                notification.params.field("itemId"@).as_str(),
                notification.params.field("delta"@).text(),
            );
            match applied {
                None => outcome.registry == registry && outcome.event is Err,
                Some((after, None)) => outcome.registry == after && outcome.event == Ok::<
                    Option<JsonView>,
                    Seq<char>,
                >(None),
                Some((after, Some((ids, fragment)))) => {
                    &&& outcome.registry == after
                    &&& outcome.event matches Ok(Some(record)) && {
                        &&& record.field("type"@) == JsonView::Str("progress"@)
                        &&& record.field("delta"@) == JsonView::Str(fragment)
                        &&& record.get("status"@) is None
                        &&& record.get("error"@) is None
                        &&& carries(record, ids)
                    }
                },
            }
        }),
{
    broadcast use lemma_get_with;

    lemma_words();
    lemma_absent();
}

/// An object without members has nothing under any key.
proof fn lemma_absent()
    ensures
        forall|key: Seq<char>| (#[trigger] JsonView::empty_object().get(key)) is None,
{
}

/// A completed message of the turn does to the registry what the live completion of its item
/// does, with its text; and where that is news it is recorded as what the agent wrote.
pub proof fn law_completion_is_recorded(
    registry: RegistryView,
    server: Seq<char>,
    thread_id: Seq<char>,
    turn_id: Seq<char>,
    notification: NotificationView,
)
    requires
        notification.method == "item/completed"@,
        is_about(notification, thread_id, turn_id),
    ensures
        ({
            let outcome = event_outcome(registry, server, thread_id, turn_id, notification);
            let item = notification.params.field("item"@);
            let text = item.field("text"@);
            if item.field("type"@) == JsonView::Str("agentMessage"@) && text is Str {
                match registry.live_completion(item.field("id"@).as_str(), text.text()) {
                    None => outcome.registry == registry && outcome.event is Err,
                    Some((after, None)) => outcome.registry == after && outcome.event == Ok::<
                        Option<JsonView>,
                        Seq<char>,
                    >(None),
                    Some((after, Some(ids))) => {
                        &&& outcome.registry == after
                        &&& outcome.event matches Ok(Some(record)) && {
                            &&& record.field("type"@) == JsonView::Str("assistantMessage"@)
                            &&& record.field("text"@) == text
                            &&& record.get("status"@) is None
                            &&& record.get("error"@) is None
                            &&& carries(record, ids)
                        }
                    },
                }
            } else {
                outcome.registry == registry && outcome.event == Ok::<
                    Option<JsonView>,
                    Seq<char>,
                >(None)
            }
        }),
{
    broadcast use lemma_get_with;

    lemma_words();
    lemma_absent();
}

/// A message of the turn that is declared gets an entry under its id, where there is none yet,
/// and is not recorded.
pub proof fn law_declaration_is_noted(
    registry: RegistryView,
    server: Seq<char>,
    thread_id: Seq<char>,
    turn_id: Seq<char>,
    notification: NotificationView,
    id: Seq<char>,
)
    requires
        notification.method == "item/started"@,
        is_about(notification, thread_id, turn_id),
        notification.params.field("item"@).field("type"@) == JsonView::Str("agentMessage"@),
        notification.params.field("item"@).field("id"@) == JsonView::Str(id),
    ensures
        ({
            let outcome = event_outcome(registry, server, thread_id, turn_id, notification);
            let n = registry.items.len() as int;
            &&& registry.aliases.dom().contains(id) ==> outcome.registry == registry
            &&& !registry.aliases.dom().contains(id) && n < 4096 ==> {
                &&& outcome.registry.items.len() == n + 1
                &&& outcome.registry.items.drop_last() == registry.items
                &&& outcome.registry.items[n].item_id == Some(id)
                &&& outcome.registry.items[n].text.len() == 0
                &&& outcome.registry.items[n].replay_cursor is None
                &&& outcome.registry.aliases.dom().contains(id)
                &&& outcome.registry.aliases[id] == n
            }
            &&& registry.aliases.dom().contains(id) || n < 4096 ==> outcome.event == Ok::<
                Option<JsonView>,
                Seq<char>,
            >(None)
            &&& !registry.aliases.dom().contains(id) && n >= 4096 ==> outcome.event is Err
        }),
{
    lemma_words();
    let entry = EntryView::new(Some(id));
    lemma_alias_ids(entry);
    if registry.items.len() <= usize::MAX {
        lemma_registered_ids(registry.aliases, entry.alias_ids(), registry.items.len() as int, id);
    }
    assert(registry.items.push(entry).drop_last() =~= registry.items);
}

/// The end of the turn is recorded with its status and its error, and leaves the registry as it
/// is; a status that is none is a fault.
pub proof fn law_end_is_recorded(
    registry: RegistryView,
    server: Seq<char>,
    thread_id: Seq<char>,
    turn_id: Seq<char>,
    notification: NotificationView,
)
    requires
        notification.method == "turn/completed"@,
        notification.params.field("threadId"@) == JsonView::Str(thread_id),
        notification.params.field("turn"@).field("id"@) == JsonView::Str(turn_id),
    ensures
        ({
            let outcome = event_outcome(registry, server, thread_id, turn_id, notification);
            let turn = notification.params.field("turn"@);
            let status = turn.field("status"@);
            &&& outcome.registry == registry
            &&& !(status is Str) ==> outcome.event is Err
            &&& status is Str && !is_end(status.text()) && !is_going_on(status.text())
                ==> outcome.event is Err
            &&& status is Str && (is_end(status.text()) || is_going_on(status.text())) ==> {
                let shown = if is_end(status.text()) {
                    status
                } else {
                    JsonView::Str("inProgress"@)
                };
                outcome.event matches Ok(Some(record)) && {
                    &&& record.field("type"@) == shown
                    &&& record.field("status"@) == shown
                    &&& record.field("error"@) == turn.field("error"@)
                    &&& record.get("source"@) is None
                }
            }
        }),
{
    broadcast use lemma_get_with;

    lemma_words();
    lemma_absent();
}

/// A notification of another kind does nothing.
pub proof fn law_other_notifications_do_nothing(
    registry: RegistryView,
    server: Seq<char>,
    thread_id: Seq<char>,
    turn_id: Seq<char>,
    notification: NotificationView,
)
    requires
        notification.method != "item/started"@,
        notification.method != "item/agentMessage/delta"@,
        notification.method != "item/completed"@,
        notification.method != "turn/completed"@,
    ensures
        ({
            let outcome = event_outcome(registry, server, thread_id, turn_id, notification);
            &&& outcome.registry == registry
            &&& outcome.event == Ok::<Option<JsonView>, Seq<char>>(None)
        }),
{
}

/// A notification about an item of another turn or thread does nothing, and neither does the end of
/// another turn.
pub proof fn law_other_turns_do_nothing(
    registry: RegistryView,
    server: Seq<char>,
    thread_id: Seq<char>,
    turn_id: Seq<char>,
    notification: NotificationView,
)
    requires
        notification.method == "turn/completed"@ ==> {
            ||| notification.params.field("threadId"@) != JsonView::Str(thread_id)
            ||| notification.params.field("turn"@).field("id"@) != JsonView::Str(turn_id)
        },
        notification.method != "turn/completed"@ ==> !is_about(notification, thread_id, turn_id),
    ensures
        ({
            let outcome = event_outcome(registry, server, thread_id, turn_id, notification);
            &&& outcome.registry == registry
            &&& outcome.event == Ok::<Option<JsonView>, Seq<char>>(None)
        }),
{
    lemma_words();
}

/// A notification ends a wait just where it says that the watched turn has ended, and there is
/// room for its record; the report then has the status that it gives.
pub proof fn law_only_the_end_of_the_turn_ends_a_wait(
    wait: WaitView,
    notification: NotificationView,
    registry: RegistryView,
    progress: ProgressView,
)
    ensures
        processed(wait, notification, registry, progress).result matches Ok(Some(terminal)) ==> {
            let turn = notification.params.field("turn"@);
            &&& notification.method == "turn/completed"@
            &&& notification.params.field("threadId"@) == JsonView::Str(wait.thread_id)
            &&& turn.field("id"@) == JsonView::Str(wait.turn_id)
            &&& turn.field("status"@) is Str
            &&& is_end(turn.field("status"@).text())
            &&& terminal.output.field("status"@) == turn.field("status"@)
            &&& terminal.exit_code == 0 <==> turn.field("status"@) == JsonView::Str("completed"@)
        },
        ({
            let turn = notification.params.field("turn"@);
            &&& notification.method == "turn/completed"@
            &&& notification.params.field("threadId"@) == JsonView::Str(wait.thread_id)
            &&& turn.field("id"@) == JsonView::Str(wait.turn_id)
            &&& turn.field("status"@) is Str
            &&& is_end(turn.field("status"@).text())
        }) && !progress.retain ==> (processed(
            wait,
            notification,
            registry,
            progress,
        ).result matches Ok(Some(_))),
{
    broadcast use lemma_get_with;

    lemma_words();
    lemma_absent();
    let turn = notification.params.field("turn"@);
    let outcome = event_outcome(
        registry,
        wait.server,
        wait.thread_id,
        wait.turn_id,
        notification,
    );
    if is_about(notification, wait.thread_id, wait.turn_id) {
        if notification.method == "item/agentMessage/delta"@ {
            law_delta_is_recorded(
                registry,
                wait.server,
                wait.thread_id,
                wait.turn_id,
                notification,
            );
        }
        if notification.method == "item/completed"@ {
            law_completion_is_recorded(
                registry,
                wait.server,
                wait.thread_id,
                wait.turn_id,
                notification,
            );
        }
    }
    law_status_is_reported(turn, turn.field("status"@).text());
    if let Ok(Some(event)) = outcome.event {
        law_report_says_how_the_turn_ended(
            wait,
            event.field("status"@).text(),
            outcome.registry,
            progress.pushed(event).values,
        );
    }
}

/// A completion under a known id is news just where its text is not the entry's. Either way the
/// entry has that text afterwards, and is being replayed no longer; the other entries stay.
pub proof fn law_completion_sets_the_text(registry: RegistryView, id: Seq<char>, text: Seq<char>)
    requires
        registry.wf(),
        registry.retain_text,
        registry.aliases.dom().contains(id),
    ensures
        ({
            let i = registry.aliases[id] as int;
            let result = registry.live_completion(Some(id), text);
            let (after, news) = result->0;
            &&& result is Some
            &&& news is None <==> registry.items[i].text == text
            &&& news matches Some(ids) ==> ids.item_id == registry.items[i].item_id
            &&& after.items.len() == registry.items.len()
            &&& after.items[i].text == text
            &&& after.items[i].observed == encode_utf8(text)
            &&& after.items[i].replay_cursor is None
            &&& after.items[i].item_id == registry.items[i].item_id
            &&& forall|k: int|
                0 <= k < registry.items.len() && k != i ==> #[trigger] after.items[k]
                    == registry.items[k]
            &&& after.aliases == registry.aliases
        }),
{
    assert(registry.aliases[id] < registry.items.len());
}

/// Where texts are not kept, a completion under a known id is no news where it has the content
/// that was observed, and is news where its text has another length.
pub proof fn law_completion_is_told_by_its_digest(
    registry: RegistryView,
    id: Seq<char>,
    text: Seq<char>,
)
    requires
        registry.wf(),
        !registry.retain_text,
        registry.aliases.dom().contains(id),
        registry.items[registry.aliases[id] as int].observed.len() <= usize::MAX,
    ensures
        ({
            let i = registry.aliases[id] as int;
            let result = registry.live_completion(Some(id), text);
            let (after, news) = result->0;
            &&& result is Some
            &&& registry.items[i].observed == encode_utf8(text) ==> news is None
            &&& registry.items[i].observed.len() != encode_utf8(text).len() ==> (news matches Some(
                ids,
            ) && ids.item_id == registry.items[i].item_id)
            &&& after.items[i].observed == encode_utf8(text)
            &&& after.items[i].text.len() == 0
            &&& after.items[i].replay_cursor is None
        }),
{
    assert(registry.aliases[id] < registry.items.len());
}

/// An id that no entry is known under, and that nothing else waits for, gets an entry of its
/// own, after all the others.
pub proof fn law_new_id_gets_a_new_entry(registry: RegistryView, id: Seq<char>)
    requires
        !registry.aliases.dom().contains(id),
        registry.items.len() < 4096,
        forall|i: int|
            0 <= i < registry.items.len() ==> {
                let entry = #[trigger] registry.items[i];
                entry.live_id is Some || (entry.item_id is Some && entry.replay_cursor is None)
            },
    ensures
        ({
            let result = registry.resolved(Some(id));
            let (after, index) = result->0;
            &&& result is Some
            &&& index == registry.items.len()
            &&& after.items.len() == registry.items.len() + 1
            &&& after.items.drop_last() == registry.items
            &&& after.items[index].item_id == Some(id)
            &&& after.items[index].text.len() == 0
            &&& after.aliases.dom().contains(id)
            &&& after.aliases[id] == index
        }),
{
    assert forall|i: int| !is_last(registry.items, provisional(), i) by {}
    assert forall|i: int| !is_last(registry.items, awaiting_live_id(), i) by {}
    let entry = EntryView::new(Some(id));
    lemma_alias_ids(entry);
    lemma_registered_ids(registry.aliases, entry.alias_ids(), registry.items.len() as int, id);
    assert(registry.items.push(entry).drop_last() =~= registry.items);
}

/// An id that no entry is known under names the last entry that has neither a canonical nor a
/// live id; where there is none, it is the live id of the last entry that was seeded, may still
/// be replayed, and has no live id.
pub proof fn law_new_id_joins_what_waits_for_it(registry: RegistryView, id: Seq<char>, i: int)
    requires
        registry.wf(),
        !registry.aliases.dom().contains(id),
        0 <= i < registry.items.len(),
        registry.items[i].live_id is None,
    ensures
        ({
            let nameless_after = exists|k: int|
                i < k < registry.items.len() && (#[trigger] registry.items[k]).item_id is None
                    && registry.items[k].live_id is None;
            let result = registry.resolved(Some(id));
            let (after, index) = result->0;
            registry.items[i].item_id is None && !nameless_after ==> {
                &&& result is Some
                &&& index == i
                &&& after.items[i].item_id == Some(id)
                &&& after.items[i].text == registry.items[i].text
                &&& after.aliases[id] == i
                &&& after.items.len() == registry.items.len()
            }
        }),
        ({
            let nameless = exists|k: int|
                0 <= k < registry.items.len() && (#[trigger] registry.items[k]).item_id is None
                    && registry.items[k].live_id is None;
            let awaited_after = exists|k: int|
                i < k < registry.items.len() && (#[trigger] registry.items[k]).live_id is None
                    && registry.items[k].replay_cursor is Some;
            let result = registry.resolved(Some(id));
            let (after, index) = result->0;
            !nameless && registry.items[i].replay_cursor is Some && !awaited_after ==> {
                &&& result is Some
                &&& index == i
                &&& after.items[i].live_id == Some(id)
                &&& after.items[i].item_id == registry.items[i].item_id
                &&& after.items[i].text == registry.items[i].text
                &&& after.aliases[id] == i
                &&& after.items.len() == registry.items.len()
            }
        }),
{
    let items = registry.items;
    let nameless_after = exists|k: int|
        i < k < items.len() && (#[trigger] items[k]).item_id is None && items[k].live_id is None;
    if items[i].item_id is None && !nameless_after {
        assert(is_last(items, provisional(), i));
        let k = choose|k: int| is_last(items, provisional(), k);
        if k < i {
            assert(!provisional()(items[i]));
        }
        if i < k {
            assert(items[k].item_id is None && items[k].live_id is None);
        }
        assert(last_index(items, provisional()) == Some(i));
    }
    let nameless = exists|k: int|
        0 <= k < items.len() && (#[trigger] items[k]).item_id is None && items[k].live_id is None;
    let awaited_after = exists|k: int|
        i < k < items.len() && (#[trigger] items[k]).live_id is None && items[k].replay_cursor is Some;
    if !nameless && items[i].replay_cursor is Some && !awaited_after {
        assert forall|k: int| !is_last(items, provisional(), k) by {
            if 0 <= k < items.len() && provisional()(items[k]) {
                assert(items[k].item_id is None && items[k].live_id is None);
            }
        }
        assert(is_last(items, awaiting_live_id(), i));
        let k = choose|k: int| is_last(items, awaiting_live_id(), k);
        if k < i {
            assert(!awaiting_live_id()(items[i]));
        }
        if i < k {
            assert(items[k].live_id is None && items[k].replay_cursor is Some);
        }
        assert(last_index(items, awaiting_live_id()) == Some(i));
    }
}

} // verus!
