use vstd::prelude::*;
use vstd::utf8::*;

use crate::json::JsonView;
use crate::turns::assistant::EntryView;
use crate::turns::laws::lemma_observed_matches;
use crate::turns::registry::{
    first_index, is_first, lemma_alias_ids, lemma_registered_ids, synced, synced_item, synced_turn,
    unnamed, RegistryView, SyncView,
};

verus! {

/// Whether an item of a turn is a message of the agent.
pub open spec fn is_message(item: JsonView) -> bool {
    item.field("type"@) == JsonView::Str("agentMessage"@)
}

/// The agent's messages among the first `n` items of a turn, in order.
pub open spec fn messages(items: Seq<JsonView>, n: nat) -> Seq<JsonView>
    decreases n,
{
    if n == 0 {
        Seq::empty()
    } else if is_message(items[n - 1]) {
        messages(items, (n - 1) as nat).push(items[n - 1])
    } else {
        messages(items, (n - 1) as nat)
    }
}

/// All the agent's messages of a turn, in order.
pub open spec fn messages_of(turn: JsonView) -> Seq<JsonView> {
    messages(turn.field("items"@).items(), turn.field("items"@).items().len())
}

/// The messages among fewer items start those among more.
proof fn lemma_messages_grow(items: Seq<JsonView>, n: nat, m: nat)
    requires
        n <= m,
    ensures
        messages(items, n).len() <= messages(items, m).len(),
        forall|k: int|
            0 <= k < messages(items, n).len() ==> messages(items, n)[k] == #[trigger] messages(
                items,
                m,
            )[k],
    decreases m,
{
    if n < m {
        lemma_messages_grow(items, n, (m - 1) as nat);
    }
}

/// A polled message is looked for at the place that it has among the agent's messages:
/// whatever else a turn holds does not count.
pub proof fn law_position_counts_messages(registry: RegistryView, items: Seq<JsonView>, n: nat)
    requires
        !synced(registry, items, n).failed,
    ensures
        synced(registry, items, n).position == messages(items, n).len(),
    decreases n,
{
    if n > 0 {
        law_position_counts_messages(registry, items, (n - 1) as nat);
    }
}

/// An item that is no message of the agent changes nothing.
pub proof fn law_other_items_change_nothing(state: SyncView, item: JsonView)
    requires
        !is_message(item),
    ensures
        synced_item(state, item) == state,
{
}

/// Whether the entries of a registry, in order, have the contents of these messages, which the
/// poll lists under ids of their own that are not known yet.
pub open spec fn streamed_before(registry: RegistryView, polled: Seq<JsonView>) -> bool {
    &&& polled.len() <= registry.items.len()
    &&& forall|k: int|
        0 <= k < polled.len() ==> {
            let id = (#[trigger] polled[k]).field("id"@).as_str();
            let entry = registry.items[k];
            &&& id is Some
            &&& !registry.aliases.dom().contains(id->0)
            &&& entry.poll_id is None
            &&& entry.observed == encode_utf8(polled[k].field("text"@).text())
            &&& entry.observed.len() <= usize::MAX
        }
    &&& forall|j: int, k: int|
        0 <= j < k < polled.len() ==> (#[trigger] polled[j]).field("id"@) != (
        #[trigger] polled[k]).field("id"@)
}

/// What a poll of streamed messages has left of a registry after `c` of them.
spec fn joined_to(
    registry: RegistryView,
    polled: Seq<JsonView>,
    c: nat,
    after: RegistryView,
) -> bool {
    &&& after.retain_text == registry.retain_text
    &&& after.items.len() == registry.items.len()
    &&& forall|k: int|
        0 <= k < after.items.len() ==> (#[trigger] after.items[k]) == if k < c {
            EntryView { poll_id: polled[k].field("id"@).as_str(), ..registry.items[k] }
        } else {
            registry.items[k]
        }
    &&& forall|id: Seq<char>| #[trigger]
        after.aliases.dom().contains(id) ==> registry.aliases.dom().contains(id) || exists|k: int|
            0 <= k < c && (#[trigger] polled[k]).field("id"@) == JsonView::Str(id)
    &&& forall|k: int|
        0 <= k < c ==> {
            let id = (#[trigger] polled[k]).field("id"@).text();
            after.aliases.dom().contains(id) && after.aliases[id] == k
        }
}

proof fn lemma_streamed_join(
    registry: RegistryView,
    items: Seq<JsonView>,
    polled: Seq<JsonView>,
    n: nat,
)
    requires
        registry.wf(),
        n <= items.len(),
        polled == messages(items, items.len()),
        streamed_before(registry, polled),
    ensures
        ({
            let state = synced(registry, items, n);
            &&& !state.failed
            &&& state.updates.len() == 0
            &&& state.position == messages(items, n).len()
            &&& joined_to(registry, polled, messages(items, n).len(), state.registry)
        }),
    decreases n,
{
    if n > 0 {
        let m = (n - 1) as nat;
        lemma_streamed_join(registry, items, polled, m);
        lemma_messages_grow(items, n, items.len());
        lemma_messages_grow(items, m, items.len());
        let item = items[n - 1];
        let before = synced(registry, items, m);
        let c = messages(items, m).len() as int;
        if is_message(item) {
            assert(messages(items, n)[c] == item);
            assert(polled[c] == item);
            let id = item.field("id"@).as_str()->0;
            let known = registry.items[c];
            assert(before.registry.items[c] == known);
            assert(!before.registry.aliases.dom().contains(id)) by {
                if before.registry.aliases.dom().contains(id) {
                    let k = choose|k: int|
                        0 <= k < c && (#[trigger] polled[k]).field("id"@) == JsonView::Str(id);
                    assert(polled[k].field("id"@) != polled[c].field("id"@));
                }
            }
            assert(registry.names_known(known));
            assert(known.item_id != Some(id));
            let named = known.polled_as(Some(id));
            let text = item.field("text"@).text();
            assert(known.consistent(registry.retain_text));
            lemma_observed_matches(known, text, registry.retain_text);
            let after = synced(registry, items, n).registry;
            assert forall|k: int| 0 <= k < after.items.len() implies (#[trigger] after.items[k])
                == if k < c + 1 {
                EntryView { poll_id: polled[k].field("id"@).as_str(), ..registry.items[k] }
            } else {
                registry.items[k]
            } by {
                if k != c {
                    assert(after.items[k] == before.registry.items[k]);
                }
            }
            assert forall|k: int| 0 <= k < c + 1 implies {
                let own = (#[trigger] polled[k]).field("id"@).text();
                after.aliases.dom().contains(own) && after.aliases[own] == k
            } by {
                if k < c {
                    assert(polled[k].field("id"@) != polled[c].field("id"@));
                    let own = polled[k].field("id"@).text();
                    assert(before.registry.aliases.dom().contains(own));
                }
            }
            assert forall|other: Seq<char>| #[trigger]
                after.aliases.dom().contains(other) implies registry.aliases.dom().contains(other)
                || exists|k: int|
                0 <= k < c + 1 && (#[trigger] polled[k]).field("id"@) == JsonView::Str(other) by {
                if other == id {
                    assert(polled[c].field("id"@) == JsonView::Str(other));
                } else {
                    assert(before.registry.aliases.dom().contains(other));
                    if !registry.aliases.dom().contains(other) {
                        let k = choose|k: int|
                            0 <= k < c && (#[trigger] polled[k]).field("id"@) == JsonView::Str(
                                other,
                            );
                        assert(polled[k].field("id"@) == JsonView::Str(other));
                    }
                }
            }
        }
    }
}

/// A poll repeats nothing that was streamed live: where the entries, in order, have the
/// contents of the turn's messages, in order, and the poll lists those under ids of its own,
/// nothing is reported, no entry is added, and every text stays.
pub proof fn law_streamed_messages_are_not_polled_anew(registry: RegistryView, turn: JsonView)
    requires
        registry.wf(),
        streamed_before(registry, messages_of(turn)),
    ensures
        ({
            let poll = synced_turn(registry, turn);
            &&& !poll.failed
            &&& poll.updates.len() == 0
            &&& poll.registry.items.len() == registry.items.len()
            &&& forall|k: int|
                0 <= k < registry.items.len() ==> {
                    let entry = #[trigger] poll.registry.items[k];
                    &&& entry.item_id == registry.items[k].item_id
                    &&& entry.live_id == registry.items[k].live_id
                    &&& entry.text == registry.items[k].text
                    &&& entry.observed == registry.items[k].observed
                    &&& k < messages_of(turn).len() ==> entry.poll_id == messages_of(
                        turn,
                    )[k].field("id"@).as_str()
                }
            &&& forall|k: int|
                0 <= k < messages_of(turn).len() ==> {
                    let id = (#[trigger] messages_of(turn)[k]).field("id"@).text();
                    poll.registry.aliases.dom().contains(id) && poll.registry.aliases[id] == k
                }
        }),
{
    let items = turn.field("items"@).items();
    lemma_streamed_join(registry, items, messages_of(turn), items.len());
}

/// A polled message that no entry is known for, by its id or by its place, becomes an entry of
/// its own, under its id and with its text, and is reported where it has a text.
pub proof fn law_unknown_message_is_added(state: SyncView, item: JsonView, id: Seq<char>)
    requires
        !state.failed,
        is_message(item),
        item.field("id"@) == JsonView::Str(id),
        !state.registry.aliases.dom().contains(id),
        state.position < state.registry.items.len() ==> {
            let other = state.registry.items[state.position as int].poll_id;
            other is Some && other != Some(id)
        },
        state.registry.items.len() < 4096,
    ensures
        ({
            let after = synced_item(state, item);
            let text = item.field("text"@).text();
            let n = state.registry.items.len() as int;
            &&& !after.failed
            &&& after.position == state.position + 1
            &&& after.registry.items.len() == n + 1
            &&& forall|k: int|
                0 <= k < n ==> #[trigger] after.registry.items[k] == state.registry.items[k]
            &&& after.registry.items[n].item_id == Some(id)
            &&& after.registry.items[n].observed == encode_utf8(text)
            &&& after.registry.items[n].text == if state.registry.retain_text {
                text
            } else {
                Seq::empty()
            }
            &&& after.registry.aliases.dom().contains(id)
            &&& after.registry.aliases[id] == n
            &&& text.len() == 0 ==> after.updates == state.updates
            &&& text.len() > 0 ==> {
                &&& after.updates.len() == state.updates.len() + 1
                &&& after.updates.drop_last() == state.updates
                &&& after.updates.last().0.item_id == Some(id)
                &&& after.updates.last().1 == text
            }
        }),
{
    let registry = state.registry;
    let text = item.field("text"@).text();
    let entry = EntryView::new(Some(id)).replaced(text, registry.retain_text);
    lemma_alias_ids(entry);
    assert(entry.alias_ids().contains(id));
    lemma_registered_ids(registry.aliases, entry.alias_ids(), registry.items.len() as int, id);
    assert(state.updates.push((entry.ids(), text)).drop_last() =~= state.updates);
}

/// A polled message without an id is the first entry that no event has identified, and where
/// there is none it becomes an entry of its own, without an id.
pub proof fn law_nameless_message_finds_the_first_nameless_entry(
    state: SyncView,
    item: JsonView,
    i: int,
)
    requires
        state.registry.wf(),
        state.registry.retain_text,
        !state.failed,
        is_message(item),
        !(item.field("id"@) is Str),
    ensures
        ({
            let after = synced_item(state, item);
            let items = state.registry.items;
            let text = item.field("text"@).text();
            &&& 0 <= i < items.len() && items[i].item_id is None && (forall|j: int|
                0 <= j < i ==> (#[trigger] items[j]).item_id is Some) ==> {
                &&& !after.failed
                &&& after.registry.items.len() == items.len()
                &&& after.registry.items[i].text == if text.len() > 0 {
                    text
                } else {
                    items[i].text
                }
                &&& after.registry.items[i].item_id is None
            }
            &&& items.len() < 4096 && (forall|j: int|
                0 <= j < items.len() ==> (#[trigger] items[j]).item_id is Some) ==> {
                &&& !after.failed
                &&& after.registry.items.len() == items.len() + 1
                &&& after.registry.items.last().item_id is None
                &&& after.registry.items.last().text == text
            }
        }),
{
    let items = state.registry.items;
    if 0 <= i < items.len() && items[i].item_id is None && (forall|j: int|
        0 <= j < i ==> (#[trigger] items[j]).item_id is Some) {
        assert(is_first(items, unnamed(), i));
        let k = choose|k: int| is_first(items, unnamed(), k);
        if k < i {
            assert(items[k].item_id is Some);
        }
        if i < k {
            assert(!unnamed()(items[i]));
        }
        assert(first_index(items, unnamed()) == Some(i));
    }
    if forall|j: int| 0 <= j < items.len() ==> (#[trigger] items[j]).item_id is Some {
        assert forall|k: int| !is_first(items, unnamed(), k) by {
            if 0 <= k < items.len() {
                assert(items[k].item_id is Some);
            }
        }
    }
}

/// A polled message that an entry is known for by its id is news just where it has a text that
/// is not the entry's. It is reported then, under the entry's canonical id, and becomes the
/// entry's text. Nothing else changes.
pub proof fn law_known_message_is_updated(state: SyncView, item: JsonView, id: Seq<char>)
    requires
        state.registry.wf(),
        state.registry.retain_text,
        !state.failed,
        is_message(item),
        item.field("id"@) == JsonView::Str(id),
        state.registry.aliases.dom().contains(id),
    ensures
        ({
            let after = synced_item(state, item);
            let text = item.field("text"@).text();
            let i = state.registry.aliases[id] as int;
            let known = state.registry.items[i];
            let entry = after.registry.items[i];
            &&& !after.failed
            &&& after.position == state.position + 1
            &&& after.registry.items.len() == state.registry.items.len()
            &&& forall|k: int|
                0 <= k < state.registry.items.len() && k != i
                    ==> #[trigger] after.registry.items[k] == state.registry.items[k]
            &&& entry.item_id == known.item_id
            &&& entry.live_id == known.live_id
            &&& text.len() == 0 || text == known.text ==> {
                &&& after.updates == state.updates
                &&& entry.text == known.text
                &&& entry.replay_cursor == known.replay_cursor
            }
            &&& text.len() > 0 && text != known.text ==> {
                &&& after.updates.len() == state.updates.len() + 1
                &&& after.updates.drop_last() == state.updates
                &&& after.updates.last().0.item_id == known.item_id
                &&& after.updates.last().1 == text
                &&& entry.text == text
                &&& entry.replay_cursor is Some <==> known.replay_cursor is Some
                &&& entry.replay_cursor is Some ==> entry.replay_cursor == Some(0nat)
            }
        }),
{
    let i = state.registry.aliases[id] as int;
    assert(state.registry.aliases[id] < state.registry.items.len());
    let known = state.registry.items[i].polled_as(Some(id));
    let text = item.field("text"@).text();
    let entry = known.polled_text(text, true, true);
    assert(state.updates.push((entry.ids(), text)).drop_last() =~= state.updates);
}

/// Where texts are not kept, a polled message that an entry is known for by its id is no news where
/// it has the content that was observed, and is news where its text has another length; what was
/// observed is then that text.
pub proof fn law_released_message_is_updated(state: SyncView, item: JsonView, id: Seq<char>)
    requires
        state.registry.wf(),
        !state.registry.retain_text,
        !state.failed,
        is_message(item),
        item.field("id"@) == JsonView::Str(id),
        state.registry.aliases.dom().contains(id),
        state.registry.items[state.registry.aliases[id] as int].observed.len() <= usize::MAX,
    ensures
        ({
            let after = synced_item(state, item);
            let text = item.field("text"@).text();
            let i = state.registry.aliases[id] as int;
            let known = state.registry.items[i];
            let entry = after.registry.items[i];
            &&& !after.failed
            &&& after.registry.items.len() == state.registry.items.len()
            &&& entry.text.len() == 0
            &&& entry.item_id == known.item_id
            &&& text.len() == 0 || encode_utf8(text) == known.observed ==> after.updates
                == state.updates && entry.observed == known.observed
            &&& text.len() > 0 && encode_utf8(text).len() != known.observed.len() ==> {
                &&& after.updates.len() == state.updates.len() + 1
                &&& after.updates.drop_last() == state.updates
                &&& after.updates.last().0.item_id == known.item_id
                &&& after.updates.last().1 == text
                &&& entry.observed == encode_utf8(text)
            }
        }),
{
    let i = state.registry.aliases[id] as int;
    assert(state.registry.aliases[id] < state.registry.items.len());
    let known = state.registry.items[i].polled_as(Some(id));
    let text = item.field("text"@).text();
    assert(state.registry.items[i].consistent(false));
    let entry = known.polled_text(text, false, true);
    assert(state.updates.push((entry.ids(), text)).drop_last() =~= state.updates);
}

/// Whether the messages of a turn each have an id of their own.
pub open spec fn all_named(polled: Seq<JsonView>) -> bool {
    &&& forall|k: int| 0 <= k < polled.len() ==> (#[trigger] polled[k]).field("id"@) is Str
    &&& forall|j: int, k: int|
        0 <= j < k < polled.len() ==> (#[trigger] polled[j]).field("id"@) != (
        #[trigger] polled[k]).field("id"@)
}

proof fn lemma_read_anew(items: Seq<JsonView>, polled: Seq<JsonView>, n: nat)
    requires
        n <= items.len(),
        polled == messages(items, items.len()),
        all_named(polled),
        polled.len() <= 4096,
    ensures
        ({
            let state = synced(RegistryView::empty(), items, n);
            let c = messages(items, n).len();
            &&& !state.failed
            &&& state.position == c
            &&& state.registry.retain_text
            &&& state.registry.items.len() == c
            &&& forall|k: int|
                0 <= k < c ==> {
                    let entry = #[trigger] state.registry.items[k];
                    &&& entry.item_id == polled[k].field("id"@).as_str()
                    &&& entry.text == polled[k].field("text"@).text()
                }
            &&& forall|id: Seq<char>| #[trigger]
                state.registry.aliases.dom().contains(id) ==> exists|k: int|
                    0 <= k < c && (#[trigger] polled[k]).field("id"@) == JsonView::Str(id)
        }),
    decreases n,
{
    if n > 0 {
        let m = (n - 1) as nat;
        lemma_read_anew(items, polled, m);
        lemma_messages_grow(items, n, items.len());
        lemma_messages_grow(items, m, items.len());
        let item = items[n - 1];
        let before = synced(RegistryView::empty(), items, m);
        let c = messages(items, m).len() as int;
        if is_message(item) {
            assert(messages(items, n)[c] == item);
            assert(polled[c] == item);
            let id = item.field("id"@).as_str()->0;
            assert(item.field("id"@) == JsonView::Str(id));
            assert(!before.registry.aliases.dom().contains(id)) by {
                if before.registry.aliases.dom().contains(id) {
                    let k = choose|k: int|
                        0 <= k < c && (#[trigger] polled[k]).field("id"@) == JsonView::Str(id);
                    assert(polled[k].field("id"@) != polled[c].field("id"@));
                }
            }
            law_unknown_message_is_added(before, item, id);
            let text = item.field("text"@).text();
            let entry = EntryView::new(Some(id)).replaced(text, true);
            let after = synced(RegistryView::empty(), items, n).registry;
            assert forall|other: Seq<char>| #[trigger]
                after.aliases.dom().contains(other) implies exists|k: int|
                0 <= k < c + 1 && (#[trigger] polled[k]).field("id"@) == JsonView::Str(other) by {
                lemma_alias_ids(entry);
                lemma_registered_ids(before.registry.aliases, entry.alias_ids(), c, other);
                if before.registry.aliases.dom().contains(other) {
                    let k = choose|k: int|
                        0 <= k < c && (#[trigger] polled[k]).field("id"@) == JsonView::Str(other);
                    assert(polled[k].field("id"@) == JsonView::Str(other));
                } else {
                    assert(polled[c].field("id"@) == JsonView::Str(other));
                }
            }
        }
    }
}

/// A turn that is read with nothing known of it gives one entry for each of the agent's
/// messages, in order, under its id and with its text.
pub proof fn law_turn_read_anew_lists_its_messages(turn: JsonView)
    requires
        all_named(messages_of(turn)),
        messages_of(turn).len() <= 4096,
    ensures
        ({
            let read = synced_turn(RegistryView::empty(), turn);
            let polled = messages_of(turn);
            &&& !read.failed
            &&& read.registry.items.len() == polled.len()
            &&& forall|k: int|
                0 <= k < polled.len() ==> {
                    let entry = #[trigger] read.registry.items[k];
                    &&& entry.item_id == polled[k].field("id"@).as_str()
                    &&& entry.text == polled[k].field("text"@).text()
                }
        }),
{
    let items = turn.field("items"@).items();
    lemma_read_anew(items, messages_of(turn), items.len());
}

} // verus!
