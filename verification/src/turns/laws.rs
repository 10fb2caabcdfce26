use vstd::prelude::*;
use vstd::utf8::*;

use crate::digest::blake3_hash;
use crate::json::{lemma_get_with, JsonView};
use crate::text::{lemma_encode_concat, lemma_split_at_boundary, lemma_text_from};
use crate::turns::assistant::{EntryView, ItemIdsView};
use crate::turns::attach::seed_for_wait;
use crate::turns::overlap::lemma_longest_overlap;
use crate::turns::registry::{
    awaiting_live_id, first_index, is_agent_message, is_first, is_last, last_index,
    lemma_alias_ids, lemma_registered_ids, lemma_wf_changed, lemma_wf_renamed, provisional, synced,
    synced_item, synced_turn, unnamed, RegistryView, SyncView,
};
use crate::turns::replay::{delta_text, Replay};
use crate::turns::snapshot::{seed_of_snapshot, seeded_items, seeded_turns};

verus! {

impl Replay {
    /// The deltas of an item that are let through among the first `n` notifications, put
    /// together.
    pub open spec fn emitted(self, n: nat, key: Option<Seq<char>>) -> Seq<char>
        decreases n,
    {
        if n == 0 {
            Seq::empty()
        } else {
            let before = self.emitted((n - 1) as nat, key);
            let notification = self.notifications[n - 1];
            match self.kept(n - 1) {
                Some(kept) => if self.is_delta(notification) && self.key_of(notification) == key {
                    before + delta_text(kept)
                } else {
                    before
                },
                None => before,
            }
        }
    }

    pub proof fn lemma_emitted(self, n: nat, key: Option<Seq<char>>)
        requires
            n <= self.notifications.len(),
        ensures
            self.emitted(n, key) == if self.replayed(n, key).len() <= self.skip(key) {
                Seq::empty()
            } else {
                self.replayed(n, key).skip(self.skip(key) as int)
            },
        decreases n,
    {
        if n > 0 {
            let i = n - 1;
            self.lemma_emitted(i as nat, key);
            let notification = self.notifications[i];
            if self.is_delta(notification) && self.key_of(notification) == key {
                let start = self.replayed(i as nat, key);
                let delta = delta_text(notification);
                let skip = self.skip(key) as int;
                let after = start + delta;
                if after.len() <= skip {
                } else if start.len() < skip {
                    let rest = JsonView::Str(delta.skip(skip - start.len()));
                    lemma_get_with(notification.params, "delta"@, rest, "delta"@);
                    assert(delta_text(self.kept(i)->0) == delta.skip(skip - start.len()));
                    assert(Seq::<char>::empty() + delta.skip(skip - start.len()) =~= after.skip(
                        skip,
                    ));
                } else {
                    assert(self.kept(i) == Some(notification));
                    if start.len() == skip {
                        assert(Seq::<char>::empty() + delta =~= after.skip(skip));
                    } else {
                        assert(start.skip(skip) + delta =~= after.skip(skip));
                    }
                }
            }
        }
    }
}

/// After an attach was reconciled, the snapshot text of every item, with the deltas that go
/// on for it, is the snapshot text with the buffered deltas laid over its end: nothing that
/// the snapshot holds is repeated, and nothing that it lacks is lost.
pub proof fn law_reconciled_deltas_continue_the_snapshot(replay: Replay, key: Option<Seq<char>>)
    ensures
        ({
            let known = replay.known(key);
            let all = replay.replayed(replay.notifications.len(), key);
            let skip = replay.skip(key);
            &&& skip <= known.len()
            &&& known + replay.emitted(replay.notifications.len(), key) == known.take(
                known.len() - skip,
            ) + all
        }),
{
    let known = replay.known(key);
    let all = replay.replayed(replay.notifications.len(), key);
    let skip = replay.skip(key) as int;
    lemma_longest_overlap(known, all);
    replay.lemma_emitted(replay.notifications.len(), key);
    assert(all =~= all.take(skip) + all.skip(skip));
    assert(known =~= known.take(known.len() - skip) + known.skip(known.len() - skip));
    let emitted = replay.emitted(replay.notifications.len(), key);
    if all.len() <= skip {
        assert(emitted =~= all.skip(skip));
    }
    assert(known + emitted =~= known.take(known.len() - skip) + all);
}

/// Whether every entry keeps its place and its canonical id, and every id keeps standing for
/// the entry that it stood for.
pub open spec fn keeps_identities(before: RegistryView, after: RegistryView) -> bool {
    &&& before.items.len() <= after.items.len()
    &&& forall|i: int|
        0 <= i < before.items.len() && (#[trigger] before.items[i]).item_id is Some
            ==> after.items[i].item_id == before.items[i].item_id
    &&& forall|id: Seq<char>| #[trigger]
        before.aliases.dom().contains(id) ==> after.aliases.dom().contains(id)
            && after.aliases[id] == before.aliases[id]
}

proof fn lemma_pushed_keeps(registry: RegistryView, entry: EntryView)
    requires
        registry.wf(),
    ensures
        registry.pushed(entry) matches Some(after) ==> keeps_identities(registry, after),
{
    if let Some(after) = registry.pushed(entry) {
        assert forall|id: Seq<char>| #[trigger]
            registry.aliases.dom().contains(id) implies after.aliases.dom().contains(id)
            && after.aliases[id] == registry.aliases[id] by {
            lemma_registered_ids(
                registry.aliases,
                entry.alias_ids(),
                registry.items.len() as int,
                id,
            );
        }
    }
}

proof fn lemma_resolved_keeps(registry: RegistryView, item_id: Option<Seq<char>>)
    requires
        registry.wf(),
    ensures
        registry.resolved(item_id) matches Some((after, index)) ==> keeps_identities(
            registry,
            after,
        ) && 0 <= index < after.items.len(),
{
    lemma_pushed_keeps(registry, EntryView::new(item_id));
    if let Some(id) = item_id {
        if registry.aliases.dom().contains(id) {
            assert(registry.aliases[id] < registry.items.len());
        }
    }
}

/// A declaration, a live delta, a live completion and a snapshot item leave all identities as
/// they are.
pub proof fn law_live_events_keep_identities(
    registry: RegistryView,
    item_id: Option<Seq<char>>,
    text: Seq<char>,
)
    requires
        registry.wf(),
    ensures
        registry.live_delta(item_id, text) matches Some((after, _)) ==> keeps_identities(
            registry,
            after,
        ),
        registry.live_completion(item_id, text) matches Some((after, _)) ==> keeps_identities(
            registry,
            after,
        ),
        registry.seeded(item_id, text) matches Some(after) ==> keeps_identities(registry, after),
        item_id matches Some(id) ==> (registry.started(id) matches Some(after)
            ==> keeps_identities(registry, after)),
{
    lemma_resolved_keeps(registry, item_id);
    lemma_pushed_keeps(registry, EntryView::new(item_id));
    lemma_pushed_keeps(
        registry,
        EntryView {
            replay_cursor: Some(0),
            ..EntryView::new(item_id).replaced(text, registry.retain_text)
        },
    );
}

proof fn lemma_pushed_wf(registry: RegistryView, entry: EntryView)
    requires
        registry.wf(),
        entry.consistent(registry.retain_text),
    ensures
        registry.pushed(entry) matches Some(after) ==> {
            &&& after.wf()
            &&& entry.item_id matches Some(id) ==> !registry.aliases.dom().contains(id)
                ==> after.find(Some(id)) == Some(registry.items.len() as int)
        },
{
    if let Some(after) = registry.pushed(entry) {
        let at = registry.items.len() as int;
        lemma_alias_ids(entry);
        assert forall|id: Seq<char>| #[trigger]
            after.aliases.dom().contains(id) implies after.aliases[id] < after.items.len() by {
            lemma_registered_ids(registry.aliases, entry.alias_ids(), at, id);
            if registry.aliases.dom().contains(id) {
                assert(registry.aliases[id] < registry.items.len());
            }
        }
        assert forall|i: int| 0 <= i < after.items.len() implies after.names_known(
            #[trigger] after.items[i],
        ) by {
            let known = after.items[i];
            if i < at {
                assert(registry.names_known(registry.items[i]));
            }
            if let Some(id) = known.item_id {
                lemma_registered_ids(registry.aliases, entry.alias_ids(), at, id);
                assert(i == at ==> entry.alias_ids().contains(id));
            }
            if let Some(id) = known.live_id {
                lemma_registered_ids(registry.aliases, entry.alias_ids(), at, id);
                assert(i == at ==> entry.alias_ids().contains(id));
            }
            if let Some(id) = known.poll_id {
                lemma_registered_ids(registry.aliases, entry.alias_ids(), at, id);
                assert(i == at ==> entry.alias_ids().contains(id));
            }
        }
        assert forall|i: int| 0 <= i < after.items.len() implies (
        #[trigger] after.items[i]).consistent(after.retain_text) by {
            if i < at {
                assert(registry.items[i].consistent(registry.retain_text));
            }
        }
        if let Some(id) = entry.item_id {
            lemma_registered_ids(registry.aliases, entry.alias_ids(), at, id);
            assert(entry.alias_ids().contains(id));
        }
    }
}

pub open spec fn poll_id_of(item: JsonView) -> Option<Seq<char>> {
    item.field("id"@).as_str()
}

pub open spec fn poll_text_of(item: JsonView) -> Seq<char> {
    item.field("text"@).text()
}

/// Whether a registry came of another by polls: ids keep standing for the entries that they
/// stood for, and a poll id stays where it is.
spec fn polled_on(before: RegistryView, after: RegistryView) -> bool {
    &&& before.items.len() <= after.items.len()
    &&& before.retain_text == after.retain_text
    &&& forall|i: int|
        0 <= i < before.items.len() ==> {
            &&& (#[trigger] after.items[i]).item_id == before.items[i].item_id
            &&& before.items[i].poll_id is Some ==> after.items[i].poll_id
                == before.items[i].poll_id
        }
    &&& forall|id: Seq<char>| #[trigger]
        before.aliases.dom().contains(id) ==> after.aliases.dom().contains(id)
            && after.aliases[id] == before.aliases[id]
}

proof fn lemma_polled_on_chain(a: RegistryView, b: RegistryView, c: RegistryView)
    requires
        polled_on(a, b),
        polled_on(b, c),
    ensures
        polled_on(a, c),
{
    assert forall|i: int| 0 <= i < a.items.len() implies {
        &&& (#[trigger] c.items[i]).item_id == a.items[i].item_id
        &&& a.items[i].poll_id is Some ==> c.items[i].poll_id == a.items[i].poll_id
    } by {
        assert(b.items[i].item_id == a.items[i].item_id);
    }
    assert forall|id: Seq<char>| #[trigger]
        a.aliases.dom().contains(id) implies c.aliases.dom().contains(id) && c.aliases[id]
        == a.aliases[id] by {
        assert(b.aliases.dom().contains(id));
    }
}

/// What an id stands for, it stands for after polls too.
proof fn lemma_find_stays(before: RegistryView, after: RegistryView, id: Option<Seq<char>>)
    requires
        polled_on(before, after),
        before.find(id) is Some,
    ensures
        after.find(id) == before.find(id),
        id is None ==> 0 <= before.find(id)->0 < before.items.len(),
{
    if id is None {
        let i = before.find(id)->0;
        assert(is_first(before.items, unnamed(), i));
        assert forall|j: int| 0 <= j < i implies !unnamed()(#[trigger] after.items[j]) by {
            assert(!unnamed()(before.items[j]));
        }
        assert(after.items[i].item_id == before.items[i].item_id);
        assert(is_first(after.items, unnamed(), i));
        let k = choose|k: int| is_first(after.items, unnamed(), k);
        assert(k == i) by {
            if k < i {
                assert(!unnamed()(after.items[k]));
            }
        }
    }
}

/// Whether a polled item has left its mark: its id stands for an entry that needs no other.
spec fn id_settled(registry: RegistryView, item: JsonView) -> bool {
    let id = poll_id_of(item);
    &&& registry.find(id) is Some
    &&& 0 <= registry.find(id)->0 < registry.items.len()
    &&& !registry.items[registry.find(id)->0].adopts(id)
}

spec fn text_settled(registry: RegistryView, item: JsonView) -> bool {
    poll_text_of(item).len() > 0 ==> registry.items[registry.find(
        poll_id_of(item),
    )->0].content_matches(poll_text_of(item), registry.retain_text)
}

/// One polled item.
proof fn lemma_synced_item(state: SyncView, item: JsonView)
    requires
        state.registry.wf(),
        !state.failed,
        is_agent_message(item),
        encode_utf8(poll_text_of(item)).len() <= usize::MAX,
        !synced_item(state, item).failed,
    ensures
        ({
            let before = state.registry;
            let after = synced_item(state, item).registry;
            let index = after.find(poll_id_of(item))->0;
            &&& after.wf()
            &&& polled_on(before, after)
            &&& id_settled(after, item)
            &&& text_settled(after, item)
            &&& forall|i: int|
                0 <= i < before.items.len() && i != index ==> after.items[i] == before.items[i]
            &&& index < before.items.len() && poll_text_of(item).len() == 0 ==> {
                &&& after.items[index].text == before.items[index].text
                &&& after.items[index].observed == before.items[index].observed
            }
        }),
{
    let before = state.registry;
    let after = synced_item(state, item).registry;
    let id = poll_id_of(item);
    let text = poll_text_of(item);
    let retain = before.retain_text;
    match before.polled_index(id, state.position) {
        Some(index) => {
            if before.find(id) is Some {
                if let Some(known) = id {
                    assert(before.aliases[known] < before.items.len());
                } else {
                    assert(is_first(before.items, unnamed(), index));
                }
            }
            let first = before.items[index];
            let known = first.polled_as(id);
            let entry = known.polled_text(text, retain, first.polled_change(text, retain));
            assert(before.names_known(first));
            assert(first.consistent(retain));
            assert(entry.consistent(retain));
            if first.adopts(id) {
                lemma_wf_renamed(before, index, entry, id->0);
            } else {
                lemma_wf_changed(before, index, entry);
            }
            assert forall|i: int| 0 <= i < before.items.len() implies {
                &&& (#[trigger] after.items[i]).item_id == before.items[i].item_id
                &&& before.items[i].poll_id is Some ==> after.items[i].poll_id
                    == before.items[i].poll_id
            } by {}
            assert(polled_on(before, after));
            if before.find(id) is Some {
                lemma_find_stays(before, after, id);
            } else {
                assert(first.adopts(id));
                assert(after.find(id) == Some(index));
            }
            assert(after.items[index] == entry);
        },
        None => {
            let entry = EntryView::new(id).replaced(text, retain);
            lemma_pushed_wf(before, entry);
            lemma_pushed_keeps(before, entry);
            let index = before.items.len() as int;
            if id is None {
                assert forall|j: int| 0 <= j < index implies !unnamed()(
                    #[trigger] after.items[j],
                ) by {
                    if unnamed()(before.items[j]) {
                        lemma_some_first(before.items, j);
                    }
                }
                assert(is_first(after.items, unnamed(), index));
                let k = choose|k: int| is_first(after.items, unnamed(), k);
                assert(k == index) by {
                    if k < index {
                        assert(!unnamed()(after.items[k]));
                    }
                }
            }
            assert(after.find(id) == Some(index));
            assert(after.items[index] == entry);
        },
    }
}

proof fn lemma_some_first(items: Seq<EntryView>, j: int)
    requires
        0 <= j < items.len(),
        unnamed()(items[j]),
    ensures
        first_index(items, unnamed()) is Some,
    decreases j,
{
    if exists|k: int| 0 <= k < j && unnamed()(#[trigger] items[k]) {
        let k = choose|k: int| 0 <= k < j && unnamed()(#[trigger] items[k]);
        lemma_some_first(items, k);
    } else {
        assert(is_first(items, unnamed(), j));
    }
}

/// Whether the polled items that are one entry have one text, but for empty ones.
pub open spec fn one_text_each(registry: RegistryView, items: Seq<JsonView>) -> bool {
    forall|j: int, k: int|
        0 <= j < items.len() && 0 <= k < items.len() && is_agent_message(#[trigger] items[j])
            && is_agent_message(#[trigger] items[k]) && registry.find(poll_id_of(items[j]))
            == registry.find(poll_id_of(items[k])) && poll_text_of(items[j]).len() > 0
            && poll_text_of(items[k]).len() > 0 ==> poll_text_of(items[j]) == poll_text_of(
            items[k],
        )
}

/// Whether the texts are of lengths that a machine can count.
pub open spec fn texts_fit(items: Seq<JsonView>) -> bool {
    forall|j: int|
        0 <= j < items.len() ==> encode_utf8(poll_text_of(#[trigger] items[j])).len()
            <= usize::MAX
}

proof fn lemma_synced_wf(registry: RegistryView, items: Seq<JsonView>, n: nat, m: nat)
    requires
        registry.wf(),
        texts_fit(items),
        n <= m <= items.len(),
    ensures
        !synced(registry, items, m).failed ==> !synced(registry, items, n).failed,
        synced(registry, items, n).registry.wf(),
        synced(registry, items, m).registry.wf(),
        polled_on(synced(registry, items, n).registry, synced(registry, items, m).registry),
        polled_on(registry, synced(registry, items, m).registry),
    decreases m,
{
    if m > 0 {
        let k = (m - 1) as nat;
        let state = synced(registry, items, k);
        let item = items[m - 1];
        lemma_synced_wf(
            registry,
            items,
            if n < m {
                n
            } else {
                k
            },
            k,
        );
        if !state.failed && is_agent_message(item) && !synced_item(state, item).failed {
            lemma_synced_item(state, item);
            let after = synced(registry, items, m).registry;
            if n < m {
                lemma_polled_on_chain(
                    synced(registry, items, n).registry,
                    state.registry,
                    after,
                );
            }
            lemma_polled_on_chain(registry, state.registry, after);
        }
    }
}

proof fn lemma_synced_settles(registry: RegistryView, items: Seq<JsonView>, n: nat)
    requires
        registry.wf(),
        texts_fit(items),
        n <= items.len(),
        !synced(registry, items, items.len()).failed,
        one_text_each(synced(registry, items, items.len()).registry, items),
    ensures
        forall|j: int|
            0 <= j < n && is_agent_message(#[trigger] items[j]) ==> id_settled(
                synced(registry, items, n).registry,
                items[j],
            ) && text_settled(synced(registry, items, n).registry, items[j]),
    decreases n,
{
    if n > 0 {
        let m = (n - 1) as nat;
        let last = items.len();
        lemma_synced_settles(registry, items, m);
        lemma_synced_wf(registry, items, m, last);
        lemma_synced_wf(registry, items, n, last);
        let state = synced(registry, items, m);
        let before = state.registry;
        let after = synced(registry, items, n).registry;
        let end = synced(registry, items, last).registry;
        let item = items[m as int];
        if is_agent_message(item) {
            lemma_synced_item(state, item);
            let index = after.find(poll_id_of(item))->0;
            assert forall|j: int|
                0 <= j < n && is_agent_message(#[trigger] items[j]) implies id_settled(
                after,
                items[j],
            ) && text_settled(after, items[j]) by {
                if j < m {
                    assert(id_settled(before, items[j]) && text_settled(before, items[j]));
                    lemma_find_stays(before, after, poll_id_of(items[j]));
                    lemma_find_stays(after, end, poll_id_of(items[j]));
                    lemma_find_stays(after, end, poll_id_of(item));
                    let i = before.find(poll_id_of(items[j]))->0;
                    assert(after.items[i].item_id == before.items[i].item_id);
                    if i == index && poll_text_of(item).len() > 0 && poll_text_of(
                        items[j],
                    ).len() > 0 {
                        assert(poll_text_of(items[j]) == poll_text_of(items[m as int]));
                    }
                }
            }
        } else {
            assert(after == before);
        }
    }
}

proof fn lemma_settled_stays(registry: RegistryView, items: Seq<JsonView>, n: nat)
    requires
        n <= items.len(),
        forall|j: int|
            0 <= j < items.len() && is_agent_message(#[trigger] items[j]) ==> id_settled(
                registry,
                items[j],
            ) && text_settled(registry, items[j]),
    ensures
        synced(registry, items, n).registry == registry,
        synced(registry, items, n).updates.len() == 0,
        !synced(registry, items, n).failed,
    decreases n,
{
    if n > 0 {
        lemma_settled_stays(registry, items, (n - 1) as nat);
        let item = items[n - 1];
        if is_agent_message(item) {
            let index = registry.find(poll_id_of(item))->0;
            assert(registry.items.update(index, registry.items[index]) =~= registry.items);
        }
    }
}

/// A poll reports changes once: polling the same turn again reports nothing and changes
/// nothing.
pub proof fn law_poll_reports_changes_once(registry: RegistryView, turn: JsonView)
    requires
        registry.wf(),
        texts_fit(turn.field("items"@).items()),
        !synced_turn(registry, turn).failed,
        one_text_each(synced_turn(registry, turn).registry, turn.field("items"@).items()),
    ensures
        ({
            let after = synced_turn(registry, turn).registry;
            let again = synced_turn(after, turn);
            &&& again.registry == after
            &&& again.updates.len() == 0
            &&& !again.failed
        }),
{
    let items = turn.field("items"@).items();
    let after = synced_turn(registry, turn).registry;
    lemma_synced_settles(registry, items, items.len());
    lemma_settled_stays(after, items, items.len());
}

/// A poll leaves all identities as they are.
pub proof fn law_polls_keep_identities(registry: RegistryView, turn: JsonView)
    requires
        registry.wf(),
        texts_fit(turn.field("items"@).items()),
    ensures
        keeps_identities(registry, synced_turn(registry, turn).registry),
{
    let items = turn.field("items"@).items();
    lemma_synced_wf(registry, items, items.len(), items.len());
}

/// What comes of some live deltas of one item in a row: the registry after them, and the
/// fragments of the events that they give rise to, put together.
pub open spec fn live_deltas(registry: RegistryView, id: Seq<char>, deltas: Seq<Seq<char>>) -> (
    RegistryView,
    Seq<char>,
)
    decreases deltas.len(),
{
    if deltas.len() == 0 {
        (registry, Seq::empty())
    } else {
        let (before, emitted) = live_deltas(registry, id, deltas.drop_last());
        match before.live_delta(Some(id), deltas.last()) {
            Some((after, Some((_, fragment)))) => (after, emitted + fragment),
            Some((after, None)) => (after, emitted),
            None => (before, emitted),
        }
    }
}

/// Some texts put together.
pub open spec fn together(texts: Seq<Seq<char>>) -> Seq<char>
    decreases texts.len(),
{
    if texts.len() == 0 {
        Seq::empty()
    } else {
        together(texts.drop_last()) + texts.last()
    }
}

/// Whether a delta is no part of the replay of `rest`: it neither continues it nor reaches past
/// it.
pub open spec fn strays(delta: Seq<char>, rest: Seq<char>) -> bool {
    rest.len() == 0 || !(delta.is_prefix_of(rest) || rest.is_prefix_of(delta))
}

/// What is left to replay after a part of it was replayed.
proof fn lemma_replayed_part(entry: EntryView, delta: Seq<char>)
    requires
        entry.to_replay().len() > 0,
        delta.is_prefix_of(entry.to_replay()),
    ensures
        entry.replayed(delta).to_replay() == entry.to_replay().skip(delta.len() as int),
{
    let text = entry.text;
    let cursor = entry.replay_cursor->0;
    let bytes = encode_utf8(text);
    let k = lemma_split_at_boundary(text, cursor as int);
    encode_utf8_decode_utf8(text.skip(k));
    let rest = entry.to_replay();
    assert(rest == text.skip(k));
    let d = delta.len() as int;
    assert(text.take(k) + delta =~= text.take(k + d));
    lemma_encode_concat(text.take(k), delta);
    lemma_text_from(text, k + d);
    let after = cursor + encode_utf8(delta).len();
    assert(encode_utf8(text.take(k + d)).len() == after);
    assert(text.skip(k + d) =~= rest.skip(d));
    if after >= bytes.len() {
        assert(text =~= text.take(k + d) + text.skip(k + d));
        lemma_encode_concat(text.take(k + d), text.skip(k + d));
        crate::text::lemma_encode_empty(text.skip(k + d));
        assert(rest.skip(d) =~= Seq::empty());
    }
}

/// One live delta of a known item whose deltas replay `rest` and go on.
proof fn lemma_known_delta(registry: RegistryView, id: Seq<char>, delta: Seq<char>)
    requires
        registry.wf(),
        registry.aliases.dom().contains(id),
    ensures
        ({
            let index = registry.aliases[id] as int;
            let entry = registry.items[index];
            let rest = entry.to_replay();
            let result = registry.live_delta(Some(id), delta);
            let (after, event) = result->0;
            &&& result is Some
            &&& after.wf()
            &&& after.aliases == registry.aliases
            &&& after.retain_text == registry.retain_text
            &&& after.items.len() == registry.items.len()
            &&& after.items[index].item_id == entry.item_id
            &&& event matches Some((ids, _)) ==> ids.item_id == entry.item_id
            &&& delta.is_prefix_of(rest) && rest.len() > 0 ==> {
                &&& event is None
                &&& after.items[index].to_replay() == rest.skip(delta.len() as int)
                &&& after.items[index].observed == entry.observed
            }
            &&& rest.is_prefix_of(delta) && (rest.len() == 0 || rest != delta) ==> {
                &&& event == Some(
                    (after.items[index].ids(), delta.skip(rest.len() as int)),
                )
                &&& after.items[index].to_replay().len() == 0
                &&& after.items[index].observed == entry.observed + encode_utf8(
                    delta.skip(rest.len() as int),
                )
            }
            &&& strays(delta, rest) ==> {
                &&& event == Some((after.items[index].ids(), delta))
                &&& after.items[index].to_replay().len() == 0
                &&& after.items[index].observed == entry.observed + encode_utf8(delta)
            }
        }),
{
    let index = registry.aliases[id] as int;
    assert(registry.aliases[id] < registry.items.len());
    let entry = registry.items[index];
    let rest = entry.to_replay();
    assert(registry.names_known(entry));
    assert(entry.consistent(registry.retain_text));
    if rest.len() > 0 && delta.is_prefix_of(rest) {
        lemma_replayed_part(entry, delta);
        lemma_wf_changed(registry, index, entry.replayed(delta));
        if rest.is_prefix_of(delta) {
            assert(rest =~= delta);
        }
    } else {
        let fragment = if rest.len() > 0 && rest.is_prefix_of(delta) {
            delta.skip(rest.len() as int)
        } else {
            delta
        };
        lemma_encode_concat(entry.text, fragment);
        let appended = EntryView { replay_cursor: None, ..entry }.appended(
            fragment,
            registry.retain_text,
        );
        lemma_wf_changed(registry, index, appended);
        if rest.len() == 0 {
            assert(delta.skip(0) =~= delta);
        }
    }
}

proof fn lemma_live_deltas(
    registry: RegistryView,
    id: Seq<char>,
    deltas: Seq<Seq<char>>,
    new: Seq<char>,
)
    requires
        registry.wf(),
        registry.aliases.dom().contains(id),
        ({
            let rest = registry.items[registry.aliases[id] as int].to_replay();
            together(deltas).is_prefix_of(rest + new)
        }),
    ensures
        ({
            let index = registry.aliases[id] as int;
            let rest = registry.items[index].to_replay();
            let all = together(deltas);
            let (after, emitted) = live_deltas(registry, id, deltas);
            let now = after.items[index].to_replay();
            &&& after.wf()
            &&& after.aliases == registry.aliases
            &&& after.items[index].observed == registry.items[index].observed + encode_utf8(
                emitted,
            )
            &&& all.len() <= rest.len() ==> emitted.len() == 0 && now == rest.skip(
                all.len() as int,
            )
            &&& all.len() > rest.len() ==> emitted == all.skip(rest.len() as int) && now.len() == 0
        }),
    decreases deltas.len(),
{
    let index = registry.aliases[id] as int;
    assert(registry.aliases[id] < registry.items.len());
    let rest = registry.items[index].to_replay();
    let all = together(deltas);
    if deltas.len() == 0 {
        assert(rest.skip(0) =~= rest);
        assert(encode_utf8(Seq::<char>::empty()) =~= Seq::empty());
        assert(registry.items[index].observed + encode_utf8(Seq::<char>::empty())
            =~= registry.items[index].observed);
    } else {
        let before = together(deltas.drop_last());
        let delta = deltas.last();
        assert(all == before + delta);
        assert(before =~= all.take(before.len() as int));
        assert(all =~= (rest + new).take(all.len() as int));
        assert(before.is_prefix_of(rest + new)) by {
            assert(before =~= (rest + new).subrange(0, before.len() as int));
        }
        lemma_live_deltas(registry, id, deltas.drop_last(), new);
        let (mid, emitted) = live_deltas(registry, id, deltas.drop_last());
        let now = mid.items[index].to_replay();
        lemma_known_delta(mid, id, delta);
        let (after, _) = mid.live_delta(Some(id), delta)->0;
        if before.len() <= rest.len() {
            assert(now == rest.skip(before.len() as int));
            if all.len() <= rest.len() {
                assert(delta =~= now.subrange(0, delta.len() as int)) by {
                    assert forall|k: int| 0 <= k < delta.len() implies delta[k] == now[k] by {
                        assert(all[before.len() + k] == (rest + new)[before.len() + k]);
                    }
                }
                if now.len() > 0 {
                    assert(now.skip(delta.len() as int) =~= rest.skip(all.len() as int));
                } else {
                    assert(delta =~= Seq::empty());
                    assert(delta.skip(0) =~= Seq::empty());
                    assert(emitted + delta.skip(0) =~= Seq::empty());
                    assert(rest.skip(all.len() as int) =~= Seq::empty());
                    assert(after.items[index].to_replay() =~= Seq::empty());
                }
            } else {
                assert(now =~= delta.subrange(0, now.len() as int)) by {
                    assert forall|k: int| 0 <= k < now.len() implies now[k] == delta[k] by {
                        assert(all[before.len() + k] == (rest + new)[before.len() + k]);
                    }
                }
                assert(delta.len() > now.len());
                assert(emitted + delta.skip(now.len() as int) =~= all.skip(rest.len() as int));
            }
        } else {
            assert(delta.skip(0) =~= delta);
            assert(now =~= delta.subrange(0, 0));
            assert(emitted + delta.skip(0) =~= all.skip(rest.len() as int));
        }
        let (end, sent) = live_deltas(registry, id, deltas);
        let fragment = sent.skip(emitted.len() as int);
        match mid.live_delta(Some(id), delta)->0 {
            (_, Some((_, part))) => {
                assert((emitted + part).skip(emitted.len() as int) =~= part);
            },
            (_, None) => {
                assert(emitted.skip(emitted.len() as int) =~= Seq::empty());
            },
        }
        assert(sent =~= emitted + fragment);
        lemma_encode_concat(emitted, fragment);
        assert(encode_utf8(Seq::<char>::empty()) =~= Seq::empty());
        assert(end.items[index].observed =~= registry.items[index].observed + encode_utf8(sent));
    }
}

/// A live stream that replays what the snapshot seeded and then goes on, in deltas of any
/// lengths, has just the new part emitted, and the item's content grows by just that.
pub proof fn law_replayed_text_is_not_repeated(
    registry: RegistryView,
    id: Seq<char>,
    deltas: Seq<Seq<char>>,
    new: Seq<char>,
)
    requires
        registry.wf(),
        registry.aliases.dom().contains(id),
        together(deltas) == registry.items[registry.aliases[id] as int].to_replay() + new,
    ensures
        ({
            let index = registry.aliases[id] as int;
            let (after, emitted) = live_deltas(registry, id, deltas);
            &&& emitted == new
            &&& after.items[index].observed == registry.items[index].observed + encode_utf8(new)
        }),
{
    let rest = registry.items[registry.aliases[id] as int].to_replay();
    let all = together(deltas);
    assert(all =~= (rest + new).subrange(0, all.len() as int));
    lemma_live_deltas(registry, id, deltas, new);
    assert(all.skip(rest.len() as int) =~= new);
    let (after, emitted) = live_deltas(registry, id, deltas);
    if all.len() <= rest.len() {
        assert(emitted =~= new);
    }
}

/// The ids that come with the event of a delta among some, where it gives rise to one.
pub open spec fn ids_of_delta(
    registry: RegistryView,
    id: Seq<char>,
    deltas: Seq<Seq<char>>,
    k: int,
) -> Option<ItemIdsView> {
    match live_deltas(registry, id, deltas.take(k)).0.live_delta(Some(id), deltas[k]) {
        Some((_, Some((ids, _)))) => Some(ids),
        _ => None,
    }
}

/// Live deltas of a known item make no new items and keep its canonical id.
proof fn lemma_stream_keeps_item(registry: RegistryView, id: Seq<char>, deltas: Seq<Seq<char>>)
    requires
        registry.wf(),
        registry.aliases.dom().contains(id),
    ensures
        ({
            let index = registry.aliases[id] as int;
            let after = live_deltas(registry, id, deltas).0;
            &&& after.wf()
            &&& after.aliases == registry.aliases
            &&& after.retain_text == registry.retain_text
            &&& after.items.len() == registry.items.len()
            &&& after.items[index].item_id == registry.items[index].item_id
        }),
    decreases deltas.len(),
{
    if deltas.len() > 0 {
        lemma_stream_keeps_item(registry, id, deltas.drop_last());
        lemma_known_delta(live_deltas(registry, id, deltas.drop_last()).0, id, deltas.last());
    }
}

/// A registry in which the seeded item that awaits a live id has been given this one.
spec fn with_live_id(registry: RegistryView, index: int, id: Seq<char>) -> RegistryView {
    registry.with_item(
        index,
        EntryView { live_id: Some(id), ..registry.items[index] },
    ).registered(id, index)
}

/// Deltas under a new id come to the same as if the item in progress had it all along.
proof fn lemma_new_id(registry: RegistryView, index: int, id: Seq<char>, deltas: Seq<Seq<char>>)
    requires
        registry.wf(),
        !registry.aliases.dom().contains(id),
        last_index(registry.items, provisional()) is None,
        last_index(registry.items, awaiting_live_id()) == Some(index),
    ensures
        0 <= index < registry.items.len(),
        with_live_id(registry, index, id).wf(),
        with_live_id(registry, index, id).aliases.dom().contains(id),
        with_live_id(registry, index, id).aliases[id] == index,
        deltas.len() > 0 ==> live_deltas(registry, id, deltas) == live_deltas(
            with_live_id(registry, index, id),
            id,
            deltas,
        ),
    decreases deltas.len(),
{
    assert(is_last(registry.items, awaiting_live_id(), index));
    let entry = registry.items[index];
    let named = EntryView { live_id: Some(id), ..entry };
    assert(entry.consistent(registry.retain_text));
    assert(registry.names_known(entry));
    lemma_wf_renamed(registry, index, named, id);
    if deltas.len() > 1 {
        lemma_new_id(registry, index, id, deltas.drop_last());
    } else if deltas.len() == 1 {
        let after = with_live_id(registry, index, id);
        let none = deltas.drop_last();
        assert(registry.resolved(Some(id)) == Some((after, index)));
        assert(after.resolved(Some(id)) == Some((after, index)));
        assert(registry.live_delta(Some(id), deltas.last()) == after.live_delta(
            Some(id),
            deltas.last(),
        ));
        assert(live_deltas(registry, id, none) == (registry, Seq::<char>::empty()));
        assert(live_deltas(after, id, none) == (after, Seq::<char>::empty()));
    }
}

/// A live stream under an id that was never declared continues the seeded item in progress:
/// where it replays what was seeded and then goes on, in deltas of any lengths, just the new
/// part is emitted, under the item's canonical id, the item's content grows by just that, and
/// no item is added.
pub proof fn law_replay_under_a_new_id_is_not_repeated(
    registry: RegistryView,
    index: int,
    id: Seq<char>,
    deltas: Seq<Seq<char>>,
    new: Seq<char>,
)
    requires
        registry.wf(),
        !registry.aliases.dom().contains(id),
        last_index(registry.items, provisional()) is None,
        last_index(registry.items, awaiting_live_id()) == Some(index),
        together(deltas) == registry.items[index].to_replay() + new,
    ensures
        ({
            let (after, emitted) = live_deltas(registry, id, deltas);
            &&& emitted == new
            &&& after.items.len() == registry.items.len()
            &&& after.items[index].item_id == registry.items[index].item_id
            &&& after.items[index].observed == registry.items[index].observed + encode_utf8(new)
            &&& after.wf()
            &&& after.retain_text == registry.retain_text
        }),
        forall|k: int|
            0 <= k < deltas.len() ==> (#[trigger] ids_of_delta(registry, id, deltas, k) matches Some(
                ids,
            ) ==> ids.item_id == registry.items[index].item_id),
{
    let named = with_live_id(registry, index, id);
    lemma_new_id(registry, index, id, deltas);
    if deltas.len() > 0 {
        assert(named.items[index].to_replay() == registry.items[index].to_replay());
        law_replayed_text_is_not_repeated(named, id, deltas, new);
        lemma_stream_keeps_item(named, id, deltas);
    } else {
        assert(new =~= Seq::empty());
        assert(encode_utf8(new) =~= Seq::empty());
        assert(registry.items[index].observed + encode_utf8(new)
            =~= registry.items[index].observed);
    }
    assert forall|k: int| 0 <= k < deltas.len() implies (#[trigger] ids_of_delta(
        registry,
        id,
        deltas,
        k,
    ) matches Some(ids) ==> ids.item_id == registry.items[index].item_id) by {
        let part = deltas.take(k);
        lemma_new_id(registry, index, id, part);
        lemma_stream_keeps_item(named, id, part);
        lemma_known_delta(live_deltas(named, id, part).0, id, deltas[k]);
        if k == 0 {
            assert(part =~= Seq::empty());
            lemma_new_id(registry, index, id, seq![deltas[k]]);
            assert(seq![deltas[k]].drop_last() =~= Seq::empty());
        }
    }
}

/// An item that a snapshot seeded is continued by a live stream under any one id, which need
/// not be declared: where the deltas together start with the seeded text, what is emitted is
/// the rest, under the item's canonical id, the item's text is the whole, and it is still the
/// only item.
pub proof fn law_stream_continues_the_seeded_item(
    item_id: Seq<char>,
    seed: Seq<char>,
    id: Seq<char>,
    deltas: Seq<Seq<char>>,
)
    requires
        seed.is_prefix_of(together(deltas)),
    ensures
        RegistryView::empty().seeded(Some(item_id), seed) is Some,
        ({
            let registry = RegistryView::empty().seeded(Some(item_id), seed)->0;
            let (after, emitted) = live_deltas(registry, id, deltas);
            &&& emitted == together(deltas).skip(seed.len() as int)
            &&& after.items.len() == 1
            &&& after.items[0].text == together(deltas)
            &&& after.items[0].item_id == Some(item_id)
            &&& forall|k: int|
                0 <= k < deltas.len() ==> (#[trigger] ids_of_delta(
                    registry,
                    id,
                    deltas,
                    k,
                ) matches Some(ids) ==> ids.item_id == Some(item_id))
        }),
{
    let all = together(deltas);
    let new = all.skip(seed.len() as int);
    assert(all =~= seed + new);
    let entry = EntryView {
        replay_cursor: Some(0),
        ..EntryView::new(Some(item_id)).replaced(seed, true)
    };
    let empty = RegistryView::empty();
    lemma_pushed_wf(empty, entry);
    let registry = empty.seeded(Some(item_id), seed)->0;
    assert(registry.items =~= seq![entry]);
    lemma_text_from(seed, 0);
    assert(seed.take(0) =~= Seq::empty());
    assert(seed.skip(0) =~= seed);
    assert(encode_utf8(Seq::<char>::empty()).len() == 0);
    assert(entry.to_replay() == seed);
    let (after, emitted) = live_deltas(registry, id, deltas);
    lemma_registered_ids(empty.aliases, entry.alias_ids(), 0, id);
    lemma_registered_ids(empty.aliases, entry.alias_ids(), 0, item_id);
    lemma_alias_ids(entry);
    if id == item_id {
        law_replayed_text_is_not_repeated(registry, id, deltas, new);
        lemma_stream_keeps_item(registry, id, deltas);
        assert forall|k: int| 0 <= k < deltas.len() implies (#[trigger] ids_of_delta(
            registry,
            id,
            deltas,
            k,
        ) matches Some(ids) ==> ids.item_id == Some(item_id)) by {
            let part = deltas.take(k);
            lemma_stream_keeps_item(registry, id, part);
            lemma_known_delta(live_deltas(registry, id, part).0, id, deltas[k]);
        }
    } else {
        assert(is_last(registry.items, awaiting_live_id(), 0));
        assert(last_index(registry.items, provisional()) is None) by {
            if exists|i: int| is_last(registry.items, provisional(), i) {
                let i = choose|i: int| is_last(registry.items, provisional(), i);
                assert(registry.items[i] == entry);
            }
        }
        law_replay_under_a_new_id_is_not_repeated(registry, 0, id, deltas, new);
    }
    lemma_encode_concat(seed, new);
    assert(after.items[0].consistent(true));
    crate::text::lemma_bytes_determine_text(after.items[0].text, all);
}

/// A live stream that does not begin with the replay of what was seeded, in deltas of any
/// lengths, is emitted in full, and the item's content grows by just that.
pub proof fn law_new_text_is_emitted_in_full(
    registry: RegistryView,
    id: Seq<char>,
    deltas: Seq<Seq<char>>,
)
    requires
        registry.wf(),
        registry.aliases.dom().contains(id),
        deltas.len() > 0,
        strays(deltas[0], registry.items[registry.aliases[id] as int].to_replay()),
    ensures
        ({
            let index = registry.aliases[id] as int;
            let (after, emitted) = live_deltas(registry, id, deltas);
            &&& emitted == together(deltas)
            &&& after.items[index].observed == registry.items[index].observed + encode_utf8(
                emitted,
            )
            &&& after.items[index].to_replay().len() == 0
            &&& after.aliases == registry.aliases
            &&& after.wf()
        }),
    decreases deltas.len(),
{
    let index = registry.aliases[id] as int;
    let before = deltas.drop_last();
    let delta = deltas.last();
    if before.len() > 0 {
        assert(before[0] == deltas[0]);
        law_new_text_is_emitted_in_full(registry, id, before);
    } else {
        assert(encode_utf8(Seq::<char>::empty()) =~= Seq::empty());
        assert(registry.items[index].observed + encode_utf8(Seq::<char>::empty())
            =~= registry.items[index].observed);
    }
    let (mid, emitted) = live_deltas(registry, id, before);
    assert(emitted =~= together(before));
    lemma_known_delta(mid, id, delta);
    lemma_encode_concat(emitted, delta);
    let (after, sent) = live_deltas(registry, id, deltas);
    assert(sent == emitted + delta);
    assert(after.items[index].observed =~= registry.items[index].observed + encode_utf8(sent));
}

/// Letting go of the texts does not change what a polled or completed text is told of them:
/// one that matched still matches, and, where no two of the contents share a digest, one that
/// did not match still does not.
pub proof fn law_digests_stand_for_texts(entry: EntryView, text: Seq<char>)
    requires
        entry.consistent(true),
        entry.observed.len() <= usize::MAX,
    ensures
        ({
            let bare = EntryView { text: Seq::empty(), ..entry };
            &&& entry.content_matches(text, true) ==> bare.content_matches(text, false)
            &&& (blake3_hash(entry.observed) == blake3_hash(encode_utf8(text)) ==> entry.observed
                == encode_utf8(text)) ==> (bare.content_matches(text, false)
                ==> entry.content_matches(text, true))
        }),
{
    if entry.observed == encode_utf8(text) {
        crate::text::lemma_bytes_determine_text(entry.text, text);
    }
}

/// Whether the agent messages of a turn that share an id share a text.
pub open spec fn one_text_per_id(items: Seq<JsonView>) -> bool {
    forall|j: int, k: int|
        0 <= j < items.len() && 0 <= k < items.len() && is_agent_message(#[trigger] items[j])
            && is_agent_message(#[trigger] items[k]) && poll_id_of(items[j]) == poll_id_of(
            items[k],
        ) ==> poll_text_of(items[j]) == poll_text_of(items[k])
}

/// Whether entry `i` is what was seeded of one of the first `n` items.
spec fn stems_from(registry: RegistryView, items: Seq<JsonView>, n: nat, i: int) -> bool {
    exists|j: int|
        0 <= j < n && is_agent_message(#[trigger] items[j]) && poll_id_of(items[j])
            == registry.items[i].item_id && poll_text_of(items[j]) == registry.items[i].text
}

/// What holds of a registry that was seeded with the first `n` items of a turn.
spec fn seeded_with(registry: RegistryView, items: Seq<JsonView>, n: nat) -> bool {
    &&& registry.retain_text
    &&& registry.items.len() <= usize::MAX
    &&& forall|id: Seq<char>| #[trigger]
        registry.aliases.dom().contains(id) ==> registry.aliases[id] < registry.items.len()
            && registry.items[registry.aliases[id] as int].item_id == Some(id)
    &&& forall|i: int|
        0 <= i < registry.items.len() ==> {
            &&& (#[trigger] registry.items[i]).poll_id is None
            &&& registry.items[i].observed == encode_utf8(registry.items[i].text)
            &&& stems_from(registry, items, n, i)
        }
    &&& forall|j: int|
        0 <= j < n && is_agent_message(#[trigger] items[j]) ==> registry.find(
            poll_id_of(items[j]),
        ) is Some
}

proof fn lemma_seeded_with(items: Seq<JsonView>, n: nat)
    requires
        n <= items.len(),
    ensures
        seeded_items(Some(RegistryView::empty()), items, n) matches Some(registry) ==> seeded_with(
            registry,
            items,
            n,
        ),
    decreases n,
{
    if n > 0 {
        let m = (n - 1) as nat;
        lemma_seeded_with(items, m);
        if let Some(before) = seeded_items(Some(RegistryView::empty()), items, m) {
            let item = items[m as int];
            if is_agent_message(item) {
                let id = poll_id_of(item);
                let text = poll_text_of(item);
                if let Some(after) = before.seeded(id, text) {
                    let entry = EntryView {
                        replay_cursor: Some(0),
                        ..EntryView::new(id).replaced(text, before.retain_text)
                    };
                    let at = before.items.len() as int;
                    assert(after.items[at] == entry);
                    lemma_alias_ids(entry);
                    assert forall|other: Seq<char>| #[trigger]
                        after.aliases.dom().contains(other) implies after.aliases[other]
                        < after.items.len() && after.items[after.aliases[other] as int].item_id
                        == Some(other) by {
                        lemma_registered_ids(before.aliases, entry.alias_ids(), at, other);
                        if before.aliases.dom().contains(other) {
                            let i = before.aliases[other] as int;
                            assert(after.items[i] == before.items[i]);
                        }
                    }
                    assert forall|i: int| 0 <= i < after.items.len() implies {
                        &&& (#[trigger] after.items[i]).poll_id is None
                        &&& after.items[i].observed == encode_utf8(after.items[i].text)
                        &&& stems_from(after, items, n, i)
                    } by {
                        if i < at {
                            assert(after.items[i] == before.items[i]);
                            assert(stems_from(before, items, m, i));
                            let j = choose|j: int|
                                0 <= j < m && is_agent_message(#[trigger] items[j]) && poll_id_of(
                                    items[j],
                                ) == before.items[i].item_id && poll_text_of(items[j])
                                    == before.items[i].text;
                            assert(is_agent_message(items[j]));
                        } else {
                            assert(is_agent_message(items[m as int]));
                        }
                    }
                    assert forall|j: int|
                        0 <= j < n && is_agent_message(#[trigger] items[j]) implies after.find(
                        poll_id_of(items[j]),
                    ) is Some by {
                        match poll_id_of(items[j]) {
                            Some(other) => {
                                lemma_registered_ids(
                                    before.aliases,
                                    entry.alias_ids(),
                                    at,
                                    other,
                                );
                                if j == m {
                                    assert(entry.alias_ids().contains(other));
                                }
                            },
                            None => {
                                if j < m {
                                    let i = before.find(None)->0;
                                    assert(is_first(before.items, unnamed(), i));
                                    assert(after.items[i] == before.items[i]);
                                    lemma_some_first(after.items, i);
                                } else {
                                    lemma_some_first(after.items, at);
                                }
                            },
                        }
                    }
                }
            } else {
                assert forall|i: int| 0 <= i < before.items.len() implies stems_from(
                    before,
                    items,
                    n,
                    i,
                ) by {
                    assert(before.items[i].poll_id is None);
                    assert(stems_from(before, items, m, i));
                    let j = choose|j: int|
                        0 <= j < m && is_agent_message(#[trigger] items[j]) && poll_id_of(items[j])
                            == before.items[i].item_id && poll_text_of(items[j])
                            == before.items[i].text;
                    assert(is_agent_message(items[j]));
                }
            }
        }
    }
}

/// The snapshot of a thread implies just what its one turn with the id implies.
pub proof fn lemma_one_turn_seeds(turns: Seq<JsonView>, turn_id: Seq<char>, t: int, n: nat)
    requires
        0 <= t < turns.len(),
        n <= turns.len(),
        forall|i: int|
            0 <= i < turns.len() && (#[trigger] turns[i]).field("id"@).as_str() == Some(turn_id)
                <==> i == t,
    ensures
        ({
            let items = turns[t].field("items"@).items();
            seeded_turns(turns, turn_id, n) == if n <= t {
                Some(RegistryView::empty())
            } else {
                seeded_items(Some(RegistryView::empty()), items, items.len())
            }
        }),
    decreases n,
{
    if n > 0 {
        lemma_one_turn_seeds(turns, turn_id, t, (n - 1) as nat);
        assert(turns[n - 1].field("id"@).as_str() == Some(turn_id) <==> n - 1 == t);
    }
}

/// A poll right after an attach repeats nothing of the snapshot: where the polled turn is the
/// one that the snapshot held, nothing is reported and nothing changes, whether or not texts
/// are kept.
pub proof fn law_snapshot_is_not_repeated_by_a_poll(
    thread: JsonView,
    turn_id: Seq<char>,
    t: int,
    retain_progress: bool,
)
    requires
        ({
            let turns = thread.field("turns"@).items();
            &&& 0 <= t < turns.len()
            &&& forall|i: int|
                0 <= i < turns.len() && (#[trigger] turns[i]).field("id"@).as_str() == Some(turn_id)
                    <==> i == t
            &&& one_text_per_id(turns[t].field("items"@).items())
            &&& texts_fit(turns[t].field("items"@).items())
        }),
        seed_of_snapshot(thread, turn_id) is Some,
    ensures
        ({
            let turn = thread.field("turns"@).items()[t];
            let seed = seed_for_wait(seed_of_snapshot(thread, turn_id)->0, retain_progress);
            let poll = synced_turn(seed, turn);
            &&& poll.updates.len() == 0
            &&& poll.registry == seed
            &&& !poll.failed
        }),
{
    let turns = thread.field("turns"@).items();
    let items = turns[t].field("items"@).items();
    let registry = seed_of_snapshot(thread, turn_id)->0;
    let seed = seed_for_wait(registry, retain_progress);
    lemma_one_turn_seeds(turns, turn_id, t, turns.len());
    lemma_seeded_with(items, items.len());
    assert forall|j: int|
        0 <= j < items.len() && is_agent_message(#[trigger] items[j]) implies id_settled(
        seed,
        items[j],
    ) && text_settled(seed, items[j]) by {
        let id = poll_id_of(items[j]);
        let i = registry.find(id)->0;
        if id is None {
            assert(is_first(registry.items, unnamed(), i));
            assert forall|k: int| 0 <= k < i implies !unnamed()(#[trigger] seed.items[k]) by {
                assert(!unnamed()(registry.items[k]));
            }
            assert(is_first(seed.items, unnamed(), i));
            let other = choose|k: int| is_first(seed.items, unnamed(), k);
            assert(other == i) by {
                if other < i {
                    assert(!unnamed()(seed.items[other]));
                }
            }
        }
        assert(seed.find(id) == Some(i));
        assert(registry.items[i].item_id == id);
        assert(registry.items[i].poll_id is None);
        assert(stems_from(registry, items, items.len(), i));
        let k = choose|k: int|
            0 <= k < items.len() && is_agent_message(#[trigger] items[k]) && poll_id_of(items[k])
                == registry.items[i].item_id && poll_text_of(items[k]) == registry.items[i].text;
        assert(poll_text_of(items[j]) == poll_text_of(items[k]));
    }
    lemma_settled_stays(seed, items, items.len());
}

/// Content that is what was observed already matches, whether or not the text is kept.
pub proof fn lemma_observed_matches(entry: EntryView, text: Seq<char>, retain_text: bool)
    requires
        entry.consistent(retain_text),
        entry.observed == encode_utf8(text),
        entry.observed.len() <= usize::MAX,
    ensures
        entry.content_matches(text, retain_text),
{
    if retain_text {
        crate::text::lemma_bytes_determine_text(entry.text, text);
    }
}

/// The completion of an item whose text was streamed in full gives rise to no event.
pub proof fn law_completion_of_streamed_text_is_silent(
    registry: RegistryView,
    id: Seq<char>,
    text: Seq<char>,
)
    requires
        registry.wf(),
        registry.aliases.dom().contains(id),
        registry.items[registry.aliases[id] as int].observed == encode_utf8(text),
        encode_utf8(text).len() <= usize::MAX,
    ensures
        registry.live_completion(Some(id), text) matches Some((_, None)),
{
    let index = registry.aliases[id] as int;
    assert(registry.aliases[id] < registry.items.len());
    assert(registry.items[index].consistent(registry.retain_text));
    lemma_observed_matches(registry.items[index], text, registry.retain_text);
}

/// A polled item whose text was streamed in full is not reported, under whatever id the poll
/// lists it.
pub proof fn law_poll_of_streamed_text_is_silent(state: SyncView, item: JsonView)
    requires
        state.registry.wf(),
        !state.failed,
        is_agent_message(item),
        ({
            let index = state.registry.polled_index(poll_id_of(item), state.position);
            &&& index is Some
            &&& 0 <= index->0 < state.registry.items.len()
            &&& state.registry.items[index->0].observed == encode_utf8(poll_text_of(item))
        }),
        encode_utf8(poll_text_of(item)).len() <= usize::MAX,
    ensures
        synced_item(state, item).updates == state.updates,
        !synced_item(state, item).failed,
{
    let registry = state.registry;
    let index = registry.polled_index(poll_id_of(item), state.position)->0;
    let known = registry.items[index].polled_as(poll_id_of(item));
    assert(registry.items[index].consistent(registry.retain_text));
    lemma_observed_matches(known, poll_text_of(item), registry.retain_text);
}

} // verus!
