use vstd::hash_map::StringHashMap;
use vstd::prelude::*;
use vstd::utf8::*;

use crate::errors::{app_server_error, AppServerError};
use crate::json::{Json, JsonView};
use crate::text::{
    after_prefix, copy_text, joined, lemma_byte_prefix, lemma_joined_push, lemma_split_at_boundary, same_text,
    slice_view, starts_with, tail_from, text_from, text_is,
};
use crate::turns::assistant::{AssistantItemIds, AssistantResponse, EntryView, ItemIdsView};

verus! {

/// How many agent messages one turn may have.
pub const MAX_ASSISTANT_ITEMS: usize = 4_096;

/// The agent messages of the watched turn, in the order in which they were first seen.
pub struct AssistantResponses {
    pub items: Vec<AssistantResponse>,
    pub alias_to_index: StringHashMap<usize>,
    pub retain_text: bool,
}

/// The mathematical value of [`AssistantResponses`].
#[verifier::ext_equal]
pub struct RegistryView {
    pub items: Seq<EntryView>,
    pub aliases: Map<Seq<char>, usize>,
    pub retain_text: bool,
}

/// Whether `i` is the first place where `p` holds.
pub open spec fn is_first(items: Seq<EntryView>, p: spec_fn(EntryView) -> bool, i: int) -> bool {
    &&& 0 <= i < items.len()
    &&& p(items[i])
    &&& forall|j: int| 0 <= j < i ==> !p(#[trigger] items[j])
}

/// Whether `i` is the last place where `p` holds.
pub open spec fn is_last(items: Seq<EntryView>, p: spec_fn(EntryView) -> bool, i: int) -> bool {
    &&& 0 <= i < items.len()
    &&& p(items[i])
    &&& forall|j: int| i < j < items.len() ==> !p(#[trigger] items[j])
}

pub open spec fn first_index(items: Seq<EntryView>, p: spec_fn(EntryView) -> bool) -> Option<int> {
    if exists|i: int| is_first(items, p, i) {
        Some(choose|i: int| is_first(items, p, i))
    } else {
        None
    }
}

pub open spec fn last_index(items: Seq<EntryView>, p: spec_fn(EntryView) -> bool) -> Option<int> {
    if exists|i: int| is_last(items, p, i) {
        Some(choose|i: int| is_last(items, p, i))
    } else {
        None
    }
}

/// The aliases with one more, which an earlier registration of the same id keeps out.
pub open spec fn with_alias(aliases: Map<Seq<char>, usize>, id: Seq<char>, index: int) -> Map<
    Seq<char>,
    usize,
> {
    if aliases.dom().contains(id) {
        aliases
    } else {
        aliases.insert(id, index as usize)
    }
}

pub open spec fn with_aliases(
    aliases: Map<Seq<char>, usize>,
    ids: Seq<Seq<char>>,
    index: int,
) -> Map<Seq<char>, usize>
    decreases ids.len(),
{
    if ids.len() == 0 {
        aliases
    } else {
        with_alias(with_aliases(aliases, ids.drop_last(), index), ids.last(), index)
    }
}

/// An entry that no event has identified yet.
pub open spec fn unnamed() -> spec_fn(EntryView) -> bool {
    |entry: EntryView| entry.item_id is None
}

/// An entry that no event has identified and no live id has joined.
pub open spec fn provisional() -> spec_fn(EntryView) -> bool {
    |entry: EntryView| entry.item_id is None && entry.live_id is None
}

/// A seeded entry that the live stream may still be replaying under an id yet unknown.
pub open spec fn awaiting_live_id() -> spec_fn(EntryView) -> bool {
    |entry: EntryView| entry.live_id is None && entry.replay_cursor is Some
}

impl RegistryView {
    pub open spec fn empty() -> RegistryView {
        RegistryView { items: Seq::empty(), aliases: Map::empty(), retain_text: true }
    }

    /// The entry that an id stands for; no id stands for the first unnamed entry.
    pub open spec fn find(self, item_id: Option<Seq<char>>) -> Option<int> {
        match item_id {
            Some(id) => if self.aliases.dom().contains(id) {
                Some(self.aliases[id] as int)
            } else {
                None
            },
            None => first_index(self.items, unnamed()),
        }
    }

    pub open spec fn with_item(self, index: int, entry: EntryView) -> RegistryView {
        RegistryView { items: self.items.update(index, entry), ..self }
    }

    pub open spec fn registered(self, id: Seq<char>, index: int) -> RegistryView {
        RegistryView { aliases: with_alias(self.aliases, id, index), ..self }
    }

    /// With one more entry, under all of its ids; not at all where the turn has as many
    /// entries as it may.
    pub open spec fn pushed(self, entry: EntryView) -> Option<RegistryView> {
        if self.items.len() >= MAX_ASSISTANT_ITEMS {
            None
        } else {
            Some(
                RegistryView {
                    items: self.items.push(entry),
                    aliases: with_aliases(
                        self.aliases,
                        entry.alias_ids(),
                        self.items.len() as int,
                    ),
                    retain_text: self.retain_text,
                },
            )
        }
    }

    pub open spec fn started(self, item_id: Seq<char>) -> Option<RegistryView> {
        if self.find(Some(item_id)) is Some {
            Some(self)
        } else {
            self.pushed(EntryView::new(Some(item_id)))
        }
    }

    /// The entry that a live event is about, and the registry in which it has one.
    ///
    /// An id that is not known yet names the last provisional entry; failing that, it is the
    /// live id of the last seeded entry that awaits one; failing that, it is a new item's.
    pub open spec fn resolved(self, item_id: Option<Seq<char>>) -> Option<(RegistryView, int)> {
        match (self.find(item_id), item_id) {
            (Some(index), _) => Some((self, index)),
            (None, Some(id)) => match (
                last_index(self.items, provisional()),
                last_index(self.items, awaiting_live_id()),
            ) {
                (Some(index), _) => Some(
                    (
                        self.with_item(
                            index,
                            EntryView { item_id: Some(id), ..self.items[index] },
                        ).registered(id, index),
                        index,
                    ),
                ),
                (None, Some(index)) => Some(
                    (
                        self.with_item(
                            index,
                            EntryView { live_id: Some(id), ..self.items[index] },
                        ).registered(id, index),
                        index,
                    ),
                ),
                (None, None) => self.resolved_new(item_id),
            },
            (None, None) => self.resolved_new(item_id),
        }
    }

    pub open spec fn resolved_new(self, item_id: Option<Seq<char>>) -> Option<
        (RegistryView, int),
    > {
        match self.pushed(EntryView::new(item_id)) {
            Some(registry) => Some((registry, self.items.len() as int)),
            None => None,
        }
    }

    /// Every entry is consistent with how texts are kept, every alias stands for an entry,
    /// every id of an entry is an alias, and the entries are not too many.
    pub open spec fn wf(self) -> bool {
        &&& self.items.len() <= MAX_ASSISTANT_ITEMS
        &&& forall|i: int|
            0 <= i < self.items.len() ==> (#[trigger] self.items[i]).consistent(self.retain_text)
        &&& forall|id: Seq<char>| #[trigger]
            self.aliases.dom().contains(id) ==> self.aliases[id] < self.items.len()
        &&& forall|i: int|
            0 <= i < self.items.len() ==> self.names_known(#[trigger] self.items[i])
    }

    pub open spec fn names_known(self, entry: EntryView) -> bool {
        &&& entry.item_id matches Some(id) ==> self.aliases.dom().contains(id)
        &&& entry.live_id matches Some(id) ==> self.aliases.dom().contains(id)
        &&& entry.poll_id matches Some(id) ==> self.aliases.dom().contains(id)
    }
}

impl View for AssistantResponses {
    type V = RegistryView;

    open spec fn view(&self) -> RegistryView {
        RegistryView {
            items: self.items@.map_values(|entry: AssistantResponse| entry@),
            aliases: self.alias_to_index@,
            retain_text: self.retain_text,
        }
    }
}

/// What a registry with too many entries is refused with.
pub open spec fn item_limit_message() -> Seq<char> {
    "assistant item limit exceeded (4096 items)"@
}

/// What an alias stands for after the ids of one entry were registered.
pub proof fn lemma_registered_ids(
    aliases: Map<Seq<char>, usize>,
    ids: Seq<Seq<char>>,
    index: int,
    id: Seq<char>,
)
    requires
        0 <= index <= usize::MAX,
    ensures
        ({
            let after = with_aliases(aliases, ids, index);
            &&& after.dom().contains(id) <==> aliases.dom().contains(id) || ids.contains(id)
            &&& aliases.dom().contains(id) ==> after[id] == aliases[id]
            &&& !aliases.dom().contains(id) && ids.contains(id) ==> after[id] == index
        }),
    decreases ids.len(),
{
    if ids.len() > 0 {
        let rest = ids.drop_last();
        lemma_registered_ids(aliases, rest, index, id);
        if ids.contains(id) {
            let k = choose|k: int| 0 <= k < ids.len() && ids[k] == id;
            if k < ids.len() - 1 {
                assert(rest[k] == id);
            }
        }
        if rest.contains(id) {
            let k = choose|k: int| 0 <= k < rest.len() && rest[k] == id;
            assert(ids[k] == id);
        }
        assert(ids[ids.len() - 1] == ids.last());
    }
}

/// What an alias stands for after the ids of one entry were registered.
spec fn alias_after(
    aliases: Map<Seq<char>, usize>,
    after: Map<Seq<char>, usize>,
    ids: Seq<Seq<char>>,
    index: int,
    id: Seq<char>,
) -> bool {
    &&& after.dom().contains(id) <==> aliases.dom().contains(id) || ids.contains(id)
    &&& aliases.dom().contains(id) ==> after[id] == aliases[id]
    &&& !aliases.dom().contains(id) && ids.contains(id) ==> after[id] == index
}

proof fn lemma_with_aliases(aliases: Map<Seq<char>, usize>, ids: Seq<Seq<char>>, index: int)
    requires
        0 <= index <= usize::MAX,
    ensures
        forall|id: Seq<char>|
            #![trigger with_aliases(aliases, ids, index).dom().contains(id)]
            #![trigger ids.contains(id)]
            alias_after(aliases, with_aliases(aliases, ids, index), ids, index, id),
{
    assert forall|id: Seq<char>|
        alias_after(aliases, with_aliases(aliases, ids, index), ids, index, id) by {
        lemma_registered_ids(aliases, ids, index, id);
    }
}

/// The ids of an entry are those that its alias list holds.
pub proof fn lemma_alias_ids(entry: EntryView)
    ensures
        forall|id: Seq<char>| #[trigger]
            entry.alias_ids().contains(id) <==> entry.item_id == Some(id) || entry.live_id
                == Some(id) || entry.poll_id == Some(id),
{
    let a = with_id_contains(Seq::empty(), entry.item_id);
    let b = with_id_contains(a, entry.live_id);
    let c = with_id_contains(b, entry.poll_id);
}

proof fn with_id_contains(ids: Seq<Seq<char>>, id: Option<Seq<char>>) -> (all: Seq<Seq<char>>)
    ensures
        all == crate::turns::assistant::with_id(ids, id),
        forall|x: Seq<char>| #[trigger] all.contains(x) <==> ids.contains(x) || id == Some(x),
{
    let all = crate::turns::assistant::with_id(ids, id);
    if let Some(new) = id {
        if !ids.contains(new) {
            assert forall|x: Seq<char>| #[trigger] all.contains(x) <==> ids.contains(x) || id
                == Some(x) by {
                if ids.contains(x) {
                    let k = choose|k: int| 0 <= k < ids.len() && ids[k] == x;
                    assert(all[k] == x);
                }
                assert(all[ids.len() as int] == new);
            }
        }
    }
    all
}

/// A registry stays well-formed when an entry takes an id that is registered for it.
pub proof fn lemma_wf_renamed(registry: RegistryView, index: int, entry: EntryView, id: Seq<char>)
    requires
        registry.wf(),
        0 <= index < registry.items.len(),
        entry.consistent(registry.retain_text),
        registry.registered(id, index).names_known(entry),
    ensures
        registry.with_item(index, entry).registered(id, index).wf(),
{
    let after = registry.with_item(index, entry).registered(id, index);
    assert forall|k: int| 0 <= k < after.items.len() implies after.names_known(
        #[trigger] after.items[k],
    ) by {
        assert(registry.names_known(registry.items[k]));
    }
    assert forall|k: int| 0 <= k < after.items.len() implies (
    #[trigger] after.items[k]).consistent(after.retain_text) by {
        assert(registry.items[k].consistent(registry.retain_text));
    }
    assert forall|other: Seq<char>| #[trigger] after.aliases.dom().contains(other) implies
        after.aliases[other] < after.items.len() by {
        if registry.aliases.dom().contains(other) {
            assert(after.aliases[other] == registry.aliases[other]);
        }
    }
}

/// A registry stays well-formed when an entry changes and keeps to ids that are known.
pub proof fn lemma_wf_changed(registry: RegistryView, index: int, entry: EntryView)
    requires
        registry.wf(),
        0 <= index < registry.items.len(),
        entry.consistent(registry.retain_text),
        registry.names_known(entry),
    ensures
        registry.with_item(index, entry).wf(),
{
    let after = registry.with_item(index, entry);
    assert forall|k: int| 0 <= k < after.items.len() implies after.names_known(
        #[trigger] after.items[k],
    ) by {
        assert(registry.names_known(registry.items[k]));
    }
    assert forall|k: int| 0 <= k < after.items.len() implies (
    #[trigger] after.items[k]).consistent(after.retain_text) by {
        assert(registry.items[k].consistent(registry.retain_text));
    }
    assert forall|other: Seq<char>| #[trigger] after.aliases.dom().contains(other) implies
        after.aliases[other] < after.items.len() by {
        assert(registry.aliases.dom().contains(other));
    }
}

impl AssistantResponses {
    pub open spec fn wf(self) -> bool {
        &&& self@.wf()
        &&& forall|i: int|
            0 <= i < self.items@.len() ==> (#[trigger] self.items@[i]).wf(self.retain_text)
    }

    /// Lets go of all texts; from here on contents are told apart by length and digest.
    pub fn stop_retaining_text(&mut self)
        requires
            old(self).wf(),
        ensures
            final(self).wf(),
            !final(self)@.retain_text,
            final(self)@.aliases == old(self)@.aliases,
            final(self)@.items == old(self)@.items.map_values(
                |entry: EntryView| EntryView { text: Seq::empty(), ..entry },
            ),
    {
        self.retain_text = false;
        let mut i: usize = 0;
        while i < self.items.len()
            invariant
                i <= self.items@.len(),
                old(self).wf(),
                !self.retain_text,
                self.alias_to_index == old(self).alias_to_index,
                self.items@.len() == old(self).items@.len(),
                forall|j: int|
                    i <= j < self.items@.len() ==> #[trigger] self.items@[j] == old(self).items@[j],
                forall|j: int|
                    0 <= j < i ==> (#[trigger] self.items@[j])@ == (EntryView {
                        text: Seq::empty(),
                        ..old(self).items@[j]@
                    }) && self.items@[j].wf(false),
            decreases self.items@.len() - i,
        {
            assert(old(self).items@[i as int].wf(old(self).retain_text));
            let item = &mut self.items[i];
            item.text = String::new();
            i += 1;
        }
        proof {
            assert(self@.items =~= old(self)@.items.map_values(
                |entry: EntryView| EntryView { text: Seq::empty(), ..entry },
            ));
            assert forall|k: int| 0 <= k < self@.items.len() implies self@.names_known(
                #[trigger] self@.items[k],
            ) by {
                assert(old(self)@.names_known(old(self)@.items[k]));
            }
            assert forall|k: int| 0 <= k < self@.items.len() implies (
            #[trigger] self@.items[k]).consistent(false) by {
                assert(self.items@[k].wf(false));
            }
            assert forall|id: Seq<char>| #[trigger]
                self@.aliases.dom().contains(id) implies self@.aliases[id] < self@.items.len() by {
                assert(old(self)@.aliases.dom().contains(id));
            }
        }
    }

    /// The entry that an id stands for; no id stands for the first unnamed entry.
    pub fn find_index(&self, item_id: Option<&str>) -> (index: Option<usize>)
        requires
            self.wf(),
        ensures
            match index {
                Some(index) => index < self.items@.len() && self@.find(slice_view(item_id)) == Some(
                    index as int,
                ),
                None => self@.find(slice_view(item_id)) is None,
            },
    {
        match item_id {
            Some(id) => {
                match self.alias_to_index.get(id) {
                    Some(index) => Some(*index),
                    None => None,
                }
            },
            None => {
                let mut i: usize = 0;
                while i < self.items.len()
                    invariant
                        i <= self.items@.len(),
                        item_id is None,
                        forall|j: int| 0 <= j < i ==> !unnamed()(#[trigger] self@.items[j]),
                    decreases self.items@.len() - i,
                {
                    if self.items[i].item_id.is_none() {
                        proof {
                            assert(self@.items[i as int] == self.items@[i as int]@);
                            assert(is_first(self@.items, unnamed(), i as int));
                        }
                        return Some(i);
                    }
                    assert(self@.items[i as int] == self.items@[i as int]@);
                    i += 1;
                }
                None
            },
        }
    }

    /// The text kept of the entry that an id stands for.
    pub fn text_for_item(&self, item_id: Option<&str>) -> (text: Option<&str>)
        requires
            self.wf(),
        ensures
            slice_view(text) == match self@.find(slice_view(item_id)) {
                Some(index) => Some(self@.items[index].text),
                None => None,
            },
    {
        match self.find_index(item_id) {
            Some(index) => Some(self.items[index].text.as_str()),
            None => None,
        }
    }

    fn register_alias(&mut self, index: usize, item_id: &str)
        ensures
            final(self).items == old(self).items,
            final(self)@ == old(self)@.registered(item_id@, index as int),
    {
        if !self.alias_to_index.contains_key(item_id) {
            self.alias_to_index.insert(item_id.to_owned(), index);
        }
    }

    fn push_item(&mut self, item: AssistantResponse) -> (pushed: Result<usize, AppServerError>)
        requires
            old(self).wf(),
            item.wf(old(self).retain_text),
        ensures
            final(self).wf(),
            match pushed {
                Ok(index) => index == old(self)@.items.len() && old(self)@.pushed(item@) == Some(
                    final(self)@,
                ),
                Err(error) => {
                    &&& old(self)@.pushed(item@) is None
                    &&& final(self)@ == old(self)@
                    &&& error.message@ == item_limit_message()
                },
            },
    {
        if self.items.len() >= MAX_ASSISTANT_ITEMS {
            return Err(app_server_error("assistant item limit exceeded (4096 items)"));
        }
        let index = self.items.len();
        let aliases = item.alias_ids();
        let ghost ids = item@.alias_ids();
        let mut i: usize = 0;
        proof {
            assert(ids.take(0) =~= Seq::empty());
        }
        while i < aliases.len()
            invariant
                i <= aliases@.len(),
                aliases@.map_values(|id: String| id@) == ids,
                self.items == old(self).items,
                self.retain_text == old(self).retain_text,
                self.alias_to_index@ == with_aliases(
                    old(self)@.aliases,
                    ids.take(i as int),
                    index as int,
                ),
            decreases aliases@.len() - i,
        {
            proof {
                assert(ids.take(i + 1).drop_last() =~= ids.take(i as int));
                assert(ids[i as int] == aliases@[i as int]@);
            }
            self.register_alias(index, aliases[i].as_str());
            i += 1;
        }
        self.items.push(item);
        proof {
            assert(ids.take(i as int) =~= ids);
            assert(self@.items =~= old(self)@.items.push(item@));
            lemma_with_aliases(old(self)@.aliases, ids, index as int);
            lemma_alias_ids(item@);
            assert forall|k: int| 0 <= k < self@.items.len() implies self@.names_known(
                #[trigger] self@.items[k],
            ) by {
                if k < index {
                    assert(old(self)@.names_known(old(self)@.items[k]));
                }
            }
        }
        Ok(index)
    }
}

impl RegistryView {
    /// What a live delta does: the registry after it, and the ids and the fragment of the
    /// event it gives rise to, if it does.
    ///
    /// While the live stream may be replaying a seeded text, a delta that continues the
    /// replay is swallowed, and of one that reaches past the seeded text only the new part
    /// counts. Any other delta ends the replay.
    pub open spec fn live_delta(self, item_id: Option<Seq<char>>, delta: Seq<char>) -> Option<
        (RegistryView, Option<(ItemIdsView, Seq<char>)>),
    > {
        match self.resolved(item_id) {
            None => None,
            Some((registry, index)) => {
                let entry = registry.items[index];
                let remaining = entry.to_replay();
                if remaining.len() > 0 && delta.is_prefix_of(remaining) {
                    Some((registry.with_item(index, entry.replayed(delta)), None))
                } else {
                    let fragment = if remaining.len() > 0 && remaining.is_prefix_of(delta) {
                        delta.skip(remaining.len() as int)
                    } else {
                        delta
                    };
                    let after = EntryView { replay_cursor: None, ..entry }.appended(
                        fragment,
                        self.retain_text,
                    );
                    Some((registry.with_item(index, after), Some((after.ids(), fragment))))
                }
            },
        }
    }

    /// What a live completion does: the registry after it, and the ids of the event it gives
    /// rise to, where its text is not what was observed before.
    pub open spec fn live_completion(self, item_id: Option<Seq<char>>, text: Seq<char>) -> Option<
        (RegistryView, Option<ItemIdsView>),
    > {
        match self.resolved(item_id) {
            None => None,
            Some((registry, index)) => Some(
                registry.completed(
                    index,
                    text,
                    registry.items[index].content_matches(text, self.retain_text),
                ),
            ),
        }
    }

    /// What the completion of an entry does, given whether its text is what was observed.
    pub open spec fn completed(self, index: int, text: Seq<char>, matches: bool) -> (
        RegistryView,
        Option<ItemIdsView>,
    ) {
        let after = EntryView {
            replay_cursor: None,
            ..self.items[index].replaced(text, self.retain_text)
        };
        (
            self.with_item(index, after),
            if matches {
                None
            } else {
                Some(after.ids())
            },
        )
    }

    /// With one more entry, seeded from a snapshot.
    pub open spec fn seeded(self, item_id: Option<Seq<char>>, text: Seq<char>) -> Option<
        RegistryView,
    > {
        self.pushed(
            EntryView {
                replay_cursor: Some(0),
                ..EntryView::new(item_id).replaced(text, self.retain_text)
            },
        )
    }
}

impl EntryView {
    /// The seeded text that the live stream has yet to replay.
    pub open spec fn to_replay(self) -> Seq<char> {
        match self.replay_cursor {
            Some(cursor) => text_from(self.text, cursor),
            None => Seq::empty(),
        }
    }

    /// After a delta that was all replay.
    pub open spec fn replayed(self, delta: Seq<char>) -> EntryView {
        let cursor = self.replay_cursor->0 + encode_utf8(delta).len();
        EntryView {
            replay_cursor: if cursor < encode_utf8(self.text).len() {
                Some(cursor)
            } else {
                None
            },
            ..self
        }
    }
}

/// A text that starts after byte `at` of another has no more bytes than are left there.
proof fn lemma_tail_bytes(text: Seq<char>, at: nat, prefix: Seq<char>)
    requires
        prefix.is_prefix_of(text_from(text, at)),
        text_from(text, at).len() > 0,
    ensures
        at + encode_utf8(prefix).len() <= encode_utf8(text).len(),
{
    let tail = text_from(text, at);
    let k = lemma_split_at_boundary(text, at as int);
    encode_utf8_decode_utf8(text.skip(k));
    lemma_byte_prefix(tail, prefix);
}

impl AssistantResponses {
    /// An accumulator for a turn of which nothing is known yet.
    pub fn new() -> (responses: AssistantResponses)
        ensures
            responses@ == RegistryView::empty(),
            responses.wf(),
    {
        let responses = AssistantResponses {
            items: Vec::new(),
            alias_to_index: StringHashMap::new(),
            retain_text: true,
        };
        assert(responses@.items =~= Seq::empty());
        responses
    }

    /// Records that the live stream declared a new item. A delta under an id that was never
    /// declared belongs to the item in progress when the subscription began.
    pub fn note_started(&mut self, item_id: &str) -> (noted: Result<(), AppServerError>)
        requires
            old(self).wf(),
        ensures
            final(self).wf(),
            match noted {
                Ok(()) => old(self)@.started(item_id@) == Some(final(self)@),
                Err(error) => {
                    &&& old(self)@.started(item_id@) is None
                    &&& final(self)@ == old(self)@
                    &&& error.message@ == item_limit_message()
                },
            },
    {
        if self.find_index(Some(item_id)).is_none() {
            match self.push_item(AssistantResponse::new(Some(item_id.to_owned()))) {
                Ok(_) => {},
                Err(error) => {
                    return Err(error);
                },
            }
        }
        Ok(())
    }

    /// Finds or makes the entry that a live delta or completion is about.
    fn resolve_live(&mut self, item_id: Option<&str>) -> (resolved: Result<usize, AppServerError>)
        requires
            old(self).wf(),
        ensures
            final(self).wf(),
            final(self).retain_text == old(self).retain_text,
            match resolved {
                Ok(index) => {
                    &&& index < final(self).items@.len()
                    &&& old(self)@.resolved(slice_view(item_id)) == Some(
                        (final(self)@, index as int),
                    )
                },
                Err(error) => {
                    &&& old(self)@.resolved(slice_view(item_id)) is None
                    &&& final(self)@ == old(self)@
                    &&& error.message@ == item_limit_message()
                },
            },
    {
        if let Some(index) = self.find_index(item_id) {
            return Ok(index);
        }
        if let Some(id) = item_id {
            if let Some(index) = self.last_provisional() {
                let ghost named = EntryView { item_id: Some(id@), ..self@.items[index as int] };
                let item = &mut self.items[index];
                item.item_id = Some(id.to_owned());
                self.register_alias(index, id);
                proof {
                    self.lemma_renamed(*old(self), index as int, named, id@);
                }
                return Ok(index);
            }
            if let Some(index) = self.last_awaiting() {
                let ghost named = EntryView { live_id: Some(id@), ..self@.items[index as int] };
                let item = &mut self.items[index];
                item.live_id = Some(id.to_owned());
                self.register_alias(index, id);
                proof {
                    self.lemma_renamed(*old(self), index as int, named, id@);
                }
                return Ok(index);
            }
        }
        self.push_item(AssistantResponse::new(copy_text(item_id)))
    }

    proof fn lemma_renamed(self, before: AssistantResponses, index: int, entry: EntryView, id: Seq<char>)
        requires
            before.wf(),
            0 <= index < before.items@.len(),
            self.retain_text == before.retain_text,
            self.items@.len() == before.items@.len(),
            forall|j: int|
                0 <= j < before.items@.len() && j != index ==> self.items@[j] == before.items@[j],
            self.items@[index]@ == entry,
            self.items@[index].observed_len == before.items@[index].observed_len,
            entry.text == before.items@[index]@.text,
            entry.observed == before.items@[index]@.observed,
            self.alias_to_index@ == with_alias(before.alias_to_index@, id, index),
            before@.registered(id, index).names_known(entry),
        ensures
            self.wf(),
            self@ == before@.with_item(index, entry).registered(id, index),
    {
        assert(self@.items =~= before@.items.update(index, entry));
        assert(before.items@[index].wf(before.retain_text));
        lemma_wf_renamed(before@, index, entry, id);
    }

    fn last_provisional(&self) -> (index: Option<usize>)
        ensures
            match index {
                Some(index) => index < self.items@.len() && last_index(self@.items, provisional())
                    == Some(index as int),
                None => last_index(self@.items, provisional()) is None,
            },
    {
        let mut i: usize = self.items.len();
        while i > 0
            invariant
                i <= self.items@.len(),
                forall|j: int|
                    i <= j < self.items@.len() ==> !provisional()(#[trigger] self@.items[j]),
            decreases i,
        {
            i -= 1;
            assert(self@.items[i as int] == self.items@[i as int]@);
            if self.items[i].item_id.is_none() && self.items[i].live_id.is_none() {
                assert(is_last(self@.items, provisional(), i as int));
                return Some(i);
            }
        }
        None
    }

    fn last_awaiting(&self) -> (index: Option<usize>)
        ensures
            match index {
                Some(index) => index < self.items@.len() && last_index(
                    self@.items,
                    awaiting_live_id(),
                ) == Some(index as int),
                None => last_index(self@.items, awaiting_live_id()) is None,
            },
    {
        let mut i: usize = self.items.len();
        while i > 0
            invariant
                i <= self.items@.len(),
                forall|j: int|
                    i <= j < self.items@.len() ==> !awaiting_live_id()(#[trigger] self@.items[j]),
            decreases i,
        {
            i -= 1;
            assert(self@.items[i as int] == self.items@[i as int]@);
            if self.items[i].live_id.is_none() && self.items[i].replay_cursor.is_some() {
                assert(is_last(self@.items, awaiting_live_id(), i as int));
                return Some(i);
            }
        }
        None
    }
}

impl Default for AssistantResponses {
    fn default() -> (responses: AssistantResponses)
        ensures
            responses@ == RegistryView::empty(),
            responses.wf(),
    {
        AssistantResponses::new()
    }
}

/// The view of an event's ids and fragment.
pub open spec fn fragment_view(event: Option<(AssistantItemIds, String)>) -> Option<
    (ItemIdsView, Seq<char>),
> {
    match event {
        Some((ids, text)) => Some((ids@, text@)),
        None => None,
    }
}

pub open spec fn ids_view(event: Option<AssistantItemIds>) -> Option<ItemIdsView> {
    match event {
        Some(ids) => Some(ids@),
        None => None,
    }
}

impl AssistantResponses {
    proof fn lemma_changed(self, before: AssistantResponses, index: int, entry: EntryView)
        requires
            before.wf(),
            0 <= index < before.items@.len(),
            self.retain_text == before.retain_text,
            self.items@.len() == before.items@.len(),
            forall|j: int|
                0 <= j < before.items@.len() && j != index ==> self.items@[j] == before.items@[j],
            self.items@[index]@ == entry,
            self.items@[index].wf(before.retain_text),
            entry.item_id == before.items@[index]@.item_id,
            entry.live_id == before.items@[index]@.live_id,
            entry.poll_id == before.items@[index]@.poll_id,
            self.alias_to_index@ == before.alias_to_index@,
        ensures
            self.wf(),
            self@ == before@.with_item(index, entry),
    {
        assert(self@.items =~= before@.items.update(index, entry));
        assert(before@.names_known(before@.items[index]));
        lemma_wf_changed(before@, index, entry);
    }

    /// Applies a live delta. Returns the ids and the fragment of the event to emit, or `None`
    /// where the delta only replayed text that was seeded.
    pub fn apply_live_delta(&mut self, item_id: Option<&str>, delta: &str) -> (applied: Result<
        Option<(AssistantItemIds, String)>,
        AppServerError,
    >)
        requires
            old(self).wf(),
        ensures
            final(self).wf(),
            match applied {
                Ok(event) => old(self)@.live_delta(slice_view(item_id), delta@) == Some(
                    (final(self)@, fragment_view(event)),
                ),
                Err(error) => {
                    &&& old(self)@.live_delta(slice_view(item_id), delta@) is None
                    &&& final(self)@ == old(self)@
                    &&& error.message@ == item_limit_message()
                },
            },
    {
        let retain_text = self.retain_text;
        let index = match self.resolve_live(item_id) {
            Ok(index) => index,
            Err(error) => {
                return Err(error);
            },
        };
        let ghost before = *self;
        let ghost entry = self@.items[index as int];
        proof {
            assert(entry == self.items@[index as int]@);
            assert(self.items@[index as int].wf(retain_text));
        }
        let mut fragment: String = delta.to_owned();
        if let Some(cursor) = self.items[index].replay_cursor {
            let remaining = tail_from(self.items[index].text.as_str(), cursor);
            if !remaining.is_empty() && starts_with(remaining, delta) {
                proof {
                    lemma_tail_bytes(entry.text, cursor as nat, delta@);
                }
                let len = self.items[index].text.as_str().as_bytes().len();
                let matched: usize = cursor + delta.as_bytes().len();
                let item = &mut self.items[index];
                item.replay_cursor = if matched < len {
                    Some(matched)
                } else {
                    None
                };
                proof {
                    self.lemma_changed(before, index as int, entry.replayed(delta@));
                }
                return Ok(None);
            }
            if !remaining.is_empty() && starts_with(delta, remaining) {
                fragment = after_prefix(delta, remaining).to_owned();
            }
        }
        let item = &mut self.items[index];
        item.replay_cursor = None;
        item.append_content(fragment.as_str(), retain_text);
        proof {
            self.lemma_changed(before, index as int, self.items@[index as int]@);
        }
        let ids = self.items[index].ids();
        Ok(Some((ids, fragment)))
    }

    /// Applies the text of a completed item. Returns the ids of the event to emit where the
    /// completion carries content that was not emitted yet.
    pub fn complete_live(&mut self, item_id: Option<&str>, text: &str) -> (applied: Result<
        Option<AssistantItemIds>,
        AppServerError,
    >)
        requires
            old(self).wf(),
        ensures
            final(self).wf(),
            match applied {
                Ok(event) => old(self)@.live_completion(slice_view(item_id), text@) == Some(
                    (final(self)@, ids_view(event)),
                ),
                Err(error) => {
                    &&& old(self)@.live_completion(slice_view(item_id), text@) is None
                    &&& final(self)@ == old(self)@
                    &&& error.message@ == item_limit_message()
                },
            },
    {
        let retain_text = self.retain_text;
        let index = match self.resolve_live(item_id) {
            Ok(index) => index,
            Err(error) => {
                return Err(error);
            },
        };
        assert(self@.items[index as int] == self.items@[index as int]@);
        assert(self.items@[index as int].wf(retain_text));
        let matches = self.items[index].content_matches(text, retain_text);
        Ok(self.complete_item(index, text, matches))
    }

    /// Sets the text of a completed entry, given whether it is what was observed. Returns the
    /// ids of the event to emit where it is not.
    pub fn complete_item(&mut self, index: usize, text: &str, matches: bool) -> (event: Option<
        AssistantItemIds,
    >)
        requires
            old(self).wf(),
            index < old(self).items@.len(),
        ensures
            final(self).wf(),
            (final(self)@, ids_view(event)) == old(self)@.completed(index as int, text@, matches),
    {
        let retain_text = self.retain_text;
        let ghost before = *self;
        assert(self@.items[index as int] == self.items@[index as int]@);
        let item = &mut self.items[index];
        item.replace_content(text, retain_text);
        item.replay_cursor = None;
        proof {
            self.lemma_changed(before, index as int, self.items@[index as int]@);
        }
        if matches {
            None
        } else {
            Some(self.items[index].ids())
        }
    }

    /// Sets the text of the entry that a live event with this id is about.
    pub fn set_text(&mut self, item_id: Option<&str>, text: &str) -> (set: Result<
        (),
        AppServerError,
    >)
        requires
            old(self).wf(),
        ensures
            final(self).wf(),
            match (set, old(self)@.live_completion(slice_view(item_id), text@)) {
                (Ok(()), Some((after, _))) => final(self)@ == after,
                (Err(error), None) => {
                    &&& final(self)@ == old(self)@
                    &&& error.message@ == item_limit_message()
                },
                _ => false,
            },
    {
        match self.complete_live(item_id, text) {
            Ok(_) => Ok(()),
            Err(error) => Err(error),
        }
    }

    /// Seeds one snapshot item; the calls follow the order of the items in the turn.
    pub fn seed_snapshot_item(&mut self, item_id: Option<&str>, text: &str) -> (seeded: Result<
        (),
        AppServerError,
    >)
        requires
            old(self).wf(),
        ensures
            final(self).wf(),
            match seeded {
                Ok(()) => old(self)@.seeded(slice_view(item_id), text@) == Some(final(self)@),
                Err(error) => {
                    &&& old(self)@.seeded(slice_view(item_id), text@) is None
                    &&& final(self)@ == old(self)@
                    &&& error.message@ == item_limit_message()
                },
            },
    {
        let mut item = AssistantResponse::new(copy_text(item_id));
        item.replace_content(text, self.retain_text);
        item.replay_cursor = Some(0);
        match self.push_item(item) {
            Ok(_) => Ok(()),
            Err(error) => Err(error),
        }
    }
}

/// Whether a polled item at an entry's position may be that entry: the entry has no poll id
/// yet, or this one.
pub open spec fn joins_by_position(entry: EntryView, poll_id: Option<Seq<char>>) -> bool {
    match (poll_id, entry.poll_id) {
        (Some(_), None) => true,
        (Some(id), Some(known)) => id == known,
        (None, _) => false,
    }
}

/// What was found out by reconciling a polled turn.
#[verifier::ext_equal]
pub struct SyncView {
    pub registry: RegistryView,
    /// The ids and the text of each item with new content.
    pub updates: Seq<(ItemIdsView, Seq<char>)>,
    /// How many agent messages of the turn came so far.
    pub position: nat,
    /// Whether there was an item too many.
    pub failed: bool,
}

pub open spec fn is_agent_message(item: JsonView) -> bool {
    item.field("type"@).as_str() == Some("agentMessage"@)
}

impl RegistryView {
    /// The entry that a polled item is: the one that its id stands for, or the one at its
    /// position in the turn.
    pub open spec fn polled_index(self, poll_id: Option<Seq<char>>, position: nat) -> Option<int> {
        match self.find(poll_id) {
            Some(index) => Some(index),
            None => if position < self.items.len() && joins_by_position(
                self.items[position as int],
                poll_id,
            ) {
                Some(position as int)
            } else {
                None
            },
        }
    }
}

impl EntryView {
    pub open spec fn adopts(self, poll_id: Option<Seq<char>>) -> bool {
        poll_id is Some && self.item_id != poll_id && self.poll_id is None
    }

    /// The entry with the poll id that it is seen under, where that is news.
    pub open spec fn polled_as(self, poll_id: Option<Seq<char>>) -> EntryView {
        if self.adopts(poll_id) {
            EntryView { poll_id, ..self }
        } else {
            self
        }
    }

    /// Whether a polled text is news of this entry.
    pub open spec fn polled_change(self, text: Seq<char>, retain_text: bool) -> bool {
        text.len() > 0 && !self.content_matches(text, retain_text)
    }

    /// The entry with a polled text, where that is news. A replay that may be going on begins
    /// anew.
    pub open spec fn polled_text(self, text: Seq<char>, retain_text: bool, news: bool) -> EntryView {
        if news {
            EntryView {
                replay_cursor: if self.replay_cursor is Some {
                    Some(0)
                } else {
                    None
                },
                ..self.replaced(text, retain_text)
            }
        } else {
            self
        }
    }
}

impl RegistryView {
    /// What a polled item that an entry is known for does, given whether its text is news:
    /// the registry after it, and the ids and the text to report, if any.
    pub open spec fn polled(
        self,
        index: int,
        poll_id: Option<Seq<char>>,
        text: Seq<char>,
        news: bool,
    ) -> (RegistryView, Option<(ItemIdsView, Seq<char>)>) {
        let known = self.items[index];
        let entry = known.polled_as(poll_id).polled_text(text, self.retain_text, news);
        let changed = self.with_item(index, entry);
        (
            if known.adopts(poll_id) {
                changed.registered(poll_id->0, index)
            } else {
                changed
            },
            if news {
                Some((entry.ids(), text))
            } else {
                None
            },
        )
    }
}

/// One polled item.
pub open spec fn synced_item(state: SyncView, item: JsonView) -> SyncView {
    let registry = state.registry;
    let poll_id = item.field("id"@).as_str();
    let text = item.field("text"@).text();
    let retain = registry.retain_text;
    if state.failed || !is_agent_message(item) {
        state
    } else {
        match registry.polled_index(poll_id, state.position) {
            Some(index) => {
                let news = registry.items[index].polled_change(text, retain);
                let (after, update) = registry.polled(index, poll_id, text, news);
                SyncView {
                    registry: after,
                    updates: match update {
                        Some(update) => state.updates.push(update),
                        None => state.updates,
                    },
                    position: state.position + 1,
                    failed: false,
                }
            },
            None => {
                let entry = EntryView::new(poll_id).replaced(text, retain);
                match registry.pushed(entry) {
                    Some(pushed) => SyncView {
                        registry: pushed,
                        updates: if text.len() > 0 {
                            state.updates.push((entry.ids(), text))
                        } else {
                            state.updates
                        },
                        position: state.position + 1,
                        failed: false,
                    },
                    None => SyncView { failed: true, ..state },
                }
            },
        }
    }
}

/// The first `n` items of a polled turn.
pub open spec fn synced(registry: RegistryView, items: Seq<JsonView>, n: nat) -> SyncView
    decreases n,
{
    if n == 0 {
        SyncView { registry, updates: Seq::empty(), position: 0, failed: false }
    } else {
        synced_item(synced(registry, items, (n - 1) as nat), items[n - 1])
    }
}

/// A whole polled turn.
pub open spec fn synced_turn(registry: RegistryView, turn: JsonView) -> SyncView {
    let items = turn.field("items"@).items();
    synced(registry, items, items.len())
}

/// The view of the updates that a poll found.
pub open spec fn updates_view(updates: Seq<(AssistantItemIds, String)>) -> Seq<
    (ItemIdsView, Seq<char>),
> {
    updates.map_values(|update: (AssistantItemIds, String)| (update.0@, update.1@))
}

proof fn lemma_updates_push(
    updates: Seq<(AssistantItemIds, String)>,
    update: (AssistantItemIds, String),
)
    ensures
        updates_view(updates.push(update)) == updates_view(updates).push((update.0@, update.1@)),
{
    assert(updates_view(updates.push(update)) =~= updates_view(updates).push(
        (update.0@, update.1@),
    ));
}

/// A failed poll stays failed.
proof fn lemma_synced_failed(registry: RegistryView, items: Seq<JsonView>, n: nat, m: nat)
    requires
        n <= m,
        synced(registry, items, n).failed,
    ensures
        synced(registry, items, m) == synced(registry, items, n),
    decreases m,
{
    if n < m {
        lemma_synced_failed(registry, items, n, (m - 1) as nat);
    }
}

impl AssistantResponses {
    /// Takes over one polled item that an entry is known for, given whether its text is news.
    pub fn sync_item(
        &mut self,
        index: usize,
        poll_id: Option<&str>,
        text: &str,
        news: bool,
    ) -> (update: Option<(AssistantItemIds, String)>)
        requires
            old(self).wf(),
            index < old(self).items@.len(),
        ensures
            final(self).wf(),
            (final(self)@, fragment_view(update)) == old(self)@.polled(
                index as int,
                slice_view(poll_id),
                text@,
                news,
            ),
    {
        let retain_text = self.retain_text;
        let ghost before = *self;
        let ghost first = self@.items[index as int];
        proof {
            assert(first == self.items@[index as int]@);
            assert(self.items@[index as int].wf(retain_text));
            assert(self@.names_known(first));
        }
        let mut adopted = false;
        let item = &mut self.items[index];
        if let Some(id) = poll_id {
            if !text_is(&item.item_id, id) && item.poll_id.is_none() {
                item.poll_id = Some(id.to_owned());
                adopted = true;
            }
        }
        let mut update: Option<(AssistantItemIds, String)> = None;
        if news {
            item.replace_content(text, retain_text);
            if item.replay_cursor.is_some() {
                item.replay_cursor = Some(0);
            }
            update = Some((item.ids(), text.to_owned()));
        }
        let ghost entry = item@;
        if adopted {
            if let Some(id) = poll_id {
                self.register_alias(index, id);
                proof {
                    assert(self@.items =~= before@.items.update(index as int, entry));
                    lemma_wf_renamed(before@, index as int, entry, id@);
                }
            }
        } else {
            proof {
                self.lemma_changed(before, index as int, entry);
            }
        }
        update
    }

    /// Reconciles a polled turn. A polled item is joined to a known entry by an alias of its
    /// id or by its position in the turn (both surfaces list the turn's agent messages in the
    /// order of their creation), so that an item streamed live under one id is not emitted
    /// again when the poll lists it under another.
    pub fn sync_from_turn(&mut self, turn: &Json) -> (synced: Result<
        Vec<(AssistantItemIds, String)>,
        AppServerError,
    >)
        requires
            old(self).wf(),
        ensures
            final(self).wf(),
            ({
                let after = synced_turn(old(self)@, turn@);
                &&& final(self)@ == after.registry
                &&& match synced {
                    Ok(updates) => !after.failed && updates_view(updates@) == after.updates,
                    Err(error) => after.failed && error.message@ == item_limit_message(),
                }
            }),
    {
        let mut updates: Vec<(AssistantItemIds, String)> = Vec::new();
        let items = match turn.field("items").as_array() {
            Some(items) => items,
            None => {
                assert(updates_view(updates@) =~= Seq::empty());
                return Ok(updates);
            },
        };
        let mut position: usize = 0;
        let ghost views = turn@.field("items"@).items();
        let mut i: usize = 0;
        assert(updates_view(updates@) =~= Seq::empty());
        while i < items.len()
            invariant
                i <= items@.len(),
                position <= i,
                views == items@.map_values(|j: Json| j@),
                views == turn@.field("items"@).items(),
                self.wf(),
                synced(old(self)@, views, i as nat) == (SyncView {
                    registry: self@,
                    updates: updates_view(updates@),
                    position: position as nat,
                    failed: false,
                }),
            decreases items@.len() - i,
        {
            let ghost state = synced(old(self)@, views, i as nat);
            let item = &items[i];
            assert(views[i as int] == item@);
            let kind = item.field("type");
            i += 1;
            if !kind.is_text("agentMessage") {
                continue;
            }
            let poll_id = item.field("id").as_str();
            let text = match item.field("text").as_str() {
                Some(text) => text,
                None => "",
            };
            proof {
                reveal_strlit("");
                assert(text@ =~= item@.field("text"@).text());
            }
            let mut index = self.find_index(poll_id);
            if index.is_none() && position < self.items.len() && self.joins(position, poll_id) {
                index = Some(position);
            }
            let ghost before = updates@;
            match index {
                Some(index) => {
                    assert(self@.polled_index(slice_view(poll_id), position as nat) == Some(
                        index as int,
                    ));
                    assert(self@.items[index as int] == self.items@[index as int]@);
                    assert(self.items@[index as int].wf(self.retain_text));
                    let news = !text.is_empty() && !self.items[index].content_matches(
                        text,
                        self.retain_text,
                    );
                    if let Some(update) = self.sync_item(index, poll_id, text, news) {
                        updates.push(update);
                        proof {
                            lemma_updates_push(before, update);
                        }
                    }
                },
                None => {
                    assert(self@.polled_index(slice_view(poll_id), position as nat) is None);
                    let mut entry = AssistantResponse::new(copy_text(poll_id));
                    entry.replace_content(text, self.retain_text);
                    let ids = entry.ids();
                    match self.push_item(entry) {
                        Ok(_) => {},
                        Err(error) => {
                            proof {
                                lemma_synced_failed(
                                    old(self)@,
                                    views,
                                    i as nat,
                                    views.len(),
                                );
                            }
                            return Err(error);
                        },
                    }
                    if !text.is_empty() {
                        let update = (ids, text.to_owned());
                        updates.push(update);
                        proof {
                            lemma_updates_push(before, update);
                        }
                    }
                },
            }
            position += 1;
        }
        Ok(updates)
    }

    fn joins(&self, position: usize, poll_id: Option<&str>) -> (joins: bool)
        requires
            position < self.items@.len(),
        ensures
            joins == joins_by_position(self@.items[position as int], slice_view(poll_id)),
    {
        assert(self@.items[position as int] == self.items@[position as int]@);
        match poll_id {
            Some(id) => match &self.items[position].poll_id {
                Some(known) => same_text(id, known.as_str()),
                None => true,
            },
            None => false,
        }
    }
}

/// The texts of the entries that have one.
pub open spec fn kept_texts(items: Seq<EntryView>) -> Seq<Seq<char>>
    decreases items.len(),
{
    if items.len() == 0 {
        Seq::empty()
    } else {
        let before = kept_texts(items.drop_last());
        if items.last().text.len() > 0 {
            before.push(items.last().text)
        } else {
            before
        }
    }
}

/// The report of one entry: its canonical id, where it has one, and its text.
pub open spec fn response_json(entry: EntryView) -> JsonView {
    let object = match entry.item_id {
        Some(id) => JsonView::empty_object().with("itemId"@, JsonView::Str(id)),
        None => JsonView::empty_object(),
    };
    object.with("text"@, JsonView::Str(entry.text))
}

/// The reports of the entries that have a text.
pub open spec fn responses_json(items: Seq<EntryView>) -> Seq<JsonView>
    decreases items.len(),
{
    if items.len() == 0 {
        Seq::empty()
    } else {
        let before = responses_json(items.drop_last());
        if items.last().text.len() > 0 {
            before.push(response_json(items.last()))
        } else {
            before
        }
    }
}

impl RegistryView {
    /// The texts of the turn, one after the other.
    pub open spec fn final_text(self) -> Seq<char> {
        joined(kept_texts(self.items), "\n"@)
    }
}

impl AssistantResponses {
    pub fn final_text(&self) -> (text: String)
        ensures
            text@ == self@.final_text(),
    {
        let mut text = String::new();
        let mut any = false;
        let ghost items = self@.items;
        let mut i: usize = 0;
        assert(items.take(0) =~= Seq::empty());
        while i < self.items.len()
            invariant
                i <= self.items@.len(),
                items == self@.items,
                text@ == joined(kept_texts(items.take(i as int)), "\n"@),
                any == (kept_texts(items.take(i as int)).len() > 0),
            decreases self.items@.len() - i,
        {
            let item = &self.items[i];
            proof {
                assert(items.take(i + 1).drop_last() =~= items.take(i as int));
                assert(items[i as int] == item@);
                lemma_joined_push(kept_texts(items.take(i as int)), item.text@, "\n"@);
            }
            if !item.text.as_str().is_empty() {
                if any {
                    text.append("\n");
                }
                text.append(item.text.as_str());
                proof {
                    if !any {
                        assert(text@ =~= item.text@);
                    }
                }
                any = true;
            }
            i += 1;
        }
        assert(items.take(i as int) =~= items);
        text
    }

    pub fn to_json(&self) -> (responses: Vec<Json>)
        ensures
            responses@.map_values(|json: Json| json@) == responses_json(self@.items),
    {
        let mut responses: Vec<Json> = Vec::new();
        let ghost items = self@.items;
        let mut i: usize = 0;
        assert(items.take(0) =~= Seq::empty());
        assert(responses@.map_values(|json: Json| json@) =~= Seq::empty());
        while i < self.items.len()
            invariant
                i <= self.items@.len(),
                items == self@.items,
                responses@.map_values(|json: Json| json@) == responses_json(items.take(i as int)),
            decreases self.items@.len() - i,
        {
            let item = &self.items[i];
            proof {
                assert(items.take(i + 1).drop_last() =~= items.take(i as int));
                assert(items[i as int] == item@);
            }
            if !item.text.as_str().is_empty() {
                let mut object = Json::object();
                if let Some(item_id) = &item.item_id {
                    object.set("itemId", Json::string(item_id.as_str()));
                }
                object.set("text", Json::string(item.text.as_str()));
                let ghost before = responses@;
                responses.push(object);
                assert(responses@.map_values(|json: Json| json@) =~= before.map_values(
                    |json: Json| json@,
                ).push(object@));
            }
            i += 1;
        }
        assert(items.take(i as int) =~= items);
        responses
    }
}

} // verus!
