use vstd::prelude::*;
use vstd::utf8::*;

use crate::digest::{blake3_hash, ContentDigest};
use crate::text::{clone_text, lemma_encode_concat, same_text, text_view};

verus! {

/// One agent message of the watched turn.
///
/// The app-server identifies the same item differently per surface: live notifications use
/// opaque ids, while resume snapshots and polled turns number the items. An entry therefore
/// tracks every id observed for the item, and all emitted events carry the canonical
/// (first-seen) id, so that no consumer sees one item under two ids.
pub struct AssistantResponse {
    /// The canonical id: the one the item was first seen under.
    pub item_id: Option<String>,
    /// The live notification id, where it differs from `item_id`.
    pub live_id: Option<String>,
    /// The snapshot or poll id, where it differs from `item_id`.
    pub poll_id: Option<String>,
    pub text: String,
    pub observed_len: usize,
    pub observed: ContentDigest,
    /// While present, a live delta stream may still be replaying the seeded snapshot text
    /// from the item's start; counts the bytes that matched.
    pub replay_cursor: Option<usize>,
}

/// The mathematical value of an [`AssistantResponse`].
#[verifier::ext_equal]
pub struct EntryView {
    pub item_id: Option<Seq<char>>,
    pub live_id: Option<Seq<char>>,
    pub poll_id: Option<Seq<char>>,
    pub text: Seq<char>,
    /// The bytes of all the content that was observed, whether or not the text is kept.
    pub observed: Seq<u8>,
    pub replay_cursor: Option<nat>,
}

/// A byte count as a `usize` counter that stops at its greatest value.
pub open spec fn saturated(n: nat) -> nat {
    if n <= usize::MAX {
        n
    } else {
        usize::MAX as nat
    }
}

/// The ids with one more at the end, unless it is absent or already there.
pub open spec fn with_id(ids: Seq<Seq<char>>, id: Option<Seq<char>>) -> Seq<Seq<char>> {
    match id {
        Some(id) => if ids.contains(id) {
            ids
        } else {
            ids.push(id)
        },
        None => ids,
    }
}

impl EntryView {
    /// An item of which only the id is known.
    pub open spec fn new(item_id: Option<Seq<char>>) -> EntryView {
        EntryView {
            item_id,
            live_id: None,
            poll_id: None,
            text: Seq::empty(),
            observed: Seq::empty(),
            replay_cursor: None,
        }
    }

    /// Every id of the item, once each, the canonical one first.
    pub open spec fn alias_ids(self) -> Seq<Seq<char>> {
        with_id(with_id(with_id(Seq::empty(), self.item_id), self.live_id), self.poll_id)
    }

    /// Whether `text` is what was observed: by the text itself where it is kept, and by
    /// length and digest where it is not.
    pub open spec fn content_matches(self, text: Seq<char>, retain_text: bool) -> bool {
        self.content_is(
            text,
            retain_text,
            blake3_hash(self.observed) == blake3_hash(encode_utf8(text)),
        )
    }

    /// Whether `text` is what was observed, given whether the digests are the same.
    pub open spec fn content_is(
        self,
        text: Seq<char>,
        retain_text: bool,
        same_digest: bool,
    ) -> bool {
        if retain_text {
            self.text == text
        } else {
            saturated(self.observed.len()) == encode_utf8(text).len() && same_digest
        }
    }

    pub open spec fn replaced(self, text: Seq<char>, retain_text: bool) -> EntryView {
        EntryView {
            text: if retain_text {
                text
            } else {
                Seq::empty()
            },
            observed: encode_utf8(text),
            ..self
        }
    }

    pub open spec fn appended(self, fragment: Seq<char>, retain_text: bool) -> EntryView {
        EntryView {
            text: if retain_text {
                self.text + fragment
            } else {
                self.text
            },
            observed: self.observed + encode_utf8(fragment),
            ..self
        }
    }

    pub open spec fn ids(self) -> ItemIdsView {
        ItemIdsView { item_id: self.item_id, alias_ids: self.alias_ids() }
    }

    /// The observed bytes are those of the text where the text is kept, and the text is
    /// empty where it is not.
    pub open spec fn consistent(self, retain_text: bool) -> bool {
        if retain_text {
            encode_utf8(self.text) == self.observed
        } else {
            self.text.len() == 0
        }
    }
}

impl View for AssistantResponse {
    type V = EntryView;

    open spec fn view(&self) -> EntryView {
        EntryView {
            item_id: text_view(self.item_id),
            live_id: text_view(self.live_id),
            poll_id: text_view(self.poll_id),
            text: self.text@,
            observed: self.observed@,
            replay_cursor: match self.replay_cursor {
                Some(cursor) => Some(cursor as nat),
                None => None,
            },
        }
    }
}

/// The canonical id and all the aliases that an event about an item is stamped with.
pub struct AssistantItemIds {
    pub item_id: Option<String>,
    pub alias_ids: Vec<String>,
}

#[verifier::ext_equal]
pub struct ItemIdsView {
    pub item_id: Option<Seq<char>>,
    pub alias_ids: Seq<Seq<char>>,
}

impl View for AssistantItemIds {
    type V = ItemIdsView;

    open spec fn view(&self) -> ItemIdsView {
        ItemIdsView {
            item_id: text_view(self.item_id),
            alias_ids: self.alias_ids@.map_values(|id: String| id@),
        }
    }
}

/// Adds an id to a list of ids, unless it is absent or already there.
fn add_id(ids: &mut Vec<String>, id: &Option<String>)
    ensures
        final(ids)@.map_values(|id: String| id@) == with_id(
            old(ids)@.map_values(|id: String| id@),
            text_view(*id),
        ),
{
    let ghost before = ids@.map_values(|id: String| id@);
    if let Some(new) = id {
        let mut i: usize = 0;
        while i < ids.len()
            invariant
                i <= ids@.len(),
                ids@ == old(ids)@,
                *id == Some(*new),
                before == ids@.map_values(|id: String| id@),
                forall|j: int| 0 <= j < i ==> before[j] != new@,
            decreases ids@.len() - i,
        {
            if same_text(ids[i].as_str(), new.as_str()) {
                assert(before[i as int] == new@);
                return ;
            }
            i += 1;
        }
        ids.push(new.clone());
        assert(ids@.map_values(|id: String| id@) =~= before.push(new@));
    }
}

impl AssistantResponse {
    pub open spec fn wf(self, retain_text: bool) -> bool {
        &&& self@.consistent(retain_text)
        &&& self.observed_len == saturated(self.observed@.len())
    }

    pub fn new(item_id: Option<String>) -> (entry: AssistantResponse)
        ensures
            entry@ == EntryView::new(text_view(item_id)),
            forall|retain_text: bool| #[trigger] entry.wf(retain_text),
    {
        AssistantResponse {
            item_id,
            live_id: None,
            poll_id: None,
            text: String::new(),
            observed_len: 0,
            observed: ContentDigest::new(),
            replay_cursor: None,
        }
    }

    pub fn content_matches(&self, text: &str, retain_text: bool) -> (matches: bool)
        requires
            self.wf(retain_text),
        ensures
            matches == self@.content_matches(text@, retain_text),
    {
        let same_digest = !retain_text && self.observed_len == text.as_bytes().len()
            && self.observed.matches(text);
        self.content_is(text, retain_text, same_digest)
    }

    /// Whether `text` is what was observed, given whether the digests are the same.
    pub fn content_is(&self, text: &str, retain_text: bool, same_digest: bool) -> (matches: bool)
        requires
            self.wf(retain_text),
        ensures
            matches == self@.content_is(text@, retain_text, same_digest),
    {
        if retain_text {
            return same_text(self.text.as_str(), text);
        }
        self.observed_len == text.as_bytes().len() && same_digest
    }

    pub fn replace_content(&mut self, text: &str, retain_text: bool)
        ensures
            final(self)@ == old(self)@.replaced(text@, retain_text),
            final(self).wf(retain_text),
    {
        self.observed_len = text.as_bytes().len();
        self.observed = ContentDigest::new();
        self.observed.append(text);
        self.text = if retain_text {
            text.to_owned()
        } else {
            String::new()
        };
        assert(self.observed@ =~= encode_utf8(text@));
    }

    pub fn append_content(&mut self, fragment: &str, retain_text: bool)
        requires
            old(self).wf(retain_text),
        ensures
            final(self)@ == old(self)@.appended(fragment@, retain_text),
            final(self).wf(retain_text),
    {
        self.observed_len = self.observed_len.saturating_add(fragment.as_bytes().len());
        self.observed.append(fragment);
        if retain_text {
            self.text.append(fragment);
        }
        proof {
            lemma_encode_concat(old(self).text@, fragment@);
        }
    }

    /// Every id of the item, once each, the canonical one first.
    pub fn alias_ids(&self) -> (ids: Vec<String>)
        ensures
            ids@.map_values(|id: String| id@) == self@.alias_ids(),
    {
        let mut ids: Vec<String> = Vec::new();
        assert(ids@.map_values(|id: String| id@) =~= Seq::empty());
        add_id(&mut ids, &self.item_id);
        add_id(&mut ids, &self.live_id);
        add_id(&mut ids, &self.poll_id);
        ids
    }

    pub fn ids(&self) -> (ids: AssistantItemIds)
        ensures
            ids@ == self@.ids(),
    {
        AssistantItemIds { item_id: clone_text(&self.item_id), alias_ids: self.alias_ids() }
    }
}

} // verus!
