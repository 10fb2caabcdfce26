use vstd::hash_map::StringHashMap;
use vstd::prelude::*;
use vstd::utf8::*;

use crate::json::{Json, JsonView};
use crate::rpc::{Notification, NotificationView};
use crate::text::{
    clone_text, lemma_encode_concat, lemma_text_from, same_text, slice_view, tail_from, text_from,
    text_view,
};
use crate::turns::assistant::{AssistantResponse, EntryView};
use crate::turns::overlap::{
    lemma_longest_overlap, lemma_prefix_bytes_grow, longest_overlap, replayed_prefix_len,
};
use crate::turns::registry::{is_agent_message, AssistantResponses};

verus! {

/// Whether a notification is about this turn of this thread.
pub open spec fn concerns(
    notification: NotificationView,
    thread_id: Seq<char>,
    turn_id: Seq<char>,
) -> bool {
    &&& notification.params.field("threadId"@).is_text(thread_id)
    &&& notification.params.field("turnId"@).is_text(turn_id)
}

/// The item that a notification carries.
pub open spec fn item_of(notification: NotificationView) -> JsonView {
    notification.params.field("item"@)
}

pub open spec fn delta_text(notification: NotificationView) -> Seq<char> {
    notification.params.field("delta"@).text()
}

pub open spec fn delta_id(notification: NotificationView) -> Option<Seq<char>> {
    notification.params.field("itemId"@).as_str()
}

/// Whether a notification is an agent-message delta of this turn.
pub open spec fn is_turn_delta(
    notification: NotificationView,
    thread_id: Seq<char>,
    turn_id: Seq<char>,
) -> bool {
    &&& notification.method == "item/agentMessage/delta"@
    &&& concerns(notification, thread_id, turn_id)
}

/// The id and the text of the agent message of this turn that a notification completes.
pub open spec fn completed_message(
    notification: NotificationView,
    thread_id: Seq<char>,
    turn_id: Seq<char>,
) -> Option<(Seq<char>, Seq<char>)> {
    let item = item_of(notification);
    if notification.method == "item/completed"@ && concerns(notification, thread_id, turn_id)
        && is_agent_message(item) {
        match (item.field("id"@).as_str(), item.field("text"@).as_str()) {
            (Some(id), Some(text)) => Some((id, text)),
            _ => None,
        }
    } else {
        None
    }
}

/// The id of the agent message of this turn that a notification declares.
pub open spec fn started_message(
    notification: NotificationView,
    thread_id: Seq<char>,
    turn_id: Seq<char>,
) -> Option<Seq<char>> {
    let item = item_of(notification);
    if notification.method == "item/started"@ && concerns(notification, thread_id, turn_id)
        && is_agent_message(item) {
        item.field("id"@).as_str()
    } else {
        None
    }
}

/// What an attach has at hand when the resume answer is in: the items that the snapshot
/// seeded, and the notifications that came in while the answer was awaited.
#[verifier::ext_equal]
pub struct Replay {
    pub items: Seq<EntryView>,
    pub thread_id: Seq<char>,
    pub turn_id: Seq<char>,
    pub notifications: Seq<NotificationView>,
}

/// The snapshot items that buffered completions were matched with, and the snapshot ids that
/// live ids were found to stand for.
#[verifier::ext_equal]
pub struct Claims {
    pub claimed: Set<int>,
    pub aliases: Map<Seq<char>, Seq<char>>,
}

impl Replay {
    pub open spec fn is_delta(self, notification: NotificationView) -> bool {
        is_turn_delta(notification, self.thread_id, self.turn_id)
    }

    pub open spec fn completed(self, notification: NotificationView) -> Option<
        (Seq<char>, Seq<char>),
    > {
        completed_message(notification, self.thread_id, self.turn_id)
    }

    pub open spec fn started(self, notification: NotificationView) -> Option<Seq<char>> {
        started_message(notification, self.thread_id, self.turn_id)
    }

    /// Whether item `i` is a named snapshot item with this text that is not claimed yet.
    pub open spec fn claimable(self, claimed: Set<int>, text: Seq<char>, i: int) -> bool {
        &&& 0 <= i < self.items.len()
        &&& self.items[i].item_id is Some
        &&& self.items[i].text == text
        &&& !claimed.contains(i)
    }

    /// Whether item `i` is the first that a completion with this text can claim.
    pub open spec fn claims_first(self, claimed: Set<int>, text: Seq<char>, i: int) -> bool {
        &&& self.claimable(claimed, text, i)
        &&& forall|j: int| 0 <= j < i ==> !#[trigger] self.claimable(claimed, text, j)
    }

    /// The claims of the first `n` notifications: each completion claims the first unclaimed
    /// snapshot item with its text.
    pub open spec fn claims(self, n: nat) -> Claims
        decreases n,
    {
        if n == 0 {
            Claims { claimed: Set::empty(), aliases: Map::empty() }
        } else {
            let before = self.claims((n - 1) as nat);
            match self.completed(self.notifications[n - 1]) {
                Some((id, text)) => if exists|i: int| self.claims_first(before.claimed, text, i) {
                    let i = choose|i: int| self.claims_first(before.claimed, text, i);
                    Claims {
                        claimed: before.claimed.insert(i),
                        aliases: before.aliases.insert(id, self.items[i].item_id->0),
                    }
                } else {
                    before
                },
                None => before,
            }
        }
    }

    /// The ids that the first `n` notifications declare, in order and once each.
    pub open spec fn started_ids(self, n: nat) -> Seq<Seq<char>>
        decreases n,
    {
        if n == 0 {
            Seq::empty()
        } else {
            let before = self.started_ids((n - 1) as nat);
            match self.started(self.notifications[n - 1]) {
                Some(id) => if before.contains(id) {
                    before
                } else {
                    before.push(id)
                },
                None => before,
            }
        }
    }

    /// The deltas under a live id among the first `n` notifications, put together.
    pub open spec fn buffered(self, n: nat, id: Seq<char>) -> Seq<char>
        decreases n,
    {
        if n == 0 {
            Seq::empty()
        } else {
            let before = self.buffered((n - 1) as nat, id);
            let notification = self.notifications[n - 1];
            if self.is_delta(notification) && delta_id(notification) == Some(id) {
                before + delta_text(notification)
            } else {
                before
            }
        }
    }

    /// Whether item `i` can be the one in progress: named, perhaps still being replayed, and
    /// not known to be complete.
    pub open spec fn in_progress(self, i: int) -> bool {
        &&& 0 <= i < self.items.len()
        &&& self.items[i].replay_cursor is Some
        &&& self.items[i].item_id is Some
        &&& !self.claims(self.notifications.len()).claimed.contains(i)
    }

    pub open spec fn is_tail(self, i: int) -> bool {
        &&& self.in_progress(i)
        &&& forall|j: int| i < j < self.items.len() ==> !#[trigger] self.in_progress(j)
    }

    /// The snapshot item that was in progress when the subscription began.
    pub open spec fn tail(self) -> Option<int> {
        if exists|i: int| self.is_tail(i) {
            Some(choose|i: int| self.is_tail(i))
        } else {
            None
        }
    }

    pub open spec fn tail_id(self) -> Option<Seq<char>> {
        match self.tail() {
            Some(i) => self.items[i].item_id,
            None => None,
        }
    }

    /// Whether the `k`th declared id replays just the text of the item in progress.
    pub open spec fn replays_tail(self, k: int) -> bool {
        let ids = self.started_ids(self.notifications.len());
        &&& 0 <= k < ids.len()
        &&& self.buffered(self.notifications.len(), ids[k]).len() > 0
        &&& self.tail() matches Some(i) && self.items[i].text == self.buffered(
            self.notifications.len(),
            ids[k],
        )
    }

    pub open spec fn first_replays_tail(self, k: int) -> bool {
        &&& self.replays_tail(k)
        &&& forall|j: int| 0 <= j < k ==> !#[trigger] self.replays_tail(j)
    }

    /// The snapshot ids that live ids stand for.
    pub open spec fn aliases(self) -> Map<Seq<char>, Seq<char>> {
        let claims = self.claims(self.notifications.len());
        if exists|k: int| self.first_replays_tail(k) {
            let k = choose|k: int| self.first_replays_tail(k);
            claims.aliases.insert(
                self.started_ids(self.notifications.len())[k],
                self.tail_id()->0,
            )
        } else {
            claims.aliases
        }
    }

    pub open spec fn names(self, i: int, id: Seq<char>) -> bool {
        &&& 0 <= i < self.items.len()
        &&& self.items[i].item_id == Some(id) || self.items[i].live_id == Some(id)
            || self.items[i].poll_id == Some(id)
    }

    pub open spec fn is_last_named(self, i: int, id: Seq<char>) -> bool {
        &&& self.names(i, id)
        &&& forall|j: int| i < j < self.items.len() ==> !#[trigger] self.names(j, id)
    }

    /// The item that a delta under this id belongs to: the snapshot item that the id stands
    /// for, or a declared item, or else the item in progress.
    pub open spec fn resolve(self, id: Option<Seq<char>>) -> Option<Seq<char>> {
        match id {
            None => self.tail_id(),
            Some(id) => if self.aliases().dom().contains(id) {
                Some(self.aliases()[id])
            } else if (exists|i: int| self.is_last_named(i, id)) || self.started_ids(
                self.notifications.len(),
            ).contains(id) || self.tail_id() is None {
                Some(id)
            } else {
                self.tail_id()
            },
        }
    }

    pub open spec fn is_first_unnamed(self, i: int) -> bool {
        &&& 0 <= i < self.items.len()
        &&& self.items[i].item_id is None
        &&& forall|j: int| 0 <= j < i ==> (#[trigger] self.items[j]).item_id is Some
    }

    /// The snapshot text of an item; no id stands for the first unnamed item.
    pub open spec fn known(self, key: Option<Seq<char>>) -> Seq<char> {
        match key {
            Some(id) => if exists|i: int| self.is_last_named(i, id) {
                self.items[choose|i: int| self.is_last_named(i, id)].text
            } else {
                Seq::empty()
            },
            None => if exists|i: int| self.is_first_unnamed(i) {
                self.items[choose|i: int| self.is_first_unnamed(i)].text
            } else {
                Seq::empty()
            },
        }
    }

    pub open spec fn key_of(self, notification: NotificationView) -> Option<Seq<char>> {
        self.resolve(delta_id(notification))
    }

    /// The deltas that belong to an item among the first `n` notifications, put together.
    pub open spec fn replayed(self, n: nat, key: Option<Seq<char>>) -> Seq<char>
        decreases n,
    {
        if n == 0 {
            Seq::empty()
        } else {
            let before = self.replayed((n - 1) as nat, key);
            let notification = self.notifications[n - 1];
            if self.is_delta(notification) && self.key_of(notification) == key {
                before + delta_text(notification)
            } else {
                before
            }
        }
    }

    /// How many characters of an item's deltas the snapshot already holds.
    pub open spec fn skip(self, key: Option<Seq<char>>) -> nat {
        longest_overlap(self.known(key), self.replayed(self.notifications.len(), key))
    }

    /// A declaration or completion under the snapshot id that its live id stands for.
    pub open spec fn renamed(self, notification: NotificationView) -> NotificationView {
        let item = item_of(notification);
        if (notification.method == "item/started"@ || notification.method == "item/completed"@)
            && concerns(notification, self.thread_id, self.turn_id) && item.field(
            "id"@,
        ).as_str() is Some && self.aliases().dom().contains(item.field("id"@).text()) {
            NotificationView {
                params: notification.params.with(
                    "item"@,
                    item.with("id"@, JsonView::Str(self.aliases()[item.field("id"@).text()])),
                ),
                ..notification
            }
        } else {
            notification
        }
    }

    /// What is left of notification `i`: nothing of a delta that the snapshot holds, the new
    /// part of a delta that reaches past it, and all of anything else.
    pub open spec fn kept(self, i: int) -> Option<NotificationView> {
        let notification = self.notifications[i];
        if self.is_delta(notification) {
            let key = self.key_of(notification);
            let start = self.replayed(i as nat, key).len();
            let skip = self.skip(key);
            let delta = delta_text(notification);
            if start + delta.len() <= skip {
                None
            } else if start < skip {
                Some(
                    NotificationView {
                        params: notification.params.with(
                            "delta"@,
                            JsonView::Str(delta.skip(skip - start)),
                        ),
                        ..notification
                    },
                )
            } else {
                Some(notification)
            }
        } else {
            Some(self.renamed(notification))
        }
    }

    /// What is left of the first `n` notifications.
    pub open spec fn output(self, n: nat) -> Seq<NotificationView>
        decreases n,
    {
        if n == 0 {
            Seq::empty()
        } else {
            let before = self.output((n - 1) as nat);
            match self.kept(n - 1) {
                Some(notification) => before.push(notification),
                None => before,
            }
        }
    }
}

/// The views of some notifications.
pub open spec fn notification_views(notifications: Seq<Notification>) -> Seq<NotificationView> {
    notifications.map_values(|notification: Notification| notification@)
}

pub fn concerns_turn(notification: &Notification, thread_id: &str, turn_id: &str) -> (concerned:
    bool)
    ensures
        concerned == concerns(notification@, thread_id@, turn_id@),
{
    notification.params.field("threadId").is_text(thread_id) && notification.params.field(
        "turnId",
    ).is_text(turn_id)
}

fn is_replayed_delta(notification: &Notification, thread_id: &str, turn_id: &str) -> (delta: bool)
    ensures
        delta == is_turn_delta(notification@, thread_id@, turn_id@),
{
    same_text(notification.method.as_str(), "item/agentMessage/delta") && concerns_turn(
        notification,
        thread_id,
        turn_id,
    )
}

fn completed_item<'a>(
    notification: &'a Notification,
    thread_id: &str,
    turn_id: &str,
) -> (completed: Option<(&'a str, &'a str)>)
    ensures
        match completed {
            Some((id, text)) => completed_message(notification@, thread_id@, turn_id@) == Some(
                (id@, text@),
            ),
            None => completed_message(notification@, thread_id@, turn_id@) is None,
        },
{
    if !same_text(notification.method.as_str(), "item/completed") || !concerns_turn(
        notification,
        thread_id,
        turn_id,
    ) {
        return None;
    }
    let item = notification.params.field("item");
    if !item.field("type").is_text("agentMessage") {
        return None;
    }
    match (item.field("id").as_str(), item.field("text").as_str()) {
        (Some(id), Some(text)) => Some((id, text)),
        _ => None,
    }
}

fn started_item<'a>(
    notification: &'a Notification,
    thread_id: &str,
    turn_id: &str,
) -> (started: Option<&'a str>)
    ensures
        slice_view(started) == started_message(notification@, thread_id@, turn_id@),
{
    if !same_text(notification.method.as_str(), "item/started") || !concerns_turn(
        notification,
        thread_id,
        turn_id,
    ) {
        return None;
    }
    let item = notification.params.field("item");
    if !item.field("type").is_text("agentMessage") {
        return None;
    }
    item.field("id").as_str()
}

/// The views of some entries.
pub open spec fn entry_views(items: Seq<AssistantResponse>) -> Seq<EntryView> {
    items.map_values(|entry: AssistantResponse| entry@)
}

/// The named snapshot items by their text: for each text the places of its items, in order,
/// and how many of them are claimed.
struct TextQueues {
    by_text: StringHashMap<usize>,
    queues: Vec<Vec<usize>>,
    heads: Vec<usize>,
    claimed: Vec<bool>,
}

impl TextQueues {
    /// Queue `q` holds, in order, places of named items with text `text`.
    spec fn queue_ok(self, items: Seq<EntryView>, text: Seq<char>, q: int) -> bool {
        let queue = self.queues@[q]@;
        &&& 0 <= q < self.queues@.len()
        &&& queue.len() > 0
        &&& self.heads@[q] <= queue.len()
        &&& forall|k: int|
            0 <= k < queue.len() ==> {
                &&& (#[trigger] queue[k]) < items.len()
                &&& items[queue[k] as int].item_id is Some
                &&& items[queue[k] as int].text == text
                &&& self.claimed@[queue[k] as int] == (k < self.heads@[q])
            }
        &&& forall|j: int, k: int| 0 <= j < k < queue.len() ==> queue[j] < queue[k]
    }

    /// Item `i`, where it is named, stands in the queue of its text.
    spec fn queued(self, items: Seq<EntryView>, i: int) -> bool {
        items[i].item_id is Some ==> {
            &&& self.by_text@.dom().contains(items[i].text)
            &&& exists|k: int|
                0 <= k < self.queues@[self.by_text@[items[i].text] as int]@.len()
                    && #[trigger] self.queues@[self.by_text@[items[i].text] as int]@[k] == i
        }
    }

    spec fn ok(self, items: Seq<EntryView>) -> bool {
        &&& self.claimed@.len() == items.len()
        &&& self.heads@.len() == self.queues@.len()
        &&& forall|text: Seq<char>| #[trigger]
            self.by_text@.dom().contains(text) ==> self.queue_ok(
                items,
                text,
                self.by_text@[text] as int,
            )
    }

    /// Files the named items by their text.
    fn new(items: &Vec<AssistantResponse>) -> (queues: TextQueues)
        ensures
            queues.ok(entry_views(items@)),
            forall|i: int| 0 <= i < items@.len() ==> #[trigger] queues.queued(entry_views(items@), i),
            forall|i: int| 0 <= i < items@.len() ==> !#[trigger] queues.claimed@[i],
    {
        let ghost views = entry_views(items@);
        let mut claimed: Vec<bool> = Vec::new();
        let mut n: usize = 0;
        while n < items.len()
            invariant
                n <= items@.len(),
                claimed@.len() == n,
                forall|j: int| 0 <= j < n ==> !#[trigger] claimed@[j],
            decreases items@.len() - n,
        {
            claimed.push(false);
            n += 1;
        }
        let mut all = TextQueues {
            by_text: StringHashMap::new(),
            queues: Vec::new(),
            heads: Vec::new(),
            claimed,
        };
        let mut i: usize = 0;
        while i < items.len()
            invariant
                i <= items@.len(),
                views == entry_views(items@),
                all.ok(views),
                forall|j: int| 0 <= j < items@.len() ==> !#[trigger] all.claimed@[j],
                forall|q: int| 0 <= q < all.heads@.len() ==> #[trigger] all.heads@[q] == 0,
                forall|q: int, k: int|
                    0 <= q < all.queues@.len() && 0 <= k < all.queues@[q]@.len() ==> #[trigger]
                        all.queues@[q]@[k] < i,
                forall|j: int| 0 <= j < i ==> #[trigger] all.queued(views, j),
            decreases items@.len() - i,
        {
            let item = &items[i];
            assert(views[i as int] == item@);
            if item.item_id.is_some() {
                all.file(i, item.text.as_str(), Ghost(views));
            }
            i += 1;
        }
        all
    }

    /// Files item `i` under its text.
    fn file(&mut self, i: usize, text: &str, Ghost(items): Ghost<Seq<EntryView>>)
        requires
            old(self).ok(items),
            i < items.len(),
            items[i as int].item_id is Some,
            items[i as int].text == text@,
            forall|j: int| 0 <= j < items.len() ==> !#[trigger] old(self).claimed@[j],
            forall|q: int| 0 <= q < old(self).heads@.len() ==> #[trigger] old(self).heads@[q] == 0,
            forall|q: int, k: int|
                0 <= q < old(self).queues@.len() && 0 <= k < old(self).queues@[q]@.len()
                    ==> #[trigger] old(self).queues@[q]@[k] < i,
            forall|j: int| 0 <= j < i ==> #[trigger] old(self).queued(items, j),
        ensures
            final(self).ok(items),
            final(self).claimed == old(self).claimed,
            forall|q: int| 0 <= q < final(self).heads@.len() ==> #[trigger] final(self).heads@[q] == 0,
            forall|q: int, k: int|
                0 <= q < final(self).queues@.len() && 0 <= k < final(self).queues@[q]@.len()
                    ==> #[trigger] final(self).queues@[q]@[k] <= i,
            forall|j: int| 0 <= j <= i ==> #[trigger] final(self).queued(items, j),
    {
        let place: Option<usize> = match self.by_text.get(text) {
            Some(q) => Some(*q),
            None => None,
        };
        match place {
            Some(q) => {
                assert(self.queue_ok(items, text@, q as int));
                let queue = &mut self.queues[q];
                queue.push(i);
            },
            None => {
                let q = self.queues.len();
                let mut queue: Vec<usize> = Vec::new();
                queue.push(i);
                self.by_text.insert(text.to_owned(), q);
                self.queues.push(queue);
                self.heads.push(0);
            },
        }
        proof {
            assert forall|other: Seq<char>| #[trigger]
                self.by_text@.dom().contains(other) implies self.queue_ok(
                items,
                other,
                self.by_text@[other] as int,
            ) by {
                if other == text@ {
                    if old(self).by_text@.dom().contains(other) {
                        assert(old(self).queue_ok(items, other, old(self).by_text@[other] as int));
                    }
                } else {
                    assert(old(self).by_text@.dom().contains(other));
                    let q = old(self).by_text@[other] as int;
                    assert(old(self).queue_ok(items, other, q));
                    if old(self).by_text@.dom().contains(text@) {
                        let p = old(self).by_text@[text@] as int;
                        assert(old(self).queue_ok(items, text@, p));
                        if p == q {
                            assert(items[old(self).queues@[q]@[0] as int].text == other);
                        }
                    }
                    assert(self.queues@[q] == old(self).queues@[q]);
                }
            }
            assert forall|j: int| 0 <= j <= i implies #[trigger] self.queued(items, j) by {
                if items[j].item_id is Some {
                    let p = self.by_text@[text@] as int;
                    if j < i {
                        assert(old(self).queued(items, j));
                        let q = old(self).by_text@[items[j].text] as int;
                        let k = choose|k: int|
                            0 <= k < old(self).queues@[q]@.len() && #[trigger]
                                old(self).queues@[q]@[k] == j;
                        assert(self.by_text@[items[j].text] as int == q);
                        assert(old(self).queue_ok(items, items[j].text, q));
                        assert(self.queues@[q]@[k] == j);
                    } else {
                        let queue = self.queues@[p]@;
                        assert(queue[queue.len() - 1] == i);
                    }
                }
            }
        }
    }

    /// Claims the first unclaimed item with this text.
    fn claim(&mut self, text: &str, Ghost(items): Ghost<Seq<EntryView>>) -> (place: Option<usize>)
        requires
            old(self).ok(items),
            forall|i: int| 0 <= i < items.len() ==> #[trigger] old(self).queued(items, i),
        ensures
            final(self).ok(items),
            forall|i: int| 0 <= i < items.len() ==> #[trigger] final(self).queued(items, i),
            match place {
                Some(i) => {
                    &&& i < items.len()
                    &&& items[i as int].item_id is Some
                    &&& items[i as int].text == text@
                    &&& !old(self).claimed@[i as int]
                    &&& forall|j: int|
                        0 <= j < i && items[j].item_id is Some && items[j].text == text@
                            ==> #[trigger] old(self).claimed@[j]
                    &&& final(self).claimed@ == old(self).claimed@.update(i as int, true)
                },
                None => {
                    &&& forall|j: int|
                        0 <= j < items.len() && items[j].item_id is Some && items[j].text == text@
                            ==> #[trigger] old(self).claimed@[j]
                    &&& final(self).claimed@ == old(self).claimed@
                },
            },
    {
        let q: usize = match self.by_text.get(text) {
            Some(q) => *q,
            None => {
                proof {
                    assert forall|j: int|
                        0 <= j < items.len() && items[j].item_id is Some && items[j].text
                            == text@ implies #[trigger] self.claimed@[j] by {
                        assert(self.queued(items, j));
                    }
                }
                return None;
            },
        };
        assert(self.queue_ok(items, text@, q as int));
        let head = self.heads[q];
        if head >= self.queues[q].len() {
            proof {
                assert forall|j: int|
                    0 <= j < items.len() && items[j].item_id is Some && items[j].text
                        == text@ implies #[trigger] self.claimed@[j] by {
                    assert(self.queued(items, j));
                }
            }
            return None;
        }
        let i = self.queues[q][head];
        assert(self.queues@[q as int]@[head as int] == i);
        proof {
            assert forall|j: int|
                0 <= j < i && items[j].item_id is Some && items[j].text
                    == text@ implies #[trigger] self.claimed@[j] by {
                assert(self.queued(items, j));
                let k = choose|k: int|
                    0 <= k < self.queues@[q as int]@.len() && #[trigger]
                        self.queues@[q as int]@[k] == j;
                if head <= k {
                    assert(self.queues@[q as int]@[head as int] <= self.queues@[q as int]@[k]);
                }
            }
        }
        self.heads.set(q, head + 1);
        self.claimed.set(i, true);
        proof {
            assert forall|other: Seq<char>| #[trigger]
                self.by_text@.dom().contains(other) implies self.queue_ok(
                items,
                other,
                self.by_text@[other] as int,
            ) by {
                assert(old(self).by_text@.dom().contains(other));
                let p = self.by_text@[other] as int;
                assert(old(self).queue_ok(items, other, p));
                assert(old(self).queue_ok(items, text@, q as int));
                if other != text@ && p == q {
                    assert(items[old(self).queues@[p]@[0] as int].text == other);
                }
                let queue = self.queues@[p]@;
                assert forall|k: int| 0 <= k < queue.len() implies {
                    &&& (#[trigger] queue[k]) < items.len()
                    &&& items[queue[k] as int].item_id is Some
                    &&& items[queue[k] as int].text == other
                    &&& self.claimed@[queue[k] as int] == (k < self.heads@[p])
                } by {
                    assert(old(self).queues@[p]@[k] == queue[k]);
                    if p == q && k < head {
                        assert(queue[k] < queue[head as int]);
                    }
                    if p == q && k > head {
                        assert(queue[head as int] < queue[k]);
                    }
                }
            }
            assert forall|j: int| 0 <= j < items.len() implies #[trigger] self.queued(
                items,
                j,
            ) by {
                assert(old(self).queued(items, j));
                if items[j].item_id is Some {
                    let p = old(self).by_text@[items[j].text] as int;
                    let k = choose|k: int|
                        0 <= k < old(self).queues@[p]@.len() && #[trigger]
                            old(self).queues@[p]@[k] == j;
                    assert(self.queues@[p]@[k] == j);
                }
            }
        }
        Some(i)
    }
}

/// The views of the snapshot ids that live ids stand for.
pub open spec fn alias_views(aliases: Map<Seq<char>, String>) -> Map<Seq<char>, Seq<char>> {
    aliases.map_values(|id: String| id@)
}

/// Lets each buffered completion claim the first unclaimed snapshot item with its text.
fn claim_completed(
    assistant: &AssistantResponses,
    thread_id: &str,
    turn_id: &str,
    notifications: &Vec<Notification>,
    Ghost(replay): Ghost<Replay>,
) -> (claims: (Vec<bool>, StringHashMap<String>))
    requires
        replay.items == entry_views(assistant.items@),
        replay.thread_id == thread_id@,
        replay.turn_id == turn_id@,
        replay.notifications == notification_views(notifications@),
    ensures
        claims.0@.len() == replay.items.len(),
        forall|i: int|
            0 <= i < replay.items.len() ==> (#[trigger] claims.0@[i] <==> replay.claims(
                replay.notifications.len(),
            ).claimed.contains(i)),
        alias_views(claims.1@) == replay.claims(replay.notifications.len()).aliases,
{
    let mut queues = TextQueues::new(&assistant.items);
    let mut aliases: StringHashMap<String> = StringHashMap::new();
    assert(alias_views(aliases@) =~= Map::empty());
    let mut n: usize = 0;
    while n < notifications.len()
        invariant
            n <= notifications@.len(),
            replay.items == entry_views(assistant.items@),
            replay.thread_id == thread_id@,
            replay.turn_id == turn_id@,
            replay.notifications == notification_views(notifications@),
            queues.ok(replay.items),
            forall|i: int|
                0 <= i < replay.items.len() ==> #[trigger] queues.queued(replay.items, i),
            forall|i: int|
                0 <= i < replay.items.len() ==> (#[trigger] queues.claimed@[i] <==> replay.claims(
                    n as nat,
                ).claimed.contains(i)),
            alias_views(aliases@) == replay.claims(n as nat).aliases,
        decreases notifications@.len() - n,
    {
        let ghost before = replay.claims(n as nat);
        let ghost old_aliases = aliases@;
        let ghost flags = queues.claimed@;
        let notification = &notifications[n];
        assert(replay.notifications[n as int] == notification@);
        n += 1;
        if let Some((live_id, text)) = completed_item(notification, thread_id, turn_id) {
            match queues.claim(text, Ghost(replay.items)) {
                Some(i) => {
                    proof {
                        assert(replay.claimable(before.claimed, text@, i as int));
                        assert forall|j: int| 0 <= j < i implies !#[trigger] replay.claimable(
                            before.claimed,
                            text@,
                            j,
                        ) by {
                            assert(flags[j] <==> before.claimed.contains(j));
                        }
                        assert(replay.claims_first(before.claimed, text@, i as int));
                        let other = choose|k: int| replay.claims_first(before.claimed, text@, k);
                        assert(other == i) by {
                            if other < i {
                                assert(!replay.claimable(before.claimed, text@, other));
                            }
                            if i < other {
                                assert(!replay.claimable(before.claimed, text@, i as int));
                            }
                        }
                        assert(replay.items[i as int] == assistant.items@[i as int]@);
                    }
                    if let Some(snapshot_id) = &assistant.items[i].item_id {
                        aliases.insert(live_id.to_owned(), snapshot_id.clone());
                        assert(alias_views(aliases@) =~= alias_views(old_aliases).insert(
                            live_id@,
                            snapshot_id@,
                        ));
                    }
                },
                None => {
                    proof {
                        assert forall|k: int| !replay.claims_first(
                            before.claimed,
                            text@,
                            k,
                        ) by {
                            if replay.claimable(before.claimed, text@, k) {
                                assert(flags[k] <==> before.claimed.contains(k));
                            }
                        }
                    }
                },
            }
        }
    }
    (queues.claimed, aliases)
}

/// The last item that each id names.
fn index_by_id(items: &Vec<AssistantResponse>, Ghost(replay): Ghost<Replay>) -> (by_id:
    StringHashMap<usize>)
    requires
        replay.items == entry_views(items@),
    ensures
        forall|id: Seq<char>| #[trigger]
            by_id@.dom().contains(id) ==> replay.is_last_named(by_id@[id] as int, id),
        forall|id: Seq<char>, i: int| #[trigger]
            replay.names(i, id) ==> by_id@.dom().contains(id),
{
    let mut by_id: StringHashMap<usize> = StringHashMap::new();
    let mut n: usize = 0;
    while n < items.len()
        invariant
            n <= items@.len(),
            replay.items == entry_views(items@),
            forall|id: Seq<char>| #[trigger]
                by_id@.dom().contains(id) ==> {
                    &&& by_id@[id] < n
                    &&& replay.names(by_id@[id] as int, id)
                    &&& forall|j: int| by_id@[id] < j < n ==> !#[trigger] replay.names(j, id)
                },
            forall|id: Seq<char>, i: int|
                i < n && #[trigger] replay.names(i, id) ==> by_id@.dom().contains(id),
        decreases items@.len() - n,
    {
        let item = &items[n];
        assert(replay.items[n as int] == item@);
        if let Some(id) = &item.item_id {
            by_id.insert(id.clone(), n);
        }
        if let Some(id) = &item.live_id {
            by_id.insert(id.clone(), n);
        }
        if let Some(id) = &item.poll_id {
            by_id.insert(id.clone(), n);
        }
        n += 1;
    }
    by_id
}

/// Places for texts, by the id that each belongs to; one place is for no id.
struct Slots {
    by_id: StringHashMap<usize>,
    unnamed: Option<usize>,
    keys: Vec<Option<String>>,
}

impl Slots {
    spec fn slot(self, key: Option<Seq<char>>) -> Option<int> {
        match key {
            Some(id) => if self.by_id@.dom().contains(id) {
                Some(self.by_id@[id] as int)
            } else {
                None
            },
            None => match self.unnamed {
                Some(slot) => Some(slot as int),
                None => None,
            },
        }
    }

    spec fn ok(self) -> bool {
        &&& forall|key: Option<Seq<char>>| #[trigger]
            self.slot(key) matches Some(s) ==> 0 <= s < self.keys@.len() && text_view(
                self.keys@[s],
            ) == key
        &&& forall|s: int|
            0 <= s < self.keys@.len() ==> self.slot(text_view(#[trigger] self.keys@[s])) == Some(s)
    }

    fn new() -> (slots: Slots)
        ensures
            slots.ok(),
            slots.keys@.len() == 0,
            forall|key: Option<Seq<char>>| #[trigger] slots.slot(key) is None,
    {
        Slots { by_id: StringHashMap::new(), unnamed: None, keys: Vec::new() }
    }

    fn find(&self, key: Option<&str>) -> (slot: Option<usize>)
        requires
            self.ok(),
        ensures
            match slot {
                Some(s) => s < self.keys@.len() && self.slot(slice_view(key)) == Some(s as int),
                None => self.slot(slice_view(key)) is None,
            },
    {
        assert(self.slot(slice_view(key)) matches Some(s) ==> 0 <= s < self.keys@.len());
        match key {
            Some(id) => match self.by_id.get(id) {
                Some(s) => Some(*s),
                None => None,
            },
            None => self.unnamed,
        }
    }

    /// The place of a key, which is made where there was none.
    fn enter(&mut self, key: Option<&str>) -> (slot: usize)
        requires
            old(self).ok(),
        ensures
            final(self).ok(),
            slot < final(self).keys@.len(),
            text_view(final(self).keys@[slot as int]) == slice_view(key),
            match old(self).slot(slice_view(key)) {
                Some(s) => s == slot && *final(self) == *old(self),
                None => {
                    &&& slot == old(self).keys@.len()
                    &&& final(self).keys@.drop_last() == old(self).keys@
                    &&& final(self).keys@.len() == slot + 1
                    &&& final(self).slot(slice_view(key)) == Some(slot as int)
                    &&& forall|other: Option<Seq<char>>|
                        other != slice_view(key) ==> #[trigger] final(self).slot(other)
                            == old(self).slot(other)
                },
            },
    {
        if let Some(slot) = self.find(key) {
            return slot;
        }
        let slot = self.keys.len();
        match key {
            Some(id) => {
                self.by_id.insert(id.to_owned(), slot);
                self.keys.push(Some(id.to_owned()));
            },
            None => {
                self.unnamed = Some(slot);
                self.keys.push(None);
            },
        }
        proof {
            assert(self.keys@.drop_last() =~= old(self).keys@);
            assert forall|other: Option<Seq<char>>| #[trigger]
                self.slot(other) matches Some(s) ==> 0 <= s < self.keys@.len() && text_view(
                self.keys@[s],
            ) == other by {
                if other != slice_view(key) {
                    assert(self.slot(other) == old(self).slot(other));
                }
            }
            assert forall|s: int| 0 <= s < self.keys@.len() implies self.slot(
                text_view(#[trigger] self.keys@[s]),
            ) == Some(s) by {
                if s < slot {
                    assert(old(self).slot(text_view(old(self).keys@[s])) == Some(s));
                }
            }
        }
        slot
    }
}

/// Whether some keys are these ids.
spec fn are_keys(keys: Seq<Option<String>>, ids: Seq<Seq<char>>) -> bool {
    &&& keys.len() == ids.len()
    &&& forall|k: int|
        #![trigger keys[k]]
        #![trigger ids[k]]
        0 <= k < ids.len() ==> text_view(keys[k]) == Some(ids[k])
}

/// The places of the ids that the buffered window declares, in order.
fn collect_started(
    thread_id: &str,
    turn_id: &str,
    notifications: &Vec<Notification>,
    Ghost(replay): Ghost<Replay>,
) -> (started: Slots)
    requires
        replay.thread_id == thread_id@,
        replay.turn_id == turn_id@,
        replay.notifications == notification_views(notifications@),
    ensures
        started.ok(),
        started.unnamed is None,
        are_keys(started.keys@, replay.started_ids(replay.notifications.len())),
{
    let mut started = Slots::new();
    let mut n: usize = 0;
    while n < notifications.len()
        invariant
            n <= notifications@.len(),
            replay.thread_id == thread_id@,
            replay.turn_id == turn_id@,
            replay.notifications == notification_views(notifications@),
            started.ok(),
            started.unnamed is None,
            are_keys(started.keys@, replay.started_ids(n as nat)),
        decreases notifications@.len() - n,
    {
        let ghost before = replay.started_ids(n as nat);
        let ghost keys = started.keys@;
        let notification = &notifications[n];
        assert(replay.notifications[n as int] == notification@);
        n += 1;
        if let Some(live_id) = started_item(notification, thread_id, turn_id) {
            proof {
                if before.contains(live_id@) {
                    let k = choose|k: int| 0 <= k < before.len() && before[k] == live_id@;
                    assert(text_view(keys[k]) == Some(live_id@));
                    assert(started.slot(text_view(keys[k])) == Some(k));
                }
                if let Some(k) = started.slot(Some(live_id@)) {
                    assert(text_view(keys[k]) == Some(live_id@));
                    assert(before[k] == live_id@);
                }
            }
            started.enter(Some(live_id));
            proof {
                if !before.contains(live_id@) {
                    assert forall|k: int|
                        0 <= k < keys.len() implies #[trigger] started.keys@[k] == keys[k] by {
                        assert(started.keys@.drop_last()[k] == keys[k]);
                    }
                }
            }
        }
    }
    started
}

/// The texts of the deltas by live id.
fn collect_buffered(
    thread_id: &str,
    turn_id: &str,
    notifications: &Vec<Notification>,
    Ghost(replay): Ghost<Replay>,
) -> (buffered: (Slots, Vec<String>))
    requires
        replay.thread_id == thread_id@,
        replay.turn_id == turn_id@,
        replay.notifications == notification_views(notifications@),
    ensures
        buffered.0.ok(),
        buffered.1@.len() == buffered.0.keys@.len(),
        forall|id: Seq<char>|
            match #[trigger] buffered.0.slot(Some(id)) {
                Some(s) => buffered.1@[s]@ == replay.buffered(replay.notifications.len(), id),
                None => replay.buffered(replay.notifications.len(), id).len() == 0,
            },
{
    let mut slots = Slots::new();
    let mut texts: Vec<String> = Vec::new();
    let mut n: usize = 0;
    while n < notifications.len()
        invariant
            n <= notifications@.len(),
            replay.thread_id == thread_id@,
            replay.turn_id == turn_id@,
            replay.notifications == notification_views(notifications@),
            slots.ok(),
            texts@.len() == slots.keys@.len(),
            forall|id: Seq<char>|
                match #[trigger] slots.slot(Some(id)) {
                    Some(s) => texts@[s]@ == replay.buffered(n as nat, id),
                    None => replay.buffered(n as nat, id).len() == 0,
                },
        decreases notifications@.len() - n,
    {
        let ghost before = slots;
        let ghost old_texts = texts@;
        let ghost at = n as nat;
        let notification = &notifications[n];
        assert(replay.notifications[n as int] == notification@);
        n += 1;
        if is_replayed_delta(notification, thread_id, turn_id) {
            if let Some(live_id) = notification.params.field("itemId").as_str() {
                let delta = match notification.params.field("delta").as_str() {
                    Some(delta) => delta,
                    None => "",
                };
                proof {
                    reveal_strlit("");
                    assert(delta@ =~= delta_text(notification@));
                }
                let slot = slots.enter(Some(live_id));
                if slot == texts.len() {
                    texts.push(String::new());
                }
                let text = &mut texts[slot];
                text.append(delta);
                proof {
                    assert forall|id: Seq<char>| match #[trigger] slots.slot(Some(id)) {
                        Some(s) => texts@[s]@ == replay.buffered(n as nat, id),
                        None => replay.buffered(n as nat, id).len() == 0,
                    } by {
                        assert(match before.slot(Some(id)) {
                            Some(s) => old_texts[s]@ == replay.buffered(at, id),
                            None => replay.buffered(at, id).len() == 0,
                        });
                        if id == live_id@ {
                            assert(texts@[slot as int]@ =~= replay.buffered(at, id) + delta@);
                        } else {
                            assert(slots.slot(Some(id)) == before.slot(Some(id)));
                            if let Some(s) = before.slot(Some(id)) {
                                assert(s != slot) by {
                                    assert(text_view(slots.keys@[slot as int]) == Some(live_id@));
                                    assert(text_view(slots.keys@[s]) == Some(id));
                                }
                            }
                        }
                    }
                }
            } else {
                assert forall|id: Seq<char>| replay.buffered(n as nat, id) == replay.buffered(
                    at,
                    id,
                ) by {}
            }
        } else {
            assert forall|id: Seq<char>| replay.buffered(n as nat, id) == replay.buffered(
                at,
                id,
            ) by {}
        }
    }
    (slots, texts)
}

/// What has been found out about the buffered window before any of it is let through.
struct Plan {
    aliases: StringHashMap<String>,
    by_id: StringHashMap<usize>,
    started: Slots,
    tail_id: Option<String>,
}

impl Plan {
    spec fn follows(self, replay: Replay) -> bool {
        &&& alias_views(self.aliases@) == replay.aliases()
        &&& forall|id: Seq<char>| #[trigger]
            self.by_id@.dom().contains(id) ==> replay.is_last_named(self.by_id@[id] as int, id)
        &&& forall|id: Seq<char>, i: int| #[trigger]
            replay.names(i, id) ==> self.by_id@.dom().contains(id)
        &&& self.started.ok()
        &&& self.started.unnamed is None
        &&& are_keys(self.started.keys@, replay.started_ids(replay.notifications.len()))
        &&& text_view(self.tail_id) == replay.tail_id()
    }

    /// Whether the window declares an id.
    proof fn lemma_started(self, replay: Replay, id: Seq<char>)
        requires
            self.follows(replay),
        ensures
            self.started.slot(Some(id)) is Some <==> replay.started_ids(
                replay.notifications.len(),
            ).contains(id),
    {
        let ids = replay.started_ids(replay.notifications.len());
        let keys = self.started.keys@;
        if ids.contains(id) {
            let k = choose|k: int| 0 <= k < ids.len() && ids[k] == id;
            assert(text_view(keys[k]) == Some(id));
            assert(self.started.slot(text_view(keys[k])) == Some(k));
        }
        if let Some(k) = self.started.slot(Some(id)) {
            assert(text_view(keys[k]) == Some(id));
            assert(ids[k] == id);
        }
    }

    /// The item that a delta under this id belongs to.
    fn resolve(&self, id: Option<&str>, Ghost(replay): Ghost<Replay>) -> (key: Option<String>)
        requires
            self.follows(replay),
        ensures
            text_view(key) == replay.resolve(slice_view(id)),
    {
        let id = match id {
            Some(id) => id,
            None => {
                return clone_text(&self.tail_id);
            },
        };
        if let Some(snapshot_id) = self.aliases.get(id) {
            proof {
                assert(alias_views(self.aliases@)[id@] == snapshot_id@);
            }
            return Some(snapshot_id.clone());
        }
        proof {
            assert(!alias_views(self.aliases@).dom().contains(id@));
            self.lemma_started(replay, id@);
            if exists|i: int| replay.is_last_named(i, id@) {
                let i = choose|i: int| replay.is_last_named(i, id@);
                assert(replay.names(i, id@));
            }
        }
        if self.by_id.contains_key(id) || self.started.find(Some(id)).is_some()
            || self.tail_id.is_none() {
            return Some(id.to_owned());
        }
        clone_text(&self.tail_id)
    }

    /// The snapshot text of an item.
    fn known<'a>(
        &self,
        items: &'a Vec<AssistantResponse>,
        key: &Option<String>,
        Ghost(replay): Ghost<Replay>,
    ) -> (text: &'a str)
        requires
            self.follows(replay),
            replay.items == entry_views(items@),
        ensures
            text@ == replay.known(text_view(*key)),
    {
        proof {
            reveal_strlit("");
        }
        let empty = "";
        assert(empty@ =~= Seq::empty());
        match key {
            Some(id) => match self.by_id.get(id.as_str()) {
                Some(i) => {
                    proof {
                        let other = choose|k: int| replay.is_last_named(k, id@);
                        assert(replay.is_last_named(*i as int, id@));
                        assert(other == *i) by {
                            if other < *i {
                                assert(!replay.names(*i as int, id@));
                            }
                            if *i < other {
                                assert(!replay.names(other, id@));
                            }
                        }
                        assert(replay.items[*i as int] == items@[*i as int]@);
                    }
                    items[*i].text.as_str()
                },
                None => {
                    proof {
                        if exists|i: int| replay.is_last_named(i, id@) {
                            let i = choose|i: int| replay.is_last_named(i, id@);
                            assert(replay.names(i, id@));
                        }
                    }
                    empty
                },
            },
            None => {
                let mut i: usize = 0;
                while i < items.len()
                    invariant
                        i <= items@.len(),
                        *key is None,
                        replay.items == entry_views(items@),
                        forall|j: int| 0 <= j < i ==> (#[trigger] replay.items[j]).item_id is Some,
                    decreases items@.len() - i,
                {
                    assert(replay.items[i as int] == items@[i as int]@);
                    if items[i].item_id.is_none() {
                        proof {
                            assert(replay.is_first_unnamed(i as int));
                            let other = choose|k: int| replay.is_first_unnamed(k);
                            assert(other == i);
                        }
                        return items[i].text.as_str();
                    }
                    i += 1;
                }
                empty
            },
        }
    }
}

/// Finds out which snapshot items the live ids of the buffered window stand for.
fn plan_replay(
    assistant: &AssistantResponses,
    thread_id: &str,
    turn_id: &str,
    notifications: &Vec<Notification>,
    Ghost(replay): Ghost<Replay>,
) -> (plan: Plan)
    requires
        replay.items == entry_views(assistant.items@),
        replay.thread_id == thread_id@,
        replay.turn_id == turn_id@,
        replay.notifications == notification_views(notifications@),
    ensures
        plan.follows(replay),
{
    let by_id = index_by_id(&assistant.items, Ghost(replay));
    let (claimed, mut aliases) = claim_completed(
        assistant,
        thread_id,
        turn_id,
        notifications,
        Ghost(replay),
    );
    let started = collect_started(thread_id, turn_id, notifications, Ghost(replay));
    let (buffered_slots, buffered_texts) = collect_buffered(
        thread_id,
        turn_id,
        notifications,
        Ghost(replay),
    );
    let ghost len = replay.notifications.len();
    let tail = find_tail(&assistant.items, &claimed, Ghost(replay));
    let mut tail_id: Option<String> = None;
    if let Some(index) = tail {
        let snapshot = &assistant.items[index];
        assert(replay.items[index as int] == snapshot@);
        tail_id = clone_text(&snapshot.item_id);
        let ghost claimed_aliases = aliases@;
        let ghost ids = replay.started_ids(len);
        let mut k: usize = 0;
        let mut done = false;
        while k < started.keys.len() && !done
            invariant
                k <= started.keys@.len(),
                index < assistant.items@.len(),
                replay.items == entry_views(assistant.items@),
                len == replay.notifications.len(),
                replay.tail() == Some(index as int),
                snapshot == assistant.items@[index as int],
                text_view(tail_id) == replay.tail_id(),
                tail_id is Some,
                ids == replay.started_ids(len),
                are_keys(started.keys@, ids),
                buffered_slots.ok(),
                buffered_texts@.len() == buffered_slots.keys@.len(),
                forall|id: Seq<char>|
                    match #[trigger] buffered_slots.slot(Some(id)) {
                        Some(s) => buffered_texts@[s]@ == replay.buffered(len, id),
                        None => replay.buffered(len, id).len() == 0,
                    },
                !done ==> alias_views(aliases@) == replay.claims(len).aliases,
                !done ==> forall|j: int| 0 <= j < k ==> !#[trigger] replay.replays_tail(j),
                done ==> alias_views(aliases@) == replay.aliases(),
            decreases started.keys@.len() - k,
        {
            assert(replay.items[index as int] == snapshot@);
            assert(text_view(started.keys@[k as int]) == Some(ids[k as int]));
            if let Some(live_id) = &started.keys[k] {
                assert(live_id@ == ids[k as int]);
                assert(match buffered_slots.slot(Some(live_id@)) {
                    Some(s) => buffered_texts@[s]@ == replay.buffered(len, live_id@),
                    None => replay.buffered(len, live_id@).len() == 0,
                });
                if let Some(slot) = buffered_slots.find(Some(live_id.as_str())) {
                    let text = &buffered_texts[slot];
                    if !text.as_str().is_empty() && same_text(
                        snapshot.text.as_str(),
                        text.as_str(),
                    ) {
                        let ghost before = aliases@;
                        if let Some(snapshot_id) = &tail_id {
                            aliases.insert(live_id.clone(), snapshot_id.clone());
                            proof {
                                assert(alias_views(aliases@) =~= alias_views(before).insert(
                                    live_id@,
                                    snapshot_id@,
                                ));
                                assert(replay.replays_tail(k as int));
                                assert(replay.first_replays_tail(k as int));
                                let other = choose|j: int| replay.first_replays_tail(j);
                                assert(other == k) by {
                                    if other < k {
                                        assert(!replay.replays_tail(other));
                                    }
                                    if k < other {
                                        assert(!replay.replays_tail(k as int));
                                    }
                                }
                            }
                            done = true;
                        }
                    }
                }
            }
            k += 1;
        }
        proof {
            if !done {
                assert(forall|j: int| !replay.first_replays_tail(j));
            }
        }
    } else {
        assert(forall|j: int| !replay.first_replays_tail(j));
    }
    Plan { aliases, by_id, started, tail_id }
}

/// The last named item that may still be replayed and that no completion claimed.
fn find_tail(
    items: &Vec<AssistantResponse>,
    claimed: &Vec<bool>,
    Ghost(replay): Ghost<Replay>,
) -> (tail: Option<usize>)
    requires
        replay.items == entry_views(items@),
        claimed@.len() == items@.len(),
        forall|i: int|
            0 <= i < replay.items.len() ==> (#[trigger] claimed@[i] <==> replay.claims(
                replay.notifications.len(),
            ).claimed.contains(i)),
    ensures
        match tail {
            Some(i) => i < items@.len() && replay.tail() == Some(i as int)
                && replay.items[i as int].item_id is Some,
            None => replay.tail() is None,
        },
{
    let mut i: usize = items.len();
    while i > 0
        invariant
            i <= items@.len(),
            replay.items == entry_views(items@),
            claimed@.len() == items@.len(),
            forall|i: int|
                0 <= i < replay.items.len() ==> (#[trigger] claimed@[i] <==> replay.claims(
                    replay.notifications.len(),
                ).claimed.contains(i)),
            forall|j: int| i <= j < items@.len() ==> !#[trigger] replay.in_progress(j),
        decreases i,
    {
        i -= 1;
        assert(replay.items[i as int] == items@[i as int]@);
        if items[i].replay_cursor.is_some() && items[i].item_id.is_some() && !claimed[i] {
            proof {
                assert(replay.in_progress(i as int));
                assert(replay.is_tail(i as int));
                let other = choose|k: int| replay.is_tail(k);
                assert(other == i) by {
                    if other < i {
                        assert(!replay.in_progress(i as int));
                    }
                    if i < other {
                        assert(!replay.in_progress(other));
                    }
                }
            }
            return Some(i);
        }
    }
    None
}

/// The text of a delta.
fn delta_of(notification: &Notification) -> (delta: &str)
    ensures
        delta@ == delta_text(notification@),
{
    proof {
        reveal_strlit("");
    }
    let empty = "";
    assert(empty@ =~= Seq::empty());
    match notification.params.field("delta").as_str() {
        Some(delta) => delta,
        None => empty,
    }
}

/// The texts of the deltas by the item that they belong to.
fn collect_replayed(
    plan: &Plan,
    thread_id: &str,
    turn_id: &str,
    notifications: &Vec<Notification>,
    Ghost(replay): Ghost<Replay>,
) -> (replayed: (Slots, Vec<String>))
    requires
        plan.follows(replay),
        replay.thread_id == thread_id@,
        replay.turn_id == turn_id@,
        replay.notifications == notification_views(notifications@),
    ensures
        replayed.0.ok(),
        replayed.1@.len() == replayed.0.keys@.len(),
        forall|key: Option<Seq<char>>|
            match #[trigger] replayed.0.slot(key) {
                Some(s) => replayed.1@[s]@ == replay.replayed(replay.notifications.len(), key),
                None => replay.replayed(replay.notifications.len(), key).len() == 0,
            },
        forall|i: int|
            0 <= i < replay.notifications.len() && replay.is_delta(replay.notifications[i])
                ==> replayed.0.slot(#[trigger] replay.key_of(replay.notifications[i])) is Some,
{
    let mut slots = Slots::new();
    let mut texts: Vec<String> = Vec::new();
    let mut n: usize = 0;
    while n < notifications.len()
        invariant
            n <= notifications@.len(),
            plan.follows(replay),
            replay.thread_id == thread_id@,
            replay.turn_id == turn_id@,
            replay.notifications == notification_views(notifications@),
            slots.ok(),
            texts@.len() == slots.keys@.len(),
            forall|key: Option<Seq<char>>|
                match #[trigger] slots.slot(key) {
                    Some(s) => texts@[s]@ == replay.replayed(n as nat, key),
                    None => replay.replayed(n as nat, key).len() == 0,
                },
            forall|i: int|
                0 <= i < n && replay.is_delta(replay.notifications[i]) ==> slots.slot(
                    #[trigger] replay.key_of(replay.notifications[i]),
                ) is Some,
        decreases notifications@.len() - n,
    {
        let ghost before = slots;
        let ghost old_texts = texts@;
        let ghost at = n as nat;
        let notification = &notifications[n];
        assert(replay.notifications[n as int] == notification@);
        n += 1;
        if is_replayed_delta(notification, thread_id, turn_id) {
            let key = plan.resolve(notification.params.field("itemId").as_str(), Ghost(replay));
            let delta = delta_of(notification);
            let ghost this = text_view(key);
            let slot = slots.enter(
                match &key {
                    Some(id) => Some(id.as_str()),
                    None => None,
                },
            );
            if slot == texts.len() {
                texts.push(String::new());
            }
            let text = &mut texts[slot];
            text.append(delta);
            proof {
                assert(slots.slot(this) == Some(slot as int)) by {
                    assert(slots.slot(text_view(slots.keys@[slot as int])) == Some(slot as int));
                }
                assert forall|other: Option<Seq<char>>| match #[trigger] slots.slot(other) {
                    Some(s) => texts@[s]@ == replay.replayed(n as nat, other),
                    None => replay.replayed(n as nat, other).len() == 0,
                } by {
                    assert(match before.slot(other) {
                        Some(s) => old_texts[s]@ == replay.replayed(at, other),
                        None => replay.replayed(at, other).len() == 0,
                    });
                    if other == this {
                        assert(texts@[slot as int]@ =~= replay.replayed(at, other) + delta@);
                    } else {
                        assert(slots.slot(other) == before.slot(other));
                        if let Some(s) = before.slot(other) {
                            assert(s != slot) by {
                                assert(text_view(slots.keys@[s]) == other);
                            }
                        }
                    }
                }
                assert forall|i: int|
                    0 <= i < n && replay.is_delta(replay.notifications[i]) implies slots.slot(
                    #[trigger] replay.key_of(replay.notifications[i]),
                ) is Some by {
                    let other = replay.key_of(replay.notifications[i]);
                    if i < at && other != this {
                        assert(before.slot(other) is Some);
                        assert(slots.slot(other) == before.slot(other));
                    }
                }
            }
        } else {
            assert forall|other: Option<Seq<char>>| replay.replayed(n as nat, other)
                == replay.replayed(at, other) by {}
        }
    }
    (slots, texts)
}

/// How many bytes of each item's deltas the snapshot already holds.
fn measure_skips(
    plan: &Plan,
    items: &Vec<AssistantResponse>,
    slots: &Slots,
    texts: &Vec<String>,
    Ghost(replay): Ghost<Replay>,
) -> (skips: Vec<usize>)
    requires
        plan.follows(replay),
        replay.items == entry_views(items@),
        slots.ok(),
        texts@.len() == slots.keys@.len(),
        forall|key: Option<Seq<char>>|
            match #[trigger] slots.slot(key) {
                Some(s) => texts@[s]@ == replay.replayed(replay.notifications.len(), key),
                None => replay.replayed(replay.notifications.len(), key).len() == 0,
            },
    ensures
        skips@.len() == slots.keys@.len(),
        forall|s: int|
            0 <= s < skips@.len() ==> #[trigger] skips@[s] == encode_utf8(
                texts@[s]@.take(replay.skip(text_view(slots.keys@[s])) as int),
            ).len(),
{
    let mut skips: Vec<usize> = Vec::new();
    let mut s: usize = 0;
    while s < texts.len()
        invariant
            s <= texts@.len(),
            skips@.len() == s,
            plan.follows(replay),
            replay.items == entry_views(items@),
            slots.ok(),
            texts@.len() == slots.keys@.len(),
            forall|key: Option<Seq<char>>|
                match #[trigger] slots.slot(key) {
                    Some(s) => texts@[s]@ == replay.replayed(replay.notifications.len(), key),
                    None => replay.replayed(replay.notifications.len(), key).len() == 0,
                },
            forall|k: int|
                0 <= k < s ==> #[trigger] skips@[k] == encode_utf8(
                    texts@[k]@.take(replay.skip(text_view(slots.keys@[k])) as int),
                ).len(),
        decreases texts@.len() - s,
    {
        let known = plan.known(items, &slots.keys[s], Ghost(replay));
        proof {
            assert(slots.slot(text_view(slots.keys@[s as int])) == Some(s as int));
        }
        let skip = replayed_prefix_len(known, texts[s].as_str());
        skips.push(skip);
        s += 1;
    }
    skips
}

impl Replay {
    /// What has come of an item's deltas so far starts what comes of them in all.
    proof fn lemma_replayed_grows(self, n: nat, m: nat, key: Option<Seq<char>>)
        requires
            n <= m,
        ensures
            self.replayed(n, key).is_prefix_of(self.replayed(m, key)),
        decreases m,
    {
        if n < m {
            self.lemma_replayed_grows(n, (m - 1) as nat, key);
            let a = self.replayed(n, key);
            let b = self.replayed((m - 1) as nat, key);
            let c = self.replayed(m, key);
            assert(b =~= c.take(b.len() as int));
            assert(a =~= c.subrange(0, a.len() as int)) by {
                assert(a =~= b.subrange(0, a.len() as int));
            }
        } else {
            let a = self.replayed(n, key);
            assert(a =~= a.subrange(0, a.len() as int));
        }
    }

    /// Delta `i` in the text of all the deltas of its item, counted in bytes.
    proof fn lemma_delta_place(self, i: int, total: Seq<char>)
        requires
            0 <= i < self.notifications.len(),
            self.is_delta(self.notifications[i]),
            total == self.replayed(
                self.notifications.len(),
                self.key_of(self.notifications[i]),
            ),
        ensures
            ({
                let key = self.key_of(self.notifications[i]);
                let start = self.replayed(i as nat, key);
                let delta = delta_text(self.notifications[i]);
                let skip = self.skip(key);
                let start_bytes = encode_utf8(start).len();
                let delta_bytes = encode_utf8(delta).len();
                let skip_bytes = encode_utf8(total.take(skip as int)).len();
                &&& start_bytes + delta_bytes <= encode_utf8(total).len()
                &&& start_bytes + delta_bytes <= skip_bytes <==> start.len() + delta.len() <= skip
                &&& start_bytes < skip_bytes <==> start.len() < skip
                &&& start.len() < skip < start.len() + delta.len() ==> text_from(
                    delta,
                    (skip_bytes - start_bytes) as nat,
                ) == delta.skip(skip - start.len())
                &&& encode_utf8(self.replayed((i + 1) as nat, key)).len() == start_bytes
                    + delta_bytes
            }),
    {
        let key = self.key_of(self.notifications[i]);
        let start = self.replayed(i as nat, key);
        let delta = delta_text(self.notifications[i]);
        let skip = self.skip(key) as int;
        let after = self.replayed((i + 1) as nat, key);
        assert(after == start + delta);
        lemma_encode_concat(start, delta);
        self.lemma_replayed_grows((i + 1) as nat, self.notifications.len(), key);
        lemma_longest_overlap(self.known(key), total);
        assert(after =~= total.take(after.len() as int));
        assert(start =~= total.take(start.len() as int));
        assert(total =~= total.take(total.len() as int));
        lemma_prefix_bytes_grow(total, after.len() as int, total.len() as int);
        if skip <= after.len() {
            lemma_prefix_bytes_grow(total, skip, after.len() as int);
        } else {
            lemma_prefix_bytes_grow(total, after.len() as int, skip);
        }
        if skip <= start.len() {
            lemma_prefix_bytes_grow(total, skip, start.len() as int);
        } else {
            lemma_prefix_bytes_grow(total, start.len() as int, skip);
        }
        if start.len() < skip < after.len() {
            let k = skip - start.len();
            assert(start + delta.take(k) =~= total.take(skip));
            lemma_encode_concat(start, delta.take(k));
            lemma_text_from(delta, k);
        }
    }
}

/// Lets through what is left of the buffered window.
fn let_through(
    plan: &Plan,
    slots: &Slots,
    texts: &Vec<String>,
    skips: &Vec<usize>,
    thread_id: &str,
    turn_id: &str,
    notifications: Vec<Notification>,
    Ghost(replay): Ghost<Replay>,
) -> (kept: Vec<Notification>)
    requires
        plan.follows(replay),
        replay.thread_id == thread_id@,
        replay.turn_id == turn_id@,
        replay.notifications == notification_views(notifications@),
        slots.ok(),
        texts@.len() == slots.keys@.len(),
        skips@.len() == slots.keys@.len(),
        forall|key: Option<Seq<char>>|
            match #[trigger] slots.slot(key) {
                Some(s) => texts@[s]@ == replay.replayed(replay.notifications.len(), key),
                None => replay.replayed(replay.notifications.len(), key).len() == 0,
            },
        forall|i: int|
            0 <= i < replay.notifications.len() && replay.is_delta(replay.notifications[i])
                ==> slots.slot(#[trigger] replay.key_of(replay.notifications[i])) is Some,
        forall|s: int|
            0 <= s < skips@.len() ==> #[trigger] skips@[s] == encode_utf8(
                texts@[s]@.take(replay.skip(text_view(slots.keys@[s])) as int),
            ).len(),
    ensures
        notification_views(kept@) == replay.output(replay.notifications.len()),
{
    let mut consumed: Vec<usize> = Vec::new();
    let mut s: usize = 0;
    while s < skips.len()
        invariant
            s <= skips@.len(),
            consumed@.len() == s,
            forall|k: int| 0 <= k < s ==> #[trigger] consumed@[k] == 0,
        decreases skips@.len() - s,
    {
        consumed.push(0);
        s += 1;
    }
    let mut kept: Vec<Notification> = Vec::new();
    let ghost all = notifications@;
    assert(notification_views(kept@) =~= Seq::empty());
    for notification in it: notifications
        invariant
            it.seq() == all,
            plan.follows(replay),
            replay.thread_id == thread_id@,
            replay.turn_id == turn_id@,
            replay.notifications == notification_views(all),
            slots.ok(),
            texts@.len() == slots.keys@.len(),
            skips@.len() == slots.keys@.len(),
            consumed@.len() == slots.keys@.len(),
            forall|key: Option<Seq<char>>|
                match #[trigger] slots.slot(key) {
                    Some(s) => texts@[s]@ == replay.replayed(replay.notifications.len(), key),
                    None => replay.replayed(replay.notifications.len(), key).len() == 0,
                },
            forall|i: int|
                0 <= i < replay.notifications.len() && replay.is_delta(replay.notifications[i])
                    ==> slots.slot(#[trigger] replay.key_of(replay.notifications[i])) is Some,
            forall|s: int|
                0 <= s < skips@.len() ==> #[trigger] skips@[s] == encode_utf8(
                    texts@[s]@.take(replay.skip(text_view(slots.keys@[s])) as int),
                ).len(),
            forall|s: int|
                0 <= s < consumed@.len() ==> #[trigger] consumed@[s] == encode_utf8(
                    replay.replayed(it.index() as nat, text_view(slots.keys@[s])),
                ).len(),
            notification_views(kept@) == replay.output(it.index() as nat),
    {
        let ghost n = it.index();
        let ghost before = kept@;
        let ghost counts = consumed@;
        assert(replay.notifications[n] == notification@);
        let mut notification = notification;
        if !is_replayed_delta(&notification, thread_id, turn_id) {
            rename_item(plan, &mut notification, thread_id, turn_id, Ghost(replay));
            kept.push(notification);
            proof {
                assert(notification_views(kept@) =~= notification_views(before).push(
                    notification@,
                ));
                assert forall|other: Option<Seq<char>>| #[trigger]
                    replay.replayed((n + 1) as nat, other) == replay.replayed(n as nat, other) by {}
            }
        } else {
            let key = plan.resolve(notification.params.field("itemId").as_str(), Ghost(replay));
            let slot = match slots.find(
                match &key {
                    Some(id) => Some(id.as_str()),
                    None => None,
                },
            ) {
                Some(slot) => slot,
                None => {
                    assert(replay.key_of(replay.notifications[n]) == text_view(key));
                    assert(false);
                    0
                },
            };
            let ghost total = texts@[slot as int]@;
            proof {
                assert(text_view(slots.keys@[slot as int]) == text_view(key)) by {
                    assert(slots.slot(text_view(key)) == Some(slot as int));
                }
                replay.lemma_delta_place(n, total);
            }
            // All the deltas of the item are in memory as one text, so that no count of their
            // bytes overflows.
            let _total_len = texts[slot].as_str().as_bytes().len();
            let delta_len = delta_of(&notification).as_bytes().len();
            let skip = skips[slot];
            let start = consumed[slot];
            let end = start + delta_len;
            consumed.set(slot, end);
            proof {
                assert forall|k: int| 0 <= k < consumed@.len() implies #[trigger] consumed@[k]
                    == encode_utf8(
                    replay.replayed((n + 1) as nat, text_view(slots.keys@[k])),
                ).len() by {
                    if k != slot {
                        assert(counts[k] == encode_utf8(
                            replay.replayed(n as nat, text_view(slots.keys@[k])),
                        ).len());
                        assert(text_view(slots.keys@[k]) != text_view(key)) by {
                            assert(slots.slot(text_view(slots.keys@[k])) == Some(k));
                        }
                    }
                }
            }
            if end > skip {
                if start < skip {
                    let trimmed = tail_from(delta_of(&notification), skip - start).to_owned();
                    notification.params.set("delta", Json::Str(trimmed));
                }
                kept.push(notification);
                assert(notification_views(kept@) =~= notification_views(before).push(notification@));
            }
        }
    }
    kept
}

/// Puts a declaration or completion under the snapshot id that its live id stands for.
fn rename_item(
    plan: &Plan,
    notification: &mut Notification,
    thread_id: &str,
    turn_id: &str,
    Ghost(replay): Ghost<Replay>,
)
    requires
        plan.follows(replay),
        replay.thread_id == thread_id@,
        replay.turn_id == turn_id@,
    ensures
        final(notification)@ == replay.renamed(old(notification)@),
{
    let method = notification.method.as_str();
    if !(same_text(method, "item/started") || same_text(method, "item/completed"))
        || !concerns_turn(notification, thread_id, turn_id) {
        return ;
    }
    let mut renamed: Option<Json> = None;
    let item = notification.params.field("item");
    if let Some(live_id) = item.field("id").as_str() {
        if let Some(snapshot_id) = plan.aliases.get(live_id) {
            proof {
                assert(alias_views(plan.aliases@)[live_id@] == snapshot_id@);
            }
            let mut copy = item.duplicate();
            copy.set("id", Json::string(snapshot_id.as_str()));
            renamed = Some(copy);
        } else {
            assert(!alias_views(plan.aliases@).dom().contains(live_id@));
        }
    }
    if let Some(item) = renamed {
        notification.params.set("item", item);
    }
}

/// Drops or trims agent-message deltas that were buffered while the resume request was in
/// flight and whose content the resume snapshot already includes. The server generates the
/// snapshot after it sent those deltas, so replaying them as they are would duplicate text.
///
/// The buffered deltas of one item are contiguous, so together they overlap the end of the
/// snapshot text by just the part that it includes. After this pass every delta that goes on
/// is an exact, new continuation of the text emitted so far.
pub fn reconcile_replayed_deltas(
    assistant: &AssistantResponses,
    thread_id: &str,
    turn_id: &str,
    notifications: Vec<Notification>,
) -> (reconciled: Vec<Notification>)
    ensures
        ({
            let replay = Replay {
                items: assistant@.items,
                thread_id: thread_id@,
                turn_id: turn_id@,
                notifications: notification_views(notifications@),
            };
            notification_views(reconciled@) == replay.output(replay.notifications.len())
        }),
{
    let ghost replay = Replay {
        items: assistant@.items,
        thread_id: thread_id@,
        turn_id: turn_id@,
        notifications: notification_views(notifications@),
    };
    assert(replay.items =~= entry_views(assistant.items@));
    let plan = plan_replay(assistant, thread_id, turn_id, &notifications, Ghost(replay));
    let (slots, texts) = collect_replayed(
        &plan,
        thread_id,
        turn_id,
        &notifications,
        Ghost(replay),
    );
    let skips = measure_skips(&plan, &assistant.items, &slots, &texts, Ghost(replay));
    let_through(
        &plan,
        &slots,
        &texts,
        &skips,
        thread_id,
        turn_id,
        notifications,
        Ghost(replay),
    )
}

} // verus!
