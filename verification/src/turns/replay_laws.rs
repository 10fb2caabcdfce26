use vstd::prelude::*;

use crate::json::{lemma_get_with, JsonView};
use crate::protocol_words::lemma_words;
use crate::rpc::NotificationView;
use crate::turns::assistant::EntryView;
use crate::turns::event_laws::is_about;
use crate::turns::overlap::{is_overlap, lemma_longest_overlap};
use crate::turns::replay::Replay;

verus! {

/// The deltas of some notifications, put together.
pub open spec fn deltas_together(notifications: Seq<NotificationView>) -> Seq<char>
    decreases notifications.len(),
{
    if notifications.len() == 0 {
        Seq::empty()
    } else {
        deltas_together(notifications.drop_last()) + notifications.last().params.field(
            "delta"@,
        ).text()
    }
}

/// Whether the entries are what a snapshot seeds: each under an id of its own, and each perhaps
/// about to be replayed.
pub open spec fn freshly_seeded(items: Seq<EntryView>) -> bool {
    &&& forall|i: int|
        0 <= i < items.len() ==> {
            let entry = #[trigger] items[i];
            &&& entry.item_id is Some
            &&& entry.live_id is None
            &&& entry.poll_id is None
            &&& entry.replay_cursor is Some
        }
    &&& forall|i: int, j: int|
        0 <= i < j < items.len() ==> (#[trigger] items[i]).item_id != (#[trigger] items[j]).item_id
}

/// Whether the notifications are deltas of the turn, all under one id, or all without one.
pub open spec fn is_stream(replay: Replay, id: Option<Seq<char>>) -> bool {
    forall|i: int|
        0 <= i < replay.notifications.len() ==> {
            let notification = #[trigger] replay.notifications[i];
            &&& notification.method == "item/agentMessage/delta"@
            &&& is_about(notification, replay.thread_id, replay.turn_id)
            &&& notification.params.field("itemId"@).as_str() == id
        }
}

proof fn lemma_methods()
    ensures
        "item/agentMessage/delta"@ != "item/started"@,
        "item/agentMessage/delta"@ != "item/completed"@,
        "item/started"@ != "item/completed"@,
{
    lemma_words();
}

proof fn lemma_nothing_claimed(replay: Replay, n: nat)
    requires
        n <= replay.notifications.len(),
        forall|i: int|
            0 <= i < replay.notifications.len() ==> (#[trigger] replay.notifications[i]).method
                != "item/completed"@,
    ensures
        replay.claims(n).claimed == Set::<int>::empty(),
        replay.claims(n).aliases == Map::<Seq<char>, Seq<char>>::empty(),
    decreases n,
{
    if n > 0 {
        lemma_nothing_claimed(replay, (n - 1) as nat);
        assert(replay.notifications[n - 1].method != "item/completed"@);
    }
}

proof fn lemma_nothing_declared(replay: Replay, n: nat)
    requires
        n <= replay.notifications.len(),
        forall|i: int|
            0 <= i < replay.notifications.len() ==> (#[trigger] replay.notifications[i]).method
                != "item/started"@,
    ensures
        replay.started_ids(n).len() == 0,
    decreases n,
{
    if n > 0 {
        lemma_nothing_declared(replay, (n - 1) as nat);
        assert(replay.notifications[n - 1].method != "item/started"@);
    }
}

/// The entry that a stream under this id goes to.
proof fn lemma_stream_goes_to(replay: Replay, id: Option<Seq<char>>, at: int)
    requires
        freshly_seeded(replay.items),
        is_stream(replay, id),
        0 <= at < replay.items.len(),
        replay.items[at].item_id == id || (at == replay.items.len() - 1 && forall|i: int|
            0 <= i < replay.items.len() ==> (#[trigger] replay.items[i]).item_id != id),
    ensures
        replay.resolve(id) == replay.items[at].item_id,
        replay.known(replay.items[at].item_id) == replay.items[at].text,
{
    lemma_methods();
    let n = replay.notifications.len();
    lemma_nothing_claimed(replay, n);
    lemma_nothing_declared(replay, n);
    let last = replay.items.len() - 1;
    assert(replay.in_progress(last));
    assert(replay.is_tail(last));
    let tail = choose|i: int| replay.is_tail(i);
    assert(tail == last) by {
        if tail < last {
            assert(!replay.in_progress(last));
        }
    }
    assert(replay.aliases() =~= Map::<Seq<char>, Seq<char>>::empty());
    let own = replay.items[at].item_id->0;
    assert forall|j: int| at < j < replay.items.len() implies !#[trigger] replay.names(j, own) by {
        assert(replay.items[at].item_id != replay.items[j].item_id);
    }
    assert(replay.is_last_named(at, own));
    let k = choose|k: int| replay.is_last_named(k, own);
    assert(k == at) by {
        if k < at {
            assert(!replay.names(at, own));
        }
        if at < k {
            assert(!replay.names(k, own));
        }
    }
    if id is Some && replay.items[at].item_id != id {
        assert forall|i: int| !replay.is_last_named(i, id->0) by {
            if 0 <= i < replay.items.len() {
                assert(replay.items[i].item_id != id);
            }
        }
    }
}

proof fn lemma_stream_text(replay: Replay, id: Option<Seq<char>>, key: Option<Seq<char>>, n: nat)
    requires
        n <= replay.notifications.len(),
        is_stream(replay, id),
        replay.resolve(id) == key,
    ensures
        replay.replayed(n, key) == deltas_together(replay.notifications.take(n as int)),
        replay.emitted(n, key) == deltas_together(replay.output(n)),
        forall|i: int|
            0 <= i < replay.output(n).len() ==> {
                let kept = #[trigger] replay.output(n)[i];
                &&& kept.method == "item/agentMessage/delta"@
                &&& is_about(kept, replay.thread_id, replay.turn_id)
                &&& kept.params.field("itemId"@).as_str() == id
            },
    decreases n,
{
    broadcast use lemma_get_with;

    lemma_words();
    if n > 0 {
        let m = (n - 1) as nat;
        lemma_stream_text(replay, id, key, m);
        let part = replay.notifications.take(n as int);
        assert(part.drop_last() =~= replay.notifications.take(m as int));
        let notification = replay.notifications[n - 1];
        assert(part.last() == notification);
        assert(notification.params.field("itemId"@).as_str() == id);
        assert(notification.params is Object);
        assert(replay.is_delta(notification));
        assert(replay.key_of(notification) == key);
        if let Some(kept) = replay.kept(n - 1) {
            assert(replay.output(n).drop_last() =~= replay.output(m));
            assert(replay.output(n).last() == kept);
        }
    } else {
        assert(replay.notifications.take(0) =~= Seq::empty());
    }
}

/// The deltas of one stream that were buffered during an attach go on without what the snapshot
/// already ends with, and with all of the rest: without the longest start of the stream that is
/// also an end of the snapshot's text. A stream under the id of a snapshot item continues that
/// item; one under an id that the snapshot does not know, or under none, continues the last item.
pub proof fn law_stream_goes_on_where_the_snapshot_ends(replay: Replay, id: Option<Seq<char>>, at: int)
    requires
        freshly_seeded(replay.items),
        is_stream(replay, id),
        0 <= at < replay.items.len(),
        replay.items[at].item_id == id || (at == replay.items.len() - 1 && forall|i: int|
            0 <= i < replay.items.len() ==> (#[trigger] replay.items[i]).item_id != id),
    ensures
        ({
            let text = replay.items[at].text;
            let all = deltas_together(replay.notifications);
            let rest = deltas_together(replay.output(replay.notifications.len()));
            let k = all.len() - rest.len();
            &&& 0 <= k <= text.len()
            &&& rest == all.skip(k)
            &&& all.take(k) == text.skip(text.len() - k)
            &&& forall|more: int|
                k < more <= all.len() && more <= text.len() ==> #[trigger] all.take(more)
                    != text.skip(text.len() - more)
        }),
        forall|i: int|
            0 <= i < replay.output(replay.notifications.len()).len() ==> {
                let kept = #[trigger] replay.output(replay.notifications.len())[i];
                &&& kept.method == "item/agentMessage/delta"@
                &&& is_about(kept, replay.thread_id, replay.turn_id)
                &&& kept.params.field("itemId"@).as_str() == id
            },
{
    let n = replay.notifications.len();
    lemma_stream_goes_to(replay, id, at);
    let key = replay.items[at].item_id;
    lemma_stream_text(replay, id, key, n);
    assert(replay.notifications.take(n as int) =~= replay.notifications);
    replay.lemma_emitted(n, key);
    let text = replay.items[at].text;
    let all = deltas_together(replay.notifications);
    lemma_longest_overlap(text, all);
    let skip = replay.skip(key) as int;
    if all.len() <= skip {
        assert(all.skip(skip) =~= Seq::empty());
    }
    assert forall|more: int|
        skip < more <= all.len() && more <= text.len() implies #[trigger] all.take(more)
        != text.skip(text.len() - more) by {
        if all.take(more) == text.skip(text.len() - more) {
            assert(is_overlap(text, all, more));
        }
    }
}

proof fn lemma_unconcerned(replay: Replay, n: nat)
    requires
        n <= replay.notifications.len(),
        forall|i: int|
            0 <= i < replay.notifications.len() ==> !is_about(
                #[trigger] replay.notifications[i],
                replay.thread_id,
                replay.turn_id,
            ),
    ensures
        replay.output(n) == replay.notifications.take(n as int),
    decreases n,
{
    if n > 0 {
        lemma_unconcerned(replay, (n - 1) as nat);
        assert(!is_about(replay.notifications[n - 1], replay.thread_id, replay.turn_id));
        assert(replay.notifications.take(n as int) =~= replay.notifications.take(n - 1).push(
            replay.notifications[n - 1],
        ));
    } else {
        assert(replay.notifications.take(0) =~= Seq::empty());
    }
}

/// Notifications that are about no item of the turn go on as they are, in their order.
pub proof fn law_other_notifications_go_on(replay: Replay)
    requires
        forall|i: int|
            0 <= i < replay.notifications.len() ==> !is_about(
                #[trigger] replay.notifications[i],
                replay.thread_id,
                replay.turn_id,
            ),
    ensures
        replay.output(replay.notifications.len()) == replay.notifications,
{
    lemma_unconcerned(replay, replay.notifications.len());
    assert(replay.notifications.take(replay.notifications.len() as int) =~= replay.notifications);
}

/// Whether a notification is the completion of a message of the turn.
pub open spec fn completes(
    replay: Replay,
    notification: NotificationView,
    live_id: Seq<char>,
    text: Seq<char>,
) -> bool {
    let item = notification.params.field("item"@);
    &&& notification.method == "item/completed"@
    &&& is_about(notification, replay.thread_id, replay.turn_id)
    &&& item.field("type"@) == JsonView::Str("agentMessage"@)
    &&& item.field("id"@) == JsonView::Str(live_id)
    &&& item.field("text"@) == JsonView::Str(text)
}

proof fn lemma_one_claim(
    replay: Replay,
    live_id: Seq<char>,
    text: Seq<char>,
    at: int,
    c: int,
    n: nat,
)
    requires
        n <= replay.notifications.len(),
        0 <= c < replay.notifications.len(),
        completes(replay, replay.notifications[c], live_id, text),
        forall|i: int|
            0 <= i < replay.notifications.len() && i != c ==> (
            #[trigger] replay.notifications[i]).method != "item/completed"@,
        0 <= at < replay.items.len(),
        replay.items[at].item_id is Some,
        replay.items[at].text == text,
        forall|i: int|
            0 <= i < at ==> (#[trigger] replay.items[i]).text != text || replay.items[i].item_id is
                None,
    ensures
        n <= c ==> replay.claims(n).claimed == Set::<int>::empty() && replay.claims(n).aliases
            == Map::<Seq<char>, Seq<char>>::empty(),
        n > c ==> replay.claims(n).aliases == Map::<Seq<char>, Seq<char>>::empty().insert(
            live_id,
            replay.items[at].item_id->0,
        ),
    decreases n,
{
    if n > 0 {
        let m = (n - 1) as nat;
        lemma_one_claim(replay, live_id, text, at, c, m);
        let notification = replay.notifications[n - 1];
        if n - 1 == c {
            let none = replay.claims(m).claimed;
            assert forall|j: int| 0 <= j < at implies !#[trigger] replay.claimable(
                none,
                text,
                j,
            ) by {
                assert(replay.items[j].text != text || replay.items[j].item_id is None);
            }
            assert(replay.claims_first(none, text, at));
            let i = choose|i: int| replay.claims_first(none, text, i);
            assert(i == at) by {
                if i < at {
                    assert(!replay.claimable(none, text, i));
                }
                if at < i {
                    assert(!replay.claimable(none, text, at));
                }
            }
            assert(replay.completed(notification) == Some((live_id, text)));
        } else {
            assert(notification.method != "item/completed"@);
        }
    }
}

/// What is left of a notification is among what goes on.
proof fn lemma_kept_goes_on(replay: Replay, c: int, n: nat)
    requires
        0 <= c < n <= replay.notifications.len(),
        replay.kept(c) is Some,
    ensures
        exists|j: int| 0 <= j < replay.output(n).len() && #[trigger] replay.output(n)[j]
            == replay.kept(c)->0,
    decreases n,
{
    if n - 1 == c {
        let before = replay.output((n - 1) as nat);
        assert(replay.output(n)[before.len() as int] == replay.kept(c)->0);
    } else {
        lemma_kept_goes_on(replay, c, (n - 1) as nat);
        let before = replay.output((n - 1) as nat);
        let j = choose|j: int| 0 <= j < before.len() && #[trigger] before[j] == replay.kept(c)->0;
        assert(replay.output(n)[j] == before[j]);
    }
}

/// A message that was completed during an attach, with the text of a snapshot item, is that item:
/// its completion goes on under the item's id. Of several items with the text it is the first.
pub proof fn law_completed_message_is_the_snapshot_item(
    replay: Replay,
    live_id: Seq<char>,
    text: Seq<char>,
    at: int,
    c: int,
)
    requires
        0 <= c < replay.notifications.len(),
        completes(replay, replay.notifications[c], live_id, text),
        forall|i: int|
            0 <= i < replay.notifications.len() && i != c ==> (
            #[trigger] replay.notifications[i]).method != "item/completed"@,
        forall|i: int|
            0 <= i < replay.notifications.len() ==> (#[trigger] replay.notifications[i]).method
                != "item/started"@,
        0 <= at < replay.items.len(),
        replay.items[at].item_id is Some,
        replay.items[at].text == text,
        forall|i: int|
            0 <= i < at ==> (#[trigger] replay.items[i]).text != text || replay.items[i].item_id is
                None,
    ensures
        exists|j: int|
            0 <= j < replay.output(replay.notifications.len()).len() && completes(
                replay,
                #[trigger] replay.output(replay.notifications.len())[j],
                replay.items[at].item_id->0,
                text,
            ),
{
    broadcast use lemma_get_with;

    lemma_words();
    let n = replay.notifications.len();
    let notification = replay.notifications[c];
    lemma_one_claim(replay, live_id, text, at, c, n);
    lemma_nothing_declared(replay, n);
    assert(replay.aliases() == replay.claims(n).aliases);
    assert(replay.kept(c) == Some(replay.renamed(notification)));
    assert(completes(replay, replay.kept(c)->0, replay.items[at].item_id->0, text));
    lemma_kept_goes_on(replay, c, n);
}

/// Whether a window declares a message under an id and then streams it.
pub open spec fn declares_and_streams(replay: Replay, id: Seq<char>) -> bool {
    &&& replay.notifications.len() > 0
    &&& ({
        let first = replay.notifications[0];
        &&& first.method == "item/started"@
        &&& is_about(first, replay.thread_id, replay.turn_id)
        &&& first.params.field("item"@).field("type"@) == JsonView::Str("agentMessage"@)
        &&& first.params.field("item"@).field("id"@) == JsonView::Str(id)
    })
    &&& forall|i: int|
        0 < i < replay.notifications.len() ==> {
            let notification = #[trigger] replay.notifications[i];
            &&& notification.method == "item/agentMessage/delta"@
            &&& is_about(notification, replay.thread_id, replay.turn_id)
            &&& notification.params.field("itemId"@) == JsonView::Str(id)
            &&& notification.params.field("delta"@) is Str
        }
}

proof fn lemma_declared_window(replay: Replay, id: Seq<char>, n: nat)
    requires
        declares_and_streams(replay, id),
        0 < n <= replay.notifications.len(),
    ensures
        replay.started_ids(n) == seq![id],
        replay.buffered(n, id) == deltas_together(replay.notifications.subrange(1, n as int)),
    decreases n,
{
    lemma_methods();
    let part = replay.notifications.subrange(1, n as int);
    if n > 1 {
        lemma_declared_window(replay, id, (n - 1) as nat);
        let notification = replay.notifications[n - 1];
        assert(notification.method == "item/agentMessage/delta"@);
        assert(part.drop_last() =~= replay.notifications.subrange(1, n - 1));
        assert(part.last() == notification);
        assert(notification.params.field("itemId"@).as_str() == Some(id));
    } else {
        assert(replay.notifications[0].method == "item/started"@);
        assert(part =~= Seq::empty());
        assert(replay.started_ids(0) =~= Seq::empty());
        assert(replay.started_ids(1) =~= seq![id]);
        assert(!replay.is_delta(replay.notifications[0]));
        assert(replay.buffered(0, id) =~= Seq::empty());
        assert(replay.buffered(1, id) == replay.buffered(0, id));
        assert(deltas_together(part) =~= Seq::empty());
    }
}

proof fn lemma_declared_replayed(replay: Replay, id: Seq<char>, key: Option<Seq<char>>, n: nat)
    requires
        declares_and_streams(replay, id),
        0 < n <= replay.notifications.len(),
        replay.resolve(Some(id)) == key,
    ensures
        replay.replayed(n, key) == deltas_together(replay.notifications.subrange(1, n as int)),
    decreases n,
{
    lemma_methods();
    let part = replay.notifications.subrange(1, n as int);
    if n > 1 {
        lemma_declared_replayed(replay, id, key, (n - 1) as nat);
        let notification = replay.notifications[n - 1];
        assert(notification.method == "item/agentMessage/delta"@);
        assert(part.drop_last() =~= replay.notifications.subrange(1, n - 1));
        assert(part.last() == notification);
        assert(notification.params.field("itemId"@).as_str() == Some(id));
        assert(replay.key_of(notification) == key);
    } else {
        assert(replay.notifications[0].method == "item/started"@);
        assert(part =~= Seq::empty());
        assert(replay.replayed(0, key).len() == 0);
    }
}

proof fn lemma_together_grows(notifications: Seq<NotificationView>, n: int)
    requires
        0 <= n <= notifications.len(),
    ensures
        deltas_together(notifications.take(n)).len() <= deltas_together(notifications).len(),
    decreases notifications.len(),
{
    if n < notifications.len() {
        lemma_together_grows(notifications.drop_last(), n);
        assert(notifications.drop_last().take(n) =~= notifications.take(n));
    } else {
        assert(notifications.take(n) =~= notifications);
    }
}

/// The window goes on with its declaration alone where the snapshot holds all the deltas.
proof fn lemma_all_swallowed(replay: Replay, id: Seq<char>, key: Option<Seq<char>>, n: nat)
    requires
        declares_and_streams(replay, id),
        0 < n <= replay.notifications.len(),
        replay.resolve(Some(id)) == key,
        replay.skip(key) == deltas_together(
            replay.notifications.subrange(1, replay.notifications.len() as int),
        ).len(),
    ensures
        replay.output(n) == seq![replay.renamed(replay.notifications[0])],
    decreases n,
{
    lemma_methods();
    let all = replay.notifications.subrange(1, replay.notifications.len() as int);
    if n > 1 {
        lemma_all_swallowed(replay, id, key, (n - 1) as nat);
        let notification = replay.notifications[n - 1];
        assert(notification.method == "item/agentMessage/delta"@);
        assert(notification.params.field("itemId"@).as_str() == Some(id));
        lemma_declared_replayed(replay, id, key, (n - 1) as nat);
        lemma_declared_replayed(replay, id, key, n);
        assert(replay.key_of(notification) == key);
        assert(all.take(n - 1) =~= replay.notifications.subrange(1, n as int));
        lemma_together_grows(all, n - 1);
        assert(replay.kept(n - 1) is None);
    } else {
        assert(replay.notifications[0].method == "item/started"@);
        assert(replay.output(0) =~= Seq::empty());
        assert(replay.output(1) =~= seq![replay.renamed(replay.notifications[0])]);
    }
}

/// A message that was declared and streamed during an attach, and streamed just the text of the
/// last snapshot item, is that item: its declaration goes on under the item's id, and its deltas,
/// which the snapshot holds, do not.
pub proof fn law_declared_message_may_be_the_snapshot_item(replay: Replay, id: Seq<char>)
    requires
        freshly_seeded(replay.items),
        replay.items.len() > 0,
        declares_and_streams(replay, id),
        replay.items.last().text.len() > 0,
        deltas_together(
            replay.notifications.subrange(1, replay.notifications.len() as int),
        ) == replay.items.last().text,
    ensures
        ({
            let out = replay.output(replay.notifications.len());
            &&& out.len() == 1
            &&& out[0].method == "item/started"@
            &&& is_about(out[0], replay.thread_id, replay.turn_id)
            &&& out[0].params.field("item"@).field("id"@) == JsonView::Str(
                replay.items.last().item_id->0,
            )
            &&& out[0].params.field("item"@).field("type"@) == JsonView::Str("agentMessage"@)
        }),
{
    broadcast use lemma_get_with;

    lemma_words();
    let n = replay.notifications.len();
    assert forall|i: int| 0 <= i < n implies (#[trigger] replay.notifications[i]).method
        != "item/completed"@ by {
        if i > 0 {
            assert(replay.notifications[i].method == "item/agentMessage/delta"@);
        }
    }
    lemma_nothing_claimed(replay, n);
    lemma_declared_window(replay, id, n);
    let last = replay.items.len() - 1;
    let text = replay.items[last].text;
    assert(replay.in_progress(last));
    assert(replay.is_tail(last));
    let tail = choose|i: int| replay.is_tail(i);
    assert(tail == last) by {
        if tail < last {
            assert(!replay.in_progress(last));
        }
    }
    assert(replay.first_replays_tail(0));
    let k = choose|k: int| replay.first_replays_tail(k);
    assert(k == 0);
    let own = replay.items[last].item_id->0;
    assert(replay.aliases() == Map::<Seq<char>, Seq<char>>::empty().insert(id, own));
    assert(replay.resolve(Some(id)) == Some(own));
    assert(replay.is_last_named(last, own));
    let named = choose|i: int| replay.is_last_named(i, own);
    assert(named == last) by {
        if named < last {
            assert(!replay.names(last, own));
        }
    }
    lemma_declared_replayed(replay, id, Some(own), n);
    lemma_longest_overlap(text, text);
    assert(text.take(text.len() as int) =~= text.skip(0));
    assert(is_overlap(text, text, text.len() as int));
    lemma_all_swallowed(replay, id, Some(own), n);
}

} // verus!
