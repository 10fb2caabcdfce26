use vstd::prelude::*;
use vstd::utf8::*;

use crate::errors::{app_server_error, AppServerError};
use crate::json::{json_bytes, serialized_json_bytes, Json, JsonView};
use crate::rpc::{Notification, NotificationView};
use crate::turns::replay::notification_views;

verus! {

/// How many notifications may come in before the answer to a request.
pub const MAX_EARLY_NOTIFICATIONS: usize = 10_000;

/// How many bytes they may have together.
pub const MAX_EARLY_NOTIFICATION_BYTES: usize = 16_777_216;

/// How many progress events may be kept.
pub const MAX_RETAINED_PROGRESS_EVENTS: usize = 10_000;

/// How many bytes they may have together.
pub const MAX_RETAINED_PROGRESS_BYTES: usize = 16_777_216;

/// The notifications that came in before the answer to a request.
pub struct EarlyNotificationBuffer {
    pub notifications: Vec<Notification>,
    pub bytes: usize,
    pub overflowed: bool,
}

/// The bytes that a notification counts for: those of its method and of its parameters as
/// JSON.
pub open spec fn notification_bytes(notification: NotificationView) -> nat {
    encode_utf8(notification.method).len() + json_bytes(notification.params)
}

/// The bytes that some notifications count for.
pub open spec fn total_bytes(notifications: Seq<NotificationView>) -> nat
    decreases notifications.len(),
{
    if notifications.len() == 0 {
        0
    } else {
        total_bytes(notifications.drop_last()) + notification_bytes(notifications.last())
    }
}

impl EarlyNotificationBuffer {
    /// Whether the buffer has room for one more notification.
    pub open spec fn has_room(self, notification: NotificationView) -> bool {
        &&& self.notifications@.len() < MAX_EARLY_NOTIFICATIONS
        &&& self.bytes + notification_bytes(notification) <= MAX_EARLY_NOTIFICATION_BYTES
    }

    /// Whether the buffer is within its limits and counts the bytes that it holds.
    pub open spec fn wf(self) -> bool {
        &&& self.notifications@.len() <= MAX_EARLY_NOTIFICATIONS
        &&& self.bytes <= MAX_EARLY_NOTIFICATION_BYTES
        &&& self.bytes == total_bytes(notification_views(self.notifications@))
    }

    /// Keeps a notification, or notes that there was no room for it.
    pub fn push(&mut self, notification: Notification)
        ensures
            old(self).wf() ==> final(self).wf(),
            old(self).has_room(notification@) ==> {
                &&& final(self).notifications@ == old(self).notifications@.push(notification)
                &&& final(self).bytes == old(self).bytes + notification_bytes(notification@)
                &&& final(self).overflowed == old(self).overflowed
            },
            !old(self).has_room(notification@) ==> {
                &&& final(self).notifications@ == old(self).notifications@
                &&& final(self).bytes == old(self).bytes
                &&& final(self).overflowed
            },
    {
        let method_bytes = notification.method.as_str().as_bytes().len();
        let bytes = method_bytes.saturating_add(serialized_json_bytes(&notification.params));
        let ghost before = notification_views(self.notifications@);
        if self.notifications.len() < MAX_EARLY_NOTIFICATIONS && self.bytes.saturating_add(bytes)
            <= MAX_EARLY_NOTIFICATION_BYTES {
            self.bytes = self.bytes.saturating_add(bytes);
            self.notifications.push(notification);
            proof {
                let after = notification_views(self.notifications@);
                assert(after.drop_last() =~= before);
                assert(after.last() == notification@);
            }
        } else {
            self.overflowed = true;
        }
    }

    pub fn clear(&mut self)
        ensures
            final(self).wf(),
            final(self).notifications@.len() == 0,
            final(self).bytes == 0,
            !final(self).overflowed,
    {
        self.notifications.clear();
        self.bytes = 0;
        self.overflowed = false;
    }
}

impl Default for EarlyNotificationBuffer {
    fn default() -> (buffer: EarlyNotificationBuffer)
        ensures
            buffer.wf(),
            buffer.notifications@.len() == 0,
            buffer.bytes == 0,
            !buffer.overflowed,
    {
        EarlyNotificationBuffer { notifications: Vec::new(), bytes: 0, overflowed: false }
    }
}

/// The progress events of a wait. They are all kept where the caller wants them in the end,
/// and otherwise only until they were emitted.
#[derive(Debug)]
pub struct ProgressEvents {
    pub values: Vec<Json>,
    pub retained_bytes: usize,
    pub retain: bool,
}

/// The mathematical value of [`ProgressEvents`].
#[verifier::ext_equal]
pub struct ProgressView {
    pub values: Seq<JsonView>,
    pub retained_bytes: nat,
    pub retain: bool,
}

/// What an event too many is refused with.
pub open spec fn progress_limit_message() -> Seq<char> {
    "progress retention limit exceeded (10000 events or 16777216 bytes)"@
}

/// The views of some JSON values.
pub open spec fn json_views(values: Seq<Json>) -> Seq<JsonView> {
    values.map_values(|json: Json| json@)
}

pub open spec fn total_json_bytes(values: Seq<JsonView>) -> nat
    decreases values.len(),
{
    if values.len() == 0 {
        0
    } else {
        total_json_bytes(values.drop_last()) + json_bytes(values.last())
    }
}

impl ProgressView {
    /// Whether one more event is within the limits; where events are not kept there are none.
    pub open spec fn has_room(self, value: JsonView) -> bool {
        self.retain ==> {
            &&& self.values.len() < MAX_RETAINED_PROGRESS_EVENTS
            &&& self.retained_bytes + json_bytes(value) <= MAX_RETAINED_PROGRESS_BYTES
        }
    }

    pub open spec fn pushed(self, value: JsonView) -> ProgressView {
        ProgressView {
            values: self.values.push(value),
            retained_bytes: if self.retain {
                self.retained_bytes + json_bytes(value)
            } else {
                self.retained_bytes
            },
            retain: self.retain,
        }
    }

    /// With the first `n` of some events, all of them within the limits.
    pub open spec fn pushed_all(self, values: Seq<JsonView>, n: nat) -> Option<ProgressView>
        decreases n,
    {
        if n == 0 {
            Some(self)
        } else {
            match self.pushed_all(values, (n - 1) as nat) {
                Some(before) => if before.has_room(values[n - 1]) {
                    Some(before.pushed(values[n - 1]))
                } else {
                    None
                },
                None => None,
            }
        }
    }

    pub open spec fn starting(values: Seq<JsonView>, retain: bool) -> Option<ProgressView> {
        if retain {
            ProgressView { values: Seq::empty(), retained_bytes: 0, retain }.pushed_all(
                values,
                values.len(),
            )
        } else {
            Some(ProgressView { values, retained_bytes: 0, retain })
        }
    }

    pub open spec fn released(self) -> ProgressView {
        if self.retain {
            self
        } else {
            ProgressView { values: Seq::empty(), retained_bytes: 0, retain: false }
        }
    }

    /// Whether kept events are within their limits and counted.
    pub open spec fn wf(self) -> bool {
        self.retain ==> {
            &&& self.values.len() <= MAX_RETAINED_PROGRESS_EVENTS
            &&& self.retained_bytes <= MAX_RETAINED_PROGRESS_BYTES
            &&& self.retained_bytes == total_json_bytes(self.values)
        }
    }
}

impl View for ProgressEvents {
    type V = ProgressView;

    open spec fn view(&self) -> ProgressView {
        ProgressView {
            values: json_views(self.values@),
            retained_bytes: self.retained_bytes as nat,
            retain: self.retain,
        }
    }
}

proof fn lemma_pushed_all_none(view: ProgressView, values: Seq<JsonView>, n: nat, m: nat)
    requires
        n <= m,
        view.pushed_all(values, n) is None,
    ensures
        view.pushed_all(values, m) is None,
    decreases m,
{
    if n < m {
        lemma_pushed_all_none(view, values, n, (m - 1) as nat);
    }
}

impl ProgressEvents {
    pub fn new(values: Vec<Json>, retain: bool) -> (created: Result<ProgressEvents, AppServerError>)
        ensures
            match created {
                Ok(events) => ProgressView::starting(json_views(values@), retain) == Some(events@)
                    && events@.wf(),
                Err(error) => ProgressView::starting(json_views(values@), retain) is None
                    && error.message@ == progress_limit_message(),
            },
    {
        if !retain {
            return Ok(ProgressEvents { values, retained_bytes: 0, retain });
        }
        let mut events = ProgressEvents { values: Vec::new(), retained_bytes: 0, retain };
        let ghost all = json_views(values@);
        let ghost first = events@;
        assert(first.values =~= Seq::empty());
        for value in it: values
            invariant
                all == json_views(values@),
                it.seq() == values@,
                first == (ProgressView { values: Seq::empty(), retained_bytes: 0, retain }),
                retain,
                first.pushed_all(all, it.index() as nat) == Some(events@),
                events@.wf(),
        {
            assert(all[it.index()] == value@);
            let ghost n = (it.index() + 1) as nat;
            match events.push(value) {
                Ok(()) => {},
                Err(error) => {
                    proof {
                        lemma_pushed_all_none(first, all, n, all.len());
                    }
                    return Err(error);
                },
            }
        }
        Ok(events)
    }

    pub fn push(&mut self, value: Json) -> (pushed: Result<(), AppServerError>)
        ensures
            old(self)@.wf() ==> final(self)@.wf(),
            match pushed {
                Ok(()) => old(self)@.has_room(value@) && final(self)@ == old(self)@.pushed(value@),
                Err(error) => {
                    &&& !old(self)@.has_room(value@)
                    &&& final(self)@ == old(self)@
                    &&& error.message@ == progress_limit_message()
                },
            },
    {
        let ghost before = self@;
        if self.retain {
            let bytes = serialized_json_bytes(&value);
            if self.values.len() >= MAX_RETAINED_PROGRESS_EVENTS
                || self.retained_bytes.saturating_add(bytes) > MAX_RETAINED_PROGRESS_BYTES {
                return Err(
                    app_server_error(
                        "progress retention limit exceeded (10000 events or 16777216 bytes)",
                    ),
                );
            }
            self.retained_bytes = self.retained_bytes.saturating_add(bytes);
        }
        self.values.push(value);
        proof {
            assert(self@.values =~= before.values.push(value@));
            assert(self@.values.drop_last() =~= before.values);
        }
        Ok(())
    }

    pub fn len(&self) -> (len: usize)
        ensures
            len == self@.values.len(),
    {
        self.values.len()
    }

    pub fn as_slice(&self) -> (values: &[Json])
        ensures
            values@ == self.values@,
    {
        self.values.as_slice()
    }

    pub fn into_values(self) -> (values: Vec<Json>)
        ensures
            json_views(values@) == self@.values,
    {
        self.values
    }

    /// Lets go of the events, which were emitted, where they need not be kept.
    pub fn release_emitted(&mut self)
        ensures
            final(self)@ == old(self)@.released(),
            old(self)@.wf() ==> final(self)@.wf(),
    {
        if !self.retain {
            self.values.clear();
            self.retained_bytes = 0;
            assert(self@.values =~= Seq::empty());
        }
    }
}

/// Copies of the events from `before_len` on.
pub fn new_events(events: &ProgressEvents, before_len: usize) -> (new: Vec<Json>)
    requires
        before_len <= events@.values.len(),
    ensures
        json_views(new@) == events@.values.skip(before_len as int),
{
    let mut new: Vec<Json> = Vec::new();
    let ghost all = events@.values;
    let mut i: usize = before_len;
    assert(json_views(new@) =~= all.subrange(before_len as int, before_len as int));
    while i < events.values.len()
        invariant
            before_len <= i <= events.values@.len(),
            all == json_views(events.values@),
            json_views(new@) == all.subrange(before_len as int, i as int),
        decreases events.values@.len() - i,
    {
        let ghost copied = new@;
        let copy = events.values[i].duplicate();
        new.push(copy);
        proof {
            assert(json_views(new@) =~= json_views(copied).push(all[i as int]));
        }
        i += 1;
        assert(json_views(new@) =~= all.subrange(before_len as int, i as int));
    }
    assert(all.subrange(before_len as int, i as int) =~= all.skip(before_len as int));
    new
}

} // verus!
