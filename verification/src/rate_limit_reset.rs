use vstd::prelude::*;

use crate::errors::{app_server_error, AppServerError};
use crate::json::{Json, JsonView};
use crate::text::text_view;
use crate::turns::buffers::json_views;
use crate::words::{comes_before, text_before, trim, trimmed};

verus! {

/// A credit that can be spent on a reset of the rate limits.
#[derive(Debug, Clone, PartialEq, Eq)]
pub struct RateLimitResetCredit {
    pub id: String,
    pub title: Option<String>,
    pub description: Option<String>,
    pub granted_at: Option<i64>,
    pub expires_at: Option<i64>,
}

/// The mathematical value of a [`RateLimitResetCredit`].
#[verifier::ext_equal]
pub struct CreditView {
    pub id: Seq<char>,
    pub title: Option<Seq<char>>,
    pub description: Option<Seq<char>>,
    pub granted_at: Option<i64>,
    pub expires_at: Option<i64>,
}

impl View for RateLimitResetCredit {
    type V = CreditView;

    open spec fn view(&self) -> CreditView {
        CreditView {
            id: self.id@,
            title: text_view(self.title),
            description: text_view(self.description),
            granted_at: self.granted_at,
            expires_at: self.expires_at,
        }
    }
}

/// A text without the white space around it, where something is left of it.
pub open spec fn nonempty_text(value: JsonView) -> Option<Seq<char>> {
    match value.as_str() {
        Some(text) => if trimmed(text).len() > 0 {
            Some(trimmed(text))
        } else {
            None
        },
        None => None,
    }
}

pub fn optional_nonempty_string(value: &Json) -> (text: Option<String>)
    ensures
        text_view(text) == nonempty_text(value@),
{
    match value.as_str() {
        Some(text) => {
            let rest = trim(text);
            if rest.is_empty() {
                None
            } else {
                Some(rest.to_owned())
            }
        },
        None => None,
    }
}

/// The credit that an entry describes, where it is available and has an id.
pub open spec fn selectable(entry: JsonView) -> Option<CreditView> {
    if entry.field("status"@).as_str() == Some("available"@) {
        match nonempty_text(entry.field("id"@)) {
            Some(id) => Some(
                CreditView {
                    id,
                    title: nonempty_text(entry.field("title"@)),
                    description: nonempty_text(entry.field("description"@)),
                    granted_at: entry.field("grantedAt"@).as_i64(),
                    expires_at: entry.field("expiresAt"@).as_i64(),
                },
            ),
            None => None,
        }
    } else {
        None
    }
}

fn select(entry: &Json) -> (credit: Option<RateLimitResetCredit>)
    ensures
        match credit {
            Some(credit) => selectable(entry@) == Some(credit@),
            None => selectable(entry@) is None,
        },
{
    if !entry.field("status").is_text("available") {
        return None;
    }
    match optional_nonempty_string(entry.field("id")) {
        Some(id) => Some(
            RateLimitResetCredit {
                id,
                title: optional_nonempty_string(entry.field("title")),
                description: optional_nonempty_string(entry.field("description")),
                granted_at: entry.field("grantedAt").as_i64(),
                expires_at: entry.field("expiresAt").as_i64(),
            },
        ),
        None => None,
    }
}

/// A time, with none at all later than every other.
pub open spec fn or_never(time: Option<i64>) -> i64 {
    match time {
        Some(time) => time,
        None => i64::MAX,
    }
}

/// Whether one credit is more urgent to use than another: by an earlier expiry, then by an
/// older grant, then by its id.
pub open spec fn more_urgent(a: CreditView, b: CreditView) -> bool {
    if or_never(a.expires_at) != or_never(b.expires_at) {
        or_never(a.expires_at) < or_never(b.expires_at)
    } else if or_never(a.granted_at) != or_never(b.granted_at) {
        or_never(a.granted_at) < or_never(b.granted_at)
    } else {
        comes_before(a.id, b.id)
    }
}

fn is_more_urgent(a: &RateLimitResetCredit, b: &RateLimitResetCredit) -> (more: bool)
    ensures
        more == more_urgent(a@, b@),
{
    let a_expiry = a.expires_at.unwrap_or(i64::MAX);
    let b_expiry = b.expires_at.unwrap_or(i64::MAX);
    if a_expiry != b_expiry {
        return a_expiry < b_expiry;
    }
    let a_grant = a.granted_at.unwrap_or(i64::MAX);
    let b_grant = b.granted_at.unwrap_or(i64::MAX);
    if a_grant != b_grant {
        return a_grant < b_grant;
    }
    text_before(a.id.as_str(), b.id.as_str())
}

/// Whether entry `i` is the best: selectable, less urgent than no other, and the first such.
pub open spec fn is_best(entries: Seq<JsonView>, i: int) -> bool {
    &&& 0 <= i < entries.len()
    &&& selectable(entries[i]) is Some
    &&& forall|j: int|
        0 <= j < entries.len() && selectable(#[trigger] entries[j]) is Some ==> !more_urgent(
            selectable(entries[j])->0,
            selectable(entries[i])->0,
        )
    &&& forall|j: int|
        0 <= j < i && selectable(#[trigger] entries[j]) is Some ==> more_urgent(
            selectable(entries[i])->0,
            selectable(entries[j])->0,
        )
}

/// Of two texts one comes before the other, or they are the same.
proof fn lemma_text_order(a: Seq<char>, b: Seq<char>)
    ensures
        !(comes_before(a, b) && comes_before(b, a)),
        comes_before(a, b) || comes_before(b, a) || a == b,
    decreases a.len(),
{
    if a.len() > 0 && b.len() > 0 && a[0] == b[0] {
        lemma_text_order(a.drop_first(), b.drop_first());
        if a.drop_first() == b.drop_first() {
            assert(a =~= seq![a[0]] + a.drop_first());
            assert(b =~= seq![b[0]] + b.drop_first());
        }
    } else if a.len() == 0 && b.len() == 0 {
        assert(a =~= b);
    } else if a.len() > 0 && b.len() > 0 && a[0] as u32 == b[0] as u32 {
        vstd::utf8::char_u32_cast(a[0], a[0] as u32);
        vstd::utf8::char_u32_cast(b[0], b[0] as u32);
    }
}

proof fn lemma_text_order_chain(a: Seq<char>, b: Seq<char>, c: Seq<char>)
    requires
        comes_before(a, b),
        comes_before(b, c),
    ensures
        comes_before(a, c),
    decreases a.len(),
{
    if a.len() > 0 && b.len() > 0 && c.len() > 0 && a[0] == b[0] && b[0] == c[0] {
        lemma_text_order_chain(a.drop_first(), b.drop_first(), c.drop_first());
    }
}

/// Urgency is an order: it does not run both ways, and it carries over.
proof fn lemma_urgency(a: CreditView, b: CreditView, c: CreditView)
    ensures
        !(more_urgent(a, b) && more_urgent(b, a)),
        more_urgent(a, b) && more_urgent(b, c) ==> more_urgent(a, c),
        !more_urgent(b, a) && more_urgent(b, c) ==> more_urgent(a, c),
        more_urgent(a, b) && !more_urgent(c, b) ==> more_urgent(a, c),
        !more_urgent(b, a) && !more_urgent(c, b) ==> !more_urgent(c, a),
{
    lemma_text_order(a.id, b.id);
    lemma_text_order(b.id, c.id);
    lemma_text_order(a.id, c.id);
    if comes_before(a.id, b.id) && comes_before(b.id, c.id) {
        lemma_text_order_chain(a.id, b.id, c.id);
    }
    if comes_before(c.id, a.id) && comes_before(a.id, b.id) {
        lemma_text_order_chain(c.id, a.id, b.id);
    }
    if comes_before(b.id, c.id) && comes_before(c.id, a.id) {
        lemma_text_order_chain(b.id, c.id, a.id);
    }
    if comes_before(c.id, b.id) && comes_before(b.id, a.id) {
        lemma_text_order_chain(c.id, b.id, a.id);
    }
}

/// The entries that describe credits.
pub open spec fn credit_entries(usage: JsonView) -> Seq<JsonView> {
    usage.field("rateLimitResetCredits"@).field("credits"@).items()
}

/// Chooses the credit that is most urgent to use.
pub fn select_best_rate_limit_reset_credit(usage: &Json) -> (selected: Result<
    RateLimitResetCredit,
    AppServerError,
>)
    ensures
        match selected {
            Ok(credit) => exists|i: int|
                is_best(credit_entries(usage@), i) && selectable(credit_entries(usage@)[i]) == Some(
                    credit@,
                ),
            Err(error) => {
                &&& forall|i: int|
                    0 <= i < credit_entries(usage@).len() ==> selectable(
                        #[trigger] credit_entries(usage@)[i],
                    ) is None
                &&& error.message@ == "no selectable rate-limit reset credits are available"@
            },
        },
{
    let entries = match usage.field("rateLimitResetCredits").field("credits").as_array() {
        Some(entries) => entries,
        None => {
            return Err(
                app_server_error("no selectable rate-limit reset credits are available"),
            );
        },
    };
    let ghost views = credit_entries(usage@);
    let mut best: Option<RateLimitResetCredit> = None;
    let ghost mut place: int = -1;
    let mut i: usize = 0;
    while i < entries.len()
        invariant
            i <= entries@.len(),
            views == credit_entries(usage@),
            views == json_views(entries@),
            match best {
                Some(credit) => {
                    &&& 0 <= place < i
                    &&& selectable(views[place]) == Some(credit@)
                    &&& is_best(views.take(i as int), place)
                },
                None => forall|j: int| 0 <= j < i ==> selectable(#[trigger] views[j]) is None,
            },
        decreases entries@.len() - i,
    {
        let entry = &entries[i];
        let ghost so_far = views.take(i as int);
        let ghost next = views.take(i + 1);
        assert(views[i as int] == entry@);
        assert(forall|j: int| 0 <= j < i ==> #[trigger] next[j] == so_far[j]);
        assert(next[i as int] == entry@);
        if let Some(credit) = select(entry) {
            let better = match &best {
                Some(other) => is_more_urgent(&credit, other),
                None => true,
            };
            proof {
                if best is Some {
                    let other = best->0@;
                    assert forall|j: int|
                        0 <= j < i && selectable(#[trigger] next[j]) is Some implies {
                        &&& !more_urgent(selectable(next[j])->0, other)
                        &&& more_urgent(credit@, other) ==> more_urgent(
                            credit@,
                            selectable(next[j])->0,
                        ) && !more_urgent(selectable(next[j])->0, credit@)
                    } by {
                        assert(next[j] == so_far[j]);
                        lemma_urgency(credit@, other, selectable(next[j])->0);
                        lemma_urgency(selectable(next[j])->0, credit@, other);
                    }
                    lemma_urgency(credit@, credit@, other);
                }
                lemma_urgency(credit@, credit@, credit@);
            }
            if better {
                proof {
                    place = i as int;
                    assert forall|j: int|
                        0 <= j < i && selectable(#[trigger] next[j]) is Some implies more_urgent(
                        credit@,
                        selectable(next[j])->0,
                    ) && !more_urgent(selectable(next[j])->0, credit@) by {
                        assert(next[j] == views[j]);
                    }
                    assert(is_best(next, place));
                }
                best = Some(credit);
            } else {
                assert(is_best(next, place));
            }
        } else {
            proof {
                if best is Some {
                    assert(is_best(next, place));
                }
            }
        }
        i += 1;
    }
    assert(views.take(i as int) =~= views);
    match best {
        Some(credit) => Ok(credit),
        None => Err(app_server_error("no selectable rate-limit reset credits are available")),
    }
}

/// The best entry is one and the same, however it is looked for.
pub proof fn law_best_credit_is_unique(entries: Seq<JsonView>, i: int, j: int)
    requires
        is_best(entries, i),
        is_best(entries, j),
    ensures
        i == j,
{
    if i < j {
        assert(more_urgent(selectable(entries[j])->0, selectable(entries[i])->0));
    }
    if j < i {
        assert(more_urgent(selectable(entries[i])->0, selectable(entries[j])->0));
    }
}

/// Whether an entry offers a credit: it says that it is available, and has an id that is not
/// blank.
pub open spec fn is_offered(entry: JsonView) -> bool {
    &&& entry.field("status"@) == JsonView::Str("available"@)
    &&& entry.field("id"@) is Str
    &&& trimmed(entry.field("id"@).text()).len() > 0
}

/// The number under a key, with none at all later than every other.
pub open spec fn time_or_never(entry: JsonView, key: Seq<char>) -> int {
    match entry.field(key).as_i64() {
        Some(time) => time as int,
        None => i64::MAX as int,
    }
}

/// The credit that is chosen is one that an entry offers, with that entry's id, title,
/// description and times. No entry offers one that expires earlier, or that expires at the same
/// time and was granted earlier, or that ties with it in both and has an id that comes before.
pub proof fn law_chosen_credit_is_the_most_urgent_offered(
    usage: JsonView,
    i: int,
    credit: CreditView,
)
    requires
        is_best(credit_entries(usage), i),
        selectable(credit_entries(usage)[i]) == Some(credit),
    ensures
        ({
            let entries = usage.field("rateLimitResetCredits"@).field("credits"@).items();
            let chosen = entries[i];
            &&& 0 <= i < entries.len()
            &&& is_offered(chosen)
            &&& credit.id == trimmed(chosen.field("id"@).text())
            &&& credit.expires_at == chosen.field("expiresAt"@).as_i64()
            &&& credit.granted_at == chosen.field("grantedAt"@).as_i64()
            &&& credit.title matches Some(title) ==> chosen.field("title"@) is Str && title
                == trimmed(chosen.field("title"@).text()) && title.len() > 0
            &&& credit.title is None ==> !(chosen.field("title"@) is Str) || trimmed(
                chosen.field("title"@).text(),
            ).len() == 0
            &&& credit.description matches Some(told) ==> chosen.field("description"@) is Str
                && told == trimmed(chosen.field("description"@).text()) && told.len() > 0
            &&& credit.description is None ==> !(chosen.field("description"@) is Str) || trimmed(
                chosen.field("description"@).text(),
            ).len() == 0
            &&& forall|j: int|
                0 <= j < entries.len() && is_offered(#[trigger] entries[j]) ==> {
                    let other = entries[j];
                    let expiry = time_or_never(other, "expiresAt"@);
                    let grant = time_or_never(other, "grantedAt"@);
                    &&& time_or_never(chosen, "expiresAt"@) <= expiry
                    &&& time_or_never(chosen, "expiresAt"@) == expiry ==> time_or_never(
                        chosen,
                        "grantedAt"@,
                    ) <= grant
                    &&& time_or_never(chosen, "expiresAt"@) == expiry && time_or_never(
                        chosen,
                        "grantedAt"@,
                    ) == grant ==> !comes_before(trimmed(other.field("id"@).text()), credit.id)
                }
        }),
{
    let entries = credit_entries(usage);
    assert forall|j: int| 0 <= j < entries.len() && is_offered(#[trigger] entries[j]) implies {
        let expiry = time_or_never(entries[j], "expiresAt"@);
        let grant = time_or_never(entries[j], "grantedAt"@);
        &&& time_or_never(entries[i], "expiresAt"@) <= expiry
        &&& time_or_never(entries[i], "expiresAt"@) == expiry ==> time_or_never(
            entries[i],
            "grantedAt"@,
        ) <= grant
        &&& time_or_never(entries[i], "expiresAt"@) == expiry && time_or_never(
            entries[i],
            "grantedAt"@,
        ) == grant ==> !comes_before(trimmed(entries[j].field("id"@).text()), credit.id)
    } by {
        assert(!more_urgent(selectable(entries[j])->0, credit));
    }
}

/// There is a credit to choose just where an entry offers one.
pub proof fn law_a_credit_is_chosen_where_one_is_offered(usage: JsonView)
    ensures
        ({
            let entries = usage.field("rateLimitResetCredits"@).field("credits"@).items();
            (forall|i: int|
                0 <= i < credit_entries(usage).len() ==> selectable(
                    #[trigger] credit_entries(usage)[i],
                ) is None) <==> forall|i: int|
                0 <= i < entries.len() ==> !is_offered(#[trigger] entries[i])
        }),
{
    let entries = usage.field("rateLimitResetCredits"@).field("credits"@).items();
    assert(entries == credit_entries(usage));
    if forall|i: int| 0 <= i < entries.len() ==> selectable(#[trigger] entries[i]) is None {
        assert forall|i: int| 0 <= i < entries.len() implies !is_offered(#[trigger] entries[i]) by {
            assert(selectable(entries[i]) is None);
        }
    }
    if forall|i: int| 0 <= i < entries.len() ==> !is_offered(#[trigger] entries[i]) {
        assert forall|i: int| 0 <= i < entries.len() implies selectable(
            #[trigger] entries[i],
        ) is None by {
            assert(!is_offered(entries[i]));
        }
    }
}

/// What `select_best_rate_limit_reset_credit` promises: it chooses a credit just where one is
/// offered, and the one that it chooses is offered.
pub proof fn law_choice_is_among_the_offers(
    usage: &Json,
    selected: Result<RateLimitResetCredit, AppServerError>,
)
    requires
        call_ensures(select_best_rate_limit_reset_credit, (usage,), selected),
    ensures
        ({
            let entries = usage@.field("rateLimitResetCredits"@).field("credits"@).items();
            &&& selected is Ok <==> exists|i: int|
                0 <= i < entries.len() && is_offered(#[trigger] entries[i])
            &&& selected matches Ok(credit) ==> exists|i: int|
                0 <= i < entries.len() && is_offered(#[trigger] entries[i]) && credit.id@
                    == trimmed(entries[i].field("id"@).text()) && credit.expires_at
                    == entries[i].field("expiresAt"@).as_i64()
        }),
{
    let entries = usage@.field("rateLimitResetCredits"@).field("credits"@).items();
    assert(entries == credit_entries(usage@));
    law_a_credit_is_chosen_where_one_is_offered(usage@);
    if let Ok(credit) = selected {
        let i = choose|i: int|
            is_best(entries, i) && selectable(entries[i]) == Some(credit@);
        law_chosen_credit_is_the_most_urgent_offered(usage@, i, credit@);
        assert(is_offered(entries[i]));
    }
}

/// An entry that offers nothing has no bearing on the choice: it may be any other such entry.
pub proof fn law_entries_without_an_offer_do_not_matter(
    entries: Seq<JsonView>,
    i: int,
    j: int,
    other: JsonView,
)
    requires
        is_best(entries, i),
        0 <= j < entries.len(),
        !is_offered(entries[j]),
        !is_offered(other),
    ensures
        is_best(entries.update(j, other), i),
        entries.update(j, other)[i] == entries[i],
{
    let changed = entries.update(j, other);
    assert(i != j);
    assert forall|k: int| 0 <= k < changed.len() && selectable(#[trigger] changed[k]) is Some implies
        !more_urgent(selectable(changed[k])->0, selectable(changed[i])->0) && (k < i
        ==> more_urgent(selectable(changed[i])->0, selectable(changed[k])->0)) by {
        assert(k != j);
        assert(changed[k] == entries[k]);
    }
}

} // verus!
