use vstd::prelude::*;

use crate::errors::{app_server_error, AppServerError};
use crate::json::{Json, JsonView};
use crate::text::{concat3, concat5, decimal, decimal_text, text_view};
use crate::turns::buffers::json_views;
use crate::turns::events::{reject_unknown_turn_status, reported_status, status_fault, turn_status};
use crate::turns::poll::{find_turn, is_first_with_id};
use crate::turns::registry::{
    item_limit_message, responses_json, synced_turn, AssistantResponses, RegistryView,
};

verus! {

/// How many turns one page of a search has at most.
pub const TURN_RESULT_PAGE_LIMIT: u32 = 100;

/// A search for a turn among the most recent ones of a thread, page by page.
pub struct TurnSearch {
    pub thread_id: String,
    pub turn_id: String,
    pub max_turns: u32,
    pub scanned: u32,
    pub cursor: Option<String>,
}

/// What a page of turns leads to.
pub enum SearchStep {
    /// The turn was found.
    Found(Json),
    /// There are no more turns to look at.
    Exhausted,
    /// There may be another page.
    More,
}

/// The mathematical value of a [`SearchStep`].
pub enum SearchView {
    Found(JsonView),
    Exhausted,
    More,
}

impl View for SearchStep {
    type V = SearchView;

    open spec fn view(&self) -> SearchView {
        match self {
            SearchStep::Found(turn) => SearchView::Found(turn@),
            SearchStep::Exhausted => SearchView::Exhausted,
            SearchStep::More => SearchView::More,
        }
    }
}

/// The lesser of two numbers.
pub open spec fn lesser(a: int, b: int) -> int {
    if a <= b {
        a
    } else {
        b
    }
}

/// The parameters of a page request.
pub open spec fn page_params(
    thread_id: Seq<char>,
    limit: int,
    cursor: Option<Seq<char>>,
) -> JsonView {
    let params = JsonView::empty_object().with("threadId"@, JsonView::Str(thread_id)).with(
        "limit"@,
        JsonView::Number { text: decimal(limit), integer: Some(limit as i64) },
    ).with("sortDirection"@, JsonView::Str("desc"@)).with("itemsView"@, JsonView::Str("full"@));
    match cursor {
        Some(cursor) => params.with("cursor"@, JsonView::Str(cursor)),
        None => params,
    }
}

/// What a page of turns leads to, when `remaining` more turns may be looked at: how many of
/// them were, and the next step, or what is wrong with the page.
pub open spec fn page_outcome(
    turn_id: Seq<char>,
    cursor: Option<Seq<char>>,
    remaining: int,
    result: JsonView,
) -> Result<(int, SearchView), Seq<char>> {
    match result.field("data"@).as_array() {
        None => Err("thread/turns/list response missing data array"@),
        Some(turns) => {
            let inspected = lesser(turns.len() as int, remaining);
            if exists|i: int| i < inspected && is_first_with_id(turns, turn_id, i) {
                let i = choose|i: int| i < inspected && is_first_with_id(turns, turn_id, i);
                Ok((0, SearchView::Found(turns[i])))
            } else {
                match result.field("nextCursor"@) {
                    JsonView::Null => Ok((inspected, SearchView::Exhausted)),
                    JsonView::Str(next) => if inspected == 0 {
                        Err(
                            "thread/turns/list returned an empty turn page with a next cursor while searching for turn `"@
                                + turn_id + "`"@,
                        )
                    } else if cursor == Some(next) {
                        Err(
                            "thread/turns/list repeated cursor `"@ + next
                                + "` while searching for turn `"@ + turn_id + "`"@,
                        )
                    } else {
                        Ok((inspected, SearchView::More))
                    },
                    _ => Err(
                        "thread/turns/list response nextCursor must be a string or null"@,
                    ),
                }
            }
        },
    }
}

/// What a search that found nothing fails with.
pub open spec fn not_found_message(
    turn_id: Seq<char>,
    scanned: int,
    max_turns: int,
    thread_id: Seq<char>,
) -> Seq<char> {
    "turn `"@ + turn_id + "` was not found after scanning "@ + decimal(scanned) + " of at most "@
        + decimal(max_turns) + " recent turns in thread `"@ + thread_id + "`"@
}

/// A search passes over nothing: where a page leads on, or to the end, as many of its turns were
/// looked at as it has and as may be, and none of them is the one that is searched for.
pub proof fn law_search_passes_over_nothing(
    turn_id: Seq<char>,
    cursor: Option<Seq<char>>,
    remaining: int,
    result: JsonView,
)
    ensures
        page_outcome(turn_id, cursor, remaining, result) matches Ok((inspected, step)) ==> {
            let turns = result.field("data"@).items();
            step matches SearchView::Found(turn) || {
                &&& inspected == lesser(turns.len() as int, remaining)
                &&& forall|i: int|
                    0 <= i < inspected ==> (#[trigger] turns[i]).field("id"@).as_str() != Some(
                        turn_id,
                    )
            }
        },
{
    let turns = result.field("data"@).items();
    let inspected = lesser(turns.len() as int, remaining);
    if !(exists|i: int| i < inspected && is_first_with_id(turns, turn_id, i)) {
        assert forall|i: int| 0 <= i < inspected implies (#[trigger] turns[i]).field(
            "id"@,
        ).as_str() != Some(turn_id) by {
            lemma_none_first(turns, turn_id, inspected, i);
        }
    }
}

proof fn lemma_none_first(turns: Seq<JsonView>, turn_id: Seq<char>, inspected: int, i: int)
    requires
        0 <= i < inspected <= turns.len(),
        forall|k: int| k < inspected ==> !is_first_with_id(turns, turn_id, k),
    ensures
        forall|j: int|
            0 <= j <= i ==> (#[trigger] turns[j]).field("id"@).as_str() != Some(turn_id),
    decreases i,
{
    if i > 0 {
        lemma_none_first(turns, turn_id, inspected, i - 1);
    }
    assert(!is_first_with_id(turns, turn_id, i));
}

impl TurnSearch {
    /// No more turns were looked at than may be.
    pub open spec fn wf(self) -> bool {
        self.scanned <= self.max_turns
    }

    pub fn new(thread_id: &str, turn_id: &str, max_turns: u32) -> (search: TurnSearch)
        ensures
            search.wf(),
            search.thread_id@ == thread_id@,
            search.turn_id@ == turn_id@,
            search.max_turns == max_turns,
            search.scanned == 0,
            search.cursor is None,
    {
        TurnSearch {
            thread_id: thread_id.to_owned(),
            turn_id: turn_id.to_owned(),
            max_turns,
            scanned: 0,
            cursor: None,
        }
    }

    /// The parameters of the next page request, where more turns may be looked at.
    pub fn next_page(&self) -> (params: Option<Json>)
        requires
            self.wf(),
        ensures
            match params {
                Some(params) => self.scanned < self.max_turns && params@ == page_params(
                    self.thread_id@,
                    lesser(self.max_turns - self.scanned, TURN_RESULT_PAGE_LIMIT as int),
                    text_view(self.cursor),
                ),
                None => self.scanned == self.max_turns,
            },
    {
        let remaining = self.max_turns - self.scanned;
        if remaining == 0 {
            return None;
        }
        let limit: u32 = if remaining <= TURN_RESULT_PAGE_LIMIT {
            remaining
        } else {
            TURN_RESULT_PAGE_LIMIT
        };
        let mut params = Json::object().with(
            "threadId",
            Json::string(self.thread_id.as_str()),
        ).with("limit", Json::integer(limit as i64)).with(
            "sortDirection",
            Json::string("desc"),
        ).with("itemsView", Json::string("full"));
        if let Some(cursor) = &self.cursor {
            params.set("cursor", Json::string(cursor.as_str()));
        }
        Some(params)
    }

    /// Takes the answer to a page request. Where there may be another page, more turns were
    /// looked at than before, so that a search comes to an end.
    pub fn take_page(&mut self, result: &Json) -> (step: Result<SearchStep, AppServerError>)
        requires
            old(self).wf(),
        ensures
            final(self).wf(),
            final(self).thread_id == old(self).thread_id,
            final(self).turn_id == old(self).turn_id,
            final(self).max_turns == old(self).max_turns,
            match step {
                Ok(step) => {
                    let outcome = page_outcome(
                        old(self).turn_id@,
                        text_view(old(self).cursor),
                        old(self).max_turns - old(self).scanned,
                        result@,
                    );
                    &&& outcome matches Ok((inspected, view)) && view == step@
                        && final(self).scanned == old(self).scanned + inspected
                    &&& step is More ==> final(self).scanned > old(self).scanned && text_view(
                        final(self).cursor,
                    ) == result@.field("nextCursor"@).as_str()
                    &&& !(step is More) ==> final(self).cursor == old(self).cursor
                },
                Err(error) => {
                    &&& page_outcome(
                        old(self).turn_id@,
                        text_view(old(self).cursor),
                        old(self).max_turns - old(self).scanned,
                        result@,
                    ) == Err::<(int, SearchView), Seq<char>>(error.message@)
                    &&& final(self).cursor == old(self).cursor
                    &&& final(self).scanned == old(self).scanned + lesser(
                        result@.field("data"@).items().len() as int,
                        old(self).max_turns - old(self).scanned,
                    )
                },
            },
    {
        let remaining = self.max_turns - self.scanned;
        let turns = match result.field("data").as_array() {
            Some(turns) => turns,
            None => {
                return Err(app_server_error("thread/turns/list response missing data array"));
            },
        };
        let ghost views = json_views(turns@);
        assert(result@.field("data"@).as_array() == Some(views));
        let inspected: usize = if turns.len() <= remaining as usize {
            turns.len()
        } else {
            remaining as usize
        };
        if let Some(i) = find_turn(turns, self.turn_id.as_str(), inspected) {
            proof {
                let k = choose|k: int| k < inspected && is_first_with_id(views, self.turn_id@, k);
                assert(i < inspected && is_first_with_id(views, self.turn_id@, i as int));
                if k < i {
                    assert(views[k].field("id"@).as_str() != Some(self.turn_id@));
                }
                if i < k {
                    assert(views[i as int].field("id"@).as_str() != Some(self.turn_id@));
                }
                assert(views[i as int] == turns@[i as int]@);
            }
            return Ok(SearchStep::Found(turns[i].duplicate()));
        }
        proof {
            assert forall|i: int| i < inspected implies !is_first_with_id(
                views,
                self.turn_id@,
                i,
            ) by {
                if 0 <= i < views.len() {
                    assert(views[i].field("id"@).as_str() != Some(self.turn_id@));
                }
            }
        }
        self.scanned = self.scanned + inspected as u32;
        let next = result.field("nextCursor");
        if next.is_null() {
            return Ok(SearchStep::Exhausted);
        }
        let next = match next.as_str() {
            Some(next) => next,
            None => {
                return Err(
                    app_server_error(
                        "thread/turns/list response nextCursor must be a string or null",
                    ),
                );
            },
        };
        if inspected == 0 {
            return Err(
                AppServerError {
                    message: concat3(
                        "thread/turns/list returned an empty turn page with a next cursor while searching for turn `",
                        self.turn_id.as_str(),
                        "`",
                    ),
                },
            );
        }
        if crate::text::text_is(&self.cursor, next) {
            return Err(
                AppServerError {
                    message: concat5(
                        "thread/turns/list repeated cursor `",
                        next,
                        "` while searching for turn `",
                        self.turn_id.as_str(),
                        "`",
                    ),
                },
            );
        }
        self.cursor = Some(next.to_owned());
        Ok(SearchStep::More)
    }

    pub fn not_found_error(&self) -> (error: AppServerError)
        ensures
            error.message@ == not_found_message(
                self.turn_id@,
                self.scanned as int,
                self.max_turns as int,
                self.thread_id@,
            ),
    {
        let scanned = decimal_text(self.scanned as i64);
        let most = decimal_text(self.max_turns as i64);
        let mut message = concat5(
            "turn `",
            self.turn_id.as_str(),
            "` was not found after scanning ",
            scanned.as_str(),
            " of at most ",
        );
        message.append(most.as_str());
        message.append(" recent turns in thread `");
        message.append(self.thread_id.as_str());
        message.append("`");
        AppServerError { message }
    }
}

/// The report of a turn that was found, or what is wrong with it.
pub open spec fn turn_result_view(
    server: Seq<char>,
    thread_id: Seq<char>,
    turn_id: Seq<char>,
    turn: JsonView,
) -> Result<JsonView, Seq<char>> {
    let sync = synced_turn(RegistryView::empty(), turn);
    match status_fault(turn) {
        Some(fault) => Err(fault),
        None => if sync.failed {
            Err(item_limit_message())
        } else {
            Ok(
                JsonView::empty_object().with("server"@, JsonView::Str(server)).with(
                    "threadId"@,
                    JsonView::Str(thread_id),
                ).with("turnId"@, JsonView::Str(turn_id)).with(
                    "status"@,
                    JsonView::Str(reported_status(turn)),
                ).with(
                    "assistantResponses"@,
                    JsonView::Array(responses_json(sync.registry.items)),
                ).with(
                    "finalAssistantText"@,
                    JsonView::Str(sync.registry.final_text()),
                ).with("turn"@, turn),
            )
        },
    }
}

pub fn read_turn_result(server: &str, thread_id: &str, turn_id: &str, turn: &Json) -> (report: Result<
    Json,
    AppServerError,
>)
    ensures
        match report {
            Ok(report) => turn_result_view(server@, thread_id@, turn_id@, turn@) == Ok::<
                JsonView,
                Seq<char>,
            >(report@),
            Err(error) => turn_result_view(server@, thread_id@, turn_id@, turn@) == Err::<
                JsonView,
                Seq<char>,
            >(error.message@),
        },
{
    if let Err(error) = reject_unknown_turn_status(turn) {
        return Err(error);
    }
    let mut assistant = AssistantResponses::new();
    if let Err(error) = assistant.sync_from_turn(turn) {
        return Err(error);
    }
    let status = turn_status(turn);
    let responses = Json::Array(assistant.to_json());
    assert(responses@->Array_0 =~= responses_json(assistant@.items));
    Ok(
        Json::object().with("server", Json::string(server)).with(
            "threadId",
            Json::string(thread_id),
        ).with("turnId", Json::string(turn_id)).with("status", Json::string(status)).with(
            "assistantResponses",
            responses,
        ).with("finalAssistantText", Json::Str(assistant.final_text())).with(
            "turn",
            turn.duplicate(),
        ),
    )
}

} // verus!
