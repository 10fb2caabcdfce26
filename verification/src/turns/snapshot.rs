use vstd::prelude::*;

use crate::errors::AppServerError;
use crate::json::{Json, JsonView};
use crate::turns::assistant::EntryView;
use crate::turns::registry::{
    is_agent_message, item_limit_message, AssistantResponses, RegistryView,
};

verus! {

/// The accumulator that a wait goes on with: it keeps texts only where progress is kept.
pub fn assistant_for_wait(assistant: AssistantResponses, retain_progress: bool) -> (waiting:
    AssistantResponses)
    requires
        assistant.wf(),
    ensures
        waiting.wf(),
        waiting@.aliases == assistant@.aliases,
        retain_progress ==> waiting@ == assistant@,
        !retain_progress ==> !waiting@.retain_text && waiting@.items
            == assistant@.items.map_values(
            |entry: EntryView| EntryView { text: Seq::empty(), ..entry },
        ),
{
    let mut waiting = assistant;
    if !retain_progress {
        waiting.stop_retaining_text();
    }
    waiting
}

/// The registry after the first `n` items of a snapshot turn were seeded; `None` once there
/// was an item too many.
pub open spec fn seeded_items(
    registry: Option<RegistryView>,
    items: Seq<JsonView>,
    n: nat,
) -> Option<RegistryView>
    decreases n,
{
    if n == 0 {
        registry
    } else {
        match seeded_items(registry, items, (n - 1) as nat) {
            Some(seeded) => if is_agent_message(items[n - 1]) {
                seeded.seeded(
                    items[n - 1].field("id"@).as_str(),
                    items[n - 1].field("text"@).text(),
                )
            } else {
                Some(seeded)
            },
            None => None,
        }
    }
}

/// The registry after the first `n` turns of a snapshot were looked at for the watched one.
pub open spec fn seeded_turns(turns: Seq<JsonView>, turn_id: Seq<char>, n: nat) -> Option<
    RegistryView,
>
    decreases n,
{
    if n == 0 {
        Some(RegistryView::empty())
    } else {
        let before = seeded_turns(turns, turn_id, (n - 1) as nat);
        let turn = turns[n - 1];
        if turn.field("id"@).as_str() == Some(turn_id) {
            let items = turn.field("items"@).items();
            seeded_items(before, items, items.len())
        } else {
            before
        }
    }
}

/// The registry that a thread snapshot implies for a turn.
pub open spec fn seed_of_snapshot(thread: JsonView, turn_id: Seq<char>) -> Option<RegistryView> {
    let turns = thread.field("turns"@).items();
    seeded_turns(turns, turn_id, turns.len())
}

proof fn lemma_seeded_items_none(
    registry: Option<RegistryView>,
    items: Seq<JsonView>,
    n: nat,
    m: nat,
)
    requires
        n <= m,
        seeded_items(registry, items, n) is None,
    ensures
        seeded_items(registry, items, m) is None,
    decreases m,
{
    if n < m {
        lemma_seeded_items_none(registry, items, n, (m - 1) as nat);
    }
}

proof fn lemma_seeded_turns_none(turns: Seq<JsonView>, turn_id: Seq<char>, n: nat, m: nat)
    requires
        n <= m,
        seeded_turns(turns, turn_id, n) is None,
    ensures
        seeded_turns(turns, turn_id, m) is None,
    decreases m,
{
    if n < m {
        lemma_seeded_turns_none(turns, turn_id, n, (m - 1) as nat);
        let items = turns[m - 1].field("items"@).items();
        lemma_seeded_items_none(None, items, 0, items.len());
    }
}

/// Seeds the agent messages of one snapshot turn. Empty ones are seeded too: positions in the
/// turn align polled items with live entries, so a gap would misalign them.
fn seed_turn(assistant: &mut AssistantResponses, turn: &Json) -> (seeded: Result<
    (),
    AppServerError,
>)
    requires
        old(assistant).wf(),
    ensures
        final(assistant).wf(),
        ({
            let items = turn@.field("items"@).items();
            match seeded {
                Ok(()) => seeded_items(Some(old(assistant)@), items, items.len()) == Some(
                    final(assistant)@,
                ),
                Err(error) => {
                    &&& seeded_items(Some(old(assistant)@), items, items.len()) is None
                    &&& error.message@ == item_limit_message()
                },
            }
        }),
{
    let items = match turn.field("items").as_array() {
        Some(items) => items,
        None => {
            return Ok(());
        },
    };
    let ghost views = turn@.field("items"@).items();
    let mut i: usize = 0;
    while i < items.len()
        invariant
            i <= items@.len(),
            views == items@.map_values(|j: Json| j@),
            views == turn@.field("items"@).items(),
            assistant.wf(),
            seeded_items(Some(old(assistant)@), views, i as nat) == Some(assistant@),
        decreases items@.len() - i,
    {
        let item = &items[i];
        assert(views[i as int] == item@);
        i += 1;
        if !item.field("type").is_text("agentMessage") {
            continue;
        }
        let text = match item.field("text").as_str() {
            Some(text) => text,
            None => "",
        };
        proof {
            reveal_strlit("");
            assert(text@ =~= item@.field("text"@).text());
        }
        match assistant.seed_snapshot_item(item.field("id").as_str(), text) {
            Ok(()) => {},
            Err(error) => {
                proof {
                    lemma_seeded_items_none(
                        Some(old(assistant)@),
                        views,
                        i as nat,
                        views.len(),
                    );
                }
                return Err(error);
            },
        }
    }
    Ok(())
}

/// Builds the accumulator that a thread snapshot implies, so that a wait starts from the view
/// of the turn that the snapshot describes. Without it the first poll would emit anew the
/// full text of every item in the snapshot.
pub fn assistant_seed_from_thread_snapshot(thread: &Json, turn_id: &str) -> (seed: Result<
    AssistantResponses,
    AppServerError,
>)
    ensures
        match seed {
            Ok(assistant) => assistant.wf() && seed_of_snapshot(thread@, turn_id@) == Some(
                assistant@,
            ),
            Err(error) => seed_of_snapshot(thread@, turn_id@) is None && error.message@
                == item_limit_message(),
        },
{
    let mut assistant = AssistantResponses::new();
    let turns = match thread.field("turns").as_array() {
        Some(turns) => turns,
        None => {
            return Ok(assistant);
        },
    };
    let ghost views = thread@.field("turns"@).items();
    let mut i: usize = 0;
    while i < turns.len()
        invariant
            i <= turns@.len(),
            views == turns@.map_values(|j: Json| j@),
            views == thread@.field("turns"@).items(),
            assistant.wf(),
            seeded_turns(views, turn_id@, i as nat) == Some(assistant@),
        decreases turns@.len() - i,
    {
        let turn = &turns[i];
        assert(views[i as int] == turn@);
        i += 1;
        if !turn.field("id").is_text(turn_id) {
            continue;
        }
        match seed_turn(&mut assistant, turn) {
            Ok(()) => {},
            Err(error) => {
                proof {
                    lemma_seeded_turns_none(views, turn_id@, i as nat, views.len());
                }
                return Err(error);
            },
        }
    }
    Ok(assistant)
}

} // verus!
