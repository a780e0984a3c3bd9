//! What holds of the editor as a whole, proved from the model.

use vstd::prelude::*;
use crate::event::{step, EventView};
use crate::item::ItemView;
use crate::model::{lemma_max_id, max_id, other_than, unique_ids, AddError, AppView};
use crate::retain::{
    is_marked,
    kept_positions,
    lemma_kept_positions,
    lemma_retained_by_position,
    retained,
    unmarked,
};
use crate::text::{blank, lemma_trimmed_empty_iff_blank};

verus! {

/// One operation on the editor's state: each way in which the state can
/// change.
pub ghost enum Op {
    /// [`crate::store::TodoApp::append`]
    Append { text: Seq<char> },
    /// [`crate::store::TodoApp::add`]
    Add { text: Seq<char> },
    /// [`crate::store::TodoApp::toggle_complete`]
    ToggleComplete { id: u32 },
    /// [`crate::store::TodoApp::set_description`]
    SetDescription { id: u32, text: Seq<char> },
    /// [`crate::store::TodoApp::remove`]
    Remove { id: u32 },
    /// [`crate::store::TodoApp::replace_all`]
    ReplaceAll { items: Seq<ItemView> },
    /// [`crate::store::TodoApp::apply`]
    Apply { event: EventView },
}

impl Op {
    /// The operation replaces the whole list, directly or as an event.
    pub open spec fn loads(self) -> bool {
        self is ReplaceAll || (self matches Op::Apply { event } && event is Loaded)
    }
}

/// The state after `op` in state `s`.
pub open spec fn perform(s: AppView, op: Op) -> AppView {
    match op {
        Op::Append { text } => s.append(text),
        Op::Add { text } => s.add(text),
        Op::ToggleComplete { id } => s.toggle_complete(id),
        Op::SetDescription { id, text } => s.set_description(id, text),
        Op::Remove { id } => s.remove(id),
        Op::ReplaceAll { items } => s.replace_all(items),
        Op::Apply { event } => step(s, event),
    }
}

/// The identifier that `op` gives to a new entry in state `s`, if it adds
/// one.
pub open spec fn handed_out(s: AppView, op: Op) -> Option<u32> {
    match op {
        Op::Append { text } => match s.append_outcome(text) {
            Ok(id) => Some(id),
            Err(_) => None,
        },
        Op::Add { text } => match s.add_outcome(text) {
            Ok(id) => Some(id),
            Err(_) => None,
        },
        Op::Apply { event: EventView::AddConfirmed } => if s.showing_add_item_input {
            match s.add_outcome(s.input) {
                Ok(id) => Some(id),
                Err(_) => None,
            }
        } else {
            None
        },
        _ => None,
    }
}

/// The state after the operations `ops`, one after the other, from `s`.
pub open spec fn run(s: AppView, ops: Seq<Op>) -> AppView
    decreases ops.len(),
{
    if ops.len() == 0 {
        s
    } else {
        perform(run(s, ops.drop_last()), ops.last())
    }
}

/// The identifiers that the operations `ops` hand out from state `s`, in
/// the order in which they do.
pub open spec fn ids_handed_out(s: AppView, ops: Seq<Op>) -> Seq<u32>
    decreases ops.len(),
{
    if ops.len() == 0 {
        Seq::empty()
    } else {
        match handed_out(run(s, ops.drop_last()), ops.last()) {
            Some(id) => ids_handed_out(s, ops.drop_last()).push(id),
            None => ids_handed_out(s, ops.drop_last()),
        }
    }
}

/// Dropping entries keeps the identifiers of the rest below any bound that
/// held before, and distinct if they were.
proof fn lemma_retained_ids(items: Seq<ItemView>, keep: spec_fn(int) -> bool, bound: nat)
    requires
        forall|i: int| 0 <= i < items.len() ==> (#[trigger] items[i]).id < bound,
    ensures
        forall|j: int|
            0 <= j < retained(items, keep).len() ==> (#[trigger] retained(items, keep)[j]).id
                < bound,
        unique_ids(items) ==> unique_ids(retained(items, keep)),
{
    // Each entry that stays is the entry at one of the kept positions, and
    // those positions increase.
    lemma_retained_by_position(items, keep);
    lemma_kept_positions(items.len(), keep);
}

/// Any operation keeps the state valid.  One that does not load hands out
/// the next identifier or none, moves the counter on by as much, brings in
/// no other identifier, and keeps identifiers distinct if they were.
pub proof fn law_one_operation(s: AppView, op: Op)
    requires
        s.valid(),
    ensures
        perform(s, op).valid(),
        !op.loads() ==> match handed_out(s, op) {
            Some(id) => id == s.next_id && perform(s, op).next_id == s.next_id + 1,
            None => perform(s, op).next_id == s.next_id,
        },
        !op.loads() && unique_ids(s.items) ==> unique_ids(perform(s, op).items),
{
    let after = perform(s, op);
    match op {
        Op::ReplaceAll { items } => {
            lemma_max_id(items);
        },
        Op::Apply { event: EventView::Loaded { items } } => {
            lemma_max_id(items);
        },
        Op::Remove { id } => {
            lemma_retained_ids(s.items, other_than(s.items, id), s.next_id);
        },
        Op::Apply { event: EventView::RowsDrawn { marked } } => {
            lemma_retained_ids(s.items, unmarked(marked), s.next_id);
        },
        _ => {
            // No entry changes its identifier, and one that is appended gets
            // the next one, above all that are in use.
            assert forall|j: int| 0 <= j < after.items.len() implies (#[trigger] after.items[j]).id
                < after.next_id by {
                if j < s.items.len() {
                    assert(after.items[j].id == s.items[j].id);
                }
            }
            if unique_ids(s.items) {
                assert forall|a: int, b: int| 0 <= a < b < after.items.len() implies (
                #[trigger] after.items[a]).id != (#[trigger] after.items[b]).id by {
                    assert(after.items[a].id == s.items[a].id);
                    if b < s.items.len() {
                        assert(after.items[b].id == s.items[b].id);
                    }
                }
            }
        },
    }
}

/// Identifiers are handed out in strictly increasing order: over any
/// sequence of operations that never replaces the list, each identifier
/// handed out is larger than those handed out before it and than every
/// identifier that was in use at the start, so none is ever repeated.
pub proof fn law_ids_strictly_increase(s: AppView, ops: Seq<Op>)
    requires
        s.valid(),
        forall|k: int| 0 <= k < ops.len() ==> !(#[trigger] ops[k]).loads(),
    ensures
        run(s, ops).valid(),
        run(s, ops).next_id == s.next_id + ids_handed_out(s, ops).len(),
        forall|a: int|
            0 <= a < ids_handed_out(s, ops).len() ==> (#[trigger] ids_handed_out(s, ops)[a])
                == s.next_id + a,
        forall|a: int, b: int|
            0 <= a < b < ids_handed_out(s, ops).len() ==> (#[trigger] ids_handed_out(s, ops)[a])
                < (#[trigger] ids_handed_out(s, ops)[b]),
        forall|a: int, i: int|
            0 <= a < ids_handed_out(s, ops).len() && 0 <= i < s.items.len() ==> (
            #[trigger] s.items[i]).id < (#[trigger] ids_handed_out(s, ops)[a]),
        unique_ids(s.items) ==> unique_ids(run(s, ops).items),
    decreases ops.len(),
{
    if ops.len() > 0 {
        let front = ops.drop_last();
        law_ids_strictly_increase(s, front);
        law_one_operation(run(s, front), ops.last());
    }
}

/// After a list has been loaded, the next entry added receives one more
/// than the largest identifier loaded, provided that such an identifier
/// exists; after an empty list, identifiers start again at 1.
pub proof fn law_add_after_load(s: AppView, items: Seq<ItemView>, text: Seq<char>)
    requires
        !blank(text),
        max_id(items) < u32::MAX,
    ensures
        s.replace_all(items).add_outcome(text) == Ok::<u32, AddError>((max_id(items) + 1) as u32),
        s.replace_all(items).add(text).items.last().id == max_id(items) + 1,
        items.len() == 0 ==> s.replace_all(items).next_id == 1,
        forall|i: int| 0 <= i < items.len() ==> (#[trigger] items[i]).id <= max_id(items),
        items.len() > 0 ==> exists|i: int|
            0 <= i < items.len() && (#[trigger] items[i]).id == max_id(items),
{
    lemma_trimmed_empty_iff_blank(text);
    lemma_max_id(items);
}

/// Loading the entries that the editor holds gives back the same entries in
/// the same order.  The counter then stands one past the largest identifier
/// among them, which is no later than where it stood.
pub proof fn law_reload_keeps_entries(s: AppView)
    requires
        s.valid(),
    ensures
        s.replace_all(s.items).items == s.items,
        s.replace_all(s.items).next_id == max_id(s.items) + 1,
        s.replace_all(s.items).next_id <= s.next_id,
        s.replace_all(s.items).valid(),
{
    lemma_max_id(s.items);
}

/// Removing marked positions removes exactly the entries at those
/// positions: what is left are the entries at the positions not marked,
/// each once and in the order they had, however many positions are marked.
/// Nothing else of the state changes.
pub proof fn law_remove_marked(s: AppView, marked: Seq<usize>)
    ensures
        s.remove_marked(marked) == (AppView { items: s.remove_marked(marked).items, ..s }),
        s.remove_marked(marked).items.len() == kept_positions(
            s.items.len(),
            unmarked(marked),
        ).len(),
        forall|j: int|
            0 <= j < s.remove_marked(marked).items.len() ==> #[trigger] s.remove_marked(
                marked,
            ).items[j] == s.items[kept_positions(s.items.len(), unmarked(marked))[j]],
        forall|j: int|
            0 <= j < kept_positions(s.items.len(), unmarked(marked)).len() ==> 0
                <= #[trigger] kept_positions(s.items.len(), unmarked(marked))[j] < s.items.len()
                && !is_marked(marked, kept_positions(s.items.len(), unmarked(marked))[j]),
        forall|a: int, b: int|
            0 <= a < b < kept_positions(s.items.len(), unmarked(marked)).len()
                ==> #[trigger] kept_positions(s.items.len(), unmarked(marked))[a]
                < #[trigger] kept_positions(s.items.len(), unmarked(marked))[b],
        forall|i: int|
            0 <= i < s.items.len() && !#[trigger] is_marked(marked, i) ==> exists|j: int|
                0 <= j < kept_positions(s.items.len(), unmarked(marked)).len()
                    && #[trigger] kept_positions(s.items.len(), unmarked(marked))[j] == i,
{
    let keep = unmarked(marked);
    let kept = kept_positions(s.items.len(), keep);
    lemma_retained_by_position(s.items, keep);
    lemma_kept_positions(s.items.len(), keep);
    assert forall|i: int| 0 <= i < s.items.len() && !#[trigger] is_marked(marked, i) implies exists|
        j: int,
    |
        0 <= j < kept.len() && #[trigger] kept[j] == i by {
        assert(keep(i));
    }
}

/// Adding text that holds nothing but white space changes nothing: not the
/// entries, not the "new item" field, not whether its row is shown.
pub proof fn law_blank_add_is_no_op(s: AppView, text: Seq<char>)
    requires
        blank(text),
    ensures
        s.add_outcome(text) == Err::<u32, AddError>(AddError::Blank),
        s.add(text) == s,
        blank(s.input) ==> s.confirm_add() == s,
{
    lemma_trimmed_empty_iff_blank(text);
    lemma_trimmed_empty_iff_blank(s.input);
}

} // verus!
