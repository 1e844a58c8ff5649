//! What holds of every list and every entry, stated over the same models that
//! the operations' contracts use.

use vstd::prelude::*;
use crate::clock::Timestamp;
use crate::list::{completed_at, reactivated_at, select, ListFilter};
use crate::todo::{TodoState, TodoView};

verus! {

/// The list that results from adding the given titles one after the other to
/// an empty list, each at the instant paired with it.
pub open spec fn added(entries: Seq<(Seq<char>, Timestamp)>) -> Seq<TodoView>
    decreases entries.len(),
{
    if entries.len() == 0 {
        Seq::empty()
    } else {
        added(entries.drop_last()).push(TodoView::created(entries.last().0, entries.last().1))
    }
}

/// A new entry is active, has no finishing instant and carries the title it
/// was given.
pub proof fn lemma_created_is_active(title: Seq<char>, now: Timestamp)
    ensures
        TodoView::created(title, now).state == TodoState::Active,
        TodoView::created(title, now).date_finished is None,
        TodoView::created(title, now).title == title,
        TodoView::created(title, now).date_created == now,
        TodoView::created(title, now).wf(),
{
}

/// A transition changes neither the title nor the creation instant, and it
/// leaves the entry with a finishing instant exactly when it is complete.
pub proof fn lemma_transition_keeps_identity(t: TodoView, state: TodoState, now: Timestamp)
    ensures
        t.with_state(state, now).title == t.title,
        t.with_state(state, now).date_created == t.date_created,
        t.with_state(state, now).state == state,
        t.with_state(state, now).wf(),
{
}

/// Completing an entry at an instant that is not before its creation leaves
/// it complete, with a finishing instant that is not before its creation.
pub proof fn lemma_completed_not_before_created(todos: Seq<TodoView>, index: int, now: Timestamp)
    requires
        0 <= index < todos.len(),
        now.at_or_after(todos[index].date_created),
    ensures
        completed_at(todos, index, now)[index].state == TodoState::Complete,
        completed_at(todos, index, now)[index].date_finished is Some,
        completed_at(todos, index, now)[index].date_finished->0.at_or_after(
            completed_at(todos, index, now)[index].date_created,
        ),
{
}

/// Reopening an entry leaves it active and without a finishing instant,
/// whatever its state was, and touches no other entry.
pub proof fn lemma_reactivated_is_active(todos: Seq<TodoView>, index: int)
    requires
        0 <= index < todos.len(),
    ensures
        reactivated_at(todos, index).len() == todos.len(),
        reactivated_at(todos, index)[index].state == TodoState::Active,
        reactivated_at(todos, index)[index].date_finished is None,
        forall|j: int|
            0 <= j < todos.len() && j != index ==> reactivated_at(todos, index)[j] == todos[j],
{
}

/// Completing an entry twice is the same as completing it once at the later
/// call's instant: the entry stays complete and its finishing instant is that
/// of the last call.
pub proof fn lemma_complete_twice(
    todos: Seq<TodoView>,
    index: int,
    first: Timestamp,
    second: Timestamp,
)
    ensures
        completed_at(completed_at(todos, index, first), index, second) == completed_at(
            todos,
            index,
            second,
        ),
{
    assert(completed_at(completed_at(todos, index, first), index, second) =~= completed_at(
        todos,
        index,
        second,
    ));
}

/// Reopening a completed entry and reopening it as it stood come to the same
/// list, so completing and reopening an active entry restores the list.
pub proof fn lemma_reactivate_after_complete(todos: Seq<TodoView>, index: int, now: Timestamp)
    ensures
        reactivated_at(completed_at(todos, index, now), index) == reactivated_at(todos, index),
        0 <= index < todos.len() && todos[index].state == TodoState::Active
            && todos[index].wf() ==> reactivated_at(completed_at(todos, index, now), index)
            == todos,
{
    assert(reactivated_at(completed_at(todos, index, now), index) =~= reactivated_at(
        todos,
        index,
    ));
    if 0 <= index < todos.len() && todos[index].state == TodoState::Active && todos[index].wf() {
        assert(todos[index].reactivated() == todos[index]);
        assert(reactivated_at(todos, index) =~= todos);
    }
}

/// Nothing is selected from the empty list.
pub proof fn lemma_select_empty(filter: ListFilter)
    ensures
        select(Seq::empty(), filter) == Seq::<TodoView>::empty(),
{
    reveal(Seq::filter);
}

/// Selecting from a list extended by one entry: the selection from the list,
/// followed by the new entry where the filter keeps it.
pub proof fn lemma_select_push(todos: Seq<TodoView>, t: TodoView, filter: ListFilter)
    ensures
        select(todos.push(t), filter) == if filter.admits(t) {
            select(todos, filter).push(t)
        } else {
            select(todos, filter)
        },
{
    reveal(Seq::filter);
    assert(todos.push(t).drop_last() =~= todos);
}

/// Selecting with the filter that keeps everything gives the list itself:
/// every entry once, in list order.
pub proof fn lemma_select_all(todos: Seq<TodoView>)
    ensures
        select(todos, ListFilter::All) == todos,
    decreases todos.len(),
{
    if todos.len() == 0 {
        lemma_select_empty(ListFilter::All);
        assert(todos =~= Seq::empty());
    } else {
        lemma_select_all(todos.drop_last());
        lemma_select_push(todos.drop_last(), todos.last(), ListFilter::All);
        assert(todos.drop_last().push(todos.last()) =~= todos);
    }
}

/// After any run of additions to an empty list, selecting everything gives
/// the added entries, each once and active, in the order of addition.
pub proof fn lemma_select_all_after_adds(entries: Seq<(Seq<char>, Timestamp)>)
    ensures
        select(added(entries), ListFilter::All) == added(entries),
        added(entries).len() == entries.len(),
        forall|i: int|
            0 <= i < entries.len() ==> #[trigger] added(entries)[i] == TodoView::created(
                entries[i].0,
                entries[i].1,
            ),
    decreases entries.len(),
{
    lemma_select_all(added(entries));
    if entries.len() > 0 {
        lemma_select_all_after_adds(entries.drop_last());
    }
}

/// A selection holds exactly the entries of the list that the filter keeps.
pub proof fn lemma_select_contains(todos: Seq<TodoView>, filter: ListFilter, t: TodoView)
    ensures
        select(todos, filter).contains(t) <==> todos.contains(t) && filter.admits(t),
    decreases todos.len(),
{
    if todos.len() == 0 {
        lemma_select_empty(filter);
        assert(todos =~= Seq::empty());
    } else {
        let rest = todos.drop_last();
        let last = todos.last();
        lemma_select_contains(rest, filter, t);
        lemma_select_push(rest, last, filter);
        assert(rest.push(last) =~= todos);
        let kept = select(rest, filter);
        if todos.contains(t) {
            let i = choose|i: int| 0 <= i < todos.len() && todos[i] == t;
            if i < rest.len() {
                assert(rest[i] == t);
            }
        }
        if rest.contains(t) {
            let i = choose|i: int| 0 <= i < rest.len() && rest[i] == t;
            assert(todos[i] == t);
        }
        if filter.admits(last) {
            assert(kept.push(last)[kept.len() as int] == last);
            if kept.contains(t) {
                let i = choose|i: int| 0 <= i < kept.len() && kept[i] == t;
                assert(kept.push(last)[i] == t);
            }
            if kept.push(last).contains(t) {
                let i = choose|i: int| 0 <= i < kept.push(last).len() && kept.push(last)[i] == t;
                if i < kept.len() {
                    assert(kept[i] == t);
                }
            }
        }
    }
}

/// The active and the complete selection split the list between them: as
/// sets they are disjoint and together make up the selection of everything,
/// and their lengths add up to the length of the list.
pub proof fn lemma_select_partition(todos: Seq<TodoView>)
    ensures
        select(todos, ListFilter::Active).to_set().union(
            select(todos, ListFilter::Complete).to_set(),
        ) == select(todos, ListFilter::All).to_set(),
        select(todos, ListFilter::Active).to_set().disjoint(
            select(todos, ListFilter::Complete).to_set(),
        ),
        select(todos, ListFilter::Active).len() + select(todos, ListFilter::Complete).len()
            == todos.len(),
    decreases todos.len(),
{
    let active = select(todos, ListFilter::Active);
    let complete = select(todos, ListFilter::Complete);
    let all = select(todos, ListFilter::All);
    assert forall|t: TodoView|
        (active.to_set().contains(t) || complete.to_set().contains(t)) == all.to_set().contains(
            t,
        ) && !(active.to_set().contains(t) && complete.to_set().contains(t)) by {
        lemma_select_contains(todos, ListFilter::Active, t);
        lemma_select_contains(todos, ListFilter::Complete, t);
        lemma_select_contains(todos, ListFilter::All, t);
    }
    assert(active.to_set().union(complete.to_set()) =~= all.to_set());
    if todos.len() == 0 {
        lemma_select_empty(ListFilter::Active);
        lemma_select_empty(ListFilter::Complete);
        assert(todos =~= Seq::empty());
    } else {
        lemma_select_partition(todos.drop_last());
        lemma_select_push(todos.drop_last(), todos.last(), ListFilter::Active);
        lemma_select_push(todos.drop_last(), todos.last(), ListFilter::Complete);
        assert(todos.drop_last().push(todos.last()) =~= todos);
    }
}

/// An operation on a position that addresses no entry leaves the list as it
/// was.
pub proof fn lemma_missing_index_changes_nothing(todos: Seq<TodoView>, index: int, now: Timestamp)
    requires
        !(0 <= index < todos.len()),
    ensures
        completed_at(todos, index, now) == todos,
        reactivated_at(todos, index) == todos,
{
}

} // verus!
