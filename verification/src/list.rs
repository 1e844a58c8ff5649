//! The list itself: entries in the order in which they were added, addressed
//! by position, with the operations that add, complete, reopen and select.

use vstd::prelude::*;
use crate::clock::Timestamp;
use crate::todo::{Todo, TodoState, TodoView};

verus! {

/// Which entries a selection keeps.
#[derive(Clone, Copy, Debug, PartialEq, Eq, Structural, Hash)]
pub enum ListFilter {
    Active,
    Complete,
    All,
}

impl ListFilter {
    /// The filter keeps the entry `t`.
    pub open spec fn admits(self, t: TodoView) -> bool {
        match self {
            ListFilter::Active => t.state == TodoState::Active,
            ListFilter::Complete => t.state == TodoState::Complete,
            ListFilter::All => true,
        }
    }

    /// Decides [`ListFilter::admits`] for a stored entry.
    pub fn keeps(&self, todo: &Todo) -> (r: bool)
        ensures
            r == self.admits(todo@),
    {
        match self {
            ListFilter::Active => todo.state() == TodoState::Active,
            ListFilter::Complete => todo.state() == TodoState::Complete,
            ListFilter::All => true,
        }
    }
}

/// The entries of `todos` that `filter` keeps, in their order in `todos`.
pub open spec fn select(todos: Seq<TodoView>, filter: ListFilter) -> Seq<TodoView> {
    todos.filter(|t: TodoView| filter.admits(t))
}

/// The entries that a sequence of stored entries stands for.
pub open spec fn views(todos: Seq<Todo>) -> Seq<TodoView> {
    Seq::new(todos.len(), |i: int| todos[i]@)
}

/// The entries that a sequence of borrowed entries stands for.
pub open spec fn ref_views(todos: Seq<&Todo>) -> Seq<TodoView> {
    Seq::new(todos.len(), |i: int| todos[i]@)
}

/// The list `todos` after the entry at `index` has been completed at `now`;
/// `todos` itself where `index` addresses no entry.
pub open spec fn completed_at(todos: Seq<TodoView>, index: int, now: Timestamp) -> Seq<TodoView> {
    if 0 <= index < todos.len() {
        todos.update(index, todos[index].completed(now))
    } else {
        todos
    }
}

/// The list `todos` after the entry at `index` has been reopened; `todos`
/// itself where `index` addresses no entry.
pub open spec fn reactivated_at(todos: Seq<TodoView>, index: int) -> Seq<TodoView> {
    if 0 <= index < todos.len() {
        todos.update(index, todos[index].reactivated())
    } else {
        todos
    }
}

/// What an operation on the entry at `index` answers on a list of `len`
/// entries: success where the entry exists, `NotFound` where it does not.
pub open spec fn found(len: nat, index: int) -> Result<(), TodoError> {
    if 0 <= index < len {
        Ok(())
    } else {
        Err(TodoError::NotFound)
    }
}

/// Why an operation on the list did nothing.
#[derive(Clone, Copy, Debug, PartialEq, Eq, Structural, Hash)]
pub enum TodoError {
    /// The position given addresses no entry of the list.
    NotFound,
}

/// An ordered list of entries. An entry's position is the number of entries
/// added before it; as entries are never removed or moved, it addresses the
/// same entry for as long as the list lives.
#[derive(Debug)]
pub struct TodoList {
    todos: Vec<Todo>,
    filter: ListFilter,
}

impl View for TodoList {
    type V = Seq<TodoView>;

    closed spec fn view(&self) -> Seq<TodoView> {
        views(self.todos@)
    }
}

impl TodoList {
    /// The filter that [`TodoList::apply_default_filter`] selects by.
    pub closed spec fn default_filter(&self) -> ListFilter {
        self.filter
    }

    /// Every entry of every list carries a finishing instant exactly when it
    /// is complete.
    pub proof fn lemma_entries_wf(self)
        ensures
            forall|i: int| 0 <= i < self@.len() ==> (#[trigger] self@[i]).wf(),
    {
        assert forall|i: int| 0 <= i < self@.len() implies (#[trigger] self@[i]).wf() by {
            self.todos@[i].lemma_wf();
        }
    }

    /// An empty list whose default filter keeps every entry.
    pub fn new() -> (r: TodoList)
        ensures
            r@ == Seq::<TodoView>::empty(),
            r.default_filter() == ListFilter::All,
    {
        let r = TodoList { todos: Vec::new(), filter: ListFilter::All };
        assert(r@ =~= Seq::<TodoView>::empty());
        r
    }

    /// Appends a new active entry under `title`, created at the instant
    /// `now`. Its position is the length of the list before the call.
    pub fn add_at(&mut self, title: &str, now: Timestamp)
        ensures
            final(self)@ == old(self)@.push(TodoView::created(title@, now)),
            final(self).default_filter() == old(self).default_filter(),
    {
        self.todos.push(Todo::new_at(title, now));
        assert(self@ =~= old(self)@.push(TodoView::created(title@, now)));
    }

    /// Appends a new active entry under `title`, created at the instant the
    /// system clock shows. Its position is the length of the list before the
    /// call.
    pub fn add(&mut self, title: &str)
        ensures
            final(self)@ == old(self)@.push(
                TodoView::created(title@, final(self)@.last().date_created),
            ),
            final(self)@.last().date_created.in_range(),
            final(self).default_filter() == old(self).default_filter(),
    {
        self.add_at(title, Timestamp::now());
    }

    /// Completes the entry at `index`, `now` being the instant of completion.
    /// An entry that was complete already stays so and takes `now` as its new
    /// finishing instant. Where `index` addresses no entry the answer is
    /// `NotFound` and the list is left as it was.
    pub fn mark_complete_at(&mut self, index: usize, now: Timestamp) -> (r: Result<(), TodoError>)
        ensures
            r == found(old(self)@.len(), index as int),
            final(self)@ == completed_at(old(self)@, index as int, now),
            final(self).default_filter() == old(self).default_filter(),
    {
        if index >= self.todos.len() {
            return Err(TodoError::NotFound);
        }
        self.todos[index].update_state_at(TodoState::Complete, now);
        assert(self@ =~= completed_at(old(self)@, index as int, now));
        Ok(())
    }

    /// Completes the entry at `index` at the instant the system clock shows,
    /// which becomes the entry's finishing instant. Where `index` addresses
    /// no entry the answer is `NotFound`, the clock is not read and the list
    /// is left as it was.
    pub fn mark_complete(&mut self, index: usize) -> (r: Result<(), TodoError>)
        ensures
            r == found(old(self)@.len(), index as int),
            r is Err ==> final(self)@ == old(self)@,
            r is Ok ==> final(self)@[index as int].date_finished is Some,
            r is Ok ==> final(self)@[index as int].date_finished->0.in_range(),
            r is Ok ==> final(self)@ == completed_at(
                old(self)@,
                index as int,
                final(self)@[index as int].date_finished->0,
            ),
            final(self).default_filter() == old(self).default_filter(),
    {
        if index >= self.todos.len() {
            return Err(TodoError::NotFound);
        }
        self.mark_complete_at(index, Timestamp::now())
    }

    /// Reopens the entry at `index`, whatever its state was, and clears its
    /// finishing instant. Where `index` addresses no entry the answer is
    /// `NotFound` and the list is left as it was.
    pub fn mark_active(&mut self, index: usize) -> (r: Result<(), TodoError>)
        ensures
            r == found(old(self)@.len(), index as int),
            final(self)@ == reactivated_at(old(self)@, index as int),
            final(self).default_filter() == old(self).default_filter(),
    {
        if index >= self.todos.len() {
            return Err(TodoError::NotFound);
        }
        self.todos[index].update_state(TodoState::Active);
        assert(self@ =~= reactivated_at(old(self)@, index as int));
        Ok(())
    }

    /// The entries that `filter_type` keeps, in list order, borrowed from the
    /// list.
    pub fn apply_filter(&self, filter_type: ListFilter) -> (r: Vec<&Todo>)
        ensures
            ref_views(r@) == select(self@, filter_type),
    {
        let mut kept: Vec<&Todo> = Vec::new();
        let mut i: usize = 0;
        proof {
            crate::laws::lemma_select_empty(filter_type);
            assert(self@.take(0) =~= Seq::<TodoView>::empty());
            assert(ref_views(kept@) =~= Seq::<TodoView>::empty());
        }
        while i < self.todos.len()
            invariant
                i <= self.todos.len(),
                self@.len() == self.todos.len(),
                ref_views(kept@) == select(self@.take(i as int), filter_type),
            decreases self.todos.len() - i,
        {
            let todo = &self.todos[i];
            proof {
                crate::laws::lemma_select_push(self@.take(i as int), todo@, filter_type);
                assert(self@.take(i as int).push(todo@) =~= self@.take(i + 1));
            }
            let ghost before = kept@;
            if filter_type.keeps(todo) {
                kept.push(todo);
                assert(ref_views(kept@) =~= ref_views(before).push(todo@));
            }
            i += 1;
        }
        assert(self@.take(i as int) =~= self@);
        kept
    }

    /// The entries that the list's default filter keeps, in list order.
    pub fn apply_default_filter(&self) -> (r: Vec<&Todo>)
        ensures
            ref_views(r@) == select(self@, self.default_filter()),
    {
        self.apply_filter(self.filter)
    }

    /// The list's default filter.
    pub fn filter(&self) -> (r: ListFilter)
        ensures
            r == self.default_filter(),
    {
        self.filter
    }

    /// Every entry of the list, in list order.
    pub fn get_todos(&self) -> (r: &Vec<Todo>)
        ensures
            views(r@) == self@,
    {
        &self.todos
    }
}

} // verus!
