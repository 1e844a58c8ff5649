//! A single to-do entry and its two-state life cycle.

use vstd::prelude::*;
use crate::clock::Timestamp;

verus! {

/// Whether an entry is still open or has been done.
#[derive(Clone, Copy, Debug, PartialEq, Eq, Structural, Hash)]
pub enum TodoState {
    Active,
    Complete,
}

/// What a [`Todo`] is, as a mathematical value.
pub struct TodoView {
    pub title: Seq<char>,
    pub state: TodoState,
    pub date_created: Timestamp,
    pub date_finished: Option<Timestamp>,
}

impl TodoView {
    /// A finishing instant is recorded exactly when the entry is complete.
    pub open spec fn wf(self) -> bool {
        self.date_finished is Some <==> self.state == TodoState::Complete
    }

    /// The entry that comes into being at `now` under `title`.
    pub open spec fn created(title: Seq<char>, now: Timestamp) -> TodoView {
        TodoView { title, state: TodoState::Active, date_created: now, date_finished: None }
    }

    /// This entry once it has been completed at `now`.
    pub open spec fn completed(self, now: Timestamp) -> TodoView {
        TodoView { state: TodoState::Complete, date_finished: Some(now), ..self }
    }

    /// This entry once it has been reopened.
    pub open spec fn reactivated(self) -> TodoView {
        TodoView { state: TodoState::Active, date_finished: None, ..self }
    }

    /// This entry after a transition to `state` that takes place at `now`.
    pub open spec fn with_state(self, state: TodoState, now: Timestamp) -> TodoView {
        match state {
            TodoState::Active => self.reactivated(),
            TodoState::Complete => self.completed(now),
        }
    }
}

/// A to-do entry. Its title and creation instant never change. Its state is
/// not stored: an entry is complete exactly when it carries a finishing
/// instant, so the two cannot fall out of step.
#[derive(Debug, PartialEq)]
pub struct Todo {
    title: String,
    date_created: Timestamp,
    date_finished: Option<Timestamp>,
}

impl View for Todo {
    type V = TodoView;

    closed spec fn view(&self) -> TodoView {
        TodoView {
            title: self.title@,
            state: if self.date_finished is Some {
                TodoState::Complete
            } else {
                TodoState::Active
            },
            date_created: self.date_created,
            date_finished: self.date_finished,
        }
    }
}

impl Todo {
    /// Every entry carries a finishing instant exactly when it is complete,
    /// whatever was done to it.
    pub proof fn lemma_wf(self)
        ensures
            self@.wf(),
    {
    }

    /// A new active entry under `title`, created at the instant `now`.
    pub fn new_at(title: &str, now: Timestamp) -> (r: Todo)
        ensures
            r@ == TodoView::created(title@, now),
    {
        Todo { title: title.to_owned(), date_created: now, date_finished: None }
    }

    /// A new active entry under `title`, created at the instant the system
    /// clock shows. Any title is taken, the empty one too.
    pub fn new(title: &str) -> (r: Todo)
        ensures
            r@ == TodoView::created(title@, r@.date_created),
            r@.date_created.in_range(),
    {
        Todo::new_at(title, Timestamp::now())
    }

    /// Moves the entry to `state` in one step, `now` being the instant of the
    /// transition: completing records `now` as the finishing instant (again
    /// if the entry was complete already), reopening clears it.
    pub fn update_state_at(&mut self, state: TodoState, now: Timestamp)
        ensures
            final(self)@ == old(self)@.with_state(state, now),
    {
        match state {
            TodoState::Active => {
                self.date_finished = None;
            },
            TodoState::Complete => {
                self.date_finished = Some(now);
            },
        }
    }

    /// Moves the entry to `state` in one step, at the instant the system clock
    /// shows. The clock is read only when the entry is being completed.
    pub fn update_state(&mut self, state: TodoState)
        ensures
            state == TodoState::Active ==> final(self)@ == old(self)@.reactivated(),
            state == TodoState::Complete ==> final(self)@.date_finished is Some,
            state == TodoState::Complete ==> final(self)@.date_finished->0.in_range(),
            state == TodoState::Complete ==> final(self)@ == old(self)@.completed(
                final(self)@.date_finished->0,
            ),
    {
        match state {
            TodoState::Active => {
                self.date_finished = None;
            },
            TodoState::Complete => {
                self.date_finished = Some(Timestamp::now());
            },
        }
    }

    /// The title the entry was created under.
    pub fn title(&self) -> (r: &String)
        ensures
            r@ == self@.title,
    {
        &self.title
    }

    /// Whether the entry is active or complete.
    pub fn state(&self) -> (r: TodoState)
        ensures
            r == self@.state,
    {
        match self.date_finished {
            Some(_) => TodoState::Complete,
            None => TodoState::Active,
        }
    }

    /// The instant at which the entry was created.
    pub fn date_created(&self) -> (r: Timestamp)
        ensures
            r == self@.date_created,
    {
        self.date_created
    }

    /// The instant at which the entry was last completed; `None` while it is
    /// active.
    pub fn date_finished(&self) -> (r: Option<Timestamp>)
        ensures
            r == self@.date_finished,
            r is Some <==> self@.state == TodoState::Complete,
    {
        self.date_finished
    }
}

} // verus!
