//! Change events: one is emitted for every committed mutation, consumed once
//! by the broadcaster, and never persisted.

use vstd::prelude::*;

use crate::book::Book;
use crate::book::BookView;

verus! {

/// What a committed mutation did: the record as persisted, or the id that was
/// removed.
pub enum DbAction {
    Created(Book),
    Updated(Book),
    Deleted(i32),
}

/// The mathematical shadow of a [`DbAction`].
pub ghost enum DbActionView {
    Created(BookView),
    Updated(BookView),
    Deleted(int),
}

impl View for DbAction {
    type V = DbActionView;

    open spec fn view(&self) -> DbActionView {
        match *self {
            DbAction::Created(book) => DbActionView::Created(book@),
            DbAction::Updated(book) => DbActionView::Updated(book@),
            DbAction::Deleted(id) => DbActionView::Deleted(id as int),
        }
    }
}

} // verus!
