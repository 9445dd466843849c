//! An in-memory record store with the contract the service assumes of its
//! persistence collaborator: find by id, insert with id assignment, update,
//! and delete.

use std::collections::BTreeMap;
use vstd::prelude::*;

use crate::active::ActiveValue;
use crate::book::Book;
use crate::book::BookActiveModel;
use crate::book::apply_row;
use crate::book::spec_apply;
use crate::errors::ApiError;

verus! {

broadcast use vstd::std_specs::btree::group_btree_axioms;

/// The store: records keyed by their id, and the id the next insertion will
/// be assigned.
pub struct Store {
    books: BTreeMap<i32, Book>,
    next_id: i32,
}

impl Store {
    /// The records currently held, keyed by id.
    pub closed spec fn contents(self) -> Map<i32, Book> {
        self.books@
    }

    /// The id the next insertion will be assigned.
    pub closed spec fn spec_next_id(self) -> int {
        self.next_id as int
    }

    /// Every held record is well-formed, sits under its own id, and ids grow
    /// from 1 without ever reaching the next free one.
    pub open spec fn wf(self) -> bool {
        &&& 1 <= self.spec_next_id()
        &&& forall|k: i32|
            self.contents().contains_key(k) ==> {
                &&& (#[trigger] self.contents()[k]).wf()
                &&& self.contents()[k].id == k
                &&& k < self.spec_next_id()
            }
    }

    /// Whether a write row names an id this store holds.
    pub open spec fn targets(self, row: BookActiveModel) -> bool {
        row.id.is_assigned() && self.contents().contains_key(row.id.value())
    }

    /// An empty store; the first record will get id 1.
    pub fn new() -> (store: Store)
        ensures
            store.wf(),
            store.contents() == Map::<i32, Book>::empty(),
            store.spec_next_id() == 1,
    {
        Store { books: BTreeMap::new(), next_id: 1 }
    }

    /// Looks a record up by id: a reference to it exactly when the id is
    /// held.
    pub fn find(&self, id: i32) -> (found: Option<&Book>)
        ensures
            match found {
                Option::Some(book) => self.contents().contains_key(id) && *book
                    == self.contents()[id],
                Option::None => !self.contents().contains_key(id),
            },
    {
        self.books.get(&id)
    }

    /// Inserts a new record built from `row`, assigning it the next free id;
    /// fails only when the id space is exhausted, and then changes nothing.
    pub fn insert(&mut self, row: BookActiveModel) -> (result: Result<Book, ApiError>)
        requires
            old(self).wf(),
            !row.id.is_assigned(),
            row.title.is_assigned(),
            row.author.is_assigned(),
            row.created_at matches ActiveValue::Assigned(c) && row.updated_at
                matches ActiveValue::Assigned(u) && 0 <= c <= u < i64::MAX,
        ensures
            final(self).wf(),
            old(self).spec_next_id() == i32::MAX ==> (result matches Err(ApiError::Database)
                && final(self).contents() == old(self).contents() && final(self).spec_next_id()
                == old(self).spec_next_id()),
            old(self).spec_next_id() < i32::MAX ==> (result matches Ok(book) && {
                &&& book.wf()
                &&& book.id == old(self).spec_next_id()
                &&& !old(self).contents().contains_key(book.id)
                &&& book.title == row.title.value()
                &&& book.author == row.author.value()
                &&& book.price == (if row.price.is_assigned() {
                    row.price.value()
                } else {
                    Option::<String>::None
                })
                &&& book.publish_date == (if row.publish_date.is_assigned() {
                    row.publish_date.value()
                } else {
                    Option::<i64>::None
                })
                &&& book.created_at == row.created_at.value()
                &&& book.updated_at == row.updated_at.value()
                &&& final(self).spec_next_id() == old(self).spec_next_id() + 1
                &&& final(self).contents().dom() == old(self).contents().dom().insert(book.id)
                &&& final(self).contents()[book.id]@ == book@
                &&& forall|k: i32|
                    k != book.id && old(self).contents().contains_key(k)
                        ==> #[trigger] final(self).contents()[k] == old(self).contents()[k]
            }),
    {
        if self.next_id == i32::MAX {
            return Err(ApiError::Database);
        }
        let id = self.next_id;
        self.next_id = self.next_id + 1;
        let blank = Book {
            id,
            title: String::new(),
            author: String::new(),
            price: None,
            publish_date: None,
            created_at: 0,
            updated_at: 0,
        };
        let book = apply_row(blank, row);
        self.books.insert(id, book.duplicate());
        Ok(book)
    }

    /// Applies `row` to the record under its id: the persisted result is
    /// returned exactly when the id is held, and `NotFound` changes nothing.
    pub fn update(&mut self, row: BookActiveModel) -> (result: Result<Book, ApiError>)
        requires
            old(self).wf(),
            old(self).targets(row) ==> {
                &&& !row.created_at.is_assigned()
                &&& row.updated_at.is_assigned()
                &&& old(self).contents()[row.id.value()].created_at <= row.updated_at.value()
                    < i64::MAX
            },
        ensures
            final(self).wf(),
            !old(self).targets(row) ==> (result matches Err(ApiError::NotFound(_))
                && final(self).contents() == old(self).contents()
                && final(self).spec_next_id() == old(self).spec_next_id()),
            old(self).targets(row) ==> {
                let id = row.id.value();
                let stored = spec_apply(old(self).contents()[id], row);
                &&& (result matches Ok(book) && book@ == stored@)
                &&& final(self).contents() == old(self).contents().insert(id, stored)
                &&& final(self).spec_next_id() == old(self).spec_next_id()
            },
    {
        let id = match &row.id {
            ActiveValue::Assigned(id) => *id,
            ActiveValue::NotSet => {
                return Err(ApiError::NotFound("No such book with given id"));
            },
        };
        match self.books.remove(&id) {
            Some(current) => {
                let book = apply_row(current, row);
                let copy = book.duplicate();
                self.books.insert(id, book);
                proof {
                    assert(self.books@ =~= old(self).contents().insert(
                        id,
                        spec_apply(old(self).contents()[id], row),
                    ));
                }
                Ok(copy)
            },
            None => {
                proof {
                    assert(self.books@ =~= old(self).contents());
                }
                Err(ApiError::NotFound("No such book with given id"))
            },
        }
    }

    /// Every held record, in ascending id order: each returned record is
    /// stored under its id, every stored id appears, and none repeats.
    pub fn all(&self) -> (books: Vec<Book>)
        requires
            self.wf(),
        ensures
            forall|j: int|
                0 <= j < books@.len() ==> self.contents().contains_key(#[trigger] books@[j].id)
                    && self.contents()[books@[j].id]@ == books@[j]@,
            forall|k: i32|
                #[trigger] self.contents().contains_key(k) ==> exists|j: int|
                    0 <= j < books@.len() && #[trigger] books@[j].id == k,
            forall|j1: int, j2: int|
                0 <= j1 < j2 < books@.len() ==> books@[j1].id < books@[j2].id,
    {
        let mut books: Vec<Book> = Vec::new();
        let top = self.next_id;
        for id in scan: 1..top
            invariant
                self.wf(),
                top == self.spec_next_id(),
                forall|j: int|
                    0 <= j < books@.len() ==> self.contents().contains_key(
                        #[trigger] books@[j].id,
                    ) && self.contents()[books@[j].id]@ == books@[j]@ && books@[j].id < 1
                        + scan.index(),
                forall|k: i32|
                    1 <= k < 1 + scan.index() && #[trigger] self.contents().contains_key(k)
                        ==> exists|j: int| 0 <= j < books@.len() && #[trigger] books@[j].id == k,
                forall|j1: int, j2: int|
                    0 <= j1 < j2 < books@.len() ==> books@[j1].id < books@[j2].id,
        {
            let ghost before = books@;
            match self.books.get(&id) {
                Some(found) => {
                    let copy = found.duplicate();
                    proof {
                        assert(self.contents()[id].id == id);
                        assert(copy.id == id);
                    }
                    books.push(copy);
                },
                None => {},
            }
            proof {
                assert forall|k: i32|
                    1 <= k < id + 1 && self.contents().contains_key(k) implies exists|j: int|
                    0 <= j < books@.len() && #[trigger] books@[j].id == k by {
                    if k == id {
                        assert(books@[books@.len() - 1].id == k);
                    } else {
                        let j = choose|j: int| 0 <= j < before.len() && #[trigger] before[j].id
                            == k;
                        assert(books@[j].id == k);
                    }
                }
            }
        }
        proof {
            assert forall|k: i32| #[trigger] self.contents().contains_key(k) implies exists|
                j: int,
            |
                0 <= j < books@.len() && #[trigger] books@[j].id == k by {
                assert(self.contents()[k].id == k);
                assert(1 <= k < top);
            }
        }
        books
    }

    /// Removes the record under `id`; reports whether one was held, and holds
    /// everything else unchanged.
    pub fn delete(&mut self, id: i32) -> (affected: bool)
        requires
            old(self).wf(),
        ensures
            final(self).wf(),
            affected == old(self).contents().contains_key(id),
            final(self).contents() == old(self).contents().remove(id),
            final(self).spec_next_id() == old(self).spec_next_id(),
    {
        let removed = self.books.remove(&id);
        proof {
            assert(self.books@ =~= old(self).contents().remove(id));
        }
        removed.is_some()
    }
}

} // verus!
