//! The mutation pipeline and the broadcaster's drain loop. Mutations write
//! the store and append one change event to the channel per commit, in
//! commit order; the broadcaster drains the channel in that order and fans
//! every event out to every registered session.

use vstd::prelude::*;

use crate::active::ActiveValue;
use crate::book::Book;
use crate::book::CreateBook;
use crate::book::UpdateBook;
use crate::book::clamp_ts;
use crate::book::lemma_ts_bounds;
use crate::book::next_timestamp;
use crate::book::next_ts;
use crate::clock::clock_now_millis;
use crate::errors::ApiError;
use crate::events::DbAction;
use crate::events::DbActionView;
use crate::registry::Registry;
use crate::registry::SessionView;
use crate::registry::deliver_all;
use crate::registry::deliver_seq;
use crate::registry::lemma_deliver_seq_logs;
use crate::registry::lemma_deliver_seq_snoc;
use crate::store::Store;
use crate::wire::serialize_action;
use crate::wire::wire_of;

verus! {

/// The frames a run of events is sent as, in the events' order.
pub open spec fn wire_frames(pending: Seq<DbActionView>) -> Seq<Seq<u8>> {
    pending.map_values(|e: DbActionView| wire_of(e))
}

/// The mutation pipeline: the store it writes and the ordered, unbounded
/// channel of change events not yet drained by the broadcaster.
pub struct Pipeline {
    store: Store,
    queue: Vec<DbAction>,
}

impl Pipeline {
    /// The records currently persisted, keyed by id.
    pub closed spec fn books(self) -> Map<i32, Book> {
        self.store.contents()
    }

    /// The id the next created record will be assigned.
    pub closed spec fn next_id(self) -> int {
        self.store.spec_next_id()
    }

    /// The change events committed but not yet broadcast, oldest first.
    pub closed spec fn pending(self) -> Seq<DbActionView> {
        Seq::new(self.queue@.len(), |i: int| self.queue@[i]@)
    }

    /// The store's well-formedness.
    pub closed spec fn wf(self) -> bool {
        self.store.wf()
    }

    /// A pipeline over an empty store with nothing pending.
    pub fn new() -> (pipeline: Pipeline)
        ensures
            pipeline.wf(),
            pipeline.books() == Map::<i32, Book>::empty(),
            pipeline.next_id() == 1,
            pipeline.pending() == Seq::<DbActionView>::empty(),
    {
        let pipeline = Pipeline { store: Store::new(), queue: Vec::new() };
        proof {
            assert(pipeline.pending() =~= Seq::<DbActionView>::empty());
        }
        pipeline
    }

    /// Looks a record up: a reference to it exactly when the id is held.
    pub fn get_book(&self, id: i32) -> (found: Option<&Book>)
        ensures
            match found {
                Option::Some(book) => self.books().contains_key(id) && *book == self.books()[id],
                Option::None => !self.books().contains_key(id),
            },
    {
        self.store.find(id)
    }

    /// Every persisted record, in ascending id order: each returned record
    /// is stored under its id, every stored id appears, and none repeats.
    pub fn get_books(&self) -> (books: Vec<Book>)
        requires
            self.wf(),
        ensures
            forall|j: int|
                0 <= j < books@.len() ==> self.books().contains_key(#[trigger] books@[j].id)
                    && self.books()[books@[j].id]@ == books@[j]@,
            forall|k: i32|
                #[trigger] self.books().contains_key(k) ==> exists|j: int|
                    0 <= j < books@.len() && #[trigger] books@[j].id == k,
            forall|j1: int, j2: int|
                0 <= j1 < j2 < books@.len() ==> books@[j1].id < books@[j2].id,
    {
        self.store.all()
    }

    /// Creates a record at clock reading `now`: both timestamps are stamped
    /// with the clamped reading, the store assigns the next free id, and one
    /// `Created` event carrying the persisted record is appended to the
    /// channel. Fails only when the id space is exhausted, and then nothing
    /// changes and no event is emitted.
    pub fn create_book_at(&mut self, payload: CreateBook, now: i64) -> (result: Result<
        Book,
        ApiError,
    >)
        requires
            old(self).wf(),
        ensures
            final(self).wf(),
            old(self).next_id() == i32::MAX ==> (result matches Err(ApiError::Database)
                && final(self).books() == old(self).books() && final(self).pending() == old(self).pending() && final(self).next_id() == old(self).next_id()),
            old(self).next_id() < i32::MAX ==> (result matches Ok(book) && {
                &&& book.wf()
                &&& book.id == old(self).next_id()
                &&& !old(self).books().contains_key(book.id)
                &&& book.title == payload.title
                &&& book.author == payload.author
                &&& book.price == payload.price
                &&& book.publish_date == payload.publish_date
                &&& book.created_at == clamp_ts(now as int)
                &&& book.updated_at == clamp_ts(now as int)
                &&& final(self).next_id() == old(self).next_id() + 1
                &&& final(self).books().dom() == old(self).books().dom().insert(book.id)
                &&& final(self).books()[book.id]@ == book@
                &&& forall|k: i32|
                    k != book.id && old(self).books().contains_key(k)
                        ==> #[trigger] final(self).books()[k] == old(self).books()[k]
                &&& final(self).pending() == old(self).pending().push(
                    DbActionView::Created(book@),
                )
            }),
    {
        let row = payload.active_model_at(now);
        match self.store.insert(row) {
            Ok(book) => {
                self.queue.push(DbAction::Created(book.duplicate()));
                proof {
                    assert(self.pending() =~= old(self).pending().push(
                        DbActionView::Created(book@),
                    ));
                }
                Ok(book)
            },
            Err(err) => Err(err),
        }
    }

    /// As [`Pipeline::create_book_at`], stamped with the clock of the moment
    /// of the call; the two timestamps are equal whatever the clock read.
    pub fn create_book(&mut self, payload: CreateBook) -> (result: Result<Book, ApiError>)
        requires
            old(self).wf(),
        ensures
            final(self).wf(),
            old(self).next_id() == i32::MAX ==> (result matches Err(ApiError::Database)
                && final(self).books() == old(self).books() && final(self).pending() == old(self).pending() && final(self).next_id() == old(self).next_id()),
            old(self).next_id() < i32::MAX ==> (result matches Ok(book) && {
                &&& book.wf()
                &&& book.id == old(self).next_id()
                &&& !old(self).books().contains_key(book.id)
                &&& book.title == payload.title
                &&& book.author == payload.author
                &&& book.price == payload.price
                &&& book.publish_date == payload.publish_date
                &&& book.created_at == book.updated_at
                &&& final(self).next_id() == old(self).next_id() + 1
                &&& final(self).books().dom() == old(self).books().dom().insert(book.id)
                &&& final(self).books()[book.id]@ == book@
                &&& forall|k: i32|
                    k != book.id && old(self).books().contains_key(k)
                        ==> #[trigger] final(self).books()[k] == old(self).books()[k]
                &&& final(self).pending() == old(self).pending().push(
                    DbActionView::Created(book@),
                )
            }),
    {
        let now = clock_now_millis();
        self.create_book_at(payload, now)
    }

    /// Updates the record under `id` at clock reading `now`, under the
    /// optimistic-concurrency check: a missing id is `NotFound`; a stamp in
    /// the patch that differs, however slightly, from the stored `updatedAt`
    /// is `OutdatedData`, and the store and channel are untouched. An
    /// accepted patch replaces exactly the fields it carries, keeps
    /// `createdAt`, advances `updatedAt`, and appends one `Updated` event
    /// carrying the persisted record.
    pub fn patch_book_at(&mut self, id: i32, payload: UpdateBook, now: i64) -> (result: Result<
        Book,
        ApiError,
    >)
        requires
            old(self).wf(),
        ensures
            final(self).wf(),
            final(self).next_id() == old(self).next_id(),
            !old(self).books().contains_key(id) ==> (result matches Err(ApiError::NotFound(_))
                && final(self).books() == old(self).books() && final(self).pending() == old(self).pending()),
            old(self).books().contains_key(id) && payload.updated_at != old(self).books()[
                id
            ].updated_at ==> (result matches Err(ApiError::OutdatedData) && final(self).books()
                == old(self).books() && final(self).pending() == old(self).pending()),
            old(self).books().contains_key(id) && payload.updated_at == old(self).books()[
                id
            ].updated_at ==> (result matches Ok(book) && {
                let prior = old(self).books()[id];
                &&& book.wf()
                &&& book.id == id
                &&& book.created_at == prior.created_at
                &&& book.updated_at == next_ts(prior.updated_at as int, now as int)
                &&& book@.title == (match payload.title {
                    Option::Some(t) => t@,
                    Option::None => prior.title@,
                })
                &&& book@.author == (match payload.author {
                    Option::Some(a) => a@,
                    Option::None => prior.author@,
                })
                &&& book@.price == (match payload.price {
                    Option::Some(p) => Option::Some(p@),
                    Option::None => prior@.price,
                })
                &&& book.publish_date == (match payload.publish_date {
                    Option::Some(d) => Option::Some(d),
                    Option::None => prior.publish_date,
                })
                &&& final(self).books().dom() == old(self).books().dom()
                &&& final(self).books()[id]@ == book@
                &&& forall|k: i32|
                    k != id && old(self).books().contains_key(k) ==> #[trigger] final(self).books()[k] == old(self).books()[k]
                &&& final(self).pending() == old(self).pending().push(
                    DbActionView::Updated(book@),
                )
            }),
    {
        let (prior_created, prior_updated) = match self.store.find(id) {
            Some(current) => {
                if payload.updated_at != current.updated_at {
                    return Err(ApiError::OutdatedData);
                }
                (current.created_at, current.updated_at)
            },
            None => {
                return Err(ApiError::NotFound("No such book with given id"));
            },
        };
        proof {
            assert(old(self).books()[id].wf());
            lemma_ts_bounds(prior_updated as int, now as int);
        }
        let stamp = next_timestamp(prior_updated, now);
        let mut row = payload.active_model_at(now);
        row.id = ActiveValue::Assigned(id);
        row.updated_at = ActiveValue::Assigned(stamp);
        match self.store.update(row) {
            Ok(book) => {
                self.queue.push(DbAction::Updated(book.duplicate()));
                proof {
                    assert(self.pending() =~= old(self).pending().push(
                        DbActionView::Updated(book@),
                    ));
                    assert(final(self).books().dom() =~= old(self).books().dom());
                }
                Ok(book)
            },
            Err(err) => Err(err),
        }
    }

    /// As [`Pipeline::patch_book_at`], stamped with the clock of the moment
    /// of the call; whatever the clock read, an accepted patch moves
    /// `updatedAt` strictly forward wherever the stored stamp has room to
    /// grow.
    pub fn patch_book(&mut self, id: i32, payload: UpdateBook) -> (result: Result<Book, ApiError>)
        requires
            old(self).wf(),
        ensures
            final(self).wf(),
            final(self).next_id() == old(self).next_id(),
            !old(self).books().contains_key(id) ==> (result matches Err(ApiError::NotFound(_))
                && final(self).books() == old(self).books() && final(self).pending() == old(self).pending()),
            old(self).books().contains_key(id) && payload.updated_at != old(self).books()[
                id
            ].updated_at ==> (result matches Err(ApiError::OutdatedData) && final(self).books()
                == old(self).books() && final(self).pending() == old(self).pending()),
            old(self).books().contains_key(id) && payload.updated_at == old(self).books()[
                id
            ].updated_at ==> (result matches Ok(book) && {
                let prior = old(self).books()[id];
                &&& book.wf()
                &&& book.id == id
                &&& book.created_at == prior.created_at
                &&& prior.updated_at <= book.updated_at
                &&& prior.updated_at < i64::MAX - 1 ==> book.updated_at > prior.updated_at
                &&& book@.title == (match payload.title {
                    Option::Some(t) => t@,
                    Option::None => prior.title@,
                })
                &&& book@.author == (match payload.author {
                    Option::Some(a) => a@,
                    Option::None => prior.author@,
                })
                &&& book@.price == (match payload.price {
                    Option::Some(p) => Option::Some(p@),
                    Option::None => prior@.price,
                })
                &&& book.publish_date == (match payload.publish_date {
                    Option::Some(d) => Option::Some(d),
                    Option::None => prior.publish_date,
                })
                &&& final(self).books().dom() == old(self).books().dom()
                &&& final(self).books()[id]@ == book@
                &&& forall|k: i32|
                    k != id && old(self).books().contains_key(k) ==> #[trigger] final(self).books()[k] == old(self).books()[k]
                &&& final(self).pending() == old(self).pending().push(
                    DbActionView::Updated(book@),
                )
            }),
    {
        let now = clock_now_millis();
        self.patch_book_at(id, payload, now)
    }

    /// Deletes the record under `id`: exactly when it was held, it is
    /// removed and one `Deleted` event is appended to the channel; a missing
    /// id is `NotFound` and emits no event.
    pub fn delete_book(&mut self, id: i32) -> (result: Result<(), ApiError>)
        requires
            old(self).wf(),
        ensures
            final(self).wf(),
            final(self).next_id() == old(self).next_id(),
            old(self).books().contains_key(id) ==> (result matches Ok(_) && final(self).books()
                == old(self).books().remove(id) && final(self).pending() == old(self).pending().push(DbActionView::Deleted(id as int))),
            !old(self).books().contains_key(id) ==> (result matches Err(ApiError::NotFound(_))
                && final(self).books() == old(self).books() && final(self).pending() == old(self).pending()),
    {
        let affected = self.store.delete(id);
        if affected {
            self.queue.push(DbAction::Deleted(id));
            proof {
                assert(self.pending() =~= old(self).pending().push(
                    DbActionView::Deleted(id as int),
                ));
            }
            Ok(())
        } else {
            proof {
                assert(self.store.contents() =~= old(self).books());
            }
            Err(ApiError::NotFound("No such book with given id"))
        }
    }

    /// Hands every pending event out of the channel, oldest first, leaving
    /// it empty; the store is untouched. This is the producer end an outer
    /// transport drains when the broadcaster runs out of process.
    pub fn take_pending(&mut self) -> (events: Vec<DbAction>)
        requires
            old(self).wf(),
        ensures
            final(self).wf(),
            final(self).books() == old(self).books(),
            final(self).next_id() == old(self).next_id(),
            final(self).pending() == Seq::<DbActionView>::empty(),
            events@.len() == old(self).pending().len(),
            forall|i: int| 0 <= i < events@.len() ==> (#[trigger] events@[i])@ == old(
                self,
            ).pending()[i],
    {
        let mut events: Vec<DbAction> = Vec::new();
        core::mem::swap(&mut events, &mut self.queue);
        proof {
            assert(self.pending() =~= Seq::<DbActionView>::empty());
        }
        events
    }

    /// One broadcaster step: the oldest pending event, if any, leaves the
    /// channel, is serialized once, and its frame is handed to every session
    /// in the registry.
    pub fn step_broadcast(&mut self, registry: &mut Registry) -> (progressed: bool)
        requires
            old(self).wf(),
            old(registry).wf(),
        ensures
            final(self).wf(),
            final(registry).wf(),
            final(self).books() == old(self).books(),
            final(self).next_id() == old(self).next_id(),
            old(self).pending().len() == 0 ==> !progressed && final(self).pending() == old(self).pending() && final(registry).entries() == old(registry).entries(),
            old(self).pending().len() > 0 ==> progressed && final(self).pending() == old(self).pending().drop_first() && final(registry).entries() == deliver_all(
                old(registry).entries(),
                wire_of(old(self).pending().first()),
            ),
    {
        if self.queue.len() == 0 {
            proof {
                assert(self.pending() =~= old(self).pending());
            }
            return false;
        }
        let action = self.queue.remove(0);
        let frame = serialize_action(&action);
        registry.fan_out(&frame);
        proof {
            assert(self.pending() =~= old(self).pending().drop_first());
        }
        true
    }

    /// The broadcaster's drain loop: every pending event leaves the channel,
    /// oldest first, and every registered session is handed every frame in
    /// that order.
    pub fn drain_broadcast(&mut self, registry: &mut Registry)
        requires
            old(self).wf(),
            old(registry).wf(),
        ensures
            final(self).wf(),
            final(registry).wf(),
            final(self).books() == old(self).books(),
            final(self).next_id() == old(self).next_id(),
            final(self).pending() == Seq::<DbActionView>::empty(),
            final(registry).entries() == deliver_seq(
                old(registry).entries(),
                wire_frames(old(self).pending()),
            ),
    {
        let ghost mut drained: int = 0;
        while self.queue.len() != 0
            invariant
                self.wf(),
                registry.wf(),
                self.books() == old(self).books(),
                self.next_id() == old(self).next_id(),
                0 <= drained <= old(self).pending().len(),
                self.pending() == old(self).pending().skip(drained),
                registry.entries() == deliver_seq(
                    old(registry).entries(),
                    wire_frames(old(self).pending().take(drained)),
                ),
            decreases old(self).pending().len() - drained,
        {
            proof {
                assert(self.pending().len() > 0);
                assert(self.pending().first() == old(self).pending()[drained]);
            }
            let progressed = self.step_broadcast(registry);
            proof {
                lemma_deliver_seq_snoc(
                    old(registry).entries(),
                    wire_frames(old(self).pending().take(drained)),
                    wire_of(old(self).pending()[drained]),
                );
                assert(wire_frames(old(self).pending().take(drained)).push(
                    wire_of(old(self).pending()[drained]),
                ) =~= wire_frames(old(self).pending().take(drained + 1)));
                assert(old(self).pending().skip(drained).drop_first() =~= old(self).pending().skip(drained + 1));
                drained = drained + 1;
            }
        }
        proof {
            assert(self.pending() =~= Seq::<DbActionView>::empty());
            assert(old(self).pending().take(drained) =~= old(self).pending());
        }
    }
}

/// Complete, ordered delivery: when the broadcaster drains a run of
/// committed events against a set of registered sessions, every one of those
/// sessions ends with exactly one frame per event, appended in commit order
/// to whatever it already held, and no session appears or disappears.
pub proof fn lemma_drain_delivers_in_order(
    sessions: Seq<SessionView>,
    pending: Seq<DbActionView>,
)
    ensures
        deliver_seq(sessions, wire_frames(pending)).len() == sessions.len(),
        forall|i: int|
            0 <= i < sessions.len() ==> {
                &&& (#[trigger] deliver_seq(sessions, wire_frames(pending))[i]).key
                    == sessions[i].key
                &&& deliver_seq(sessions, wire_frames(pending))[i].log == sessions[i].log
                    + wire_frames(pending)
            },
{
    lemma_deliver_seq_logs(sessions, wire_frames(pending));
}

} // verus!
