//! The book record, its request payloads, its write rows, and the timestamp
//! discipline: `created_at` is set once, `updated_at` changes on every
//! accepted update.

use vstd::prelude::*;

use crate::active::ActiveValue;
use crate::active::ToActiveModel;
use crate::active::opt_to_active_value;
use crate::active::to_active_value;
use crate::clock::clock_now_millis;

verus! {

/// A persisted book. Timestamps are milliseconds since the Unix epoch; the
/// publish date is carried the same way.
pub struct Book {
    pub id: i32,
    pub title: String,
    pub author: String,
    pub price: Option<String>,
    pub publish_date: Option<i64>,
    pub created_at: i64,
    pub updated_at: i64,
}

/// The mathematical shadow of a [`Book`]: integers and character sequences.
pub ghost struct BookView {
    pub id: int,
    pub title: Seq<char>,
    pub author: Seq<char>,
    pub price: Option<Seq<char>>,
    pub publish_date: Option<int>,
    pub created_at: int,
    pub updated_at: int,
}

impl View for Book {
    type V = BookView;

    open spec fn view(&self) -> BookView {
        BookView {
            id: self.id as int,
            title: self.title@,
            author: self.author@,
            price: match self.price {
                Option::Some(p) => Option::Some(p@),
                Option::None => Option::None,
            },
            publish_date: match self.publish_date {
                Option::Some(d) => Option::Some(d as int),
                Option::None => Option::None,
            },
            created_at: self.created_at as int,
            updated_at: self.updated_at as int,
        }
    }
}

impl Book {
    /// Well-formedness of a stored record: a store-assigned positive id, and
    /// timestamps that leave room for a strictly larger successor.
    pub open spec fn wf(self) -> bool {
        &&& 1 <= self.id
        &&& 0 <= self.created_at <= self.updated_at < i64::MAX
    }

    /// A copy whose shadow is the same as this record's.
    pub fn duplicate(&self) -> (copy: Book)
        ensures
            copy@ == self@,
            copy.wf() == self.wf(),
    {
        Book {
            id: self.id,
            title: self.title.clone(),
            author: self.author.clone(),
            price: match &self.price {
                Option::Some(p) => Option::Some(p.clone()),
                Option::None => Option::None,
            },
            publish_date: self.publish_date,
            created_at: self.created_at,
            updated_at: self.updated_at,
        }
    }
}

/// The clock reading as stored: negative readings are pinned to the epoch and
/// the largest reading is pulled below `i64::MAX`, so stored timestamps can
/// always grow.
pub open spec fn clamp_ts(now: int) -> int {
    if now < 0 {
        0
    } else if now >= i64::MAX {
        i64::MAX - 1
    } else {
        now
    }
}

/// The timestamp an accepted update writes: the clock if it moved past the
/// stored stamp, else the smallest strictly larger stamp that still fits.
pub open spec fn next_ts(prev: int, now: int) -> int {
    if clamp_ts(now) > prev {
        clamp_ts(now)
    } else if prev + 1 < i64::MAX {
        prev + 1
    } else {
        prev
    }
}

/// An accepted update changes `updated_at` wherever the stored stamp has not
/// reached the top of its range; the new stamp is then strictly larger.
pub proof fn lemma_next_ts_strictly_grows(prev: int, now: int)
    requires
        0 <= prev < i64::MAX - 1,
    ensures
        next_ts(prev, now) > prev,
        next_ts(prev, now) != prev,
        next_ts(prev, now) < i64::MAX,
{
}

/// The stamping discipline keeps stored timestamps well-formed.
pub proof fn lemma_ts_bounds(prev: int, now: int)
    requires
        0 <= prev < i64::MAX,
    ensures
        0 <= clamp_ts(now) < i64::MAX,
        prev <= next_ts(prev, now) < i64::MAX,
{
}

/// Exec mirror of [`clamp_ts`].
pub fn clamp_timestamp(now: i64) -> (ts: i64)
    ensures
        ts == clamp_ts(now as int),
{
    if now < 0 {
        0
    } else if now == i64::MAX {
        i64::MAX - 1
    } else {
        now
    }
}

/// Exec mirror of [`next_ts`].
pub fn next_timestamp(prev: i64, now: i64) -> (ts: i64)
    requires
        0 <= prev < i64::MAX,
    ensures
        ts == next_ts(prev as int, now as int),
{
    let clamped = clamp_timestamp(now);
    if clamped > prev {
        clamped
    } else if prev < i64::MAX - 1 {
        prev + 1
    } else {
        prev
    }
}

/// A write row for the book table: one field per column.
pub struct BookActiveModel {
    pub id: ActiveValue<i32>,
    pub title: ActiveValue<String>,
    pub author: ActiveValue<String>,
    pub price: ActiveValue<Option<String>>,
    pub publish_date: ActiveValue<Option<i64>>,
    pub created_at: ActiveValue<i64>,
    pub updated_at: ActiveValue<i64>,
}

/// The record a write row turns a stored record into: fields the row carries
/// are replaced, all others keep their stored value. The id never changes.
pub open spec fn spec_apply(book: Book, row: BookActiveModel) -> Book {
    Book {
        id: book.id,
        title: if row.title.is_assigned() {
            row.title.value()
        } else {
            book.title
        },
        author: if row.author.is_assigned() {
            row.author.value()
        } else {
            book.author
        },
        price: if row.price.is_assigned() {
            row.price.value()
        } else {
            book.price
        },
        publish_date: if row.publish_date.is_assigned() {
            row.publish_date.value()
        } else {
            book.publish_date
        },
        created_at: if row.created_at.is_assigned() {
            row.created_at.value()
        } else {
            book.created_at
        },
        updated_at: if row.updated_at.is_assigned() {
            row.updated_at.value()
        } else {
            book.updated_at
        },
    }
}

/// Applies a write row to a stored record, field by field.
pub fn apply_row(book: Book, row: BookActiveModel) -> (updated: Book)
    ensures
        updated == spec_apply(book, row),
{
    Book {
        id: book.id,
        title: match row.title {
            ActiveValue::Assigned(v) => v,
            ActiveValue::NotSet => book.title,
        },
        author: match row.author {
            ActiveValue::Assigned(v) => v,
            ActiveValue::NotSet => book.author,
        },
        price: match row.price {
            ActiveValue::Assigned(v) => v,
            ActiveValue::NotSet => book.price,
        },
        publish_date: match row.publish_date {
            ActiveValue::Assigned(v) => v,
            ActiveValue::NotSet => book.publish_date,
        },
        created_at: match row.created_at {
            ActiveValue::Assigned(v) => v,
            ActiveValue::NotSet => book.created_at,
        },
        updated_at: match row.updated_at {
            ActiveValue::Assigned(v) => v,
            ActiveValue::NotSet => book.updated_at,
        },
    }
}

/// A partial patch alters exactly the fields it carries: every field absent
/// from the row keeps its stored value, every field present takes the row's.
pub proof fn lemma_patch_touches_only_carried_fields(book: Book, row: BookActiveModel)
    ensures
        spec_apply(book, row).id == book.id,
        !row.title.is_assigned() ==> spec_apply(book, row).title == book.title,
        !row.author.is_assigned() ==> spec_apply(book, row).author == book.author,
        !row.price.is_assigned() ==> spec_apply(book, row).price == book.price,
        !row.publish_date.is_assigned() ==> spec_apply(book, row).publish_date
            == book.publish_date,
        !row.created_at.is_assigned() ==> spec_apply(book, row).created_at == book.created_at,
        !row.updated_at.is_assigned() ==> spec_apply(book, row).updated_at == book.updated_at,
        row.title.is_assigned() ==> spec_apply(book, row).title == row.title.value(),
        row.author.is_assigned() ==> spec_apply(book, row).author == row.author.value(),
        row.price.is_assigned() ==> spec_apply(book, row).price == row.price.value(),
        row.publish_date.is_assigned() ==> spec_apply(book, row).publish_date
            == row.publish_date.value(),
{
}

/// A request to create a book; title and author are required.
pub struct CreateBook {
    pub title: String,
    pub author: String,
    pub price: Option<String>,
    pub publish_date: Option<i64>,
}

impl CreateBook {
    /// The write row of this request at clock reading `now`: no id, the
    /// required fields written, the optional ones written only when present,
    /// and both timestamps stamped with the same clamped reading.
    pub fn active_model_at(self, now: i64) -> (row: BookActiveModel)
        ensures
            !row.id.is_assigned(),
            row.title == ActiveValue::Assigned(self.title),
            row.author == ActiveValue::Assigned(self.author),
            row.price == (match self.price {
                Option::Some(_) => ActiveValue::Assigned(self.price),
                Option::None => ActiveValue::<Option<String>>::NotSet,
            }),
            row.publish_date == (match self.publish_date {
                Option::Some(_) => ActiveValue::Assigned(self.publish_date),
                Option::None => ActiveValue::<Option<i64>>::NotSet,
            }),
            row.created_at == ActiveValue::Assigned(clamp_ts(now as int) as i64),
            row.updated_at == ActiveValue::Assigned(clamp_ts(now as int) as i64),
    {
        let timestamp = clamp_timestamp(now);
        proof {
            lemma_ts_bounds(0, now as int);
        }
        BookActiveModel {
            id: ActiveValue::NotSet,
            title: ActiveValue::Assigned(self.title),
            author: ActiveValue::Assigned(self.author),
            price: opt_to_active_value(self.price),
            publish_date: opt_to_active_value(self.publish_date),
            created_at: ActiveValue::Assigned(timestamp),
            updated_at: ActiveValue::Assigned(timestamp),
        }
    }
}

impl ToActiveModel<BookActiveModel> for CreateBook {
    /// As [`CreateBook::active_model_at`], stamped with the clock of the
    /// moment of the call.
    fn to_active_model(self) -> (row: BookActiveModel)
        ensures
            !row.id.is_assigned(),
            row.title == ActiveValue::Assigned(self.title),
            row.author == ActiveValue::Assigned(self.author),
            row.price == (match self.price {
                Option::Some(_) => ActiveValue::Assigned(self.price),
                Option::None => ActiveValue::<Option<String>>::NotSet,
            }),
            row.publish_date == (match self.publish_date {
                Option::Some(_) => ActiveValue::Assigned(self.publish_date),
                Option::None => ActiveValue::<Option<i64>>::NotSet,
            }),
            row.created_at == row.updated_at,
            row.created_at matches ActiveValue::Assigned(t) && 0 <= t < i64::MAX,
    {
        let now = clock_now_millis();
        self.active_model_at(now)
    }
}

/// A request to update a book: every business field optional, plus the
/// `updated_at` stamp the caller last read, which the update must match.
pub struct UpdateBook {
    pub title: Option<String>,
    pub author: Option<String>,
    pub price: Option<String>,
    pub publish_date: Option<i64>,
    pub updated_at: i64,
}

impl UpdateBook {
    /// The write row of this patch at clock reading `now`: no id, only the
    /// present fields, `created_at` untouched, and `updated_at` stamped with
    /// the clamped reading.
    pub fn active_model_at(self, now: i64) -> (row: BookActiveModel)
        ensures
            !row.id.is_assigned(),
            row.title == (match self.title {
                Option::Some(v) => ActiveValue::Assigned(v),
                Option::None => ActiveValue::<String>::NotSet,
            }),
            row.author == (match self.author {
                Option::Some(v) => ActiveValue::Assigned(v),
                Option::None => ActiveValue::<String>::NotSet,
            }),
            row.price == (match self.price {
                Option::Some(_) => ActiveValue::Assigned(self.price),
                Option::None => ActiveValue::<Option<String>>::NotSet,
            }),
            row.publish_date == (match self.publish_date {
                Option::Some(_) => ActiveValue::Assigned(self.publish_date),
                Option::None => ActiveValue::<Option<i64>>::NotSet,
            }),
            !row.created_at.is_assigned(),
            row.updated_at == ActiveValue::Assigned(clamp_ts(now as int) as i64),
    {
        let timestamp = clamp_timestamp(now);
        BookActiveModel {
            id: ActiveValue::NotSet,
            title: to_active_value(self.title),
            author: to_active_value(self.author),
            price: opt_to_active_value(self.price),
            publish_date: opt_to_active_value(self.publish_date),
            created_at: ActiveValue::NotSet,
            updated_at: ActiveValue::Assigned(timestamp),
        }
    }
}

impl ToActiveModel<BookActiveModel> for UpdateBook {
    /// As [`UpdateBook::active_model_at`], stamped with the clock of the
    /// moment of the call.
    fn to_active_model(self) -> (row: BookActiveModel)
        ensures
            !row.id.is_assigned(),
            row.title == (match self.title {
                Option::Some(v) => ActiveValue::Assigned(v),
                Option::None => ActiveValue::<String>::NotSet,
            }),
            row.author == (match self.author {
                Option::Some(v) => ActiveValue::Assigned(v),
                Option::None => ActiveValue::<String>::NotSet,
            }),
            row.price == (match self.price {
                Option::Some(_) => ActiveValue::Assigned(self.price),
                Option::None => ActiveValue::<Option<String>>::NotSet,
            }),
            row.publish_date == (match self.publish_date {
                Option::Some(_) => ActiveValue::Assigned(self.publish_date),
                Option::None => ActiveValue::<Option<i64>>::NotSet,
            }),
            !row.created_at.is_assigned(),
            row.updated_at matches ActiveValue::Assigned(t) && 0 <= t < i64::MAX,
    {
        let now = clock_now_millis();
        self.active_model_at(now)
    }
}

} // verus!
