//! Partial-write values: a field of a write against the store either carries
//! a new value or is left untouched. Payload types turn themselves into such
//! write rows through [`ToActiveModel`].

use vstd::prelude::*;

verus! {

/// One field of a write row: either a value to be written, or absent, in
/// which case the store keeps whatever it already holds.
pub enum ActiveValue<T> {
    Assigned(T),
    NotSet,
}

impl<T> ActiveValue<T> {
    /// Whether this field carries a value to write.
    pub open spec fn is_assigned(self) -> bool {
        self is Assigned
    }

    /// The carried value; meaningful only when one is carried.
    pub open spec fn value(self) -> T
        recommends
            self.is_assigned(),
    {
        self->Assigned_0
    }
}

/// A request payload that can be turned into a write row for the store.
pub trait ToActiveModel<T> {
    fn to_active_model(self) -> T;
}

/// Lifts an optional payload field into a write-row field: a present value is
/// written, an absent one leaves the stored value unchanged.
pub fn option_into_active_value<T>(option: Option<T>) -> (row: ActiveValue<T>)
    ensures
        row == match option {
            Option::Some(v) => ActiveValue::Assigned(v),
            Option::None => ActiveValue::<T>::NotSet,
        },
{
    if let Some(v) = option {
        return ActiveValue::Assigned(v);
    }
    ActiveValue::NotSet
}

/// As [`option_into_active_value`]; kept for the payloads that spell the
/// conversion this way.
pub(crate) fn to_active_value<T>(opt: Option<T>) -> (row: ActiveValue<T>)
    ensures
        row == match opt {
            Option::Some(v) => ActiveValue::Assigned(v),
            Option::None => ActiveValue::<T>::NotSet,
        },
{
    if let Some(v) = opt {
        return ActiveValue::Assigned(v);
    }
    ActiveValue::NotSet
}

/// Lifts an optional field of a nullable column: a present value is written
/// as itself, an absent one leaves the column unchanged (it does not write
/// null).
pub(crate) fn opt_to_active_value<T>(opt: Option<T>) -> (row: ActiveValue<Option<T>>)
    ensures
        row == match opt {
            Option::Some(_) => ActiveValue::Assigned(opt),
            Option::None => ActiveValue::<Option<T>>::NotSet,
        },
{
    if opt.is_some() {
        return ActiveValue::Assigned(opt);
    }
    ActiveValue::NotSet
}

} // verus!
