//! Request payloads for the post resource, and their write rows.

use vstd::prelude::*;

use crate::active::ActiveValue;
use crate::active::option_into_active_value;

verus! {

/// A write row for the post table: one field per column.
pub struct PostActiveModel {
    pub id: ActiveValue<i32>,
    pub title: ActiveValue<String>,
    pub text: ActiveValue<String>,
}

/// A partial update of a post: absent fields are left unchanged.
pub struct PatchPost {
    pub title: Option<String>,
    pub text: Option<String>,
}

impl PatchPost {
    /// The write row of this patch: no id, and only the present fields.
    pub fn to_active_model(self) -> (row: PostActiveModel)
        ensures
            !row.id.is_assigned(),
            row.title == match self.title {
                Option::Some(v) => ActiveValue::Assigned(v),
                Option::None => ActiveValue::<String>::NotSet,
            },
            row.text == match self.text {
                Option::Some(v) => ActiveValue::Assigned(v),
                Option::None => ActiveValue::<String>::NotSet,
            },
    {
        PostActiveModel {
            id: ActiveValue::NotSet,
            title: option_into_active_value(self.title),
            text: option_into_active_value(self.text),
        }
    }
}

/// A request to create a post; both fields are required.
pub struct CreatePost {
    pub title: String,
    pub text: String,
}

impl CreatePost {
    /// The write row of this request: no id, both fields written.
    pub fn to_active_model(self) -> (row: PostActiveModel)
        ensures
            !row.id.is_assigned(),
            row.title == ActiveValue::Assigned(self.title),
            row.text == ActiveValue::Assigned(self.text),
    {
        PostActiveModel {
            id: ActiveValue::NotSet,
            title: ActiveValue::Assigned(self.title),
            text: ActiveValue::Assigned(self.text),
        }
    }
}

} // verus!
