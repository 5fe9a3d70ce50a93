use crate::json_value::Json;
use vstd::prelude::*;

verus! {

/// The data of a fanbox post: its id and the post's JSON as it came.
pub struct FanboxData {
    pub id: u64,
    /// Raw data
    pub raw: Json,
}

impl FanboxData {
    /// The data of a post, from the post's JSON.
    pub fn new(id: u64, post: Json) -> (r: Option<Self>)
        ensures
            r matches Some(d) && d.id == id && d.raw == post,
    {
        Some(FanboxData { id, raw: post })
    }
}

} // verus!
