//! Typed shapes for the request parameters the handlers decode.

use vstd::prelude::*;

verus! {

/// Query-string parameters of the list operation: an optional exact-match
/// filter on `title`.
pub struct QueryParams {
    pub title: Option<String>,
}

/// Body of the title-update operation: the new title.
pub struct PutTitleParams {
    pub title: String,
}

impl Clone for QueryParams {
    fn clone(&self) -> (r: Self)
        ensures
            self.title is None ==> r.title is None,
            self.title matches Some(s) ==> (r.title matches Some(t) && t@ == s@),
    {
        QueryParams {
            title: match &self.title {
                Some(t) => Some(t.clone()),
                None => None,
            },
        }
    }
}

impl Clone for PutTitleParams {
    fn clone(&self) -> (r: Self)
        ensures
            r.title@ == self.title@,
    {
        PutTitleParams { title: self.title.clone() }
    }
}

} // verus!
