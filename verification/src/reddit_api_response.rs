use vstd::prelude::*;

use crate::reddit::FetchError;

verus! {

/// The decoded shape of a score response from the info endpoint.
pub struct ApiRoot {
    pub data: Data,
}

pub struct Data {
    pub children: Vec<Children>,
}

pub struct Children {
    pub data: Data2,
}

pub struct Data2 {
    pub score: i32,
}

/// Reads the score out of a decoded info response: the score of the first
/// child, or an error when the response holds no children.
pub fn score_from_response(api: &ApiRoot) -> (r: Result<i32, FetchError>)
    ensures
        api.data.children@.len() == 0 ==> r == Err::<i32, FetchError>(FetchError::NoChildren),
        api.data.children@.len() > 0 ==> r == Ok::<i32, FetchError>(
            api.data.children@[0].data.score,
        ),
{
    if api.data.children.len() == 0 {
        return Err(FetchError::NoChildren);
    }
    Ok(api.data.children[0].data.score)
}

} // verus!
