use vstd::prelude::*;

use crate::reddit::{FetchError, Page};

verus! {

/// The decoded shape of a page response: a list of pages, each holding a
/// list of children whose data carries the fields of interest.
pub type PageRoot = Vec<RedditPage>;

pub struct RedditPage {
    pub data: ChildContainer,
}

pub struct ChildContainer {
    pub children: Vec<Children>,
}

pub struct Children {
    pub data: ChildData,
}

pub struct ChildData {
    pub name: String,
    pub title: Option<String>,
    pub url: Option<String>,
}

/// Reads the page fields out of a decoded page response.
///
/// The result is the first child of the first page: its `name` becomes the
/// post id, and its `title` and `url` must both be present.  Each way the
/// response can fall short maps to its own error.
pub fn page_from_response(pages: &PageRoot) -> (r: Result<Page, FetchError>)
    ensures
        pages@.len() == 0 ==> r == Err::<Page, FetchError>(FetchError::NoPages),
        pages@.len() > 0 && pages@[0].data.children@.len() == 0 ==> r == Err::<
            Page,
            FetchError,
        >(FetchError::NoChildren),
        pages@.len() > 0 && pages@[0].data.children@.len() > 0 ==> {
            let d = pages@[0].data.children@[0].data;
            &&& d.title is None ==> r == Err::<Page, FetchError>(FetchError::MissingTitle)
            &&& d.title is Some && d.url is None ==> r == Err::<Page, FetchError>(
                FetchError::MissingUrl,
            )
            &&& d.title is Some && d.url is Some ==> (r matches Ok(p) && p@.id == d.name@
                && p@.title == d.title->0@ && p@.url == d.url->0@)
        },
{
    if pages.len() == 0 {
        return Err(FetchError::NoPages);
    }
    let container = &pages[0].data;
    if container.children.len() == 0 {
        return Err(FetchError::NoChildren);
    }
    let data = &container.children[0].data;
    let title = match &data.title {
        Some(t) => t.clone(),
        None => {
            return Err(FetchError::MissingTitle);
        },
    };
    let url = match &data.url {
        Some(u) => u.clone(),
        None => {
            return Err(FetchError::MissingUrl);
        },
    };
    Ok(Page { id: data.name.clone(), title, url })
}

} // verus!
