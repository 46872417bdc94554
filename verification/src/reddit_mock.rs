use vstd::prelude::*;
use vstd::string::*;

use crate::reddit::{clone_page, Page, PageV};
use crate::strutil::str_eq;

verus! {

/// The value of the `k`-th mock page.
pub open spec fn mock_page_at(k: int) -> PageV {
    if k == 0 {
        PageV {
            id: "reddit_page_1"@,
            title: "Why Rust and Flutter are made for each other"@,
            url: "https://1"@,
        }
    } else if k == 1 {
        PageV { id: "reddit_page_2"@, title: "Should I give rid a try?"@, url: "https://2"@ }
    } else if k == 2 {
        PageV {
            id: "reddit_page_3"@,
            title: "Starting into Rust for Flutter devs"@,
            url: "https://3"@,
        }
    } else if k == 3 {
        PageV {
            id: "reddit_page_4"@,
            title: "How to make the borrow checkery your friend"@,
            url: "https://4"@,
        }
    } else if k == 4 {
        PageV {
            id: "reddit_page_5"@,
            title: "Does Rust have a Garbage Collector?"@,
            url: "https://5"@,
        }
    } else if k == 5 {
        PageV { id: "reddit_page_6"@, title: "Rust Podcasts"@, url: "https://6"@ }
    } else if k == 6 {
        PageV { id: "reddit_page_7"@, title: "Why is Rust better than C?"@, url: "https://7"@ }
    } else if k == 7 {
        PageV {
            id: "reddit_page_8"@,
            title: "Tutorial on running Flutter on Fuchsia"@,
            url: "https://8"@,
        }
    } else if k == 8 {
        PageV {
            id: "reddit_page_9"@,
            title: "Books to learn Flutter Development"@,
            url: "https://9"@,
        }
    } else {
        PageV {
            id: "reddit_page_10"@,
            title: "What are some advantages of Static Languages?"@,
            url: "https://10"@,
        }
    }
}

/// The fixed pages the mock serves, one per mock url.
pub fn mock_pages() -> (r: Vec<Page>)
    ensures
        r@.len() == 10,
        forall|k: int| 0 <= k < 10 ==> (#[trigger] r@[k])@ == mock_page_at(k),
{
    let mut out: Vec<Page> = Vec::new();
    out.push(
        Page {
            id: String::from_str("reddit_page_1"),
            title: String::from_str("Why Rust and Flutter are made for each other"),
            url: String::from_str("https://1"),
        },
    );
    out.push(
        Page {
            id: String::from_str("reddit_page_2"),
            title: String::from_str("Should I give rid a try?"),
            url: String::from_str("https://2"),
        },
    );
    out.push(
        Page {
            id: String::from_str("reddit_page_3"),
            title: String::from_str("Starting into Rust for Flutter devs"),
            url: String::from_str("https://3"),
        },
    );
    out.push(
        Page {
            id: String::from_str("reddit_page_4"),
            title: String::from_str("How to make the borrow checkery your friend"),
            url: String::from_str("https://4"),
        },
    );
    out.push(
        Page {
            id: String::from_str("reddit_page_5"),
            title: String::from_str("Does Rust have a Garbage Collector?"),
            url: String::from_str("https://5"),
        },
    );
    out.push(
        Page {
            id: String::from_str("reddit_page_6"),
            title: String::from_str("Rust Podcasts"),
            url: String::from_str("https://6"),
        },
    );
    out.push(
        Page {
            id: String::from_str("reddit_page_7"),
            title: String::from_str("Why is Rust better than C?"),
            url: String::from_str("https://7"),
        },
    );
    out.push(
        Page {
            id: String::from_str("reddit_page_8"),
            title: String::from_str("Tutorial on running Flutter on Fuchsia"),
            url: String::from_str("https://8"),
        },
    );
    out.push(
        Page {
            id: String::from_str("reddit_page_9"),
            title: String::from_str("Books to learn Flutter Development"),
            url: String::from_str("https://9"),
        },
    );
    out.push(
        Page {
            id: String::from_str("reddit_page_10"),
            title: String::from_str("What are some advantages of Static Languages?"),
            url: String::from_str("https://10"),
        },
    );
    out
}

/// The page the mock serves for a url: the first mock page whose url
/// matches, or nothing.
pub open spec fn mock_lookup(u: Seq<char>) -> Option<PageV> {
    if u == mock_page_at(0).url {
        Some(mock_page_at(0))
    } else if u == mock_page_at(1).url {
        Some(mock_page_at(1))
    } else if u == mock_page_at(2).url {
        Some(mock_page_at(2))
    } else if u == mock_page_at(3).url {
        Some(mock_page_at(3))
    } else if u == mock_page_at(4).url {
        Some(mock_page_at(4))
    } else if u == mock_page_at(5).url {
        Some(mock_page_at(5))
    } else if u == mock_page_at(6).url {
        Some(mock_page_at(6))
    } else if u == mock_page_at(7).url {
        Some(mock_page_at(7))
    } else if u == mock_page_at(8).url {
        Some(mock_page_at(8))
    } else if u == mock_page_at(9).url {
        Some(mock_page_at(9))
    } else {
        None
    }
}

/// Serves the fixed page whose url is `url`, or fails for any other url —
/// a stand-in for the real page fetch with the same shape of contract.
pub fn query_page(url: &str) -> (r: Result<Page, String>)
    ensures
        r matches Ok(p) ==> mock_lookup(url@) == Some(p@),
        r matches Err(e) ==> mock_lookup(url@) is None && e@ == "Page "@ + url@ + " not found"@,
{
    let pages = mock_pages();
    if str_eq(url, "https://1") {
        return Ok(clone_page(&pages[0]));
    }
    if str_eq(url, "https://2") {
        return Ok(clone_page(&pages[1]));
    }
    if str_eq(url, "https://3") {
        return Ok(clone_page(&pages[2]));
    }
    if str_eq(url, "https://4") {
        return Ok(clone_page(&pages[3]));
    }
    if str_eq(url, "https://5") {
        return Ok(clone_page(&pages[4]));
    }
    if str_eq(url, "https://6") {
        return Ok(clone_page(&pages[5]));
    }
    if str_eq(url, "https://7") {
        return Ok(clone_page(&pages[6]));
    }
    if str_eq(url, "https://8") {
        return Ok(clone_page(&pages[7]));
    }
    if str_eq(url, "https://9") {
        return Ok(clone_page(&pages[8]));
    }
    if str_eq(url, "https://10") {
        return Ok(clone_page(&pages[9]));
    }
    let mut message = String::from_str("Page ");
    message.append(url);
    message.append(" not found");
    Err(message)
}

/// The next mock score for a post: the previous score moved by `delta`, or
/// `fresh` for a post with no history yet.  Drawing `delta` and `fresh` is
/// the caller's business; the decision itself is deterministic.
pub fn mock_score_value(last: Option<i32>, delta: i32, fresh: i32) -> (r: i32)
    requires
        last matches Some(s) ==> i32::MIN <= s + delta <= i32::MAX,
    ensures
        last matches Some(s) ==> r == s + delta,
        last is None ==> r == fresh,
{
    match last {
        Some(s) => s + delta,
        None => fresh,
    }
}

} // verus!
