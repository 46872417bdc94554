use vstd::prelude::*;
use vstd::string::*;

verus! {

/// How long the poller sleeps between two cycles, in milliseconds.
pub const RESOLUTION_MILLIS: u64 = 5000;

/// The fields read from a Reddit page: the post's id, its title and its
/// canonical url.
#[derive(Debug)]
pub struct Page {
    pub id: String,
    pub title: String,
    pub url: String,
}

/// The mathematical value of a [`Page`]: its three fields as character
/// sequences.
pub struct PageV {
    pub id: Seq<char>,
    pub title: Seq<char>,
    pub url: Seq<char>,
}

impl View for Page {
    type V = PageV;

    open spec fn view(&self) -> PageV {
        PageV { id: self.id@, title: self.title@, url: self.url@ }
    }
}

/// One score reading for a post.  `secs_since_post_added` is the age of the
/// reading relative to the time the post was added, so a history stays
/// meaningful independently of the absolute clock.
#[derive(Clone, Copy, PartialEq, Eq, Structural, Debug)]
pub struct Score {
    pub secs_since_post_added: u64,
    pub score: i32,
}

/// A watched Reddit post with its append-only score history.  `added` is the
/// time the post was added, in seconds since the Unix epoch.
#[derive(Debug)]
pub struct Post {
    pub added: u64,
    pub id: String,
    pub title: String,
    pub url: String,
    pub scores: Vec<Score>,
}

/// The mathematical value of a [`Post`].
pub struct PostV {
    pub added: u64,
    pub id: Seq<char>,
    pub title: Seq<char>,
    pub url: Seq<char>,
    pub scores: Seq<Score>,
}

impl View for Post {
    type V = PostV;

    open spec fn view(&self) -> PostV {
        PostV {
            added: self.added,
            id: self.id@,
            title: self.title@,
            url: self.url@,
            scores: self.scores@,
        }
    }
}

/// The ways reading a fetched response can fail: the page response holds no
/// entry, the entry holds no child, or the child lacks a title or a url.
#[derive(Clone, Copy, PartialEq, Eq, Structural, Debug)]
pub enum FetchError {
    NoPages,
    NoChildren,
    MissingTitle,
    MissingUrl,
}

impl FetchError {
    /// A human-readable description of the failure.
    pub fn message(&self) -> (r: String)
        ensures
            *self == FetchError::NoPages ==> r@ == "Page response did not contain any pages"@,
            *self == FetchError::NoChildren ==> r@ == "The page did not contain any children"@,
            *self == FetchError::MissingTitle ==> r@ == "Page was missing a title"@,
            *self == FetchError::MissingUrl ==> r@ == "Page was missing a url"@,
    {
        match self {
            FetchError::NoPages => String::from_str("Page response did not contain any pages"),
            FetchError::NoChildren => String::from_str("The page did not contain any children"),
            FetchError::MissingTitle => String::from_str("Page was missing a title"),
            FetchError::MissingUrl => String::from_str("Page was missing a url"),
        }
    }
}

/// The number of characters of `s` that precede its first `'?'`, or the whole
/// length when `s` holds no `'?'`.
pub open spec fn query_prefix_len(s: Seq<char>) -> int
    decreases s.len(),
{
    if s.len() == 0 {
        0
    } else if s[0] == '?' {
        0
    } else {
        1 + query_prefix_len(s.drop_first())
    }
}

/// `s` with every trailing `'/'` removed.
pub open spec fn trim_trailing_slash(s: Seq<char>) -> Seq<char>
    decreases s.len(),
{
    if s.len() > 0 && s[s.len() - 1] == '/' {
        trim_trailing_slash(s.drop_last())
    } else {
        s
    }
}

/// The machine-readable resource for a page url: the url with its query
/// string stripped and trailing slashes trimmed, with `.json` appended.
pub open spec fn page_json_target(s: Seq<char>) -> Seq<char> {
    trim_trailing_slash(s.subrange(0, query_prefix_len(s))) + ".json"@
}

proof fn lemma_query_prefix_len_at(s: Seq<char>, i: int)
    requires
        0 <= i <= s.len(),
        forall|k: int| 0 <= k < i ==> s[k] != '?',
        i == s.len() || s[i] == '?',
    ensures
        query_prefix_len(s) == i,
    decreases i,
{
    if i == 0 {
    } else {
        let d = s.drop_first();
        assert(forall|k: int| 0 <= k < i - 1 ==> d[k] == s[k + 1]);
        lemma_query_prefix_len_at(d, i - 1);
    }
}

proof fn lemma_trim_step(s: Seq<char>, m: int)
    requires
        0 < m <= s.len(),
        s[m - 1] == '/',
        forall|k: int| m <= k < s.len() ==> s[k] == '/',
    ensures
        trim_trailing_slash(s) == trim_trailing_slash(s.subrange(0, m - 1)),
    decreases s.len() - m,
{
    if m == s.len() {
        assert(s.drop_last() =~= s.subrange(0, m - 1));
    } else {
        lemma_trim_step(s, m + 1);
        assert(s.subrange(0, m + 1 - 1).drop_last() =~= s.subrange(0, m - 1));
    }
}

/// The url of the machine-readable page resource: the query string is cut
/// off at the first `'?'`, trailing slashes are trimmed, and `.json` is
/// appended.
pub fn page_json_url(url: &str) -> (r: String)
    ensures
        r@ == page_json_target(url@),
{
    let len = url.unicode_len();
    let mut i: usize = 0;
    while i < len && url.get_char(i) != '?'
        invariant
            len == url@.len(),
            i <= len,
            forall|k: int| 0 <= k < i ==> url@[k] != '?',
        decreases len - i,
    {
        i = i + 1;
    }
    proof {
        lemma_query_prefix_len_at(url@, i as int);
    }
    let mut m: usize = i;
    while m > 0 && url.get_char(m - 1) == '/'
        invariant
            len == url@.len(),
            m <= i <= len,
            trim_trailing_slash(url@.subrange(0, i as int)) == trim_trailing_slash(
                url@.subrange(0, m as int),
            ),
        decreases m,
    {
        proof {
            let s = url@.subrange(0, m as int);
            lemma_trim_step(s, m as int);
            assert(s.subrange(0, m as int - 1) =~= url@.subrange(0, m as int - 1));
        }
        m = m - 1;
    }
    assert(trim_trailing_slash(url@.subrange(0, m as int)) == url@.subrange(0, m as int));
    let stem = url.substring_char(0, m);
    let res = String::from_str(stem).concat(".json");
    res
}

/// The url that queries the score endpoint for one post id.
pub fn api_score_url(id: &str) -> (r: String)
    ensures
        r@ == "https://api.reddit.com/api/info"@ + "?id="@ + id@,
{
    let mut res = String::from_str("https://api.reddit.com/api/info");
    res.append("?id=");
    res.append(id);
    res
}

/// A copy of a page with the same field contents.
pub fn clone_page(p: &Page) -> (r: Page)
    ensures
        r@ == p@,
{
    Page { id: p.id.clone(), title: p.title.clone(), url: p.url.clone() }
}

} // verus!
