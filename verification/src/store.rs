use vstd::prelude::*;
use vstd::string::*;

use crate::db::{compute_offset, spec_offset, DB};
use crate::reddit::{Page, PageV, Post, PostV, Score};
use crate::strutil::str_eq;

verus! {

/// The commands the dispatcher accepts.
pub enum Msg {
    Initialize(String),
    StartWatching(String),
    StopWatching(String),
}

/// The replies the dispatcher and the poller emit.  Every command is answered
/// by exactly one reply carrying its request id; `UpdatedScores` is the
/// unsolicited per-cycle event of the poller.
pub enum Reply {
    Initialized(u64),
    StartedWatching(u64, String),
    StoppedWatching(u64, String),
    FailedRequest(u64, String),
    UpdatedScores,
}

/// The mathematical value of a [`Store`]: the watched posts as a mapping
/// from id to post value, and whether the poller has been started.
pub struct StoreV {
    pub posts: Map<Seq<char>, PostV>,
    pub polling: bool,
}

/// No two posts of the sequence share an id.
pub open spec fn ids_unique(s: Seq<Post>) -> bool {
    forall|i: int, j: int| 0 <= i < j < s.len() ==> s[i].id@ != s[j].id@
}

/// Some post of the sequence has the id.
pub open spec fn contains_id(s: Seq<Post>, id: Seq<char>) -> bool {
    exists|i: int| 0 <= i < s.len() && s[i].id@ == id
}

/// The mapping from id to post value that a sequence of posts represents;
/// on duplicate ids the later post wins.
pub open spec fn posts_map(s: Seq<Post>) -> Map<Seq<char>, PostV>
    decreases s.len(),
{
    if s.len() == 0 {
        Map::empty()
    } else {
        posts_map(s.drop_last()).insert(s.last().id@, s.last()@)
    }
}

proof fn lemma_posts_map_contains(s: Seq<Post>, id: Seq<char>)
    ensures
        posts_map(s).contains_key(id) <==> contains_id(s, id),
    decreases s.len(),
{
    if s.len() == 0 {
    } else {
        lemma_posts_map_contains(s.drop_last(), id);
        if id == s.last().id@ {
            assert(s[s.len() - 1].id@ == id);
            assert(contains_id(s, id));
        } else {
            if contains_id(s, id) {
                let i = choose|i: int| 0 <= i < s.len() && s[i].id@ == id;
                assert(s.drop_last()[i].id@ == id);
                assert(contains_id(s.drop_last(), id));
            }
            if contains_id(s.drop_last(), id) {
                let i = choose|i: int|
                    0 <= i < s.drop_last().len() && s.drop_last()[i].id@ == id;
                assert(s[i].id@ == id);
            }
        }
    }
}

/// The data-model invariant of the mapping: every key equals the id of the
/// post stored under it.
pub proof fn lemma_key_matches_id(s: Seq<Post>, id: Seq<char>)
    requires
        posts_map(s).contains_key(id),
    ensures
        posts_map(s)[id].id == id,
    decreases s.len(),
{
    if s.len() == 0 {
    } else if id == s.last().id@ {
    } else {
        lemma_key_matches_id(s.drop_last(), id);
    }
}

proof fn lemma_posts_map_index(s: Seq<Post>, i: int)
    requires
        ids_unique(s),
        0 <= i < s.len(),
    ensures
        posts_map(s).contains_key(s[i].id@),
        posts_map(s)[s[i].id@] == s[i]@,
    decreases s.len(),
{
    if i == s.len() - 1 {
    } else {
        assert(ids_unique(s.drop_last()));
        lemma_posts_map_index(s.drop_last(), i);
        assert(s.drop_last()[i] == s[i]);
    }
}

proof fn lemma_posts_map_update(s: Seq<Post>, i: int, p: Post)
    requires
        ids_unique(s),
        0 <= i < s.len(),
        p.id@ == s[i].id@,
    ensures
        posts_map(s.update(i, p)) == posts_map(s).insert(p.id@, p@),
    decreases s.len(),
{
    let u = s.update(i, p);
    if i == s.len() - 1 {
        assert(u.drop_last() =~= s.drop_last());
        assert(posts_map(u) == posts_map(s.drop_last()).insert(p.id@, p@));
        assert(posts_map(s.drop_last()).insert(s.last().id@, s.last()@).insert(p.id@, p@)
            =~= posts_map(s.drop_last()).insert(p.id@, p@));
    } else {
        assert(ids_unique(s.drop_last()));
        assert(u.last() == s.last());
        assert(u.drop_last() =~= s.drop_last().update(i, p));
        lemma_posts_map_update(s.drop_last(), i, p);
        assert(s[i].id@ != s.last().id@);
        assert(posts_map(s.drop_last()).insert(p.id@, p@).insert(s.last().id@, s.last()@)
            =~= posts_map(s.drop_last()).insert(s.last().id@, s.last()@).insert(p.id@, p@));
    }
}

proof fn lemma_posts_map_remove(s: Seq<Post>, i: int)
    requires
        ids_unique(s),
        0 <= i < s.len(),
    ensures
        posts_map(s.remove(i)) == posts_map(s).remove(s[i].id@),
    decreases s.len(),
{
    let u = s.remove(i);
    if i == s.len() - 1 {
        assert(u =~= s.drop_last());
        lemma_posts_map_contains(s.drop_last(), s[i].id@);
        assert(!contains_id(s.drop_last(), s[i].id@));
        assert(posts_map(s.drop_last()).insert(s.last().id@, s.last()@).remove(s[i].id@)
            =~= posts_map(s.drop_last()));
    } else {
        assert(ids_unique(s.drop_last()));
        assert(u.last() == s.last());
        assert(u.drop_last() =~= s.drop_last().remove(i));
        lemma_posts_map_remove(s.drop_last(), i);
        assert(s.drop_last()[i] == s[i]);
        assert(s[i].id@ != s.last().id@);
        assert(posts_map(s.drop_last()).remove(s[i].id@).insert(s.last().id@, s.last()@)
            =~= posts_map(s.drop_last()).insert(s.last().id@, s.last()@).remove(s[i].id@));
    }
}

/// The in-memory authoritative state: the watched posts and the flag that
/// keeps a second poller from being started.
///
/// The embedding program guards a `Store` with its own lock.  The store
/// holds no network or persistence handle, and none of its operations does
/// any I/O, so nothing can run disk or network work while that lock is
/// held: persistence work is handed back to the caller as effects
/// ([`DbRequest`], the applied scores of [`Store::apply_poll_results`]) and
/// runs against the [`DB`] the embedding keeps beside the store.
pub struct Store {
    posts: Vec<Post>,
    polling: bool,
}

impl View for Store {
    type V = StoreV;

    closed spec fn view(&self) -> StoreV {
        StoreV { posts: posts_map(self.posts@), polling: self.polling }
    }
}

impl Store {
    /// Well-formedness: the backing sequence holds each id at most once, so
    /// it represents its mapping faithfully.
    pub closed spec fn wf(&self) -> bool {
        ids_unique(self.posts@)
    }

    /// A fresh store: nothing watched, poller not started.
    pub fn create() -> (s: Store)
        ensures
            s.wf(),
            s@.posts == Map::<Seq<char>, PostV>::empty(),
            !s@.polling,
    {
        Store { posts: Vec::new(), polling: false }
    }

    /// The index of the post with the given id, if any.
    fn find_index(&self, id: &str) -> (r: Option<usize>)
        ensures
            r matches Some(i) ==> i < self.posts@.len() && self.posts@[i as int].id@ == id@,
            r is None ==> !contains_id(self.posts@, id@),
    {
        let mut i: usize = 0;
        while i < self.posts.len()
            invariant
                i <= self.posts@.len(),
                forall|k: int| 0 <= k < i ==> self.posts@[k].id@ != id@,
            decreases self.posts@.len() - i,
        {
            if str_eq(self.posts[i].id.as_str(), id) {
                return Some(i);
            }
            i = i + 1;
        }
        None
    }

    /// The post watched under `id`, if any.
    pub fn get(&self, id: &str) -> (r: Option<&Post>)
        requires
            self.wf(),
        ensures
            r matches Some(p) ==> self@.posts.contains_key(id@) && p@ == self@.posts[id@],
            r is None ==> !self@.posts.contains_key(id@),
    {
        match self.find_index(id) {
            Some(i) => {
                proof {
                    lemma_posts_map_index(self.posts@, i as int);
                }
                Some(&self.posts[i])
            },
            None => {
                proof {
                    lemma_posts_map_contains(self.posts@, id@);
                }
                None
            },
        }
    }

    /// Watches `post` under its id, replacing any post already watched under
    /// the same id.
    pub fn insert(&mut self, post: Post)
        requires
            old(self).wf(),
        ensures
            final(self).wf(),
            final(self)@.posts == old(self)@.posts.insert(post.id@, post@),
            final(self)@.polling == old(self)@.polling,
    {
        let ghost s0 = self.posts@;
        let ghost p = post;
        match self.find_index(post.id.as_str()) {
            Some(i) => {
                let slot = &mut self.posts[i];
                *slot = post;
                proof {
                    lemma_posts_map_update(s0, i as int, p);
                    assert(ids_unique(s0.update(i as int, p)));
                }
            },
            None => {
                self.posts.push(post);
                proof {
                    assert(self.posts@.drop_last() =~= s0);
                    assert forall|i: int, j: int|
                        0 <= i < j < self.posts@.len() implies self.posts@[i].id@
                        != self.posts@[j].id@ by {
                        if j == self.posts@.len() - 1 {
                            assert(s0[i].id@ != p.id@);
                        }
                    }
                }
            },
        }
    }

    /// Stops watching `id` in memory; reports whether anything was removed.
    pub fn remove(&mut self, id: &str) -> (removed: bool)
        requires
            old(self).wf(),
        ensures
            final(self).wf(),
            final(self)@.posts == old(self)@.posts.remove(id@),
            removed == old(self)@.posts.contains_key(id@),
            final(self)@.polling == old(self)@.polling,
    {
        let ghost s0 = self.posts@;
        match self.find_index(id) {
            Some(i) => {
                proof {
                    lemma_posts_map_remove(s0, i as int);
                    lemma_posts_map_index(s0, i as int);
                    assert forall|a: int, b: int|
                        0 <= a < b < s0.remove(i as int).len() implies s0.remove(i as int)[a].id@
                        != s0.remove(i as int)[b].id@ by {
                        assert(s0.remove(i as int)[a] == if a < i as int {
                            s0[a]
                        } else {
                            s0[a + 1]
                        });
                        assert(s0.remove(i as int)[b] == if b < i as int {
                            s0[b]
                        } else {
                            s0[b + 1]
                        });
                    }
                }
                self.posts.remove(i);
                true
            },
            None => {
                proof {
                    lemma_posts_map_contains(s0, id@);
                    assert(posts_map(s0) =~= posts_map(s0).remove(id@));
                }
                false
            },
        }
    }

    /// A point-in-time copy of all watched ids.  The copy shares nothing
    /// with the store, so the caller can fetch scores for the ids without
    /// keeping the store locked.
    pub fn snapshot_ids(&self) -> (r: Vec<String>)
        requires
            self.wf(),
        ensures
            forall|k: int| 0 <= k < r@.len() ==> self@.posts.contains_key(#[trigger] r@[k]@),
            forall|id: Seq<char>|
                self@.posts.contains_key(id) ==> exists|k: int| 0 <= k < r@.len() && r@[k]@ == id,
            forall|k1: int, k2: int| 0 <= k1 < k2 < r@.len() ==> r@[k1]@ != r@[k2]@,
    {
        let mut out: Vec<String> = Vec::new();
        let mut i: usize = 0;
        while i < self.posts.len()
            invariant
                i <= self.posts@.len(),
                out@.len() == i,
                forall|k: int| 0 <= k < i ==> #[trigger] out@[k]@ == self.posts@[k].id@,
            decreases self.posts@.len() - i,
        {
            out.push(self.posts[i].id.clone());
            i = i + 1;
        }
        proof {
            assert forall|k: int| 0 <= k < out@.len() implies self@.posts.contains_key(
                #[trigger] out@[k]@,
            ) by {
                lemma_posts_map_index(self.posts@, k);
            }
            assert forall|id: Seq<char>| self@.posts.contains_key(id) implies exists|k: int|
                0 <= k < out@.len() && out@[k]@ == id by {
                lemma_posts_map_contains(self.posts@, id);
                let j = choose|j: int| 0 <= j < self.posts@.len() && self.posts@[j].id@ == id;
                assert(out@[j]@ == id);
            }
        }
        out
    }
}

/// How applying one measurement ended: applied to the post, or the post is
/// no longer watched.  `NotFound` is benign — a post may legitimately vanish
/// between a snapshot and the application of its measurement.
#[derive(Clone, Copy, PartialEq, Eq, Structural, Debug)]
pub enum ApplyOutcome {
    Applied,
    NotFound,
}

/// `p` with the measurement `m` appended to its history.
pub open spec fn append_score(p: PostV, m: Score) -> PostV {
    PostV {
        added: p.added,
        id: p.id,
        title: p.title,
        url: p.url,
        scores: p.scores.push(m),
    }
}

/// The score fetched for one id during a poll cycle, or the message of the
/// failed fetch.
pub struct PollResult {
    pub id: String,
    pub score: Result<i32, String>,
}

/// The mathematical value of a [`PollResult`].
pub struct PollResultV {
    pub id: Seq<char>,
    pub score: Result<i32, Seq<char>>,
}

impl View for PollResult {
    type V = PollResultV;

    open spec fn view(&self) -> PollResultV {
        PollResultV {
            id: self.id@,
            score: match self.score {
                Ok(v) => Ok(v),
                Err(ref e) => Err(e@),
            },
        }
    }
}

/// The views of a sequence of poll results.
pub open spec fn poll_views(rs: Seq<PollResult>) -> Seq<PollResultV> {
    rs.map_values(|r: PollResult| r@)
}

/// What one cycle's results do to the watched posts: each successful result
/// whose id is still present gets a measurement appended, with the offset
/// taken from the post's own `added` time to `now`; failed results and ids
/// no longer present change nothing.
pub open spec fn spec_apply_results(
    m: Map<Seq<char>, PostV>,
    rs: Seq<PollResultV>,
    now: u64,
) -> Map<Seq<char>, PostV>
    decreases rs.len(),
{
    if rs.len() == 0 {
        m
    } else {
        let prev = spec_apply_results(m, rs.drop_last(), now);
        let r = rs.last();
        match r.score {
            Ok(v) => {
                if prev.contains_key(r.id) {
                    prev.insert(
                        r.id,
                        append_score(
                            prev[r.id],
                            Score {
                                secs_since_post_added: spec_offset(now, prev[r.id].added),
                                score: v,
                            },
                        ),
                    )
                } else {
                    prev
                }
            },
            Err(_) => prev,
        }
    }
}

impl Store {
    /// Appends `m` to the history of the post watched under `id`; when no
    /// such post exists the store is left untouched and the outcome says so.
    pub fn apply_measurement(&mut self, id: &str, m: Score) -> (r: ApplyOutcome)
        requires
            old(self).wf(),
        ensures
            final(self).wf(),
            old(self)@.posts.contains_key(id@) ==> final(self)@.posts == old(self)@.posts.insert(
                id@,
                append_score(old(self)@.posts[id@], m),
            ) && r == ApplyOutcome::Applied,
            !old(self)@.posts.contains_key(id@) ==> final(self)@ == old(self)@ && r
                == ApplyOutcome::NotFound,
            final(self)@.polling == old(self)@.polling,
    {
        let ghost s0 = self.posts@;
        match self.find_index(id) {
            Some(i) => {
                proof {
                    lemma_posts_map_index(s0, i as int);
                }
                let slot = &mut self.posts[i];
                slot.scores.push(m);
                proof {
                    let p2 = self.posts@[i as int];
                    lemma_posts_map_update(s0, i as int, p2);
                    assert(ids_unique(s0.update(i as int, p2)));
                    assert(p2@ == append_score(posts_map(s0)[id@], m));
                }
                ApplyOutcome::Applied
            },
            None => {
                proof {
                    lemma_posts_map_contains(s0, id@);
                }
                ApplyOutcome::NotFound
            },
        }
    }

    /// Applies one poll cycle's fetch results: every successful result whose
    /// post is still watched gets a measurement appended; failed fetches and
    /// vanished ids are skipped without error.  The one reply of the cycle
    /// comes back together with exactly the applied measurements, which the
    /// caller persists once the store is unlocked (a persistence failure
    /// does not touch the in-memory state, which is already updated).
    pub fn apply_poll_results(&mut self, results: &Vec<PollResult>, now: u64) -> (r: (
        Reply,
        Vec<AppliedScore>,
    ))
        requires
            old(self).wf(),
        ensures
            final(self).wf(),
            final(self)@.posts == spec_apply_results(old(self)@.posts, poll_views(results@), now),
            final(self)@.polling == old(self)@.polling,
            r.0 == Reply::UpdatedScores,
            applied_views(r.1@) == spec_applied(old(self)@.posts, poll_views(results@), now),
    {
        let ghost m0 = self@.posts;
        let mut applied: Vec<AppliedScore> = Vec::new();
        let mut i: usize = 0;
        proof {
            assert(applied_views(applied@) =~= spec_applied(
                m0,
                poll_views(results@.subrange(0, 0)),
                now,
            ));
        }
        while i < results.len()
            invariant
                i <= results@.len(),
                self.wf(),
                self@.posts == spec_apply_results(
                    m0,
                    poll_views(results@.subrange(0, i as int)),
                    now,
                ),
                applied_views(applied@) == spec_applied(
                    m0,
                    poll_views(results@.subrange(0, i as int)),
                    now,
                ),
                self@.polling == old(self)@.polling,
            decreases results@.len() - i,
        {
            let ghost applied0 = applied@;
            let result = &results[i];
            match &result.score {
                Ok(v) => {
                    let added_opt = match self.get(result.id.as_str()) {
                        Some(p) => Some(p.added),
                        None => None,
                    };
                    match added_opt {
                        Some(added) => {
                            let m = Score {
                                secs_since_post_added: compute_offset(now, added),
                                score: *v,
                            };
                            let _outcome = self.apply_measurement(result.id.as_str(), m);
                            applied.push(AppliedScore { id: result.id.clone(), score: *v });
                        },
                        None => {},
                    }
                },
                Err(_e) => {},
            }
            proof {
                let pv = poll_views(results@.subrange(0, i as int + 1));
                assert(pv.drop_last() =~= poll_views(results@.subrange(0, i as int)));
                assert(pv.last() == results@[i as int]@);
                assert(self@.posts == spec_apply_results(m0, pv, now));
                assert(applied_views(applied@) =~= spec_applied(m0, pv, now));
            }
            i = i + 1;
        }
        proof {
            assert(results@.subrange(0, results@.len() as int) =~= results@);
        }
        (Reply::UpdatedScores, applied)
    }
}

/// One measurement a poll cycle has applied in memory: the post's id and
/// the fetched value.  The embedding program hands each to
/// [`DB::insert_score`] with the cycle's capture time once the store lock
/// is released.
pub struct AppliedScore {
    pub id: String,
    pub score: i32,
}

/// The mathematical values of a sequence of applied measurements.
pub open spec fn applied_views(s: Seq<AppliedScore>) -> Seq<(Seq<char>, i32)> {
    s.map_values(|a: AppliedScore| (a.id@, a.score))
}

/// The measurements one cycle's results apply: one `(id, value)` pair per
/// successful result whose id is still watched when its turn comes, in
/// result order.
pub open spec fn spec_applied(
    m: Map<Seq<char>, PostV>,
    rs: Seq<PollResultV>,
    now: u64,
) -> Seq<(Seq<char>, i32)>
    decreases rs.len(),
{
    if rs.len() == 0 {
        Seq::empty()
    } else {
        let prev_map = spec_apply_results(m, rs.drop_last(), now);
        let prefix = spec_applied(m, rs.drop_last(), now);
        let r = rs.last();
        match r.score {
            Ok(v) => {
                if prev_map.contains_key(r.id) {
                    prefix.push((r.id, v))
                } else {
                    prefix
                }
            },
            Err(_) => prefix,
        }
    }
}

/// A watch registration the embedding program still has to run: fetch the
/// page for `url`, then hand the result to [`Store::try_start_watching`].
pub struct WatchRequest {
    pub req_id: u64,
    pub url: String,
}

/// Persistence work a command asks the embedding program to run once the
/// store lock is released: open-and-load the database under an application
/// directory, or delete one post and its history.
pub enum DbRequest {
    Load(String),
    Delete(String),
}

/// What one command asks the embedding program to do besides the state
/// change already applied: emit a reply, start the poller loop, spawn a
/// watch-registration task, or run persistence work.
pub struct UpdateEffects {
    pub reply: Option<Reply>,
    pub start_poller: bool,
    pub watch: Option<WatchRequest>,
    pub db: Option<DbRequest>,
}

/// The poller guard: the polling flag after an `Initialize`, paired with
/// whether that `Initialize` starts the poller.
pub open spec fn poller_guard_step(polling: bool) -> (bool, bool) {
    (true, !polling)
}

impl Store {
    /// Replaces the watched posts with `loaded`; on duplicate ids the later
    /// post wins, as [`posts_map`] says.
    fn replace_posts(&mut self, loaded: Vec<Post>)
        ensures
            final(self).wf(),
            final(self)@.posts == posts_map(loaded@),
            final(self)@.polling == old(self)@.polling,
    {
        self.posts = Vec::new();
        let ghost orig = loaded@;
        let mut rest = loaded;
        proof {
            assert(orig.subrange(0, 0) =~= Seq::<Post>::empty());
        }
        while rest.len() > 0
            invariant
                self.wf(),
                rest@.len() <= orig.len(),
                rest@ == orig.subrange(orig.len() - rest@.len(), orig.len() as int),
                self@.posts == posts_map(orig.subrange(0, orig.len() - rest@.len())),
                self@.polling == old(self)@.polling,
            decreases rest@.len(),
        {
            let ghost i = orig.len() - rest@.len();
            let p = rest.remove(0);
            proof {
                assert(p == orig[i]);
                assert(rest@ =~= orig.subrange(i + 1, orig.len() as int));
            }
            self.insert(p);
            proof {
                let pre = orig.subrange(0, i as int);
                let cur = orig.subrange(0, i + 1);
                assert(cur.drop_last() =~= pre);
                assert(cur.last() == orig[i]);
            }
        }
        proof {
            assert(orig.subrange(0, orig.len() as int) =~= orig);
        }
    }

    /// Dispatches one command, applies its in-memory state change, and says
    /// what else the embedding program must do — all persistence work is
    /// handed back as a [`DbRequest`], so none runs while the store is
    /// locked.  Every command yields exactly one reply: `StopWatching`
    /// answers at once; `StartWatching` hands back a [`WatchRequest`] whose
    /// task answers when it finishes; `Initialize` asks for the load under
    /// the application directory and answers through
    /// [`Store::finish_initialize`] once the load is done, asking for the
    /// poller to be started exactly when [`poller_guard_step`] says so.
    pub fn update(&mut self, req_id: u64, msg: Msg) -> (eff: UpdateEffects)
        requires
            old(self).wf(),
        ensures
            final(self).wf(),
            msg matches Msg::Initialize(app_dir) ==> ({
                let (p, started) = poller_guard_step(old(self)@.polling);
                &&& final(self)@.polling == p
                &&& final(self)@.posts == old(self)@.posts
                &&& eff.start_poller == started
                &&& eff.reply is None
                &&& eff.watch is None
                &&& (eff.db matches Some(DbRequest::Load(d)) && d@ == app_dir@)
            }),
            msg matches Msg::StartWatching(url) ==> ({
                &&& final(self)@ == old(self)@
                &&& eff.reply is None
                &&& !eff.start_poller
                &&& (eff.watch matches Some(w) && w.req_id == req_id && w.url@ == url@)
                &&& eff.db is None
            }),
            msg matches Msg::StopWatching(id) ==> ({
                &&& final(self)@.posts == old(self)@.posts.remove(id@)
                &&& final(self)@.polling == old(self)@.polling
                &&& (eff.reply matches Some(Reply::StoppedWatching(q, rid)) && q == req_id
                    && rid@ == id@)
                &&& !eff.start_poller
                &&& eff.watch is None
                &&& (eff.db matches Some(DbRequest::Delete(d)) && d@ == id@)
            }),
    {
        match msg {
            Msg::Initialize(app_dir) => {
                let start_poller = !self.polling;
                self.polling = true;
                UpdateEffects {
                    reply: None,
                    start_poller,
                    watch: None,
                    db: Some(DbRequest::Load(app_dir)),
                }
            },
            Msg::StartWatching(url) => {
                UpdateEffects {
                    reply: None,
                    start_poller: false,
                    watch: Some(WatchRequest { req_id, url }),
                    db: None,
                }
            },
            Msg::StopWatching(id) => {
                let delete_id = id.clone();
                self.remove(id.as_str());
                UpdateEffects {
                    reply: Some(Reply::StoppedWatching(req_id, id)),
                    start_poller: false,
                    watch: None,
                    db: Some(DbRequest::Delete(delete_id)),
                }
            },
        }
    }

    /// Settles an `Initialize` once the embedding program has run the
    /// requested load: the loaded posts replace the watched ones (on a
    /// failed load the embedding hands an empty load, clearing them), or,
    /// with no database to load from, the posts stay as they are.  Either
    /// way the command's one reply is returned.
    pub fn finish_initialize(&mut self, req_id: u64, loaded: Option<Vec<Post>>) -> (r: Reply)
        requires
            old(self).wf(),
        ensures
            final(self).wf(),
            loaded matches Some(posts) ==> final(self)@.posts == posts_map(posts@),
            loaded is None ==> final(self)@.posts == old(self)@.posts,
            final(self)@.polling == old(self)@.polling,
            r matches Reply::Initialized(q) && q == req_id,
    {
        match loaded {
            Some(posts) => {
                self.replace_posts(posts);
            },
            None => {},
        }
        Reply::Initialized(req_id)
    }

    /// Settles a watch registration: a successful registration inserts the
    /// post and is answered with `StartedWatching` carrying the post's id; a
    /// failed one leaves the store untouched and is answered with
    /// `FailedRequest` carrying the failure message.  Either way the task
    /// emits exactly this one reply.
    pub fn finish_watch(&mut self, req_id: u64, result: Result<Post, String>) -> (r: Reply)
        requires
            old(self).wf(),
        ensures
            final(self).wf(),
            result matches Ok(p) ==> final(self)@.posts == old(self)@.posts.insert(p.id@, p@) && (
            r matches Reply::StartedWatching(q, id) && q == req_id && id@ == p.id@),
            result matches Err(e) ==> final(self)@ == old(self)@ && (r matches
                Reply::FailedRequest(q, msg) && q == req_id && msg@ == e@),
            final(self)@.polling == old(self)@.polling,
    {
        match result {
            Ok(p) => {
                let id = p.id.clone();
                self.insert(p);
                Reply::StartedWatching(req_id, id)
            },
            Err(e) => Reply::FailedRequest(req_id, e),
        }
    }

}

/// The post a fresh watch registration builds from a page at time `now`.
pub open spec fn fresh_post(page: PageV, now: u64) -> PostV {
    PostV { added: now, id: page.id, title: page.title, url: page.url, scores: Seq::empty() }
}

/// Assembles the post a watch registration yields from the persistence
/// lookup: a found post keeps every stored field and gets the loaded
/// history attached (or an empty one when the load failed, which the
/// caller reports but does not propagate); an absent id yields exactly the
/// fresh post built from the page at `now`.
pub fn registered_post(
    page: Page,
    now: u64,
    found: Option<Post>,
    loaded: Result<Vec<Score>, String>,
) -> (r: Post)
    ensures
        found matches Some(f) ==> ({
            &&& r@.id == f@.id
            &&& r@.added == f@.added
            &&& r@.title == f@.title
            &&& r@.url == f@.url
            &&& (loaded matches Ok(s) ==> r@.scores == s@)
            &&& (loaded is Err ==> r@.scores == Seq::<Score>::empty())
        }),
        found is None ==> r@ == fresh_post(page@, now),
{
    match found {
        Some(mut f) => {
            match loaded {
                Ok(s) => {
                    f.scores = s;
                },
                Err(_e) => {
                    f.scores = Vec::new();
                },
            }
            f
        },
        None => Post {
            added: now,
            id: page.id,
            title: page.title,
            url: page.url,
            scores: Vec::new(),
        },
    }
}

/// A settled watch registration: the post to watch, and the message of a
/// persistence failure that by design does not fail the registration (a
/// failed history load, or a failed insert of a fresh post), handed back
/// for the embedding to log.
pub struct Registration {
    pub post: Post,
    pub warning: Option<String>,
}

/// Finishes a watch registration once the page has been fetched: when the
/// database already holds the page's id, the stored post is reloaded with
/// its full history instead of being treated as new; otherwise a fresh
/// post with an empty history is built from the page and stored.  The
/// result always carries the page's id; only a failed persistence lookup
/// makes it an error, so without a database it is exactly the fresh post
/// with nothing to warn about.  The caller inserts the post through
/// [`Store::finish_watch`]; this function touches no store, so no store
/// lock need be held around it.
pub fn try_start_watching(db: Option<&DB>, page: Page, now: u64) -> (r: Result<
    Registration,
    String,
>)
    ensures
        db is None ==> (r matches Ok(reg) && reg.post@ == fresh_post(page@, now) && reg.warning
            is None),
        r matches Ok(reg) ==> reg.post@.id == page@.id,
        r is Err ==> db is Some,
{
    let found = match db {
        Some(d) => {
            match d.get_post(page.id.as_str()) {
                Ok(opt) => opt,
                Err(e) => {
                    return Err(e);
                },
            }
        },
        None => None,
    };
    let loaded = match (&found, db) {
        (Some(f), Some(d)) => d.get_scores(f),
        _ => Ok(Vec::new()),
    };
    let mut warning: Option<String> = match &loaded {
        Ok(_) => None,
        Err(e) => Some(e.clone()),
    };
    let was_found = found.is_some();
    let post = registered_post(page, now, found, loaded);
    if !was_found {
        if let Some(d) = db {
            match d.insert_post(&post) {
                Ok(_rows) => {},
                Err(e) => {
                    warning = Some(e);
                },
            }
        }
    }
    Ok(Registration { post, warning })
}

/// Exactly one poller: an `Initialize` starts the poller only when none is
/// running, it always leaves the guard set, and so of two consecutive
/// `Initialize` commands the second never starts a poller.
pub proof fn lemma_initialize_idempotent(polling: bool)
    ensures
        ({
            let (p1, started1) = poller_guard_step(polling);
            let (p2, started2) = poller_guard_step(p1);
            &&& p1 && p2
            &&& started1 == !polling
            &&& !started2
        }),
{
}

/// One successful watch command on one id.
pub enum WatchEvent {
    Started(Seq<char>),
    Stopped(Seq<char>),
}

/// The key set after one command: an insert for a successful start, a remove
/// for a stop — exactly what [`Store::insert`] and [`Store::remove`] do to
/// the key set of the store's mapping.
pub open spec fn watch_step(keys: Set<Seq<char>>, ev: WatchEvent) -> Set<Seq<char>> {
    match ev {
        WatchEvent::Started(id) => keys.insert(id),
        WatchEvent::Stopped(id) => keys.remove(id),
    }
}

/// The key set after a sequence of commands.
pub open spec fn watch_fold(keys: Set<Seq<char>>, evs: Seq<WatchEvent>) -> Set<Seq<char>>
    decreases evs.len(),
{
    if evs.len() == 0 {
        keys
    } else {
        watch_step(watch_fold(keys, evs.drop_last()), evs.last())
    }
}

/// The store operations implement the watch steps on the key set: inserting
/// a post inserts its id into the set of watched ids, removing an id
/// removes it — so [`watch_fold`] tracks exactly what a sequence of
/// [`Store::insert`] and [`Store::remove`] calls does to the key set.
pub proof fn lemma_store_ops_are_watch_steps(m: Map<Seq<char>, PostV>, p: PostV, id: Seq<char>)
    ensures
        m.insert(id, p).dom() == watch_step(m.dom(), WatchEvent::Started(id)),
        m.remove(id).dom() == watch_step(m.dom(), WatchEvent::Stopped(id)),
{
    assert(m.insert(id, p).dom() =~= m.dom().insert(id));
    assert(m.remove(id).dom() =~= m.dom().remove(id));
}

/// Position `i` starts watching `id` and no later command stops it.
pub open spec fn started_and_kept(evs: Seq<WatchEvent>, id: Seq<char>, i: int) -> bool {
    &&& 0 <= i < evs.len()
    &&& evs[i] == WatchEvent::Started(id)
    &&& forall|j: int| i < j < evs.len() ==> evs[j] != WatchEvent::Stopped(id)
}

/// Characterizes the watched ids after any sequence of start/stop commands
/// applied to an empty store: an id is watched exactly when some command
/// started watching it and no later command stopped it.
pub proof fn lemma_watched_ids(evs: Seq<WatchEvent>)
    ensures
        forall|id: Seq<char>|
            watch_fold(Set::empty(), evs).contains(id) <==> exists|i: int|
                started_and_kept(evs, id, i),
    decreases evs.len(),
{
    if evs.len() == 0 {
    } else {
        let pre = evs.drop_last();
        let last = evs.last();
        lemma_watched_ids(pre);
        assert forall|id: Seq<char>|
            watch_fold(Set::empty(), evs).contains(id) <==> exists|i: int|
                started_and_kept(evs, id, i) by {
            let folded = watch_fold(Set::empty(), evs);
            let folded_pre = watch_fold(Set::empty(), pre);
            if folded.contains(id) {
                match last {
                    WatchEvent::Started(id0) => {
                        if id0 == id {
                            assert(started_and_kept(evs, id, evs.len() - 1));
                        } else {
                            assert(folded_pre.contains(id));
                            let i = choose|i: int| started_and_kept(pre, id, i);
                            assert(evs[i] == pre[i]);
                            assert forall|j: int| i < j < evs.len() implies evs[j]
                                != WatchEvent::Stopped(id) by {
                                if j < evs.len() - 1 {
                                    assert(evs[j] == pre[j]);
                                }
                            }
                            assert(started_and_kept(evs, id, i));
                        }
                    },
                    WatchEvent::Stopped(id0) => {
                        assert(id0 != id);
                        assert(folded_pre.contains(id));
                        let i = choose|i: int| started_and_kept(pre, id, i);
                        assert(evs[i] == pre[i]);
                        assert forall|j: int| i < j < evs.len() implies evs[j]
                            != WatchEvent::Stopped(id) by {
                            if j < evs.len() - 1 {
                                assert(evs[j] == pre[j]);
                            }
                        }
                        assert(started_and_kept(evs, id, i));
                    },
                }
            }
            if exists|i: int| started_and_kept(evs, id, i) {
                let i = choose|i: int| started_and_kept(evs, id, i);
                if i == evs.len() - 1 {
                    assert(last == WatchEvent::Started(id));
                    assert(folded.contains(id));
                } else {
                    assert(forall|j: int| i < j < pre.len() ==> pre[j] == evs[j]);
                    assert(started_and_kept(pre, id, i));
                    assert(folded_pre.contains(id));
                    assert(evs[evs.len() - 1] != WatchEvent::Stopped(id));
                    assert(folded.contains(id));
                }
            }
        }
    }
}

/// A poll cycle never creates or removes watched ids: the key set after a
/// cycle equals the key set before.  In particular an id removed while the
/// cycle was fetching is not recreated when its measurement arrives.
pub proof fn lemma_poll_preserves_key_set(
    m: Map<Seq<char>, PostV>,
    rs: Seq<PollResultV>,
    now: u64,
)
    ensures
        spec_apply_results(m, rs, now).dom() == m.dom(),
    decreases rs.len(),
{
    if rs.len() == 0 {
    } else {
        lemma_poll_preserves_key_set(m, rs.drop_last(), now);
        assert(spec_apply_results(m, rs, now).dom() =~= m.dom());
    }
}

/// A failed fetch leaves the post untouched: when every result the cycle
/// holds for `id` is a failure, the post watched under `id` after the cycle
/// is exactly the post before — and no error surfaces, since the cycle's
/// reply is always `UpdatedScores`.
pub proof fn lemma_poll_failure_preserves_history(
    m: Map<Seq<char>, PostV>,
    rs: Seq<PollResultV>,
    now: u64,
    id: Seq<char>,
)
    requires
        forall|k: int| #![auto] 0 <= k < rs.len() && rs[k].id == id ==> rs[k].score is Err,
    ensures
        spec_apply_results(m, rs, now).contains_key(id) == m.contains_key(id),
        m.contains_key(id) ==> spec_apply_results(m, rs, now)[id] == m[id],
    decreases rs.len(),
{
    if rs.len() == 0 {
    } else {
        assert(forall|k: int| #![auto]
            0 <= k < rs.drop_last().len() && rs.drop_last()[k].id == id ==> rs.drop_last()[k].score
                is Err);
        lemma_poll_failure_preserves_history(m, rs.drop_last(), now, id);
        lemma_poll_preserves_key_set(m, rs.drop_last(), now);
        if rs.last().id == id {
            assert(rs[rs.len() - 1].score is Err);
        }
    }
}

} // verus!
