use vstd::prelude::*;
use vstd::string::*;

use crate::reddit::{Post, Score};

verus! {

/// The file name of the database inside the application directory.
pub fn db_name() -> (r: &'static str)
    ensures
        r@ == "reddit_ticker.sqlite"@,
{
    "reddit_ticker.sqlite"
}

/// Where the database lives inside the application directory `dir`: the
/// directory with exactly one `'/'` and the database file name appended.
pub open spec fn spec_db_path(dir: Seq<char>) -> Seq<char> {
    if dir.len() > 0 && dir[dir.len() - 1] == '/' {
        dir + "reddit_ticker.sqlite"@
    } else {
        dir + "/"@ + "reddit_ticker.sqlite"@
    }
}

/// The path of the database file inside the application directory.
pub fn db_path(app_dir: &str) -> (r: String)
    ensures
        r@ == spec_db_path(app_dir@),
{
    let len = app_dir.unicode_len();
    let mut res = String::from_str(app_dir);
    if len == 0 || app_dir.get_char(len - 1) != '/' {
        res.append("/");
    }
    res.append(db_name());
    res
}

/// A post row as the database stores it: the string fields plus the time the
/// post was added, narrowed to seconds since the epoch in 32 bits.
pub struct PostRow {
    pub id: String,
    pub title: String,
    pub url: String,
    pub added: u32,
}

/// A score row as the database stores it: the capture time, narrowed to
/// seconds since the epoch in 32 bits, and the score value.
#[derive(Clone, Copy, PartialEq, Eq, Structural, Debug)]
pub struct ScoreRow {
    pub added: u32,
    pub score: i32,
}

/// How a timestamp is narrowed for storage: its low 32 bits of seconds.
pub open spec fn spec_store_secs(ts: u64) -> u32 {
    (ts % 0x1_0000_0000) as u32
}

/// How a stored timestamp is widened on load.
pub open spec fn spec_load_secs(secs: u32) -> u64 {
    secs as u64
}

/// The age of a reading captured at `captured` relative to `added`; a capture
/// time before `added` would be invalid and is clamped to zero.
pub open spec fn spec_offset(captured: u64, added: u64) -> u64 {
    if captured >= added {
        (captured - added) as u64
    } else {
        0
    }
}

/// Narrows an epoch timestamp in seconds to the integer width the storage
/// engine supports.
pub fn time_stamp_to_secs(time_stamp: u64) -> (r: u32)
    ensures
        r == spec_store_secs(time_stamp),
{
    (time_stamp % 0x1_0000_0000) as u32
}

/// Widens a stored timestamp back to an epoch timestamp in seconds.
pub fn secs_to_time_stamp(secs: u32) -> (r: u64)
    ensures
        r == spec_load_secs(secs),
{
    secs as u64
}

/// The age of a reading captured at `captured` relative to `added`.
pub fn compute_offset(captured: u64, added: u64) -> (r: u64)
    ensures
        r == spec_offset(captured, added),
{
    if captured >= added {
        captured - added
    } else {
        0
    }
}

/// A timestamp below the storage width survives the store/load narrowing
/// unchanged, so a score offset read back from storage equals the offset the
/// poller computed when it captured the score.
pub proof fn lemma_measurement_round_trip(added: u64, captured: u64)
    requires
        added <= captured,
        captured < 0x1_0000_0000,
    ensures
        spec_offset(spec_load_secs(spec_store_secs(captured)), added) == captured - added,
{
}

/// Round trip through storage: appending the row that
/// [`DB::insert_score`] writes for a score captured at `captured` makes the
/// reloaded history grow by exactly the measurement the poller computed —
/// the same offset, the same value, appended at the end (so reloading
/// neither perturbs offsets nor reorders the history).
pub proof fn lemma_score_row_round_trip(rows: Seq<ScoreRow>, added: u64, captured: u64, v: i32)
    requires
        added <= captured,
        captured < 0x1_0000_0000,
    ensures
        spec_scores_from_rows(rows.push(ScoreRow { added: spec_store_secs(captured), score: v }), added)
            == spec_scores_from_rows(rows, added).push(
            Score { secs_since_post_added: (captured - added) as u64, score: v },
        ),
{
    let row = ScoreRow { added: spec_store_secs(captured), score: v };
    assert(rows.push(row).drop_last() =~= rows);
}

/// The scores a sequence of stored rows yields for a post added at `added`,
/// kept in row order.  A row whose capture time lies before `added` is
/// invalid and skipped.
pub open spec fn spec_scores_from_rows(rows: Seq<ScoreRow>, added: u64) -> Seq<Score>
    decreases rows.len(),
{
    if rows.len() == 0 {
        Seq::empty()
    } else {
        let prefix = spec_scores_from_rows(rows.drop_last(), added);
        let row = rows.last();
        if spec_load_secs(row.added) >= added {
            prefix.push(
                Score {
                    secs_since_post_added: spec_offset(spec_load_secs(row.added), added),
                    score: row.score,
                },
            )
        } else {
            prefix
        }
    }
}

/// Turns stored score rows into in-memory scores whose offsets are relative
/// to the owning post's `added` time, preserving row order.
pub fn scores_from_rows(rows: &Vec<ScoreRow>, added: u64) -> (r: Vec<Score>)
    ensures
        r@ == spec_scores_from_rows(rows@, added),
{
    let mut out: Vec<Score> = Vec::new();
    let mut i: usize = 0;
    while i < rows.len()
        invariant
            i <= rows@.len(),
            out@ == spec_scores_from_rows(rows@.subrange(0, i as int), added),
        decreases rows@.len() - i,
    {
        let row = rows[i];
        let ts = secs_to_time_stamp(row.added);
        if ts >= added {
            out.push(Score { secs_since_post_added: compute_offset(ts, added), score: row.score });
        }
        proof {
            assert(rows@.subrange(0, i as int + 1).drop_last() =~= rows@.subrange(0, i as int));
        }
        i = i + 1;
    }
    proof {
        assert(rows@.subrange(0, rows@.len() as int) =~= rows@);
    }
    out
}

/// Turns a stored post row into an in-memory post with an empty history.
pub fn post_from_row(row: PostRow) -> (r: Post)
    ensures
        r@.id == row.id@,
        r@.title == row.title@,
        r@.url == row.url@,
        r@.added == spec_load_secs(row.added),
        r@.scores == Seq::<Score>::empty(),
{
    Post {
        added: secs_to_time_stamp(row.added),
        id: row.id,
        title: row.title,
        url: row.url,
        scores: Vec::new(),
    }
}

#[verifier::external_type_specification]
#[verifier::external_body]
pub struct ExConnection(rusqlite::Connection);

/// Relies on rusqlite::Connection::open: opens or creates the database file
/// at `path`.  The outcome depends on the file system.
#[verifier::external_body]
fn open_connection(path: &str) -> (r: Result<rusqlite::Connection, String>) {
    rusqlite::Connection::open(path).map_err(|e| e.to_string())
}

/// Relies on rusqlite::Connection::execute_batch: creates the two tables and
/// the index when they do not exist yet.  A score row is identified by
/// (post_id, added), so re-inserting the same measurement is ignored.
#[verifier::external_body]
fn exec_create_tables(conn: &rusqlite::Connection) -> (r: Result<(), String>) {
    conn.execute_batch(
        "BEGIN;
         CREATE TABLE IF NOT EXISTS reddit_posts (post_id TEXT PRIMARY KEY, title TEXT, url TEXT, added INTEGER);
         CREATE TABLE IF NOT EXISTS reddit_scores (post_id TEXT, added INTEGER, score INTEGER, UNIQUE(post_id, added));
         CREATE INDEX IF NOT EXISTS idx_post_id ON reddit_scores (post_id);
         COMMIT;",
    ).map_err(|e| e.to_string())
}

/// Relies on rusqlite::Connection::execute: INSERT OR IGNORE of one post
/// row, keyed by the post id.  Returns how many rows changed; a single-row
/// INSERT changes at most one row by sqlite's changes count.
#[verifier::external_body]
fn exec_insert_post_row(
    conn: &rusqlite::Connection,
    id: &str,
    title: &str,
    url: &str,
    added: u32,
) -> (r: Result<usize, String>)
    ensures
        r matches Ok(n) ==> n <= 1,
{
    conn.execute(
        "INSERT OR IGNORE INTO reddit_posts (post_id, title, url, added) VALUES (?1, ?2, ?3, ?4);",
        (id, title, url, added),
    ).map_err(|e| e.to_string())
}

/// Relies on rusqlite::Connection::execute: INSERT OR IGNORE of one score
/// row, identified by (post_id, added).  Returns how many rows changed; a
/// single-row INSERT changes at most one row by sqlite's changes count.
#[verifier::external_body]
fn exec_insert_score_row(conn: &rusqlite::Connection, id: &str, added: u32, score: i32) -> (r:
    Result<usize, String>)
    ensures
        r matches Ok(n) ==> n <= 1,
{
    conn.execute(
        "INSERT OR IGNORE INTO reddit_scores (post_id, added, score) VALUES (?1, ?2, ?3);",
        (id, added, score),
    ).map_err(|e| e.to_string())
}

/// Relies on rusqlite::Connection::execute: deletes the post row with the
/// given id.  Returns how many rows changed; post_id is the table's primary
/// key, so at most one row can go away.
#[verifier::external_body]
fn exec_delete_post_row(conn: &rusqlite::Connection, id: &str) -> (r: Result<usize, String>)
    ensures
        r matches Ok(n) ==> n <= 1,
{
    conn.execute("DELETE FROM reddit_posts WHERE post_id = (?1);", (id,)).map_err(|e| e.to_string())
}

/// Relies on rusqlite::Connection::execute: deletes every score row of the
/// given post.  Returns how many rows changed.
#[verifier::external_body]
fn exec_delete_score_rows(conn: &rusqlite::Connection, id: &str) -> (r: Result<usize, String>) {
    conn.execute("DELETE FROM reddit_scores WHERE post_id = (?1);", (id,)).map_err(
        |e| e.to_string(),
    )
}

/// Relies on rusqlite prepare/query_map: reads every post row.  Rows the
/// driver cannot decode are dropped.  The result depends on the database
/// contents.
#[verifier::external_body]
fn query_post_rows(conn: &rusqlite::Connection) -> (r: Result<Vec<PostRow>, String>) {
    let run = || -> Result<Vec<PostRow>, rusqlite::Error> {
        let mut stmt = conn.prepare("SELECT post_id, title, url, added FROM reddit_posts;")?;
        let rows = stmt.query_map((), |row| {
            Ok(PostRow { id: row.get(0)?, title: row.get(1)?, url: row.get(2)?, added: row.get(3)? })
        })?;
        Ok(rows.filter_map(|x| x.ok()).collect())
    };
    run().map_err(|e| e.to_string())
}

/// Relies on rusqlite prepare/query_map: reads the post row with the given
/// id, if any.  The statement selects `post_id` under `WHERE post_id = ?1`,
/// so a returned row carries the id asked for; the rest depends on the
/// database contents.
#[verifier::external_body]
fn query_post_row(conn: &rusqlite::Connection, id: &str) -> (r: Result<Option<PostRow>, String>)
    ensures
        r matches Ok(Some(row)) ==> row.id@ == id@,
{
    let run = || -> Result<Option<PostRow>, rusqlite::Error> {
        let mut stmt = conn.prepare(
            "SELECT post_id, title, url, added FROM reddit_posts WHERE post_id = (?1);",
        )?;
        let mut rows = stmt.query_map((id,), |row| {
            Ok(PostRow { id: row.get(0)?, title: row.get(1)?, url: row.get(2)?, added: row.get(3)? })
        })?;
        match rows.next() {
            Some(res) => Ok(Some(res?)),
            None => Ok(None),
        }
    };
    run().map_err(|e| e.to_string())
}

/// Relies on rusqlite prepare/query_map: reads every score row of the given
/// post, in insertion (rowid) order.  Rows the driver cannot decode are
/// dropped.  The result depends on the database contents.
#[verifier::external_body]
fn query_score_rows(conn: &rusqlite::Connection, id: &str) -> (r: Result<Vec<ScoreRow>, String>) {
    let run = || -> Result<Vec<ScoreRow>, rusqlite::Error> {
        let mut stmt = conn.prepare(
            "SELECT added, score FROM reddit_scores WHERE post_id = (?1) ORDER BY rowid;",
        )?;
        let rows = stmt.query_map((id,), |row| {
            Ok(ScoreRow { added: row.get(0)?, score: row.get(1)? })
        })?;
        Ok(rows.filter_map(|x| x.ok()).collect())
    };
    run().map_err(|e| e.to_string())
}

/// The history of `p` is the [`spec_scores_from_rows`] reading of some
/// stored rows for `p`'s own `added` time.
pub open spec fn history_from_some_rows(p: Post) -> bool {
    exists|score_rows: Seq<ScoreRow>|
        p@.scores == spec_scores_from_rows(score_rows, p@.added)
}

/// Every post of `ps` satisfies [`history_from_some_rows`].
pub open spec fn histories_from_rows(ps: Seq<Post>) -> bool {
    forall|k: int| 0 <= k < ps.len() ==> history_from_some_rows(#[trigger] ps[k])
}

/// Durable storage of posts and their score histories, keyed by post id.
pub struct DB {
    conn: rusqlite::Connection,
}

impl DB {
    /// Opens or creates the database at `path` and makes sure the schema
    /// exists.  The schema statements are guarded by IF NOT EXISTS, so
    /// opening an existing database leaves its contents alone.
    pub fn new(path: &str) -> (r: Result<DB, String>) {
        let conn = match open_connection(path) {
            Ok(c) => c,
            Err(e) => {
                return Err(e);
            },
        };
        let db = DB { conn };
        match exec_create_tables(&db.conn) {
            Ok(()) => Ok(db),
            Err(e) => Err(e),
        }
    }

    /// Stores one post row; inserting the same id again is ignored.  The
    /// post's `added` time is narrowed by [`time_stamp_to_secs`].  On
    /// success at most one row changed: one when the post was new, none
    /// when its id was already stored.
    pub fn insert_post(&self, post: &Post) -> (r: Result<usize, String>)
        ensures
            r matches Ok(n) ==> n <= 1,
    {
        let added: u32 = time_stamp_to_secs(post.added);
        exec_insert_post_row(
            &self.conn,
            post.id.as_str(),
            post.title.as_str(),
            post.url.as_str(),
            added,
        )
    }

    /// Stores one score row for the post with `post_id`, captured at
    /// `time_stamp` (epoch seconds, narrowed by [`time_stamp_to_secs`]).
    /// On success at most one row changed: one for a new measurement, none
    /// when the same (post, capture second) was already stored.
    pub fn insert_score(&self, post_id: &str, time_stamp: u64, score: i32) -> (r: Result<
        usize,
        String,
    >)
        ensures
            r matches Ok(n) ==> n <= 1,
    {
        let added = time_stamp_to_secs(time_stamp);
        exec_insert_score_row(&self.conn, post_id, added, score)
    }

    /// Loads the score history of `post`.  Whatever rows the database holds,
    /// the result is exactly [`spec_scores_from_rows`] of those rows, so
    /// offsets are re-expressed relative to the post's `added` time and row
    /// order is preserved.
    pub fn get_scores(&self, post: &Post) -> (r: Result<Vec<Score>, String>)
        ensures
            r matches Ok(scores) ==> exists|rows: Seq<ScoreRow>|
                scores@ == spec_scores_from_rows(rows, post@.added),
    {
        let rows = match query_score_rows(&self.conn, post.id.as_str()) {
            Ok(rows) => rows,
            Err(e) => {
                return Err(e);
            },
        };
        let scores = scores_from_rows(&rows, post.added);
        proof {
            assert(scores@ == spec_scores_from_rows(rows@, post@.added));
        }
        Ok(scores)
    }

    /// Loads the post row with `post_id`, without its history.  A loaded
    /// post carries the id asked for and an empty history.
    pub fn get_post(&self, post_id: &str) -> (r: Result<Option<Post>, String>)
        ensures
            r matches Ok(Some(p)) ==> p@.id == post_id@ && p@.scores == Seq::<Score>::empty(),
    {
        match query_post_row(&self.conn, post_id) {
            Ok(Some(row)) => Ok(Some(post_from_row(row))),
            Ok(None) => Ok(None),
            Err(e) => Err(e),
        }
    }

    /// Loads every stored post with its full score history attached.
    /// Whatever the database holds, each returned post's history is the
    /// [`spec_scores_from_rows`] reading of some stored rows for that post's
    /// own `added` time.
    pub fn get_all_posts(&self) -> (r: Result<Vec<Post>, String>)
        ensures
            r matches Ok(ps) ==> histories_from_rows(ps@),
    {
        let mut rows = match query_post_rows(&self.conn) {
            Ok(rows) => rows,
            Err(e) => {
                return Err(e);
            },
        };
        let mut posts: Vec<Post> = Vec::new();
        let ghost mut wits: Seq<Seq<ScoreRow>> = Seq::empty();
        while rows.len() > 0
            invariant
                wits.len() == posts@.len(),
                forall|k: int|
                    0 <= k < posts@.len() ==> (#[trigger] posts@[k])@.scores
                        == spec_scores_from_rows(wits[k], posts@[k]@.added),
            decreases rows@.len(),
        {
            let row = rows.remove(0);
            let mut post = post_from_row(row);
            let scores = match self.get_scores(&post) {
                Ok(scores) => scores,
                Err(e) => {
                    return Err(e);
                },
            };
            let ghost sc = scores@;
            let ghost a = post@.added;
            post.scores = scores;
            posts.push(post);
            proof {
                let w = choose|score_rows: Seq<ScoreRow>| sc == spec_scores_from_rows(
                    score_rows,
                    a,
                );
                assert(sc == spec_scores_from_rows(w, a));
                wits = wits.push(w);
            }
        }
        proof {
            assert forall|k: int|
                0 <= k < posts@.len() implies history_from_some_rows(#[trigger] posts@[k]) by {
                assert(posts@[k]@.scores == spec_scores_from_rows(wits[k], posts@[k]@.added));
            }
        }
        Ok(posts)
    }

    /// Removes the post row with `post_id` and every score row that belongs
    /// to it; removing an absent id removes nothing.  Returns the removed
    /// post-row and score-row counts: at most one post row can go away,
    /// since the id is the table's key; how many score rows follow depends
    /// on the stored history.
    pub fn delete_post(&self, post_id: &str) -> (r: Result<(usize, usize), String>)
        ensures
            r matches Ok(counts) ==> counts.0 <= 1,
    {
        let post_rows = match exec_delete_post_row(&self.conn, post_id) {
            Ok(n) => n,
            Err(e) => {
                return Err(e);
            },
        };
        let score_rows = match exec_delete_score_rows(&self.conn, post_id) {
            Ok(n) => n,
            Err(e) => {
                return Err(e);
            },
        };
        Ok((post_rows, score_rows))
    }
}

} // verus!
