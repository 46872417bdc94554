use reddit_ticker::db::{
    db_path, scores_from_rows, secs_to_time_stamp, time_stamp_to_secs, PostRow, ScoreRow, DB,
};
use reddit_ticker::reddit::{Post, Score};

fn post(id: &str, added: u64) -> Post {
    Post {
        added,
        id: id.to_string(),
        title: format!("title of {}", id),
        url: format!("https://reddit/{}", id),
        scores: vec![],
    }
}

#[test]
fn time_stamp_round_trip_exact() {
    let ts: u64 = 1_631_804_843;
    assert_eq!(secs_to_time_stamp(time_stamp_to_secs(ts)), ts);
}

#[test]
fn time_stamp_narrowing_truncates() {
    let ts: u64 = 0x1_0000_0000 + 17;
    assert_eq!(time_stamp_to_secs(ts), 17);
    assert_eq!(secs_to_time_stamp(time_stamp_to_secs(ts)), 17);
}

#[test]
fn db_path_appends_file_name() {
    assert_eq!(db_path("/data/app").as_str(), "/data/app/reddit_ticker.sqlite");
    assert_eq!(db_path("/data/app/").as_str(), "/data/app/reddit_ticker.sqlite");
}

#[test]
fn scores_from_rows_offsets_and_order() {
    let rows = vec![
        ScoreRow { added: 1010, score: 5 },
        ScoreRow { added: 1020, score: 7 },
    ];
    let scores = scores_from_rows(&rows, 1000);
    assert_eq!(
        scores,
        vec![
            Score { secs_since_post_added: 10, score: 5 },
            Score { secs_since_post_added: 20, score: 7 },
        ]
    );
}

#[test]
fn scores_from_rows_skips_invalid_rows() {
    let rows = vec![
        ScoreRow { added: 900, score: 5 },
        ScoreRow { added: 1020, score: 7 },
    ];
    let scores = scores_from_rows(&rows, 1000);
    assert_eq!(scores, vec![Score { secs_since_post_added: 20, score: 7 }]);
}

#[test]
fn post_from_row_has_empty_history() {
    let row = PostRow {
        id: "p1".to_string(),
        title: "t".to_string(),
        url: "https://u".to_string(),
        added: 1234,
    };
    let p = reddit_ticker::db::post_from_row(row);
    assert_eq!(p.id.as_str(), "p1");
    assert_eq!(p.added, 1234);
    assert!(p.scores.is_empty());
}

#[test]
fn db_round_trip_preserves_offsets() {
    let db = DB::new(":memory:").unwrap();
    let a = post("a1", 1000);
    db.insert_post(&a).unwrap();
    db.insert_score("a1", 1010, 5).unwrap();
    db.insert_score("a1", 1020, 7).unwrap();
    let loaded = db.get_all_posts().unwrap();
    assert_eq!(loaded.len(), 1);
    assert_eq!(loaded[0].id.as_str(), "a1");
    assert_eq!(loaded[0].added, 1000);
    assert_eq!(
        loaded[0].scores,
        vec![
            Score { secs_since_post_added: 10, score: 5 },
            Score { secs_since_post_added: 20, score: 7 },
        ]
    );
}

#[test]
fn db_insert_post_is_idempotent() {
    let db = DB::new(":memory:").unwrap();
    let a = post("a1", 1000);
    assert_eq!(db.insert_post(&a).unwrap(), 1);
    assert_eq!(db.insert_post(&a).unwrap(), 0);
    assert_eq!(db.get_all_posts().unwrap().len(), 1);
}

#[test]
fn db_insert_score_is_idempotent() {
    // A measurement is identified by (post_id, added): re-processing the
    // same measurement must not create a duplicate row, while a different
    // capture second still appends.
    let db = DB::new(":memory:").unwrap();
    let a = post("a1", 1000);
    db.insert_post(&a).unwrap();
    assert_eq!(db.insert_score("a1", 1010, 5).unwrap(), 1);
    assert_eq!(db.insert_score("a1", 1010, 5).unwrap(), 0);
    assert_eq!(db.get_scores(&a).unwrap().len(), 1);
    assert_eq!(db.insert_score("a1", 1011, 6).unwrap(), 1);
    assert_eq!(db.get_scores(&a).unwrap().len(), 2);
}

#[test]
fn db_get_post_found_and_missing() {
    let db = DB::new(":memory:").unwrap();
    db.insert_post(&post("a1", 1000)).unwrap();
    let found = db.get_post("a1").unwrap().unwrap();
    assert_eq!(found.id.as_str(), "a1");
    assert!(found.scores.is_empty());
    assert!(db.get_post("missing").unwrap().is_none());
}

#[test]
fn db_get_scores_reads_history() {
    let db = DB::new(":memory:").unwrap();
    let a = post("a1", 1000);
    db.insert_post(&a).unwrap();
    db.insert_score("a1", 1030, 9).unwrap();
    let scores = db.get_scores(&a).unwrap();
    assert_eq!(scores, vec![Score { secs_since_post_added: 30, score: 9 }]);
}

#[test]
fn db_delete_post_cascades_to_scores() {
    let db = DB::new(":memory:").unwrap();
    let a = post("a1", 1000);
    db.insert_post(&a).unwrap();
    db.insert_score("a1", 1010, 5).unwrap();
    let (post_rows, score_rows) = db.delete_post("a1").unwrap();
    assert_eq!(post_rows, 1);
    assert_eq!(score_rows, 1);
    assert!(db.get_post("a1").unwrap().is_none());
    assert!(db.get_scores(&a).unwrap().is_empty());
    assert_eq!(db.delete_post("a1").unwrap(), (0, 0));
}

#[test]
fn db_schema_creation_is_idempotent() {
    // Opening the same database twice must not duplicate schema objects or
    // disturb stored rows.
    let path = "/tmp/reddit_ticker_schema_test.sqlite";
    let first = DB::new(path).unwrap();
    first.delete_post("schema_probe").unwrap();
    first.insert_post(&post("schema_probe", 1000)).unwrap();
    drop(first);
    let second = DB::new(path).unwrap();
    let found = second.get_post("schema_probe").unwrap().unwrap();
    assert_eq!(found.id.as_str(), "schema_probe");
    second.delete_post("schema_probe").unwrap();
}
