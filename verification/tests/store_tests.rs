use reddit_ticker::db::{db_path, DB};
use reddit_ticker::reddit::{Page, Post, Score, RESOLUTION_MILLIS};
use reddit_ticker::store::{
    registered_post, try_start_watching, ApplyOutcome, DbRequest, Msg, PollResult, Reply, Store,
};

fn post(id: &str, added: u64, scores: Vec<Score>) -> Post {
    Post {
        added,
        id: id.to_string(),
        title: format!("title of {}", id),
        url: format!("https://reddit/{}", id),
        scores,
    }
}

fn page(id: &str) -> Page {
    Page {
        id: id.to_string(),
        title: format!("title of {}", id),
        url: format!("https://reddit/{}", id),
    }
}

fn score(offset: u64, value: i32) -> Score {
    Score { secs_since_post_added: offset, score: value }
}

fn ok_result(id: &str, value: i32) -> PollResult {
    PollResult { id: id.to_string(), score: Ok(value) }
}

fn err_result(id: &str) -> PollResult {
    PollResult { id: id.to_string(), score: Err("transport failed".to_string()) }
}

#[test]
fn create_is_empty() {
    let store = Store::create();
    assert!(store.snapshot_ids().is_empty());
    assert!(store.get("p1").is_none());
}

#[test]
fn insert_then_get() {
    let mut store = Store::create();
    store.insert(post("p1", 1000, vec![]));
    let p = store.get("p1").unwrap();
    assert_eq!(p.added, 1000);
    assert_eq!(p.title.as_str(), "title of p1");
    assert!(p.scores.is_empty());
}

#[test]
fn insert_replaces_by_id() {
    let mut store = Store::create();
    store.insert(post("p1", 1000, vec![]));
    store.insert(post("p1", 2000, vec![score(5, 9)]));
    let p = store.get("p1").unwrap();
    assert_eq!(p.added, 2000);
    assert_eq!(p.scores, vec![score(5, 9)]);
    assert_eq!(store.snapshot_ids().len(), 1);
}

#[test]
fn remove_reports_presence() {
    let mut store = Store::create();
    store.insert(post("p1", 1000, vec![]));
    assert!(store.remove("p1"));
    assert!(store.get("p1").is_none());
    assert!(!store.remove("p1"));
}

#[test]
fn snapshot_ids_lists_every_id() {
    let mut store = Store::create();
    store.insert(post("p1", 1000, vec![]));
    store.insert(post("p2", 1000, vec![]));
    let mut ids: Vec<String> = store.snapshot_ids();
    ids.sort();
    assert_eq!(ids.len(), 2);
    assert_eq!(ids[0].as_str(), "p1");
    assert_eq!(ids[1].as_str(), "p2");
}

#[test]
fn key_set_follows_commands() {
    // After a sequence of successful starts and stops, the key set holds
    // exactly the ids started and not stopped afterwards.
    let mut store = Store::create();
    store.insert(post("p1", 1000, vec![]));
    store.insert(post("p2", 1000, vec![]));
    store.remove("p1");
    store.insert(post("p3", 1000, vec![]));
    store.remove("p3");
    store.insert(post("p3", 2000, vec![]));
    let mut ids: Vec<String> = store.snapshot_ids();
    ids.sort();
    assert_eq!(ids.len(), 2);
    assert_eq!(ids[0].as_str(), "p2");
    assert_eq!(ids[1].as_str(), "p3");
}

#[test]
fn apply_measurement_appends() {
    let mut store = Store::create();
    store.insert(post("p1", 1000, vec![score(10, 5)]));
    let outcome = store.apply_measurement("p1", score(20, 7));
    assert_eq!(outcome, ApplyOutcome::Applied);
    assert_eq!(store.get("p1").unwrap().scores, vec![score(10, 5), score(20, 7)]);
}

#[test]
fn apply_measurement_not_found_is_noop() {
    let mut store = Store::create();
    store.insert(post("p1", 1000, vec![]));
    let outcome = store.apply_measurement("p2", score(20, 7));
    assert_eq!(outcome, ApplyOutcome::NotFound);
    assert!(store.get("p2").is_none());
    assert!(store.get("p1").unwrap().scores.is_empty());
}

#[test]
fn poll_cycle_scenario() {
    // Store holds A with no history and B with one score; the cycle
    // succeeds for A (value 7) and fails for B.
    let mut store = Store::create();
    let added: u64 = 100_000;
    let interval: u64 = RESOLUTION_MILLIS / 1000;
    store.insert(post("A", added, vec![]));
    store.insert(post("B", added, vec![score(10, 5)]));
    let results = vec![ok_result("A", 7), err_result("B")];
    let (reply, applied) = store.apply_poll_results(&results, added + interval);
    assert!(matches!(reply, Reply::UpdatedScores));
    assert_eq!(store.get("A").unwrap().scores, vec![score(interval, 7)]);
    assert_eq!(store.get("B").unwrap().scores, vec![score(10, 5)]);
    assert_eq!(applied.len(), 1);
    assert_eq!(applied[0].id.as_str(), "A");
    assert_eq!(applied[0].score, 7);
}

#[test]
fn poll_failure_leaves_history_unchanged() {
    let mut store = Store::create();
    store.insert(post("p1", 1000, vec![score(10, 5)]));
    let results = vec![err_result("p1")];
    let (reply, applied) = store.apply_poll_results(&results, 2000);
    assert!(matches!(reply, Reply::UpdatedScores));
    assert!(applied.is_empty());
    assert_eq!(store.get("p1").unwrap().scores, vec![score(10, 5)]);
}

#[test]
fn poll_does_not_recreate_removed_id() {
    // A poll cycle that snapshotted "p1" races a StopWatching("p1"): by the
    // time its measurement arrives the id is gone and must stay gone.
    let mut store = Store::create();
    store.insert(post("p1", 1000, vec![]));
    let removed = store.remove("p1");
    assert!(removed);
    let results = vec![ok_result("p1", 7)];
    let (_reply, applied) = store.apply_poll_results(&results, 2000);
    assert!(applied.is_empty());
    assert!(store.get("p1").is_none());
    assert!(store.snapshot_ids().is_empty());
}

#[test]
fn poll_empty_cycle_still_emits_event() {
    let mut store = Store::create();
    store.insert(post("p1", 1000, vec![]));
    let (reply, applied) = store.apply_poll_results(&vec![], 2000);
    assert!(matches!(reply, Reply::UpdatedScores));
    assert!(applied.is_empty());
    assert!(store.get("p1").unwrap().scores.is_empty());
}

#[test]
fn poll_offset_clamped_for_early_capture() {
    let mut store = Store::create();
    store.insert(post("p1", 5000, vec![]));
    store.apply_poll_results(&vec![ok_result("p1", 3)], 4000);
    assert_eq!(store.get("p1").unwrap().scores, vec![score(0, 3)]);
}

#[test]
fn update_initialize_starts_poller_once() {
    let mut store = Store::create();
    let eff1 = store.update(1, Msg::Initialize("/data/app".to_string()));
    assert!(eff1.start_poller);
    assert!(eff1.reply.is_none());
    assert!(eff1.watch.is_none());
    match eff1.db {
        Some(DbRequest::Load(dir)) => assert_eq!(dir.as_str(), "/data/app"),
        _ => panic!("expected a load request"),
    }
    let reply = store.finish_initialize(1, None);
    assert!(matches!(reply, Reply::Initialized(1)));
    let eff2 = store.update(2, Msg::Initialize("/data/app".to_string()));
    assert!(!eff2.start_poller);
    let reply = store.finish_initialize(2, None);
    assert!(matches!(reply, Reply::Initialized(2)));
}

#[test]
fn finish_initialize_replaces_posts_with_load() {
    let mut store = Store::create();
    store.insert(post("stale", 1, vec![]));
    store.update(1, Msg::Initialize("/data/app".to_string()));
    let reply = store.finish_initialize(1, Some(vec![post("p1", 1000, vec![score(10, 5)])]));
    assert!(matches!(reply, Reply::Initialized(1)));
    assert!(store.get("stale").is_none());
    assert_eq!(store.get("p1").unwrap().scores, vec![score(10, 5)]);
}

#[test]
fn finish_initialize_without_db_keeps_posts() {
    let mut store = Store::create();
    store.insert(post("kept", 1, vec![]));
    store.update(1, Msg::Initialize("/data/app".to_string()));
    store.finish_initialize(1, None);
    assert!(store.get("kept").is_some());
}

#[test]
fn update_start_watching_spawns_task() {
    let mut store = Store::create();
    let eff = store.update(9, Msg::StartWatching("https://example/x?ref=1".to_string()));
    assert!(eff.reply.is_none());
    assert!(!eff.start_poller);
    assert!(eff.db.is_none());
    let watch = eff.watch.unwrap();
    assert_eq!(watch.req_id, 9);
    assert_eq!(watch.url.as_str(), "https://example/x?ref=1");
    assert!(store.get("p1").is_none());
}

#[test]
fn update_stop_watching_removes_and_replies() {
    let mut store = Store::create();
    store.insert(post("p1", 1000, vec![]));
    let eff = store.update(4, Msg::StopWatching("p1".to_string()));
    match eff.reply {
        Some(Reply::StoppedWatching(req_id, id)) => {
            assert_eq!(req_id, 4);
            assert_eq!(id.as_str(), "p1");
        }
        other => panic!("unexpected reply {:?}", other.is_some()),
    }
    match eff.db {
        Some(DbRequest::Delete(id)) => assert_eq!(id.as_str(), "p1"),
        _ => panic!("expected a delete request"),
    }
    assert!(store.get("p1").is_none());
}

#[test]
fn update_stop_watching_tolerates_absent_id() {
    let mut store = Store::create();
    let eff = store.update(5, Msg::StopWatching("ghost".to_string()));
    assert!(matches!(eff.reply, Some(Reply::StoppedWatching(5, _))));
}

#[test]
fn finish_watch_success_inserts_and_replies() {
    let mut store = Store::create();
    let reply = store.finish_watch(8, Ok(post("p1", 1000, vec![])));
    match reply {
        Reply::StartedWatching(req_id, id) => {
            assert_eq!(req_id, 8);
            assert_eq!(id.as_str(), "p1");
        }
        _ => panic!("expected StartedWatching"),
    }
    assert_eq!(store.get("p1").unwrap().added, 1000);
}

#[test]
fn finish_watch_failure_leaves_store_and_replies() {
    let mut store = Store::create();
    let reply = store.finish_watch(8, Err("no such page".to_string()));
    match reply {
        Reply::FailedRequest(req_id, msg) => {
            assert_eq!(req_id, 8);
            assert_eq!(msg.as_str(), "no such page");
        }
        _ => panic!("expected FailedRequest"),
    }
    assert!(store.snapshot_ids().is_empty());
}

#[test]
fn registered_post_keeps_stored_fields_and_history() {
    let found = post("p1", 1000, vec![]);
    let p = registered_post(page("p1"), 9999, Some(found), Ok(vec![score(10, 5)]));
    assert_eq!(p.id.as_str(), "p1");
    assert_eq!(p.added, 1000);
    assert_eq!(p.scores, vec![score(10, 5)]);
}

#[test]
fn registered_post_failed_load_empties_history() {
    let found = post("p1", 1000, vec![score(1, 1)]);
    let p = registered_post(page("p1"), 9999, Some(found), Err("load failed".to_string()));
    assert_eq!(p.added, 1000);
    assert!(p.scores.is_empty());
}

#[test]
fn registered_post_absent_is_fresh() {
    let p = registered_post(page("p_new"), 4321, None, Ok(vec![]));
    assert_eq!(p.id.as_str(), "p_new");
    assert_eq!(p.title.as_str(), "title of p_new");
    assert_eq!(p.added, 4321);
    assert!(p.scores.is_empty());
}

#[test]
fn try_start_watching_without_db_builds_fresh_post() {
    let reg = try_start_watching(None, page("t3_new"), 7777).unwrap();
    assert!(reg.warning.is_none());
    let p = reg.post;
    assert_eq!(p.id.as_str(), "t3_new");
    assert_eq!(p.title.as_str(), "title of t3_new");
    assert_eq!(p.added, 7777);
    assert!(p.scores.is_empty());
}

#[test]
fn try_start_watching_reloads_persisted_history() {
    let db = DB::new(":memory:").unwrap();
    db.insert_post(&post("persist_w", 1000, vec![])).unwrap();
    db.insert_score("persist_w", 1010, 5).unwrap();
    let reg = try_start_watching(Some(&db), page("persist_w"), 9999).unwrap();
    assert!(reg.warning.is_none());
    let p = reg.post;
    assert_eq!(p.id.as_str(), "persist_w");
    assert_eq!(p.added, 1000);
    assert_eq!(p.scores, vec![score(10, 5)]);
}

#[test]
fn try_start_watching_fresh_id_is_persisted() {
    let db = DB::new(":memory:").unwrap();
    let reg = try_start_watching(Some(&db), page("brand_new"), 1234).unwrap();
    assert!(reg.warning.is_none());
    let p = reg.post;
    assert_eq!(p.id.as_str(), "brand_new");
    assert_eq!(p.added, 1234);
    assert!(p.scores.is_empty());
    let stored = db.get_post("brand_new").unwrap().unwrap();
    assert_eq!(stored.added, 1234);
}

#[test]
fn initialize_reloads_persisted_posts() {
    // A watched post and its measurements survive a restart: a second store
    // initialized over the same directory sees them again.  The test walks
    // the same steps the embedding program runs for each command.
    let dir = "/tmp".to_string();
    let mut store = Store::create();
    store.update(1, Msg::Initialize(dir.clone()));
    let db = DB::new(db_path(&dir).as_str()).unwrap();
    store.finish_initialize(1, Some(db.get_all_posts().unwrap()));
    for id in store.snapshot_ids() {
        let eff = store.update(2, Msg::StopWatching(id));
        if let Some(DbRequest::Delete(gone)) = eff.db {
            db.delete_post(&gone).unwrap();
        }
    }

    let registered = try_start_watching(Some(&db), page("persist_p1"), 1000).unwrap();
    store.finish_watch(3, Ok(registered.post));
    let (_reply, applied) = store.apply_poll_results(&vec![ok_result("persist_p1", 5)], 1010);
    for a in &applied {
        db.insert_score(&a.id, 1010, a.score).unwrap();
    }

    let mut revived = Store::create();
    revived.update(4, Msg::Initialize(dir.clone()));
    revived.finish_initialize(4, Some(db.get_all_posts().unwrap()));
    let p = revived.get("persist_p1").unwrap();
    assert_eq!(p.added, 1000);
    assert_eq!(p.title.as_str(), "title of persist_p1");
    assert_eq!(p.scores, vec![score(10, 5)]);

    let eff = revived.update(5, Msg::StopWatching("persist_p1".to_string()));
    if let Some(DbRequest::Delete(gone)) = eff.db {
        db.delete_post(&gone).unwrap();
    }
    assert!(revived.get("persist_p1").is_none());
}
