use std::collections::HashSet;
use std::time::Instant;
use thunder::admission::AdmissionGate;
use thunder::config::{DEFAULT_RETENTION_SECONDS, MAX_ORIGINAL_POSTS_PER_AUTHOR};
use thunder::ordering::score_recent;
use thunder::post::{LightPost, TinyPost, TweetDeleteEvent};
use thunder::query::TimelineKind;
use thunder::service::{cap_ids, effective_max_results, serve_posts, InNetworkRequest};
use thunder::store::PostStore;

const NOW: i64 = 1_000_000;

fn post(id: i64, author: i64, t: i64) -> LightPost {
    LightPost {
        post_id: id,
        author_id: author,
        created_at: t,
        in_reply_to_post_id: None,
        in_reply_to_user_id: None,
        is_retweet: false,
        is_reply: false,
        source_post_id: None,
        source_user_id: None,
        has_video: false,
        conversation_id: None,
    }
}

fn request(viewer: u64, authors: Vec<u64>, exclude: Vec<u64>, max: u32, video: bool) -> InNetworkRequest {
    InNetworkRequest {
        user_id: viewer,
        following_user_ids: authors,
        exclude_tweet_ids: exclude,
        max_results: max,
        is_video_request: video,
        debug: false,
    }
}

fn ids(posts: &[LightPost]) -> Vec<i64> {
    posts.iter().map(|p| p.post_id).collect()
}

fn query(store: &PostStore, viewer: u64, authors: Vec<u64>, exclude: Vec<u64>, max: u32) -> Vec<i64> {
    let req = request(viewer, authors, exclude, max, false);
    ids(&serve_posts(store, &req, &Instant::now()))
}

#[test]
fn tiny_post_new_keeps_fields() {
    let t = TinyPost::new(7, 99);
    assert_eq!(t, TinyPost { post_id: 7, created_at: 99 });
}

#[test]
fn basic_fan_out_drops_reply_without_parent() {
    let mut store = PostStore::new(DEFAULT_RETENTION_SECONDS, 0);
    let first = post(1, 10, NOW - 900);
    let mut second = post(2, 10, NOW - 800);
    second.is_reply = true;
    let third = post(3, 11, NOW - 850);
    store.insert_posts_at(vec![first, second, third], NOW);
    assert_eq!(query(&store, 5, vec![10, 11], vec![], 10), vec![3, 1]);
}

#[test]
fn reply_to_stored_original_is_kept() {
    let mut store = PostStore::new(DEFAULT_RETENTION_SECONDS, 0);
    let first = post(1, 10, NOW - 900);
    let mut second = post(2, 11, NOW - 800);
    second.is_reply = true;
    second.in_reply_to_post_id = Some(1);
    second.in_reply_to_user_id = Some(10);
    store.insert_posts_at(vec![first, second], NOW);
    assert_eq!(query(&store, 5, vec![10, 11], vec![], 10), vec![2, 1]);
}

#[test]
fn retweet_of_viewer_is_suppressed() {
    let mut store = PostStore::new(DEFAULT_RETENTION_SECONDS, 0);
    let first = post(1, 10, NOW - 900);
    let mut second = post(2, 11, NOW - 800);
    second.is_retweet = true;
    second.source_post_id = Some(1);
    second.source_user_id = Some(5);
    store.insert_posts_at(vec![first, second], NOW);
    assert_eq!(query(&store, 5, vec![11], vec![], 10), Vec::<i64>::new());
    assert_eq!(query(&store, 6, vec![11], vec![], 10), vec![2]);
}

#[test]
fn excluded_ids_are_not_returned() {
    let mut store = PostStore::new(DEFAULT_RETENTION_SECONDS, 0);
    store.insert_posts_at(vec![post(1, 10, NOW - 900), post(2, 10, NOW - 800)], NOW);
    assert_eq!(query(&store, 5, vec![10], vec![2], 10), vec![1]);
}

#[test]
fn delete_before_create_is_repaired() {
    let mut store = PostStore::new(DEFAULT_RETENTION_SECONDS, 0);
    store.mark_as_deleted(vec![TweetDeleteEvent { post_id: 42, deleted_at: NOW }]);
    store.insert_posts_at(vec![post(42, 7, NOW - 60)], NOW);
    store.finalize_init_at(NOW);
    assert_eq!(query(&store, 5, vec![7], vec![], 10), Vec::<i64>::new());
}

#[test]
fn delete_after_create_removes_post() {
    let mut store = PostStore::new(DEFAULT_RETENTION_SECONDS, 0);
    store.insert_posts_at(vec![post(1, 10, NOW - 900), post(2, 10, NOW - 800)], NOW);
    store.mark_as_deleted(vec![TweetDeleteEvent { post_id: 2, deleted_at: NOW }]);
    assert_eq!(query(&store, 5, vec![10], vec![], 10), vec![1]);
}

#[test]
fn stale_and_future_posts_are_rejected() {
    let mut store = PostStore::new(100, 0);
    store.insert_posts_at(vec![post(1, 10, NOW - 1000), post(2, 10, NOW + 5), post(3, 10, NOW - 101)], NOW);
    assert_eq!(query(&store, 5, vec![10], vec![], 10), Vec::<i64>::new());
    store.insert_posts_at(vec![post(4, 10, NOW - 100), post(5, 10, NOW)], NOW);
    assert_eq!(query(&store, 5, vec![10], vec![], 10), vec![5, 4]);
}

#[test]
fn trim_removes_expired_posts() {
    let mut store = PostStore::new(100, 0);
    store.insert_posts_at(vec![post(1, 10, NOW - 10), post(2, 10, NOW - 5)], NOW);
    assert_eq!(query(&store, 5, vec![10], vec![], 10), vec![2, 1]);
    let trimmed = store.trim_old_posts_at(NOW + 95);
    assert_eq!(trimmed, 1);
    assert_eq!(store.post_count(), 1);
    assert_eq!(query(&store, 5, vec![10], vec![], 10), vec![2]);
    let trimmed = store.trim_old_posts_at(NOW + 200);
    assert_eq!(trimmed, 1);
    assert_eq!(store.post_count(), 0);
    assert_eq!(store.user_count(), 0);
    assert_eq!(query(&store, 5, vec![10], vec![], 10), Vec::<i64>::new());
}

#[test]
fn duplicate_create_keeps_first_record() {
    let mut store = PostStore::new(DEFAULT_RETENTION_SECONDS, 0);
    store.insert_posts_at(vec![post(1, 10, NOW - 900)], NOW);
    store.insert_posts_at(vec![post(1, 10, NOW - 700)], NOW);
    let req = request(5, vec![10], vec![], 10, false);
    let got = serve_posts(&store, &req, &Instant::now());
    assert_eq!(got.len(), 1);
    assert_eq!(got[0].created_at, NOW - 900);
}

#[test]
fn insert_posts_uses_wall_clock() {
    let mut store = PostStore::new(DEFAULT_RETENTION_SECONDS, 0);
    let now = std::time::SystemTime::now().duration_since(std::time::UNIX_EPOCH).unwrap().as_secs() as i64;
    store.insert_posts(vec![post(1, 10, now - 60)]);
    assert_eq!(query(&store, 5, vec![10], vec![], 10), vec![1]);
}

#[test]
fn video_request_reads_video_timelines() {
    let mut store = PostStore::new(DEFAULT_RETENTION_SECONDS, 0);
    let mut v = post(1, 10, NOW - 900);
    v.has_video = true;
    let mut rt = post(2, 11, NOW - 800);
    rt.is_retweet = true;
    rt.source_post_id = Some(1);
    rt.source_user_id = Some(10);
    let plain = post(3, 10, NOW - 700);
    store.insert_posts_at(vec![v, rt, plain], NOW);
    let req = request(5, vec![10, 11], vec![], 0, true);
    let got = ids(&serve_posts(&store, &req, &Instant::now()));
    assert_eq!(got, vec![2, 1]);
}

#[test]
fn per_author_cap_applies() {
    let mut store = PostStore::new(DEFAULT_RETENTION_SECONDS, 0);
    let posts: Vec<LightPost> = (0..20).map(|i| post(100 + i, 10, NOW - 1000 + i)).collect();
    store.insert_posts_at(posts, NOW);
    let ex: HashSet<i64> = HashSet::new();
    let got = store.get_posts_from_map(TimelineKind::Original, &[10], MAX_ORIGINAL_POSTS_PER_AUTHOR, &ex, &HashSet::new(), &Instant::now(), 5);
    assert_eq!(got.len(), MAX_ORIGINAL_POSTS_PER_AUTHOR);
    assert_eq!(got[0].post_id, 119);
    assert_eq!(query(&store, 5, vec![10], vec![], 3), vec![119, 118, 117]);
}

#[test]
fn score_recent_orders_newest_first_and_keeps_ties() {
    let posts = vec![post(1, 1, 10), post(2, 1, 30), post(3, 2, 20), post(4, 3, 30), post(5, 3, 10)];
    let got = ids(&score_recent(posts.clone(), 10));
    assert_eq!(got, vec![2, 4, 3, 1, 5]);
    let got = ids(&score_recent(posts, 2));
    assert_eq!(got, vec![2, 4]);
    assert!(score_recent(vec![], 5).is_empty());
}

#[test]
fn admission_sheds_over_capacity() {
    let mut gate = AdmissionGate::new(1);
    assert!(gate.try_acquire());
    assert!(!gate.try_acquire());
    gate.release();
    assert_eq!(gate.in_flight(), 0);
    assert!(gate.try_acquire());
}

#[test]
fn request_defaults_and_caps() {
    assert_eq!(effective_max_results(7, true), 7);
    assert_eq!(effective_max_results(0, true), thunder::config::MAX_VIDEOS_TO_RETURN);
    assert_eq!(effective_max_results(0, false), thunder::config::MAX_POSTS_TO_RETURN);
    let long: Vec<u64> = (0..(thunder::config::MAX_INPUT_LIST_SIZE as u64 + 5)).collect();
    assert_eq!(cap_ids(&long).len(), thunder::config::MAX_INPUT_LIST_SIZE);
    assert_eq!(cap_ids(&vec![3, 4]), vec![3, 4]);
}

#[test]
fn clear_empties_timelines() {
    let mut store = PostStore::new(DEFAULT_RETENTION_SECONDS, 0);
    store.insert_posts_at(vec![post(1, 10, NOW - 900)], NOW);
    store.clear();
    assert_eq!(query(&store, 5, vec![10], vec![], 10), Vec::<i64>::new());
    assert_eq!(store.retention_seconds(), DEFAULT_RETENTION_SECONDS);
}

#[test]
fn store_counts_and_default() {
    let mut store = PostStore::default();
    assert_eq!(store.retention_seconds(), DEFAULT_RETENTION_SECONDS);
    assert_eq!(store.request_timeout_ms(), 0);
    store.insert_posts_at(vec![post(1, 10, NOW - 900), post(2, 11, NOW - 800)], NOW);
    store.mark_as_deleted(vec![TweetDeleteEvent { post_id: 1, deleted_at: NOW }]);
    assert_eq!(store.post_count(), 1);
    assert_eq!(store.deleted_count(), 1);
    assert_eq!(store.user_count(), 3);
    store.sort_all_user_posts();
    store.finalize_init_at(NOW);
    assert_eq!(store.post_count(), 1);
    store.finalize_init();
    assert_eq!(store.post_count(), 0);
}

#[test]
fn statistics_of_posts() {
    let mut r = post(3, 11, 50);
    r.is_reply = true;
    let posts = vec![post(1, 10, 100), post(2, 10, 300), r];
    let s = thunder::stats::post_statistics(&posts);
    assert_eq!(s.total, 3);
    assert_eq!(s.reply_count, 1);
    assert_eq!(s.original_count, 2);
    assert_eq!(s.unique_authors, 2);
    assert_eq!(s.newest_created_at, Some(300));
    assert_eq!(s.oldest_created_at, Some(50));
    let empty = thunder::stats::post_statistics(&vec![]);
    assert_eq!(empty.newest_created_at, None);
}

#[test]
fn trim_expires_tombstones() {
    let mut store = PostStore::new(100, 0);
    store.mark_as_deleted(vec![TweetDeleteEvent { post_id: 9, deleted_at: NOW }]);
    assert_eq!(store.deleted_count(), 1);
    assert_eq!(store.trim_old_posts_at(NOW + 50), 0);
    assert_eq!(store.deleted_count(), 1);
    assert_eq!(store.trim_old_posts_at(NOW + 101), 1);
    assert_eq!(store.deleted_count(), 0);
    store.insert_posts_at(vec![post(9, 7, NOW + 90)], NOW + 101);
    assert_eq!(query(&store, 5, vec![7], vec![], 10), vec![9]);
}

#[test]
fn repeated_author_is_read_once() {
    let mut store = PostStore::new(DEFAULT_RETENTION_SECONDS, 0);
    store.insert_posts_at(vec![post(1, 10, NOW - 900), post(2, 10, NOW - 800)], NOW);
    let ex: HashSet<i64> = HashSet::new();
    let got = store.get_posts_from_map(TimelineKind::Original, &[10, 10], MAX_ORIGINAL_POSTS_PER_AUTHOR, &ex, &HashSet::new(), &Instant::now(), 5);
    assert_eq!(ids(&got), vec![2, 1]);
    assert_eq!(query(&store, 5, vec![10, 10], vec![], 10), vec![2, 1]);
}

#[test]
fn timeline_reference_totals() {
    let mut store = PostStore::new(DEFAULT_RETENTION_SECONDS, 0);
    let mut r = post(3, 11, NOW - 700);
    r.is_retweet = true;
    r.source_post_id = Some(1);
    let mut v = post(1, 10, NOW - 900);
    v.has_video = true;
    store.insert_posts_at(vec![v, post(2, 10, NOW - 800), r], NOW);
    assert_eq!(store.timeline_ref_count(TimelineKind::Original), 2);
    assert_eq!(store.timeline_ref_count(TimelineKind::Secondary), 1);
    assert_eq!(store.timeline_ref_count(TimelineKind::Video), 2);
}
