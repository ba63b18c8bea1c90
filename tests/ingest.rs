use thunder::worker::{worker_step, PollEvent, WorkerAction, WorkerState};
use thunder::filters::{PostCandidate, RetweetDeduplicationFilter, SelfTweetFilter};
use thunder::ingest::{
    extract_updates, is_eligible_video, process_message_batch, thread_partitions, CoreData,
    MediaEntity, MediaInfo, Reply, Tweet, TweetEventData,
};
use thunder::store::PostStore;

const NOW: i64 = 1_000_000;

fn core_at(t: i64) -> CoreData {
    CoreData { created_at_secs: Some(t), nullcast: None, reply: None, share: None, conversation_id: None }
}

fn video(ms: i32) -> MediaEntity {
    MediaEntity { media_info: Some(MediaInfo::VideoInfo { duration_millis: Some(ms) }) }
}

#[test]
fn video_needs_one_long_enough_video() {
    let min = thunder::config::MIN_VIDEO_DURATION_MS;
    let t = |media: Option<Vec<MediaEntity>>| Tweet { id: Some(1), core_data: Some(core_at(0)), media };
    assert!(is_eligible_video(&t(Some(vec![video(min)]))));
    assert!(!is_eligible_video(&t(Some(vec![video(min - 1)]))));
    assert!(!is_eligible_video(&t(Some(vec![video(min), video(min)]))));
    assert!(!is_eligible_video(&t(Some(vec![MediaEntity { media_info: Some(MediaInfo::Other) }]))));
    assert!(!is_eligible_video(&t(None)));
}

#[test]
fn batch_extraction_skips_nullcast_and_stale_deletes() {
    let mut reply_core = core_at(NOW - 10);
    reply_core.reply = Some(Reply { in_reply_to_status_id: Some(9), in_reply_to_user_id: Some(8) });
    let mut nullcast = core_at(NOW - 10);
    nullcast.nullcast = Some(true);
    let events = vec![
        TweetEventData::TweetCreateEvent {
            tweet: Tweet { id: Some(1), core_data: Some(reply_core), media: None },
            user_id: Some(10),
        },
        TweetEventData::TweetCreateEvent {
            tweet: Tweet { id: Some(2), core_data: Some(nullcast), media: None },
            user_id: Some(10),
        },
        TweetEventData::TweetDeleteEvent { tweet: Tweet { id: Some(3), core_data: Some(core_at(NOW - 50)), media: None } },
        TweetEventData::TweetDeleteEvent { tweet: Tweet { id: Some(4), core_data: Some(core_at(NOW - 500)), media: None } },
        TweetEventData::QuotedTweetDeleteEvent { quoting_tweet_id: Some(5) },
        TweetEventData::Other,
    ];
    let updates = extract_updates(&events, NOW, 100);
    assert_eq!(updates.creates.len(), 1);
    assert_eq!(updates.creates[0].post_id, 1);
    assert!(updates.creates[0].is_reply);
    assert_eq!(updates.creates[0].in_reply_to_post_id, Some(9));
    let deleted: Vec<i64> = updates.deletes.iter().map(|d| d.post_id).collect();
    assert_eq!(deleted, vec![3, 5]);
    assert!(updates.deletes.iter().all(|d| d.deleted_at == NOW));

    let mut store = PostStore::new(1000, 0);
    let applied = process_message_batch(&mut store, &events, NOW, 100);
    assert_eq!(applied.creates.len(), 1);
}

#[test]
fn partitions_split_by_ceiling() {
    assert_eq!(thread_partitions(0, 10, 3), Some((0, 4)));
    assert_eq!(thread_partitions(2, 10, 3), Some((8, 10)));
    assert_eq!(thread_partitions(3, 4, 4), Some((3, 4)));
    assert_eq!(thread_partitions(2, 3, 4), Some((2, 3)));
    assert_eq!(thread_partitions(3, 3, 4), None);
}

fn cand(id: i64, author: u64, rt: Option<u64>) -> PostCandidate {
    PostCandidate { tweet_id: id, author_id: author, retweeted_tweet_id: rt }
}

#[test]
fn retweet_dedup_keeps_first_occurrence() {
    let cands = vec![cand(1, 7, None), cand(2, 8, Some(1)), cand(3, 9, Some(50)), cand(4, 9, Some(50))];
    let r = RetweetDeduplicationFilter.filter(cands);
    let kept: Vec<i64> = r.kept.iter().map(|c| c.tweet_id).collect();
    let removed: Vec<i64> = r.removed.iter().map(|c| c.tweet_id).collect();
    assert_eq!(kept, vec![1, 3]);
    assert_eq!(removed, vec![2, 4]);
}

#[test]
fn self_filter_drops_viewer_posts() {
    let cands = vec![cand(1, 7, None), cand(2, 5, None), cand(3, 8, None)];
    let r = SelfTweetFilter.filter(5, cands);
    let kept: Vec<i64> = r.kept.iter().map(|c| c.tweet_id).collect();
    assert_eq!(kept, vec![1, 3]);
    assert_eq!(r.removed.len(), 1);
}

#[test]
fn worker_step_batches_commits_and_stops() {
    let s0 = WorkerState { buffered: 0, batch_num: 0 };
    let (s1, a1) = worker_step(s0, PollEvent::Polled { count: 3 }, 5);
    assert_eq!(a1, WorkerAction::Poll);
    assert_eq!(s1.buffered, 3);
    let (s2, a2) = worker_step(s1, PollEvent::Polled { count: 4 }, 5);
    assert_eq!(a2, WorkerAction::ProcessBatch { batch_num: 1, size: 7 });
    assert_eq!(s2, WorkerState { buffered: 0, batch_num: 1 });
    assert_eq!(worker_step(s2, PollEvent::BatchDone, 5).1, WorkerAction::Commit);
    assert_eq!(worker_step(s2, PollEvent::Committed, 5).1, WorkerAction::Poll);
    assert_eq!(worker_step(s2, PollEvent::PollFailed, 5).1, WorkerAction::Backoff { millis: 100 });
    assert_eq!(worker_step(s2, PollEvent::BatchFailed, 5).1, WorkerAction::Stop);
    assert_eq!(worker_step(s2, PollEvent::CommitFailed, 5).1, WorkerAction::Stop);
}

#[test]
fn retweet_dedup_drops_original_after_its_retweet() {
    let cands = vec![cand(10, 8, Some(7)), cand(7, 9, None), cand(11, 3, None), cand(11, 3, None)];
    let r = RetweetDeduplicationFilter.filter(cands);
    let kept: Vec<i64> = r.kept.iter().map(|c| c.tweet_id).collect();
    let removed: Vec<i64> = r.removed.iter().map(|c| c.tweet_id).collect();
    assert_eq!(kept, vec![10, 11]);
    assert_eq!(removed, vec![7, 11]);
}
