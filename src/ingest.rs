//! Turning decoded tweet events into index updates.
use crate::config::MIN_VIDEO_DURATION_MS;
use crate::post::{LightPost, TweetDeleteEvent};
use crate::store::{delete_all, insert_all, fresh_posts, PostStore};
use crate::ordering::{oldest_first, same_ties};
use vstd::prelude::*;

verus! {

/// Reply metadata of a tweet.
#[derive(Debug, Clone, Copy, PartialEq, Eq, Structural)]
pub struct Reply {
    pub in_reply_to_status_id: Option<i64>,
    pub in_reply_to_user_id: Option<i64>,
}

/// Retweet metadata of a tweet.
#[derive(Debug, Clone, Copy, PartialEq, Eq, Structural)]
pub struct Share {
    pub source_status_id: Option<i64>,
    pub source_user_id: Option<i64>,
}

/// The core fields of a tweet.
#[derive(Debug, Clone, Copy, PartialEq, Eq, Structural)]
pub struct CoreData {
    pub created_at_secs: Option<i64>,
    pub nullcast: Option<bool>,
    pub reply: Option<Reply>,
    pub share: Option<Share>,
    pub conversation_id: Option<i64>,
}

/// What a media element of a tweet is.
#[derive(Debug, Clone, Copy, PartialEq, Eq, Structural)]
pub enum MediaInfo {
    VideoInfo { duration_millis: Option<i32> },
    Other,
}

/// One media element of a tweet.
#[derive(Debug, Clone, Copy, PartialEq, Eq, Structural)]
pub struct MediaEntity {
    pub media_info: Option<MediaInfo>,
}

/// A decoded tweet.
pub struct Tweet {
    pub id: Option<i64>,
    pub core_data: Option<CoreData>,
    pub media: Option<Vec<MediaEntity>>,
}

/// A decoded tweet event.
pub enum TweetEventData {
    TweetCreateEvent { tweet: Tweet, user_id: Option<i64> },
    TweetDeleteEvent { tweet: Tweet },
    QuotedTweetDeleteEvent { quoting_tweet_id: Option<i64> },
    Other,
}

/// A media list makes a video post when it holds exactly one element, a
/// video of known duration no shorter than `MIN_VIDEO_DURATION_MS`.
pub open spec fn video_media(media: Option<Seq<MediaEntity>>) -> bool {
    match media {
        Some(m) => m.len() == 1 && match m[0].media_info {
            Some(MediaInfo::VideoInfo { duration_millis: Some(d) }) => d >= MIN_VIDEO_DURATION_MS,
            _ => false,
        },
        None => false,
    }
}

/// The media of `t` as a sequence.
pub open spec fn media_of(t: &Tweet) -> Option<Seq<MediaEntity>> {
    match &t.media {
        Some(v) => Some(v@),
        None => None,
    }
}

/// Whether `tweet` is a video post (see `video_media`).
pub fn is_eligible_video(tweet: &Tweet) -> (r: bool)
    ensures
        r == video_media(media_of(tweet)),
{
    match &tweet.media {
        None => false,
        Some(media) => {
            if media.len() != 1 {
                return false;
            }
            match media[0].media_info {
                Some(MediaInfo::VideoInfo { duration_millis: Some(d) }) => d >= MIN_VIDEO_DURATION_MS,
                _ => false,
            }
        },
    }
}

/// The record built from a create event, or `None` when a field it needs is
/// missing or the post is nullcast.
pub open spec fn created_post(tweet: &Tweet, user_id: Option<i64>) -> Option<LightPost> {
    match (tweet.id, user_id, tweet.core_data) {
        (Some(id), Some(author), Some(core)) => match core.created_at_secs {
            Some(created_at) => if core.nullcast == Some(true) {
                None
            } else {
                Some(
                    LightPost {
                        post_id: id,
                        author_id: author,
                        created_at,
                        in_reply_to_post_id: match core.reply {
                            Some(r) => r.in_reply_to_status_id,
                            None => None,
                        },
                        in_reply_to_user_id: match core.reply {
                            Some(r) => r.in_reply_to_user_id,
                            None => None,
                        },
                        is_retweet: core.share.is_some(),
                        is_reply: core.reply.is_some(),
                        source_post_id: match core.share {
                            Some(s) => s.source_status_id,
                            None => None,
                        },
                        source_user_id: match core.share {
                            Some(s) => s.source_user_id,
                            None => None,
                        },
                        has_video: video_media(media_of(tweet)),
                        conversation_id: core.conversation_id,
                    },
                )
            },
            None => None,
        },
        _ => None,
    }
}

/// The id a delete event removes, or `None` when a field it needs is missing
/// or the deleted post is older than `retention` seconds at `now`.
pub open spec fn deleted_id(tweet: &Tweet, now: i64, retention: i64) -> Option<i64> {
    match (tweet.id, tweet.core_data) {
        (Some(id), Some(core)) => match core.created_at_secs {
            Some(created_at) => if now - created_at > retention {
                None
            } else {
                Some(id)
            },
            None => None,
        },
        _ => None,
    }
}

/// The records to create from the events of `s`, in order.
pub open spec fn batch_creates(s: Seq<TweetEventData>) -> Seq<LightPost>
    decreases s.len(),
{
    if s.len() == 0 {
        Seq::empty()
    } else {
        let rest = batch_creates(s.drop_last());
        match s.last() {
            TweetEventData::TweetCreateEvent { tweet, user_id } => match created_post(&tweet, user_id) {
                Some(p) => rest.push(p),
                None => rest,
            },
            _ => rest,
        }
    }
}

/// The ids to delete for the events of `s`, in order.
pub open spec fn batch_deletes(s: Seq<TweetEventData>, now: i64, retention: i64) -> Seq<i64>
    decreases s.len(),
{
    if s.len() == 0 {
        Seq::empty()
    } else {
        let rest = batch_deletes(s.drop_last(), now, retention);
        match s.last() {
            TweetEventData::TweetDeleteEvent { tweet } => match deleted_id(&tweet, now, retention) {
                Some(id) => rest.push(id),
                None => rest,
            },
            TweetEventData::QuotedTweetDeleteEvent { quoting_tweet_id } => match quoting_tweet_id {
                Some(id) => rest.push(id),
                None => rest,
            },
            _ => rest,
        }
    }
}

/// A delete event dated `now` for each id of `ids`.
pub open spec fn deletes_at(ids: Seq<i64>, now: i64) -> Seq<TweetDeleteEvent> {
    ids.map_values(|id: i64| TweetDeleteEvent { post_id: id, deleted_at: now })
}

/// The updates a batch makes: records to create and deletes to apply, as
/// they are applied to the index and re-emitted downstream.
pub struct BatchUpdates {
    pub creates: Vec<LightPost>,
    pub deletes: Vec<TweetDeleteEvent>,
}

/// Sorts the events of a batch into creates and deletes at wall time `now`:
/// nullcast posts and deletes of posts older than `post_retention_sec` are
/// skipped, as are events missing a field they need.
pub fn extract_updates(events: &Vec<TweetEventData>, now: i64, post_retention_sec: i64) -> (r: BatchUpdates)
    ensures
        r.creates@ == batch_creates(events@),
        r.deletes@ == deletes_at(batch_deletes(events@, now, post_retention_sec), now),
{
    let mut creates: Vec<LightPost> = Vec::new();
    let mut deletes: Vec<TweetDeleteEvent> = Vec::new();
    let ghost mut ids: Seq<i64> = Seq::empty();
    let mut i: usize = 0;
    while i < events.len()
        invariant
            0 <= i <= events@.len(),
            creates@ == batch_creates(events@.take(i as int)),
            ids == batch_deletes(events@.take(i as int), now, post_retention_sec),
            deletes@ == deletes_at(ids, now),
        decreases events@.len() - i,
    {
        proof {
            assert(events@.take(i + 1).drop_last() == events@.take(i as int));
            assert(events@.take(i + 1).last() == events@[i as int]);
        }
        let ghost before = ids;
        match &events[i] {
            TweetEventData::TweetCreateEvent { tweet, user_id } => {
                match (tweet.id, *user_id, tweet.core_data) {
                    (Some(id), Some(author), Some(core)) => match core.created_at_secs {
                        Some(created_at) => {
                            if core.nullcast != Some(true) {
                                let has_video = is_eligible_video(tweet);
                                creates.push(LightPost {
                                    post_id: id,
                                    author_id: author,
                                    created_at,
                                    in_reply_to_post_id: match core.reply {
                                        Some(r) => r.in_reply_to_status_id,
                                        None => None,
                                    },
                                    in_reply_to_user_id: match core.reply {
                                        Some(r) => r.in_reply_to_user_id,
                                        None => None,
                                    },
                                    is_retweet: core.share.is_some(),
                                    is_reply: core.reply.is_some(),
                                    source_post_id: match core.share {
                                        Some(s) => s.source_status_id,
                                        None => None,
                                    },
                                    source_user_id: match core.share {
                                        Some(s) => s.source_user_id,
                                        None => None,
                                    },
                                    has_video,
                                    conversation_id: core.conversation_id,
                                });
                            }
                        },
                        None => {},
                    },
                    _ => {},
                }
            },
            TweetEventData::TweetDeleteEvent { tweet } => {
                match (tweet.id, tweet.core_data) {
                    (Some(id), Some(core)) => match core.created_at_secs {
                        Some(created_at) => {
                            if (now as i128) - (created_at as i128) <= post_retention_sec as i128 {
                                deletes.push(TweetDeleteEvent { post_id: id, deleted_at: now });
                                proof {
                                    ids = ids.push(id);
                                }
                            }
                        },
                        None => {},
                    },
                    _ => {},
                }
            },
            TweetEventData::QuotedTweetDeleteEvent { quoting_tweet_id } => {
                match quoting_tweet_id {
                    Some(id) => {
                        deletes.push(TweetDeleteEvent { post_id: *id, deleted_at: now });
                        proof {
                            ids = ids.push(*id);
                        }
                    },
                    None => {},
                }
            },
            TweetEventData::Other => {},
        }
        proof {
            assert(deletes@ =~= deletes_at(ids, now));
        }
        i = i + 1;
    }
    proof {
        assert(events@.take(events@.len() as int) == events@);
    }
    BatchUpdates { creates, deletes }
}

/// Applies a batch of events to `store` at wall time `now`: the creates are
/// indexed (see `PostStore::insert_posts_at`), then the deletes applied.
/// Returns the updates, for re-emission downstream.
pub fn process_message_batch(
    store: &mut PostStore,
    events: &Vec<TweetEventData>,
    now: i64,
    post_retention_sec: i64,
) -> (r: BatchUpdates)
    requires
        old(store).wf(),
    ensures
        final(store).wf(),
        r.creates@ == batch_creates(events@),
        r.deletes@ == deletes_at(batch_deletes(events@, now, post_retention_sec), now),
        exists|s: Seq<LightPost>|
            {
                &&& oldest_first(s)
                &&& same_ties(s, fresh_posts(r.creates@, now, old(store).spec_retention()))
                &&& final(store).model() == delete_all(insert_all(old(store).model(), s), r.deletes@)
            },
        final(store).spec_retention() == old(store).spec_retention(),
        final(store).spec_timeout_ms() == old(store).spec_timeout_ms(),
{
    let updates = extract_updates(events, now, post_retention_sec);
    store.insert_posts_at(updates.creates.clone(), now);
    store.mark_as_deleted(updates.deletes.clone());
    updates
}

/// The partitions `[start, end)` that worker `thread_id` of `num_threads`
/// consumes when `total_partitions` are split in runs of
/// `ceil(total_partitions / num_threads)`; `None` for a worker left without.
pub fn thread_partitions(thread_id: usize, total_partitions: usize, num_threads: usize) -> (r: Option<(usize, usize)>)
    requires
        num_threads > 0,
    ensures
        ({
            let per = (total_partitions + num_threads - 1) / num_threads as int;
            let start = thread_id * per;
            let end = if (thread_id + 1) * per < total_partitions { (thread_id + 1) * per } else { total_partitions as int };
            r == if start >= total_partitions { None } else { Some((start as usize, end as usize)) }
        }),
{
    let per: u128 = (total_partitions as u128 + num_threads as u128 - 1) / num_threads as u128;
    assert(per <= total_partitions) by (nonlinear_arith)
        requires per == (total_partitions + num_threads - 1) / num_threads as int, num_threads > 0;
    assert(thread_id * per <= 0xffff_ffff_ffff_ffffu128 * 0xffff_ffff_ffff_ffffu128) by (nonlinear_arith)
        requires thread_id <= 0xffff_ffff_ffff_ffffu128, per <= 0xffff_ffff_ffff_ffffu128, per >= 0;
    let start: u128 = thread_id as u128 * per;
    if start >= total_partitions as u128 {
        return None;
    }
    let next: u128 = start + per;
    let end: u128 = if next < total_partitions as u128 { next } else { total_partitions as u128 };
    assert((thread_id + 1) * per == thread_id * per + per) by (nonlinear_arith);
    Some((start as usize, end as usize))
}

} // verus!
