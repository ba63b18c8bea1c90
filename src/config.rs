use vstd::prelude::*;

verus! {

/// Most entries taken from a request's author list or exclusion list.
pub const MAX_INPUT_LIST_SIZE: usize = 10000;

/// Results returned when a request for all posts names no limit.
pub const MAX_POSTS_TO_RETURN: usize = 500;

/// Results returned when a request for videos names no limit.
pub const MAX_VIDEOS_TO_RETURN: usize = 200;

/// Original posts accepted from one author in one query.
pub const MAX_ORIGINAL_POSTS_PER_AUTHOR: usize = 10;

/// Replies and retweets accepted from one author in one query.
pub const MAX_REPLY_POSTS_PER_AUTHOR: usize = 5;

/// Video posts accepted from one author in one query.
pub const MAX_VIDEO_POSTS_PER_AUTHOR: usize = 5;

/// Timeline entries scanned, newest first, for one author in one query.
pub const MAX_TINY_POSTS_PER_USER_SCAN: usize = 100;

/// Shortest video, in milliseconds, that makes a post a video post.
pub const MIN_VIDEO_DURATION_MS: i32 = 5000;

/// Pseudo-author whose timeline holds tombstones, keyed by deletion time.
pub const DELETE_EVENT_KEY: i64 = -1;

/// Retention window used by a store built with default settings: two days.
pub const DEFAULT_RETENTION_SECONDS: u64 = 172800;

} // verus!
