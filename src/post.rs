use vstd::prelude::*;

verus! {

/// Compact reference to a post held in an author timeline.
#[derive(Debug, Clone, Copy, PartialEq, Eq, Hash, Structural)]
pub struct TinyPost {
    pub post_id: i64,
    pub created_at: i64,
}

impl TinyPost {
    /// Builds a reference from a post id and its creation time.
    pub fn new(post_id: i64, created_at: i64) -> (r: TinyPost)
        ensures
            r.post_id == post_id,
            r.created_at == created_at,
    {
        TinyPost { post_id, created_at }
    }
}

/// The canonical record of a post.
#[derive(Debug, Clone, Copy, PartialEq, Eq, Hash, Structural)]
pub struct LightPost {
    pub post_id: i64,
    pub author_id: i64,
    pub created_at: i64,
    pub in_reply_to_post_id: Option<i64>,
    pub in_reply_to_user_id: Option<i64>,
    pub is_retweet: bool,
    pub is_reply: bool,
    pub source_post_id: Option<i64>,
    pub source_user_id: Option<i64>,
    pub has_video: bool,
    pub conversation_id: Option<i64>,
}

/// A delete event: the deleted post and the time it was deleted.
#[derive(Debug, Clone, Copy, PartialEq, Eq, Hash, Structural)]
pub struct TweetDeleteEvent {
    pub post_id: i64,
    pub deleted_at: i64,
}

impl LightPost {
    /// A post is original when it is neither a reply nor a retweet.
    pub open spec fn spec_is_original(&self) -> bool {
        !self.is_reply && !self.is_retweet
    }

    /// The timeline reference of this post.
    pub open spec fn tiny(&self) -> TinyPost {
        TinyPost { post_id: self.post_id, created_at: self.created_at }
    }
}

} // verus!
