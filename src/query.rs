//! What a fan-out read over a set of authors returns.
use crate::config::MAX_TINY_POSTS_PER_USER_SCAN;
use crate::post::{LightPost, TinyPost};
use crate::store::{timeline_at, IndexModel};
use vstd::prelude::*;

verus! {

/// Every record is stored under its own id.
pub open spec fn records_keyed(posts: Map<i64, LightPost>) -> bool {
    forall|id: i64| #[trigger] posts.contains_key(id) ==> posts[id].post_id == id
}

/// Which timeline of each author a read walks.
#[derive(Debug, Clone, Copy, PartialEq, Eq, Structural)]
pub enum TimelineKind {
    Original,
    Secondary,
    Video,
}

/// The timelines of `m` of the given kind.
pub open spec fn timelines_of(m: IndexModel, kind: TimelineKind) -> Map<i64, Seq<TinyPost>> {
    match kind {
        TimelineKind::Original => m.original,
        TimelineKind::Secondary => m.secondary,
        TimelineKind::Video => m.video,
    }
}

/// The reply policy, applied when `following` is not empty: a post that
/// replies to a stored post is kept when that post is original, or when it is
/// itself a reply to the conversation root and this post replies to a followed
/// user; a reply whose parent is unknown is dropped; a post that replies to
/// nothing and is no reply is kept.
pub open spec fn reply_ok(posts: Map<i64, LightPost>, p: LightPost, following: Set<i64>) -> bool {
    if following.is_empty() {
        true
    } else {
        match p.in_reply_to_post_id {
            None => !p.is_reply,
            Some(parent_id) => posts.contains_key(parent_id) && (posts[parent_id].spec_is_original()
                || (p.conversation_id.is_some() && posts[parent_id].in_reply_to_post_id
                == p.conversation_id && p.in_reply_to_user_id.is_some() && following.contains(
                p.in_reply_to_user_id.unwrap(),
            ))),
        }
    }
}

/// Whether a stored record may be returned to `viewer`: it is not
/// tombstoned, it is no retweet of the viewer's own post, and it meets the
/// reply policy.
pub open spec fn accepts(m: IndexModel, p: LightPost, following: Set<i64>, viewer: i64) -> bool {
    &&& !m.deleted.contains(p.post_id)
    &&& !(p.is_retweet && p.source_user_id == Some(viewer))
    &&& reply_ok(m.posts, p, following)
}

/// What one timeline contributes, walked newest first: references to
/// excluded ids are passed over, at most `scan_left` others are looked at,
/// and of those the accepted records are taken until `take_left` are.
pub open spec fn picks(
    m: IndexModel,
    tl: Seq<TinyPost>,
    scan_left: nat,
    take_left: nat,
    exclude: Set<i64>,
    following: Set<i64>,
    viewer: i64,
) -> Seq<LightPost>
    decreases tl.len(),
{
    if tl.len() == 0 || scan_left == 0 || take_left == 0 {
        Seq::empty()
    } else {
        let t = tl.last();
        let rest = tl.drop_last();
        if exclude.contains(t.post_id) {
            picks(m, rest, scan_left, take_left, exclude, following, viewer)
        } else if m.posts.contains_key(t.post_id) && accepts(
            m,
            m.posts[t.post_id],
            following,
            viewer,
        ) {
            seq![m.posts[t.post_id]] + picks(
                m,
                rest,
                (scan_left - 1) as nat,
                (take_left - 1) as nat,
                exclude,
                following,
                viewer,
            )
        } else {
            picks(m, rest, (scan_left - 1) as nat, take_left, exclude, following, viewer)
        }
    }
}

/// What one author contributes to a read of the timelines `tl`.
pub open spec fn author_picks(
    m: IndexModel,
    tl: Map<i64, Seq<TinyPost>>,
    author: i64,
    max_per_user: nat,
    exclude: Set<i64>,
    following: Set<i64>,
    viewer: i64,
) -> Seq<LightPost> {
    picks(
        m,
        timeline_at(tl, author),
        MAX_TINY_POSTS_PER_USER_SCAN as nat,
        max_per_user,
        exclude,
        following,
        viewer,
    )
}

/// The contributions of `authors`, in order, concatenated; an author named
/// again is not read again.
pub open spec fn collect(
    m: IndexModel,
    tl: Map<i64, Seq<TinyPost>>,
    authors: Seq<i64>,
    max_per_user: nat,
    exclude: Set<i64>,
    following: Set<i64>,
    viewer: i64,
) -> Seq<LightPost>
    decreases authors.len(),
{
    if authors.len() == 0 {
        Seq::empty()
    } else if authors.drop_last().contains(authors.last()) {
        collect(m, tl, authors.drop_last(), max_per_user, exclude, following, viewer)
    } else {
        collect(m, tl, authors.drop_last(), max_per_user, exclude, following, viewer) + author_picks(
            m,
            tl,
            authors.last(),
            max_per_user,
            exclude,
            following,
            viewer,
        )
    }
}

/// A record that a read may return to `viewer`: its id is not excluded, it
/// is not tombstoned, and it is no retweet of the viewer's own post.
pub open spec fn may_return(m: IndexModel, p: LightPost, exclude: Set<i64>, viewer: i64) -> bool {
    &&& !exclude.contains(p.post_id)
    &&& !m.deleted.contains(p.post_id)
    &&& !(p.is_retweet && p.source_user_id == Some(viewer))
}

/// One timeline contributes no more than `take_left` records, each of which
/// may be returned to the viewer.
pub proof fn lemma_picks_bounded_and_allowed(
    m: IndexModel,
    tl: Seq<TinyPost>,
    scan_left: nat,
    take_left: nat,
    exclude: Set<i64>,
    following: Set<i64>,
    viewer: i64,
)
    requires
        records_keyed(m.posts),
    ensures
        picks(m, tl, scan_left, take_left, exclude, following, viewer).len() <= take_left,
        forall|i: int|
            0 <= i < picks(m, tl, scan_left, take_left, exclude, following, viewer).len()
                ==> may_return(
                m,
                #[trigger] picks(m, tl, scan_left, take_left, exclude, following, viewer)[i],
                exclude,
                viewer,
            ),
    decreases tl.len(),
{
    if tl.len() == 0 || scan_left == 0 || take_left == 0 {
    } else {
        let t = tl.last();
        let rest = tl.drop_last();
        if exclude.contains(t.post_id) {
            lemma_picks_bounded_and_allowed(m, rest, scan_left, take_left, exclude, following, viewer);
        } else if m.posts.contains_key(t.post_id) && accepts(
            m,
            m.posts[t.post_id],
            following,
            viewer,
        ) {
            lemma_picks_bounded_and_allowed(
                m,
                rest,
                (scan_left - 1) as nat,
                (take_left - 1) as nat,
                exclude,
                following,
                viewer,
            );
        } else {
            lemma_picks_bounded_and_allowed(
                m,
                rest,
                (scan_left - 1) as nat,
                take_left,
                exclude,
                following,
                viewer,
            );
        }
    }
}

/// Every record of a read may be returned to the viewer.
pub proof fn lemma_collect_allowed(
    m: IndexModel,
    tl: Map<i64, Seq<TinyPost>>,
    authors: Seq<i64>,
    max_per_user: nat,
    exclude: Set<i64>,
    following: Set<i64>,
    viewer: i64,
)
    requires
        records_keyed(m.posts),
    ensures
        forall|i: int|
            0 <= i < collect(m, tl, authors, max_per_user, exclude, following, viewer).len()
                ==> may_return(
                m,
                #[trigger] collect(m, tl, authors, max_per_user, exclude, following, viewer)[i],
                exclude,
                viewer,
            ),
    decreases authors.len(),
{
    if authors.len() > 0 && authors.drop_last().contains(authors.last()) {
        lemma_collect_allowed(m, tl, authors.drop_last(), max_per_user, exclude, following, viewer);
    } else if authors.len() > 0 {
        lemma_collect_allowed(m, tl, authors.drop_last(), max_per_user, exclude, following, viewer);
        lemma_picks_bounded_and_allowed(
            m,
            timeline_at(tl, authors.last()),
            MAX_TINY_POSTS_PER_USER_SCAN as nat,
            max_per_user,
            exclude,
            following,
            viewer,
        );
        let a = collect(m, tl, authors.drop_last(), max_per_user, exclude, following, viewer);
        let b = author_picks(m, tl, authors.last(), max_per_user, exclude, following, viewer);
        assert forall|i: int| 0 <= i < (a + b).len() implies may_return(
            m,
            #[trigger] (a + b)[i],
            exclude,
            viewer,
        ) by {
            if i >= a.len() {
                assert((a + b)[i] == b[i - a.len()]);
            }
        }
    }
}

} // verus!
