//! The request path: input capping, the fan-out read and recency scoring.
use crate::config::{MAX_INPUT_LIST_SIZE, MAX_POSTS_TO_RETURN, MAX_VIDEOS_TO_RETURN};
use crate::ordering::{newest_first, same_ties, score_recent};
use crate::post::LightPost;
use crate::query::{collect, may_return};
use crate::store::IndexModel;
use crate::config::{MAX_ORIGINAL_POSTS_PER_AUTHOR, MAX_REPLY_POSTS_PER_AUTHOR, MAX_VIDEO_POSTS_PER_AUTHOR};
use crate::store::PostStore;
use std::collections::HashSet;
use std::time::Instant;
use vstd::prelude::*;

verus! {

broadcast use vstd::std_specs::hash::group_hash_axioms;

/// A request for recent posts by a set of authors.
pub struct InNetworkRequest {
    pub user_id: u64,
    pub following_user_ids: Vec<u64>,
    pub exclude_tweet_ids: Vec<u64>,
    pub max_results: u32,
    pub is_video_request: bool,
    pub debug: bool,
}

/// The number of results a request asks for: its own limit when positive,
/// else the default of its kind.
pub open spec fn spec_effective_max_results(max_results: u32, is_video_request: bool) -> nat {
    if max_results > 0 {
        max_results as nat
    } else if is_video_request {
        MAX_VIDEOS_TO_RETURN as nat
    } else {
        MAX_POSTS_TO_RETURN as nat
    }
}

/// The number of results a request asks for (see `spec_effective_max_results`).
pub fn effective_max_results(max_results: u32, is_video_request: bool) -> (r: usize)
    ensures
        r == spec_effective_max_results(max_results, is_video_request),
{
    if max_results > 0 {
        max_results as usize
    } else if is_video_request {
        MAX_VIDEOS_TO_RETURN
    } else {
        MAX_POSTS_TO_RETURN
    }
}

/// The first `MAX_INPUT_LIST_SIZE` ids of `ids`, each read as a signed id.
pub open spec fn capped_ids(ids: Seq<u64>) -> Seq<i64> {
    let n = if ids.len() < MAX_INPUT_LIST_SIZE {
        ids.len() as int
    } else {
        MAX_INPUT_LIST_SIZE as int
    };
    ids.take(n).map_values(|id: u64| id as i64)
}

/// Keeps the first `MAX_INPUT_LIST_SIZE` ids, each read as a signed id.
pub fn cap_ids(ids: &Vec<u64>) -> (r: Vec<i64>)
    ensures
        r@ == capped_ids(ids@),
{
    let n: usize = if ids.len() < MAX_INPUT_LIST_SIZE {
        ids.len()
    } else {
        MAX_INPUT_LIST_SIZE
    };
    let mut r: Vec<i64> = Vec::new();
    let mut i: usize = 0;
    while i < n
        invariant
            n <= ids@.len(),
            n == if ids@.len() < MAX_INPUT_LIST_SIZE {
                ids@.len() as int
            } else {
                MAX_INPUT_LIST_SIZE as int
            },
            0 <= i <= n,
            r@ == ids@.take(i as int).map_values(|id: u64| id as i64),
        decreases n - i,
    {
        r.push(ids[i] as i64);
        proof {
            assert(ids@.take(i + 1).map_values(|id: u64| id as i64) =~= ids@.take(i as int).map_values(
                |id: u64| id as i64,
            ).push(ids@[i as int] as i64));
        }
        i = i + 1;
    }
    r
}

/// What the read of a request returns when it got through `k1` authors of
/// `ids` (of the original timelines, or of the video ones) and `k2` of the
/// secondary timelines.
pub open spec fn request_read(
    m: IndexModel,
    ids: Seq<i64>,
    exclude: Set<i64>,
    viewer: i64,
    is_video_request: bool,
    k1: int,
    k2: int,
) -> Seq<LightPost> {
    if is_video_request {
        collect(m, m.video, ids.take(k1), MAX_VIDEO_POSTS_PER_AUTHOR as nat, exclude, Set::empty(), viewer)
    } else {
        collect(m, m.original, ids.take(k1), MAX_ORIGINAL_POSTS_PER_AUTHOR as nat, exclude, Set::empty(), viewer)
            + collect(m, m.secondary, ids.take(k2), MAX_REPLY_POSTS_PER_AUTHOR as nat, exclude, ids.to_set(), viewer)
    }
}

/// `r` is the read of `req` through `k1` and `k2` authors (see
/// `request_read`), with the capped lists, ordered newest first as `t`
/// (posts of equal time in read order) and cut to the effective limit; the
/// read stops short only under a deadline.
pub open spec fn scored_read(
    m: IndexModel,
    timeout_ms: u64,
    req: &InNetworkRequest,
    k1: int,
    k2: int,
    t: Seq<LightPost>,
    r: Seq<LightPost>,
) -> bool {
    let ids = capped_ids(req.following_user_ids@);
    let c = request_read(
        m,
        ids,
        capped_ids(req.exclude_tweet_ids@).to_set(),
        req.user_id as i64,
        req.is_video_request,
        k1,
        k2,
    );
    let eff = spec_effective_max_results(req.max_results, req.is_video_request);
    &&& 0 <= k1 <= ids.len() && 0 <= k2 <= ids.len()
    &&& (k1 < ids.len() || k2 < ids.len()) ==> timeout_ms != 0
    &&& newest_first(t) && same_ties(t, c)
    &&& r == t.take(if eff < c.len() { eff as int } else { c.len() as int })
}

/// Serves a request whose author list is settled: both lists are capped,
/// the video timelines or the original and secondary ones are read, and the
/// result is scored newest first and cut to the effective limit.
pub fn serve_posts(store: &PostStore, req: &InNetworkRequest, start_time: &Instant) -> (r: Vec<
    LightPost,
>)
    requires
        store.wf(),
    ensures
        exists|k1: int, k2: int, t: Seq<LightPost>|
            #[trigger] scored_read(store.model(), store.spec_timeout_ms(), req, k1, k2, t, r@),
        newest_first(r@),
        r@.len() <= spec_effective_max_results(req.max_results, req.is_video_request),
        forall|i: int|
            0 <= i < r@.len() ==> may_return(
                store.model(),
                #[trigger] r@[i],
                capped_ids(req.exclude_tweet_ids@).to_set(),
                req.user_id as i64,
            ),
{
    let max_results = effective_max_results(req.max_results, req.is_video_request);
    let following_user_ids = cap_ids(&req.following_user_ids);
    let exclude_ids = cap_ids(&req.exclude_tweet_ids);
    let mut exclude_set: HashSet<i64> = HashSet::new();
    let mut i: usize = 0;
    while i < exclude_ids.len()
        invariant
            0 <= i <= exclude_ids@.len(),
            exclude_set@ == exclude_ids@.take(i as int).to_set(),
        decreases exclude_ids@.len() - i,
    {
        exclude_set.insert(exclude_ids[i]);
        proof {
            assert(exclude_ids@.take(i + 1) == exclude_ids@.take(i as int).push(exclude_ids@[i as int]));
            exclude_ids@.take(i as int).lemma_push_to_set_commute(exclude_ids@[i as int]);
        }
        i = i + 1;
    }
    proof {
        assert(exclude_ids@.take(i as int) == exclude_ids@);
    }
    let request_user_id = req.user_id as i64;
    let all_posts = if req.is_video_request {
        store.get_videos_by_users(following_user_ids.as_slice(), &exclude_set, start_time, request_user_id)
    } else {
        store.get_all_posts_by_users(following_user_ids.as_slice(), &exclude_set, start_time, request_user_id)
    };
    let ghost candidates = all_posts@;
    let r = score_recent(all_posts, max_results);
    proof {
        let ids = capped_ids(req.following_user_ids@);
        let ex = capped_ids(req.exclude_tweet_ids@).to_set();
        let v = req.user_id as i64;
        let m = store.model();
        assert(following_user_ids@ == ids);
        assert(exclude_set@ == ex);
        let t = choose|t: Seq<LightPost>|
            {
                &&& newest_first(t)
                &&& same_ties(t, candidates)
                &&& r@ == t.take(
                    if max_results < candidates.len() {
                        max_results as int
                    } else {
                        candidates.len() as int
                    },
                )
            };
        if req.is_video_request {
            let k = choose|k: int|
                0 <= k <= ids.len() && (k < ids.len() ==> store.spec_timeout_ms() != 0)
                    && candidates == collect(
                    m,
                    m.video,
                    ids.take(k),
                    MAX_VIDEO_POSTS_PER_AUTHOR as nat,
                    ex,
                    Set::empty(),
                    v,
                );
            assert(candidates == request_read(m, ids, ex, v, true, k, ids.len() as int));
            assert(scored_read(m, store.spec_timeout_ms(), req, k, ids.len() as int, t, r@));
        } else {
            let (k1, k2) = choose|k1: int, k2: int|
                0 <= k1 <= ids.len() && 0 <= k2 <= ids.len() && ((k1 < ids.len() || k2
                    < ids.len()) ==> store.spec_timeout_ms() != 0) && candidates == collect(
                    m,
                    m.original,
                    ids.take(k1),
                    MAX_ORIGINAL_POSTS_PER_AUTHOR as nat,
                    ex,
                    Set::empty(),
                    v,
                ) + collect(
                    m,
                    m.secondary,
                    ids.take(k2),
                    MAX_REPLY_POSTS_PER_AUTHOR as nat,
                    ex,
                    ids.to_set(),
                    v,
                );
            assert(candidates == request_read(m, ids, ex, v, false, k1, k2));
            assert(scored_read(m, store.spec_timeout_ms(), req, k1, k2, t, r@));
        }
    }
    proof {
        assert forall|i: int| 0 <= i < r@.len() implies may_return(
            store.model(),
            #[trigger] r@[i],
            capped_ids(req.exclude_tweet_ids@).to_set(),
            req.user_id as i64,
        ) by {
            assert(r@.contains(r@[i]));
            let k = choose|k: int| 0 <= k < candidates.len() && candidates[k] == r@[i];
        }
    }
    r
}

} // verus!
