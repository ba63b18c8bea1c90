//! Stateless filters applied to scored candidates downstream of the index.
use std::collections::HashSet;
use vstd::prelude::*;

verus! {

broadcast use vstd::std_specs::hash::group_hash_axioms;

/// A candidate post as the downstream filters see it.
#[derive(Debug, Clone, Copy, PartialEq, Eq, Structural)]
pub struct PostCandidate {
    pub tweet_id: i64,
    pub author_id: u64,
    pub retweeted_tweet_id: Option<u64>,
}

/// The candidates a filter keeps and those it removes, each in input order.
pub struct FilterResult {
    pub kept: Vec<PostCandidate>,
    pub removed: Vec<PostCandidate>,
}

/// The underlying post a candidate stands for: the retweeted post of a
/// retweet, the candidate itself otherwise.
pub open spec fn underlying_id(c: PostCandidate) -> u64 {
    match c.retweeted_tweet_id {
        Some(id) => id,
        None => c.tweet_id as u64,
    }
}

/// The underlying posts of `s`.
pub open spec fn seen_ids(s: Seq<PostCandidate>) -> Set<u64>
    decreases s.len(),
{
    if s.len() == 0 {
        Set::empty()
    } else {
        seen_ids(s.drop_last()).insert(underlying_id(s.last()))
    }
}

/// Whether the last candidate of `s` is kept: only when its underlying post,
/// whether seen as an original or as a retweet target, did not occur earlier
/// in `s`.
pub open spec fn dedup_keeps(s: Seq<PostCandidate>) -> bool {
    !seen_ids(s.drop_last()).contains(underlying_id(s.last()))
}

/// The candidates of `s` that the retweet deduplication keeps.
pub open spec fn dedup_kept(s: Seq<PostCandidate>) -> Seq<PostCandidate>
    decreases s.len(),
{
    if s.len() == 0 {
        s
    } else if dedup_keeps(s) {
        dedup_kept(s.drop_last()).push(s.last())
    } else {
        dedup_kept(s.drop_last())
    }
}

/// The candidates of `s` that the retweet deduplication removes.
pub open spec fn dedup_removed(s: Seq<PostCandidate>) -> Seq<PostCandidate>
    decreases s.len(),
{
    if s.len() == 0 {
        s
    } else if dedup_keeps(s) {
        dedup_removed(s.drop_last())
    } else {
        dedup_removed(s.drop_last()).push(s.last())
    }
}

/// The candidates of `s` by authors other than `viewer`, or by `viewer`.
pub open spec fn by_author(s: Seq<PostCandidate>, viewer: u64, own: bool) -> Seq<PostCandidate>
    decreases s.len(),
{
    if s.len() == 0 {
        s
    } else if (s.last().author_id == viewer) == own {
        by_author(s.drop_last(), viewer, own).push(s.last())
    } else {
        by_author(s.drop_last(), viewer, own)
    }
}

/// Keeps only the first occurrence of each underlying post, whether it came
/// as an original or as a retweet; every later occurrence is removed.
pub struct RetweetDeduplicationFilter;

impl RetweetDeduplicationFilter {
    /// Splits `candidates` into those kept and those removed (see `dedup_keeps`).
    pub fn filter(&self, candidates: Vec<PostCandidate>) -> (r: FilterResult)
        ensures
            r.kept@ == dedup_kept(candidates@),
            r.removed@ == dedup_removed(candidates@),
    {
        let mut seen_tweet_ids: HashSet<u64> = HashSet::new();
        let mut kept: Vec<PostCandidate> = Vec::new();
        let mut removed: Vec<PostCandidate> = Vec::new();
        let mut i: usize = 0;
        while i < candidates.len()
            invariant
                0 <= i <= candidates@.len(),
                seen_tweet_ids@ == seen_ids(candidates@.take(i as int)),
                kept@ == dedup_kept(candidates@.take(i as int)),
                removed@ == dedup_removed(candidates@.take(i as int)),
            decreases candidates@.len() - i,
        {
            let candidate = candidates[i];
            proof {
                assert(candidates@.take(i + 1).drop_last() == candidates@.take(i as int));
                assert(candidates@.take(i + 1).last() == candidate);
            }
            match candidate.retweeted_tweet_id {
                Some(retweeted_id) => {
                    if seen_tweet_ids.insert(retweeted_id) {
                        kept.push(candidate);
                    } else {
                        removed.push(candidate);
                    }
                },
                None => {
                    if seen_tweet_ids.insert(candidate.tweet_id as u64) {
                        kept.push(candidate);
                    } else {
                        removed.push(candidate);
                    }
                },
            }
            i = i + 1;
        }
        proof {
            assert(candidates@.take(candidates@.len() as int) == candidates@);
        }
        FilterResult { kept, removed }
    }
}

/// Drops candidates written by the viewer.
pub struct SelfTweetFilter;

impl SelfTweetFilter {
    /// Splits `candidates` into those by other authors (kept) and those by
    /// `viewer_id` (removed).
    pub fn filter(&self, viewer_id: u64, candidates: Vec<PostCandidate>) -> (r: FilterResult)
        ensures
            r.kept@ == by_author(candidates@, viewer_id, false),
            r.removed@ == by_author(candidates@, viewer_id, true),
    {
        let mut kept: Vec<PostCandidate> = Vec::new();
        let mut removed: Vec<PostCandidate> = Vec::new();
        let mut i: usize = 0;
        while i < candidates.len()
            invariant
                0 <= i <= candidates@.len(),
                kept@ == by_author(candidates@.take(i as int), viewer_id, false),
                removed@ == by_author(candidates@.take(i as int), viewer_id, true),
            decreases candidates@.len() - i,
        {
            let c = candidates[i];
            proof {
                assert(candidates@.take(i + 1).drop_last() == candidates@.take(i as int));
                assert(candidates@.take(i + 1).last() == c);
            }
            if c.author_id != viewer_id {
                kept.push(c);
            } else {
                removed.push(c);
            }
            i = i + 1;
        }
        proof {
            assert(candidates@.take(candidates@.len() as int) == candidates@);
        }
        FilterResult { kept, removed }
    }
}

} // verus!
