//! Summary figures of a list of returned posts.
use crate::post::LightPost;
use std::collections::HashSet;
use vstd::prelude::*;

verus! {

broadcast use vstd::std_specs::hash::group_hash_axioms;

/// Counts and time bounds of a list of posts.
pub struct PostStatistics {
    pub total: usize,
    pub reply_count: usize,
    pub original_count: usize,
    pub unique_authors: usize,
    pub newest_created_at: Option<i64>,
    pub oldest_created_at: Option<i64>,
}

/// The number of replies in `s`.
pub open spec fn count_replies(s: Seq<LightPost>) -> nat
    decreases s.len(),
{
    if s.len() == 0 {
        0
    } else {
        count_replies(s.drop_last()) + if s.last().is_reply {
            1nat
        } else {
            0nat
        }
    }
}

/// The latest creation time in `s`, if any.
pub open spec fn newest_time(s: Seq<LightPost>) -> Option<i64>
    decreases s.len(),
{
    if s.len() == 0 {
        None
    } else {
        match newest_time(s.drop_last()) {
            Some(t) => Some(if t >= s.last().created_at { t } else { s.last().created_at }),
            None => Some(s.last().created_at),
        }
    }
}

/// The earliest creation time in `s`, if any.
pub open spec fn oldest_time(s: Seq<LightPost>) -> Option<i64>
    decreases s.len(),
{
    if s.len() == 0 {
        None
    } else {
        match oldest_time(s.drop_last()) {
            Some(t) => Some(if t <= s.last().created_at { t } else { s.last().created_at }),
            None => Some(s.last().created_at),
        }
    }
}

/// The authors of `s`.
pub open spec fn authors_of(s: Seq<LightPost>) -> Set<i64> {
    s.map_values(|p: LightPost| p.author_id).to_set()
}

proof fn lemma_count_replies_bound(s: Seq<LightPost>)
    ensures
        count_replies(s) <= s.len(),
    decreases s.len(),
{
    if s.len() > 0 {
        lemma_count_replies_bound(s.drop_last());
    }
}

/// Computes the figures reported for `posts`: how many there are, how many
/// are replies and originals, how many distinct authors wrote them, and the
/// newest and oldest creation times.
pub fn post_statistics(posts: &Vec<LightPost>) -> (r: PostStatistics)
    ensures
        r.total == posts@.len(),
        r.reply_count == count_replies(posts@),
        r.original_count == posts@.len() - count_replies(posts@),
        r.unique_authors == authors_of(posts@).len(),
        r.newest_created_at == newest_time(posts@),
        r.oldest_created_at == oldest_time(posts@),
{
    let mut reply_count: usize = 0;
    let mut newest: Option<i64> = None;
    let mut oldest: Option<i64> = None;
    let mut authors: HashSet<i64> = HashSet::new();
    let mut i: usize = 0;
    while i < posts.len()
        invariant
            0 <= i <= posts@.len(),
            reply_count == count_replies(posts@.take(i as int)),
            newest == newest_time(posts@.take(i as int)),
            oldest == oldest_time(posts@.take(i as int)),
            authors@ == authors_of(posts@.take(i as int)),
        decreases posts@.len() - i,
    {
        let p = posts[i];
        proof {
            assert(posts@.take(i + 1).drop_last() == posts@.take(i as int));
            assert(posts@.take(i + 1).last() == p);
            lemma_count_replies_bound(posts@.take(i as int));
            let f = |q: LightPost| q.author_id;
            assert(posts@.take(i + 1).map_values(f) == posts@.take(i as int).map_values(f).push(p.author_id));
            posts@.take(i as int).map_values(f).lemma_push_to_set_commute(p.author_id);
        }
        if p.is_reply {
            reply_count = reply_count + 1;
        }
        newest = match newest {
            Some(t) => Some(if t >= p.created_at { t } else { p.created_at }),
            None => Some(p.created_at),
        };
        oldest = match oldest {
            Some(t) => Some(if t <= p.created_at { t } else { p.created_at }),
            None => Some(p.created_at),
        };
        authors.insert(p.author_id);
        i = i + 1;
    }
    proof {
        assert(posts@.take(posts@.len() as int) == posts@);
        lemma_count_replies_bound(posts@);
    }
    PostStatistics {
        total: posts.len(),
        reply_count,
        original_count: posts.len() - reply_count,
        unique_authors: authors.len(),
        newest_created_at: newest,
        oldest_created_at: oldest,
    }
}

} // verus!
