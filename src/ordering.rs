//! Ordering posts by creation time.
use crate::post::LightPost;
use vstd::prelude::*;

verus! {

/// Holds of the posts created at second `c`.
pub open spec fn created_at_is(c: i64) -> spec_fn(LightPost) -> bool {
    |p: LightPost| p.created_at == c
}

/// `s` runs oldest first.
pub open spec fn oldest_first(s: Seq<LightPost>) -> bool {
    forall|i: int, j: int| 0 <= i < j < s.len() ==> s[i].created_at <= s[j].created_at
}

/// `s` runs newest first.
pub open spec fn newest_first(s: Seq<LightPost>) -> bool {
    forall|i: int, j: int| 0 <= i < j < s.len() ==> s[i].created_at >= s[j].created_at
}

/// `a` and `b` hold the same posts, and the posts of any one creation time
/// stand in the same order in both.
pub open spec fn same_ties(a: Seq<LightPost>, b: Seq<LightPost>) -> bool {
    &&& a.to_multiset() == b.to_multiset()
    &&& forall|c: i64| #[trigger] a.filter(created_at_is(c)) == b.filter(created_at_is(c))
}

/// Relies on slice::sort_by_key, a stable sort: the posts end oldest first,
/// as a permutation of what they were, with equal times kept in order.
#[verifier::external_body]
pub(crate) fn sort_by_created_at(v: &mut Vec<LightPost>)
    ensures
        oldest_first(final(v)@),
        same_ties(final(v)@, old(v)@),
{
    v.sort_by_key(|p| p.created_at);
}

/// Filtering a reversed sequence is reversing the filtered one.
pub proof fn lemma_filter_reverse(s: Seq<LightPost>, p: spec_fn(LightPost) -> bool)
    ensures
        s.reverse().filter(p) == s.filter(p).reverse(),
    decreases s.len(),
{
    if s.len() == 0 {
        reveal(Seq::filter);
        assert(s.reverse() =~= s);
        assert(s.filter(p).reverse() =~= s.filter(p));
    } else {
        let dl = s.drop_last();
        lemma_filter_reverse(dl, p);
        assert(s.reverse() =~= seq![s.last()] + dl.reverse());
        dl.reverse().lemma_filter_prepend(s.last(), p);
        reveal(Seq::filter);
        assert(s.filter(p) == if p(s.last()) {
            dl.filter(p).push(s.last())
        } else {
            dl.filter(p)
        });
        if p(s.last()) {
            assert(dl.filter(p).push(s.last()).reverse() =~= seq![s.last()] + dl.filter(p).reverse());
        } else {
            assert(Seq::<LightPost>::empty() + dl.filter(p).reverse() =~= dl.filter(p).reverse());
        }
    }
}

/// `posts` reversed, as a new vector.
fn reversed(posts: &Vec<LightPost>) -> (r: Vec<LightPost>)
    ensures
        r@ == posts@.reverse(),
{
    let mut r: Vec<LightPost> = Vec::new();
    let mut i: usize = posts.len();
    while i > 0
        invariant
            i <= posts@.len(),
            r@ == posts@.subrange(i as int, posts@.len() as int).reverse(),
        decreases i,
    {
        i = i - 1;
        r.push(posts[i]);
        proof {
            assert(posts@.subrange(i as int, posts@.len() as int).reverse() =~= posts@.subrange(
                i + 1,
                posts@.len() as int,
            ).reverse().push(posts@[i as int]));
        }
    }
    proof {
        assert(posts@.subrange(0, posts@.len() as int) == posts@);
    }
    r
}

/// Orders posts newest first, posts of equal time staying in the order
/// given, and keeps the first `max_results`.
pub fn score_recent(light_posts: Vec<LightPost>, max_results: usize) -> (r: Vec<LightPost>)
    ensures
        exists|t: Seq<LightPost>|
            {
                &&& newest_first(t)
                &&& same_ties(t, light_posts@)
                &&& r@ == t.take(
                    if max_results < light_posts@.len() {
                        max_results as int
                    } else {
                        light_posts@.len() as int
                    },
                )
            },
        newest_first(r@),
        r@.len() == if max_results < light_posts@.len() {
            max_results as int
        } else {
            light_posts@.len() as int
        },
        forall|x: LightPost| #[trigger] r@.contains(x) ==> light_posts@.contains(x),
{
    let mut rv = reversed(&light_posts);
    sort_by_created_at(&mut rv);
    let mut t = reversed(&rv);
    let ghost tt = t@;
    proof {
        let s = rv@;
        let o = light_posts@;
        assert(newest_first(tt)) by {
            assert forall|i: int, j: int| 0 <= i < j < tt.len() implies tt[i].created_at
                >= tt[j].created_at by {
                assert(tt[i] == s[s.len() - 1 - i]);
                assert(tt[j] == s[s.len() - 1 - j]);
            }
        }
        s.lemma_reverse_to_multiset();
        o.lemma_reverse_to_multiset();
        assert forall|c: i64| #[trigger] tt.filter(created_at_is(c)) == o.filter(created_at_is(c)) by {
            lemma_filter_reverse(s, created_at_is(c));
            lemma_filter_reverse(o, created_at_is(c));
            assert(o.filter(created_at_is(c)).reverse().reverse() =~= o.filter(created_at_is(c)));
        }
        assert(same_ties(tt, o));
    }
    proof {
        tt.to_multiset_ensures();
        light_posts@.to_multiset_ensures();
        assert(tt.len() == light_posts@.len());
        assert(tt.take(tt.len() as int) == tt);
    }
    t.truncate(max_results);
    proof {
        let o = light_posts@;
        assert(t@ == tt.take(
            if max_results < o.len() {
                max_results as int
            } else {
                o.len() as int
            },
        ));
        assert forall|x: LightPost| #[trigger] t@.contains(x) implies o.contains(x) by {
            let k = choose|k: int| 0 <= k < t@.len() && t@[k] == x;
            assert(tt[k] == x);
            tt.to_multiset_ensures();
            o.to_multiset_ensures();
            assert(tt.contains(x));
            assert(tt.to_multiset().count(x) > 0);
        }
    }
    t
}

} // verus!
