//! The post index: canonical records, per-author timelines and tombstones.
use crate::config::{DEFAULT_RETENTION_SECONDS, DELETE_EVENT_KEY};
use crate::dash::{
    flag_entries, flags_contains, flags_len, records_len, timelines_len, flags_insert, flags_keys, flags_new, flags_remove,
    record_entries, records_clear, records_get, records_insert, records_new, records_remove,
    timeline_entries, timelines_clear, timelines_get, timelines_keys, timelines_len_at, timelines_new,
    timelines_push, timelines_put, timelines_take,
};
use crate::clock::unix_now_secs;
use crate::retention::{
    dropped_ids, tombstones_after,
    dropped_count, saturated,
    is_expired, lemma_trim_leaves_no_expired, refs_oldest_first, sort_map, trim_map, trim_seq,
};
use crate::query::records_keyed;
use crate::query::{
    accepts, collect, lemma_collect_allowed, may_return, picks, timelines_of, TimelineKind,
};
use crate::config::{
    MAX_ORIGINAL_POSTS_PER_AUTHOR, MAX_REPLY_POSTS_PER_AUTHOR, MAX_TINY_POSTS_PER_USER_SCAN,
    MAX_VIDEO_POSTS_PER_AUTHOR,
};
use crate::clock::elapsed_millis;
use std::collections::HashSet;
use std::time::Instant;
use crate::ordering::{oldest_first, same_ties, sort_by_created_at};
use crate::post::{LightPost, TinyPost, TweetDeleteEvent};
use dashmap::DashMap;
use std::collections::VecDeque;
use vstd::prelude::*;

verus! {

broadcast use vstd::std_specs::hash::group_hash_axioms;

/// The index as plain mathematical values.
pub ghost struct IndexModel {
    pub posts: Map<i64, LightPost>,
    pub original: Map<i64, Seq<TinyPost>>,
    pub secondary: Map<i64, Seq<TinyPost>>,
    pub video: Map<i64, Seq<TinyPost>>,
    pub deleted: Set<i64>,
}

/// The timeline under `k`, empty when there is none.
pub open spec fn timeline_at(tl: Map<i64, Seq<TinyPost>>, k: i64) -> Seq<TinyPost> {
    if tl.contains_key(k) {
        tl[k]
    } else {
        Seq::empty()
    }
}

/// `tl` with `t` appended to the timeline under `k`.
pub open spec fn append_ref(tl: Map<i64, Seq<TinyPost>>, k: i64, t: TinyPost) -> Map<
    i64,
    Seq<TinyPost>,
> {
    tl.insert(k, timeline_at(tl, k).push(t))
}

/// Whether `p` belongs in its author's video timeline once `posts` holds it:
/// it is no reply, and it carries a video or retweets a stored non-reply that does.
pub open spec fn video_eligible(posts: Map<i64, LightPost>, p: LightPost) -> bool {
    !p.is_reply && (p.has_video || (p.is_retweet && p.source_post_id.is_some()
        && posts.contains_key(p.source_post_id.unwrap())
        && !posts[p.source_post_id.unwrap()].is_reply
        && posts[p.source_post_id.unwrap()].has_video))
}

/// Indexing one post: a tombstoned or already stored id changes nothing;
/// otherwise the record is stored and its reference appended to the
/// original or secondary timeline of its author, and to the video timeline
/// when it is eligible.
pub open spec fn insert_one(m: IndexModel, p: LightPost) -> IndexModel {
    if m.deleted.contains(p.post_id) || m.posts.contains_key(p.post_id) {
        m
    } else {
        let posts = m.posts.insert(p.post_id, p);
        IndexModel {
            posts,
            original: if p.spec_is_original() {
                append_ref(m.original, p.author_id, p.tiny())
            } else {
                m.original
            },
            secondary: if p.spec_is_original() {
                m.secondary
            } else {
                append_ref(m.secondary, p.author_id, p.tiny())
            },
            video: if video_eligible(posts, p) {
                append_ref(m.video, p.author_id, p.tiny())
            } else {
                m.video
            },
            deleted: m.deleted,
        }
    }
}

/// Indexing the posts of `s` in order.
pub open spec fn insert_all(m: IndexModel, s: Seq<LightPost>) -> IndexModel
    decreases s.len(),
{
    if s.len() == 0 {
        m
    } else {
        insert_one(insert_all(m, s.drop_last()), s.last())
    }
}

/// Applying one delete event: the record goes, the id is tombstoned, and a
/// tombstone reference dated at the deletion joins the tombstone timeline.
pub open spec fn delete_one(m: IndexModel, d: TweetDeleteEvent) -> IndexModel {
    IndexModel {
        posts: m.posts.remove(d.post_id),
        original: append_ref(
            m.original,
            DELETE_EVENT_KEY,
            TinyPost { post_id: d.post_id, created_at: d.deleted_at },
        ),
        deleted: m.deleted.insert(d.post_id),
        ..m
    }
}

/// Applying the delete events of `s` in order.
pub open spec fn delete_all(m: IndexModel, s: Seq<TweetDeleteEvent>) -> IndexModel
    decreases s.len(),
{
    if s.len() == 0 {
        m
    } else {
        delete_one(delete_all(m, s.drop_last()), s.last())
    }
}

/// Every delete event of a batch leaves its post absent from the records and
/// present among the tombstones, whatever the batch order.
pub proof fn lemma_deletes_remove_and_tombstone(m: IndexModel, s: Seq<TweetDeleteEvent>)
    ensures
        forall|i: int|
            0 <= i < s.len() ==> {
                &&& !delete_all(m, s).posts.contains_key(#[trigger] s[i].post_id)
                &&& delete_all(m, s).deleted.contains(s[i].post_id)
            },
    decreases s.len(),
{
    if s.len() > 0 {
        lemma_deletes_remove_and_tombstone(m, s.drop_last());
        assert forall|i: int| 0 <= i < s.len() - 1 implies s.drop_last()[i] == s[i] by {}
    }
}

/// A post is fresh at `now` when it is not dated after `now` and no more
/// than `retention` seconds earlier.
pub open spec fn is_fresh(p: LightPost, now: i64, retention: u64) -> bool {
    p.created_at <= now && now - p.created_at <= retention
}

/// The fresh posts of `s`, in order.
pub open spec fn fresh_posts(s: Seq<LightPost>, now: i64, retention: u64) -> Seq<LightPost>
    decreases s.len(),
{
    if s.len() == 0 {
        s
    } else if is_fresh(s.last(), now, retention) {
        fresh_posts(s.drop_last(), now, retention).push(s.last())
    } else {
        fresh_posts(s.drop_last(), now, retention)
    }
}

proof fn lemma_fresh_posts_origin(s: Seq<LightPost>, now: i64, retention: u64)
    ensures
        forall|x: LightPost|
            #[trigger] fresh_posts(s, now, retention).contains(x) ==> s.contains(x) && is_fresh(
                x,
                now,
                retention,
            ),
    decreases s.len(),
{
    if s.len() > 0 {
        lemma_fresh_posts_origin(s.drop_last(), now, retention);
        let f = fresh_posts(s, now, retention);
        assert forall|x: LightPost| #[trigger] f.contains(x) implies s.contains(x) && is_fresh(
            x,
            now,
            retention,
        ) by {
            let j = choose|j: int| 0 <= j < f.len() && f[j] == x;
            let g = fresh_posts(s.drop_last(), now, retention);
            if j < g.len() {
                assert(g.contains(x));
                let k = choose|k: int| 0 <= k < s.drop_last().len() && s.drop_last()[k] == x;
                assert(s[k] == x);
            } else {
                assert(s[s.len() - 1] == x);
            }
        }
    }
}

/// Every record that indexing a batch adds was the first post of the batch
/// with its id; every other record is kept as it was.
pub proof fn lemma_insert_all_origin(m: IndexModel, s: Seq<LightPost>)
    ensures
        forall|id: i64| #[trigger]
            insert_all(m, s).posts.contains_key(id) ==> (m.posts.contains_key(id)
                && insert_all(m, s).posts[id] == m.posts[id]) || s.contains(
                insert_all(m, s).posts[id],
            ),
        forall|id: i64| m.posts.contains_key(id) ==> #[trigger] insert_all(m, s).posts.contains_key(id),
        insert_all(m, s).deleted == m.deleted,
        forall|i: int|
            0 <= i < s.len() ==> insert_all(m, s).posts.contains_key(#[trigger] s[i].post_id)
                || m.deleted.contains(s[i].post_id),
    decreases s.len(),
{
    if s.len() > 0 {
        lemma_insert_all_origin(m, s.drop_last());
        let r = insert_all(m, s);
        assert forall|i: int| 0 <= i < s.len() implies r.posts.contains_key(#[trigger] s[i].post_id)
            || m.deleted.contains(s[i].post_id) by {
            if i < s.len() - 1 {
                assert(s.drop_last()[i] == s[i]);
            }
        }
        assert forall|id: i64| #[trigger] r.posts.contains_key(id) implies (m.posts.contains_key(id)
            && r.posts[id] == m.posts[id]) || s.contains(r.posts[id]) by {
            let inner = insert_all(m, s.drop_last());
            if inner.posts.contains_key(id) && r.posts[id] == inner.posts[id] {
                if !(m.posts.contains_key(id) && inner.posts[id] == m.posts[id]) {
                    let k = choose|k: int|
                        0 <= k < s.drop_last().len() && s.drop_last()[k] == inner.posts[id];
                    assert(s[k] == r.posts[id]);
                }
            } else {
                assert(s[s.len() - 1] == r.posts[id]);
            }
        }
    }
}

/// A new, untombstoned post is stored as given, and its reference is appended
/// to its author's original timeline when it is original, to the secondary
/// one otherwise, and to the video one exactly when it is video-eligible; no
/// other timeline changes.
pub proof fn lemma_create_indexed(m: IndexModel, p: LightPost)
    requires
        !m.deleted.contains(p.post_id),
        !m.posts.contains_key(p.post_id),
    ensures
        insert_one(m, p).posts == m.posts.insert(p.post_id, p),
        insert_one(m, p).deleted == m.deleted,
        timeline_at(insert_one(m, p).original, p.author_id) == if p.spec_is_original() {
            timeline_at(m.original, p.author_id).push(p.tiny())
        } else {
            timeline_at(m.original, p.author_id)
        },
        timeline_at(insert_one(m, p).secondary, p.author_id) == if p.spec_is_original() {
            timeline_at(m.secondary, p.author_id)
        } else {
            timeline_at(m.secondary, p.author_id).push(p.tiny())
        },
        timeline_at(insert_one(m, p).video, p.author_id) == if video_eligible(
            m.posts.insert(p.post_id, p),
            p,
        ) {
            timeline_at(m.video, p.author_id).push(p.tiny())
        } else {
            timeline_at(m.video, p.author_id)
        },
        forall|k: i64|
            k != p.author_id ==> {
                &&& timeline_at(insert_one(m, p).original, k) == timeline_at(m.original, k)
                &&& timeline_at(insert_one(m, p).secondary, k) == timeline_at(m.secondary, k)
                &&& timeline_at(insert_one(m, p).video, k) == timeline_at(m.video, k)
            },
{
}

/// A create for an id that is already stored changes nothing: neither the
/// record nor any timeline.
pub proof fn lemma_duplicate_create_is_noop(m: IndexModel, p: LightPost)
    requires
        m.posts.contains_key(p.post_id),
    ensures
        insert_one(m, p) == m,
{
}

/// Indexing the same batch twice leaves the index as indexing it once.
pub proof fn lemma_insert_twice_is_once(m: IndexModel, s: Seq<LightPost>)
    ensures
        insert_all(insert_all(m, s), s) == insert_all(m, s),
{
    lemma_insert_all_origin(m, s);
    lemma_stored_ids_stay(insert_all(m, s), s);
}

/// Indexing a batch whose ids are all stored or tombstoned changes nothing.
proof fn lemma_stored_ids_stay(m: IndexModel, s: Seq<LightPost>)
    requires
        forall|i: int|
            0 <= i < s.len() ==> m.posts.contains_key(#[trigger] s[i].post_id) || m.deleted.contains(
                s[i].post_id,
            ),
    ensures
        insert_all(m, s) == m,
    decreases s.len(),
{
    if s.len() > 0 {
        assert forall|i: int| 0 <= i < s.drop_last().len() implies m.posts.contains_key(
            #[trigger] s.drop_last()[i].post_id,
        ) || m.deleted.contains(s.drop_last()[i].post_id) by {
            assert(s.drop_last()[i] == s[i]);
        }
        lemma_stored_ids_stay(m, s.drop_last());
        assert(m.posts.contains_key(s[s.len() - 1].post_id) || m.deleted.contains(
            s[s.len() - 1].post_id,
        ));
    }
}

/// A create that arrives after the delete of its id leaves the index as the
/// delete left it.
pub proof fn lemma_create_after_delete(m: IndexModel, d: TweetDeleteEvent, p: LightPost)
    requires
        p.post_id == d.post_id,
    ensures
        insert_one(delete_one(m, d), p) == delete_one(m, d),
{
}

/// `after` is `before` with every timeline trimmed at `now` (see `trim_seq`)
/// and the timelines left empty dropped.
pub open spec fn trimmed_from(
    before: Map<i64, Seq<TinyPost>>,
    after: Map<i64, Seq<TinyPost>>,
    now: i64,
    retention: u64,
) -> bool {
    &&& forall|k: i64| #[trigger]
        after.contains_key(k) <==> before.contains_key(k) && trim_seq(before[k], now, retention).len()
            > 0
    &&& forall|k: i64| #[trigger]
        after.contains_key(k) ==> after[k] == trim_seq(before[k], now, retention)
}

/// No timeline of `tl` holds a reference that has expired at `now`.
pub open spec fn none_expired(tl: Map<i64, Seq<TinyPost>>, now: i64, retention: u64) -> bool {
    forall|k: i64, i: int|
        tl.contains_key(k) && 0 <= i < tl[k].len() ==> !is_expired(#[trigger] tl[k][i], now, retention)
}

/// Every timeline of `tl` runs oldest first.
pub open spec fn all_oldest_first(tl: Map<i64, Seq<TinyPost>>) -> bool {
    forall|k: i64| #[trigger] tl.contains_key(k) ==> refs_oldest_first(tl[k])
}

/// Trimming timelines that all run oldest first leaves no expired reference
/// in any of them.
pub proof fn lemma_trimmed_none_expired(
    before: Map<i64, Seq<TinyPost>>,
    after: Map<i64, Seq<TinyPost>>,
    now: i64,
    retention: u64,
)
    requires
        all_oldest_first(before),
        trimmed_from(before, after, now, retention),
    ensures
        none_expired(after, now, retention),
        all_oldest_first(after),
{
    assert forall|k: i64, i: int| after.contains_key(k) && 0 <= i < after[k].len() implies !is_expired(
        #[trigger] after[k][i],
        now,
        retention,
    ) by {
        lemma_trim_leaves_no_expired(before[k], now, retention);
    }
    assert forall|k: i64| #[trigger] after.contains_key(k) implies refs_oldest_first(after[k]) by {
        lemma_trim_leaves_no_expired(before[k], now, retention);
    }
}

/// Indexing keeps every record under its own id.
proof fn lemma_insert_all_keyed(m: IndexModel, s: Seq<LightPost>)
    requires
        records_keyed(m.posts),
    ensures
        records_keyed(insert_all(m, s).posts),
    decreases s.len(),
{
    if s.len() > 0 {
        lemma_insert_all_keyed(m, s.drop_last());
    }
}

/// Deleting keeps every record under its own id.
proof fn lemma_delete_all_keyed(m: IndexModel, s: Seq<TweetDeleteEvent>)
    requires
        records_keyed(m.posts),
    ensures
        records_keyed(delete_all(m, s).posts),
    decreases s.len(),
{
    if s.len() > 0 {
        lemma_delete_all_keyed(m, s.drop_last());
    }
}

/// `after` holds the timelines of `before` each sorted oldest first, under
/// the same keys and with the same references.
pub open spec fn sorted_version(before: Map<i64, Seq<TinyPost>>, after: Map<i64, Seq<TinyPost>>) -> bool {
    &&& after.dom() == before.dom()
    &&& all_oldest_first(after)
    &&& forall|k: i64| #[trigger]
        after.contains_key(k) ==> after[k].to_multiset() == before[k].to_multiset()
}

/// `m1` is `m0` with every timeline sorted oldest first.
pub open spec fn sorted_model(m0: IndexModel, m1: IndexModel) -> bool {
    &&& m1.posts == m0.posts
    &&& m1.deleted == m0.deleted
    &&& sorted_version(m0.original, m1.original)
    &&& sorted_version(m0.secondary, m1.secondary)
    &&& sorted_version(m0.video, m1.video)
}

/// `m1` is `m0` after a trim pass at `now`: every timeline is trimmed
/// (see `trimmed_from`), the records of all dropped references are gone, the
/// tombstones of dropped tombstone references are gone, and nothing else
/// changes.
pub open spec fn trim_pass(m0: IndexModel, m1: IndexModel, now: i64, retention: u64) -> bool {
    &&& trimmed_from(m0.original, m1.original, now, retention)
    &&& trimmed_from(m0.secondary, m1.secondary, now, retention)
    &&& trimmed_from(m0.video, m1.video, now, retention)
    &&& m1.posts == m0.posts.remove_keys(
        dropped_ids(m0.original, now, retention).union(dropped_ids(m0.secondary, now, retention)).union(
            dropped_ids(m0.video, now, retention),
        ),
    )
    &&& m1.deleted == tombstones_after(m0.deleted, m0.original, DELETE_EVENT_KEY, now, retention)
}

/// `m` with every tombstoned id removed from the records.
pub open spec fn swept(m: IndexModel) -> IndexModel {
    IndexModel { posts: m.posts.remove_keys(m.deleted), ..m }
}

/// How many times `t` stands in the timeline under `k`.
pub open spec fn ref_count(tl: Map<i64, Seq<TinyPost>>, k: i64, t: TinyPost) -> nat {
    timeline_at(tl, k).to_multiset().count(t)
}

proof fn lemma_append_ref_count(tl: Map<i64, Seq<TinyPost>>, a: i64, x: TinyPost, k: i64, t: TinyPost)
    ensures
        ref_count(append_ref(tl, a, x), k, t) == ref_count(tl, k, t) + if k == a && x == t {
            1nat
        } else {
            0nat
        },
{
    timeline_at(tl, a).to_multiset_ensures();
    if k != a {
        assert(timeline_at(append_ref(tl, a, x), k) == timeline_at(tl, k));
    }
}

/// Indexing posts whose ids all differ from that of `t` leaves whether that
/// id is stored, and how often `t` stands in each timeline, as they were.
proof fn lemma_other_ids_keep(m: IndexModel, s: Seq<LightPost>, t: TinyPost)
    requires
        forall|j: int| 0 <= j < s.len() ==> #[trigger] s[j].post_id != t.post_id,
    ensures
        insert_all(m, s).posts.contains_key(t.post_id) == m.posts.contains_key(t.post_id),
        insert_all(m, s).deleted == m.deleted,
        forall|k: i64|
            {
                &&& #[trigger] ref_count(insert_all(m, s).original, k, t) == ref_count(m.original, k, t)
                &&& ref_count(insert_all(m, s).secondary, k, t) == ref_count(m.secondary, k, t)
                &&& ref_count(insert_all(m, s).video, k, t) == ref_count(m.video, k, t)
            },
    decreases s.len(),
{
    if s.len() > 0 {
        assert forall|j: int| 0 <= j < s.drop_last().len() implies #[trigger] s.drop_last()[j].post_id
            != t.post_id by {
            assert(s.drop_last()[j] == s[j]);
        }
        lemma_other_ids_keep(m, s.drop_last(), t);
        let inner = insert_all(m, s.drop_last());
        let p = s.last();
        assert(p.post_id != t.post_id);
        assert(p.tiny() != t);
        assert forall|k: i64|
            {
                &&& #[trigger] ref_count(insert_all(m, s).original, k, t) == ref_count(m.original, k, t)
                &&& ref_count(insert_all(m, s).secondary, k, t) == ref_count(m.secondary, k, t)
                &&& ref_count(insert_all(m, s).video, k, t) == ref_count(m.video, k, t)
            } by {
            lemma_append_ref_count(inner.original, p.author_id, p.tiny(), k, t);
            lemma_append_ref_count(inner.secondary, p.author_id, p.tiny(), k, t);
            lemma_append_ref_count(inner.video, p.author_id, p.tiny(), k, t);
        }
    }
}

/// `placed_once` holds for every author.
pub open spec fn placed_everywhere(
    m: IndexModel,
    r: IndexModel,
    p: LightPost,
    posts: Map<i64, LightPost>,
) -> bool {
    forall|k: i64| #[trigger] placed_once(m, r, p, posts, k)
}

/// How the reference of `p` stands in the timelines of author `k` in `r`
/// against `m`: once more in the original timeline of its author when it is
/// original, once more in the secondary one otherwise, once more in the video
/// one when it is video-eligible over `posts`, and as often as before
/// everywhere else.
pub open spec fn placed_once(
    m: IndexModel,
    r: IndexModel,
    p: LightPost,
    posts: Map<i64, LightPost>,
    k: i64,
) -> bool {
    &&& ref_count(r.original, k, p.tiny()) == ref_count(m.original, k, p.tiny()) + if k
        == p.author_id && p.spec_is_original() {
        1nat
    } else {
        0nat
    }
    &&& ref_count(r.secondary, k, p.tiny()) == ref_count(m.secondary, k, p.tiny()) + if k
        == p.author_id && !p.spec_is_original() {
        1nat
    } else {
        0nat
    }
    &&& ref_count(r.video, k, p.tiny()) == ref_count(m.video, k, p.tiny()) + if k == p.author_id
        && video_eligible(posts.insert(p.post_id, p), p) {
        1nat
    } else {
        0nat
    }
}

/// A post of a batch whose id is new, untombstoned and unique in the batch
/// is stored as given; its reference is added exactly once to its author's
/// original timeline when it is original, exactly once to the secondary one
/// otherwise, exactly once to the video one when it is video-eligible as of
/// its insertion, and nowhere else.
pub proof fn lemma_batch_places_new_post(m: IndexModel, s: Seq<LightPost>, i: int)
    requires
        0 <= i < s.len(),
        !m.posts.contains_key(s[i].post_id),
        !m.deleted.contains(s[i].post_id),
        forall|j: int| 0 <= j < s.len() && j != i ==> #[trigger] s[j].post_id != s[i].post_id,
    ensures
        insert_all(m, s).posts.contains_key(s[i].post_id),
        insert_all(m, s).posts[s[i].post_id] == s[i],
        forall|k: i64|
            #[trigger] placed_once(m, insert_all(m, s), s[i], insert_all(m, s.take(i)).posts, k),
    decreases s.len(),
{
    let p = s[i];
    let t = p.tiny();
    let inner = insert_all(m, s.drop_last());
    assert(insert_all(m, s) == insert_one(inner, s.last()));
    if i == s.len() - 1 {
        assert(s.take(i) == s.drop_last());
        assert forall|j: int| 0 <= j < s.drop_last().len() implies #[trigger] s.drop_last()[j].post_id
            != t.post_id by {
            assert(s.drop_last()[j] == s[j]);
        }
        lemma_other_ids_keep(m, s.drop_last(), t);
        assert(s.last() == p);
        assert forall|k: i64|
            #[trigger] placed_once(m, insert_all(m, s), s[i], insert_all(m, s.take(i)).posts, k) by {
            lemma_append_ref_count(inner.original, p.author_id, t, k, t);
            lemma_append_ref_count(inner.secondary, p.author_id, t, k, t);
            lemma_append_ref_count(inner.video, p.author_id, t, k, t);
        }
    } else {
        assert forall|j: int| 0 <= j < s.drop_last().len() && j != i implies #[trigger] s.drop_last()[j].post_id
            != s.drop_last()[i].post_id by {
            assert(s.drop_last()[j] == s[j]);
        }
        assert(s.drop_last()[i] == p);
        lemma_batch_places_new_post(m, s.drop_last(), i);
        assert(s.drop_last().take(i) == s.take(i));
        let q = s.last();
        assert(q.post_id != p.post_id);
        assert(q.tiny() != t);
        assert forall|k: i64|
            #[trigger] placed_once(m, insert_all(m, s), s[i], insert_all(m, s.take(i)).posts, k) by {
            assert(placed_once(m, inner, s.drop_last()[i], insert_all(m, s.drop_last().take(i)).posts, k));
            lemma_append_ref_count(inner.original, q.author_id, q.tiny(), k, t);
            lemma_append_ref_count(inner.secondary, q.author_id, q.tiny(), k, t);
            lemma_append_ref_count(inner.video, q.author_id, q.tiny(), k, t);
        }
    }
}

/// How many references the timelines of `tl` under the keys of `ks` hold.
pub open spec fn total_refs(tl: Map<i64, Seq<TinyPost>>, ks: Seq<i64>) -> nat
    decreases ks.len(),
{
    if ks.len() == 0 {
        0
    } else {
        total_refs(tl, ks.drop_last()) + timeline_at(tl, ks.last()).len()
    }
}

/// Nothing about id `id` changes from `m0` to `m1`: whether it is stored, its
/// record, whether it is tombstoned, and how often any reference to it
/// stands in any timeline.
pub open spec fn id_untouched(m0: IndexModel, m1: IndexModel, id: i64) -> bool {
    &&& m1.posts.contains_key(id) == m0.posts.contains_key(id)
    &&& m0.posts.contains_key(id) ==> m1.posts[id] == m0.posts[id]
    &&& m1.deleted.contains(id) == m0.deleted.contains(id)
    &&& forall|k: i64, t: TinyPost|
        t.post_id == id ==> {
            &&& #[trigger] ref_count(m1.original, k, t) == ref_count(m0.original, k, t)
            &&& ref_count(m1.secondary, k, t) == ref_count(m0.secondary, k, t)
            &&& ref_count(m1.video, k, t) == ref_count(m0.video, k, t)
        }
}

/// Indexing a batch leaves an id untouched when it is already stored or
/// tombstoned, or when no post of the batch has it.
pub proof fn lemma_batch_leaves_id(m: IndexModel, s: Seq<LightPost>, id: i64)
    requires
        m.posts.contains_key(id) || m.deleted.contains(id) || forall|j: int|
            0 <= j < s.len() ==> #[trigger] s[j].post_id != id,
    ensures
        id_untouched(m, insert_all(m, s), id),
    decreases s.len(),
{
    if s.len() > 0 {
        assert(m.posts.contains_key(id) || m.deleted.contains(id) || forall|j: int|
            0 <= j < s.drop_last().len() ==> #[trigger] s.drop_last()[j].post_id != id) by {
            if !(m.posts.contains_key(id) || m.deleted.contains(id)) {
                assert forall|j: int| 0 <= j < s.drop_last().len() implies #[trigger] s.drop_last()[j].post_id
                    != id by {
                    assert(s.drop_last()[j] == s[j]);
                }
            }
        }
        lemma_batch_leaves_id(m, s.drop_last(), id);
        let inner = insert_all(m, s.drop_last());
        let q = s.last();
        assert(insert_all(m, s) == insert_one(inner, q));
        if q.post_id != id {
            assert forall|k: i64, t: TinyPost| t.post_id == id implies {
                &&& #[trigger] ref_count(insert_all(m, s).original, k, t) == ref_count(m.original, k, t)
                &&& ref_count(insert_all(m, s).secondary, k, t) == ref_count(m.secondary, k, t)
                &&& ref_count(insert_all(m, s).video, k, t) == ref_count(m.video, k, t)
            } by {
                assert(ref_count(inner.original, k, t) == ref_count(m.original, k, t));
                lemma_append_ref_count(inner.original, q.author_id, q.tiny(), k, t);
                lemma_append_ref_count(inner.secondary, q.author_id, q.tiny(), k, t);
                lemma_append_ref_count(inner.video, q.author_id, q.tiny(), k, t);
            }
        } else {
            assert(s[s.len() - 1].post_id == id);
            assert(inner.posts.contains_key(id) || inner.deleted.contains(id));
            assert(insert_all(m, s) == inner);
        }
    }
}

proof fn lemma_fresh_posts_keep(s: Seq<LightPost>, now: i64, retention: u64, x: LightPost)
    requires
        s.contains(x),
        is_fresh(x, now, retention),
    ensures
        fresh_posts(s, now, retention).contains(x),
    decreases s.len(),
{
    if s.last() == x {
        assert(fresh_posts(s, now, retention).last() == x);
    } else {
        let j = choose|j: int| 0 <= j < s.len() && s[j] == x;
        assert(s.drop_last()[j] == x);
        lemma_fresh_posts_keep(s.drop_last(), now, retention, x);
        let f = fresh_posts(s.drop_last(), now, retention);
        let k = choose|k: int| 0 <= k < f.len() && f[k] == x;
        assert(fresh_posts(s, now, retention)[k] == x);
    }
}

/// A new, untombstoned post of a batch, every other post of which with the
/// same id is the same post, is stored as given and placed in the
/// timelines exactly once (see `placed_once`), video eligibility being judged
/// over the records as they stood when it was inserted.
pub proof fn lemma_batch_stores_new_post(m: IndexModel, s: Seq<LightPost>, p: LightPost)
    requires
        s.contains(p),
        !m.posts.contains_key(p.post_id),
        !m.deleted.contains(p.post_id),
        forall|j: int| 0 <= j < s.len() && #[trigger] s[j].post_id == p.post_id ==> s[j] == p,
    ensures
        insert_all(m, s).posts.contains_key(p.post_id),
        insert_all(m, s).posts[p.post_id] == p,
        exists|pre: Map<i64, LightPost>| #[trigger] placed_everywhere(m, insert_all(m, s), p, pre),
    decreases s.len(),
{
    let d = s.drop_last();
    assert forall|j: int| 0 <= j < d.len() && #[trigger] d[j].post_id == p.post_id implies d[j] == p by {
        assert(d[j] == s[j]);
    }
    if d.contains(p) {
        lemma_batch_stores_new_post(m, d, p);
        let inner = insert_all(m, d);
        let pre = choose|pre: Map<i64, LightPost>| #[trigger] placed_everywhere(m, inner, p, pre);
        let q = s.last();
        assert(insert_all(m, s) == insert_one(inner, q));
        if q.post_id == p.post_id {
            assert(s[s.len() - 1] == q);
            assert(insert_all(m, s) == inner);
        } else {
            assert(q.tiny() != p.tiny());
            assert forall|k: i64| #[trigger] placed_once(m, insert_all(m, s), p, pre, k) by {
                assert(placed_once(m, inner, p, pre, k));
                lemma_append_ref_count(inner.original, q.author_id, q.tiny(), k, p.tiny());
                lemma_append_ref_count(inner.secondary, q.author_id, q.tiny(), k, p.tiny());
                lemma_append_ref_count(inner.video, q.author_id, q.tiny(), k, p.tiny());
            }
            assert(placed_everywhere(m, insert_all(m, s), p, pre));
        }
    } else {
        let i = s.len() - 1;
        assert(s[i] == p) by {
            let j = choose|j: int| 0 <= j < s.len() && s[j] == p;
            if j < i {
                assert(d[j] == p);
            }
        }
        assert forall|j: int| 0 <= j < s.len() && j != i implies #[trigger] s[j].post_id != s[i].post_id by {
            if s[j].post_id == p.post_id {
                assert(d[j] == s[j]);
            }
        }
        lemma_batch_places_new_post(m, s, i);
        let pre = insert_all(m, s.take(i)).posts;
        assert(placed_everywhere(m, insert_all(m, s), p, pre));
    }
}

/// Thread-safe store of posts grouped by author.
pub struct PostStore {
    posts: DashMap<i64, LightPost>,
    original_posts_by_user: DashMap<i64, VecDeque<TinyPost>>,
    secondary_posts_by_user: DashMap<i64, VecDeque<TinyPost>>,
    video_posts_by_user: DashMap<i64, VecDeque<TinyPost>>,
    deleted_posts: DashMap<i64, bool>,
    retention_seconds: u64,
    request_timeout_ms: u64,
}

impl PostStore {
    /// The index held by this store.
    pub closed spec fn model(&self) -> IndexModel {
        IndexModel {
            posts: record_entries(self.posts),
            original: timeline_entries(self.original_posts_by_user),
            secondary: timeline_entries(self.secondary_posts_by_user),
            video: timeline_entries(self.video_posts_by_user),
            deleted: flag_entries(self.deleted_posts).dom(),
        }
    }

    /// Every record is stored under its own id.
    pub open spec fn wf(&self) -> bool {
        records_keyed(self.model().posts)
    }

    /// The retention window in seconds.
    pub closed spec fn spec_retention(&self) -> u64 {
        self.retention_seconds
    }

    /// The per-query deadline in milliseconds; zero means none.
    pub closed spec fn spec_timeout_ms(&self) -> u64 {
        self.request_timeout_ms
    }

    /// Creates an empty store with the given retention and per-query deadline.
    pub fn new(retention_seconds: u64, request_timeout_ms: u64) -> (r: PostStore)
        ensures
            r.wf(),
            r.model().posts.dom().is_empty(),
            r.model().original.dom().is_empty(),
            r.model().secondary.dom().is_empty(),
            r.model().video.dom().is_empty(),
            r.model().deleted.is_empty(),
            r.spec_retention() == retention_seconds,
            r.spec_timeout_ms() == request_timeout_ms,
    {
        PostStore {
            posts: records_new(),
            original_posts_by_user: timelines_new(),
            secondary_posts_by_user: timelines_new(),
            video_posts_by_user: timelines_new(),
            deleted_posts: flags_new(),
            retention_seconds,
            request_timeout_ms,
        }
    }

    /// The retention window in seconds.
    pub fn retention_seconds(&self) -> (r: u64)
        ensures
            r == self.spec_retention(),
    {
        self.retention_seconds
    }

    /// The per-query deadline in milliseconds; zero means none.
    pub fn request_timeout_ms(&self) -> (r: u64)
        ensures
            r == self.spec_timeout_ms(),
    {
        self.request_timeout_ms
    }

    /// How many references the timelines of `kind` hold in all, saturating.
    pub fn timeline_ref_count(&self, kind: TimelineKind) -> (r: usize)
        ensures
            exists|ks: Seq<i64>|
                ks.no_duplicates() && ks.to_set() == timelines_of(self.model(), kind).dom() && r
                    == saturated(total_refs(timelines_of(self.model(), kind), ks)),
    {
        let map = match kind {
            TimelineKind::Original => &self.original_posts_by_user,
            TimelineKind::Secondary => &self.secondary_posts_by_user,
            TimelineKind::Video => &self.video_posts_by_user,
        };
        let ghost tl = timelines_of(self.model(), kind);
        assert(timeline_entries(*map) == tl);
        let keys = timelines_keys(map);
        let mut total: usize = 0;
        let mut i: usize = 0;
        while i < keys.len()
            invariant
                0 <= i <= keys@.len(),
                timeline_entries(*map) == tl,
                total == saturated(total_refs(tl, keys@.take(i as int))),
            decreases keys@.len() - i,
        {
            let n = timelines_len_at(map, keys[i]);
            proof {
                assert(keys@.take(i + 1).drop_last() == keys@.take(i as int));
                assert(keys@.take(i + 1).last() == keys@[i as int]);
            }
            total = total.saturating_add(n);
            i = i + 1;
        }
        proof {
            assert(keys@.take(keys@.len() as int) == keys@);
        }
        total
    }

    /// The number of stored records.
    pub fn post_count(&self) -> (r: usize)
        ensures
            r == self.model().posts.dom().len(),
    {
        records_len(&self.posts)
    }

    /// The number of tombstoned ids.
    pub fn deleted_count(&self) -> (r: usize)
        ensures
            r == self.model().deleted.len(),
    {
        flags_len(&self.deleted_posts)
    }

    /// The number of authors with an original timeline, the tombstone
    /// pseudo-author included.
    pub fn user_count(&self) -> (r: usize)
        ensures
            r == self.model().original.dom().len(),
    {
        timelines_len(&self.original_posts_by_user)
    }

    /// Records each delete event in order: the record is removed, the id is
    /// tombstoned, and a tombstone reference is kept for retention.
    pub fn mark_as_deleted(&mut self, events: Vec<TweetDeleteEvent>)
        requires
            old(self).wf(),
        ensures
            final(self).wf(),
            final(self).model() == delete_all(old(self).model(), events@),
            final(self).spec_retention() == old(self).spec_retention(),
            final(self).spec_timeout_ms() == old(self).spec_timeout_ms(),
            forall|i: int|
                0 <= i < events@.len() ==> {
                    &&& !final(self).model().posts.contains_key(#[trigger] events@[i].post_id)
                    &&& final(self).model().deleted.contains(events@[i].post_id)
                },
    {
        let mut i: usize = 0;
        while i < events.len()
            invariant
                0 <= i <= events@.len(),
                self.model() == delete_all(old(self).model(), events@.take(i as int)),
                self.retention_seconds == old(self).retention_seconds,
                self.request_timeout_ms == old(self).request_timeout_ms,
            decreases events@.len() - i,
        {
            let d = events[i];
            records_remove(&mut self.posts, d.post_id);
            flags_insert(&mut self.deleted_posts, d.post_id, true);
            timelines_push(
                &mut self.original_posts_by_user,
                DELETE_EVENT_KEY,
                TinyPost::new(d.post_id, d.deleted_at),
            );
            proof {
                assert(events@.take(i + 1).drop_last() == events@.take(i as int));
            }
            i = i + 1;
        }
        proof {
            assert(events@.take(events@.len() as int) == events@);
            lemma_deletes_remove_and_tombstone(old(self).model(), events@);
            lemma_delete_all_keyed(old(self).model(), events@);
        }
    }

    /// Indexes the posts of `posts` in order (see `insert_one`).
    fn insert_posts_internal(&mut self, posts: Vec<LightPost>)
        requires
            old(self).wf(),
        ensures
            final(self).wf(),
            final(self).model() == insert_all(old(self).model(), posts@),
            final(self).spec_retention() == old(self).spec_retention(),
            final(self).spec_timeout_ms() == old(self).spec_timeout_ms(),
    {
        let mut i: usize = 0;
        while i < posts.len()
            invariant
                0 <= i <= posts@.len(),
                self.model() == insert_all(old(self).model(), posts@.take(i as int)),
                self.retention_seconds == old(self).retention_seconds,
                self.request_timeout_ms == old(self).request_timeout_ms,
            decreases posts@.len() - i,
        {
            let post = posts[i];
            proof {
                assert(posts@.take(i + 1).drop_last() == posts@.take(i as int));
                assert(posts@.take(i + 1).last() == post);
            }
            i = i + 1;
            if flags_contains(&self.deleted_posts, post.post_id) {
                continue;
            }
            if records_get(&self.posts, post.post_id).is_some() {
                continue;
            }
            records_insert(&mut self.posts, post.post_id, post);
            let tiny_post = TinyPost::new(post.post_id, post.created_at);
            if !post.is_reply && !post.is_retweet {
                timelines_push(&mut self.original_posts_by_user, post.author_id, tiny_post);
            } else {
                timelines_push(&mut self.secondary_posts_by_user, post.author_id, tiny_post);
            }
            let mut eligible = post.has_video;
            if !eligible && post.is_retweet {
                if let Some(source_post_id) = post.source_post_id {
                    if let Some(source_post) = records_get(&self.posts, source_post_id) {
                        eligible = !source_post.is_reply && source_post.has_video;
                    }
                }
            }
            if post.is_reply {
                eligible = false;
            }
            if eligible {
                timelines_push(&mut self.video_posts_by_user, post.author_id, tiny_post);
            }
        }
        proof {
            assert(posts@.take(posts@.len() as int) == posts@);
            lemma_insert_all_keyed(old(self).model(), posts@);
        }
    }

    /// Indexes a batch at wall time `now`: posts dated after `now`, or
    /// more than the retention window before it, are dropped; the rest are
    /// indexed oldest first (see `insert_one`).
    pub fn insert_posts_at(&mut self, posts: Vec<LightPost>, now: i64)
        requires
            old(self).wf(),
        ensures
            final(self).wf(),
            exists|s: Seq<LightPost>|
                {
                    &&& oldest_first(s)
                    &&& same_ties(s, fresh_posts(posts@, now, old(self).spec_retention()))
                    &&& final(self).model() == insert_all(old(self).model(), s)
                },
            forall|id: i64| #[trigger]
                final(self).model().posts.contains_key(id) ==> (old(self).model().posts.contains_key(
                    id,
                ) && final(self).model().posts[id] == old(self).model().posts[id]) || (posts@.contains(
                    final(self).model().posts[id],
                ) && is_fresh(final(self).model().posts[id], now, old(self).spec_retention())),
            forall|i: int|
                0 <= i < posts@.len() && is_fresh(posts@[i], now, old(self).spec_retention())
                    && !old(self).model().posts.contains_key(posts@[i].post_id)
                    && !old(self).model().deleted.contains(posts@[i].post_id) && (forall|j: int|
                    0 <= j < posts@.len() && #[trigger] posts@[j].post_id == posts@[i].post_id
                        ==> posts@[j] == posts@[i]) ==> {
                    &&& #[trigger] final(self).model().posts.contains_key(posts@[i].post_id)
                    &&& final(self).model().posts[posts@[i].post_id] == posts@[i]
                    &&& exists|pre: Map<i64, LightPost>|
                        #[trigger] placed_everywhere(old(self).model(), final(self).model(), posts@[i], pre)
                },
            forall|id: i64|
                old(self).model().posts.contains_key(id) || old(self).model().deleted.contains(id)
                    ==> #[trigger] id_untouched(old(self).model(), final(self).model(), id),
            forall|id: i64|
                (forall|j: int|
                    0 <= j < posts@.len() && #[trigger] posts@[j].post_id == id ==> !is_fresh(
                        posts@[j],
                        now,
                        old(self).spec_retention(),
                    )) ==> #[trigger] id_untouched(old(self).model(), final(self).model(), id),
            final(self).spec_retention() == old(self).spec_retention(),
            final(self).spec_timeout_ms() == old(self).spec_timeout_ms(),
    {
        let mut kept: Vec<LightPost> = Vec::new();
        let mut i: usize = 0;
        while i < posts.len()
            invariant
                0 <= i <= posts@.len(),
                kept@ == fresh_posts(posts@.take(i as int), now, self.retention_seconds),
            decreases posts@.len() - i,
        {
            let p = posts[i];
            proof {
                assert(posts@.take(i + 1).drop_last() == posts@.take(i as int));
                assert(posts@.take(i + 1).last() == p);
            }
            let age: i128 = now as i128 - p.created_at as i128;
            if p.created_at <= now && age <= self.retention_seconds as i128 {
                kept.push(p);
            }
            i = i + 1;
        }
        proof {
            assert(posts@.take(posts@.len() as int) == posts@);
        }
        let ghost fresh = kept@;
        sort_by_created_at(&mut kept);
        self.insert_posts_internal(kept);
        proof {
            lemma_insert_all_origin(old(self).model(), kept@);
            lemma_fresh_posts_origin(posts@, now, old(self).spec_retention());
            let r = self.model();
            assert forall|id: i64| #[trigger] r.posts.contains_key(id) implies (old(
                self,
            ).model().posts.contains_key(id) && r.posts[id] == old(self).model().posts[id]) || (
            posts@.contains(r.posts[id]) && is_fresh(r.posts[id], now, old(self).spec_retention()))
                by {
                if !(old(self).model().posts.contains_key(id) && r.posts[id] == old(
                    self,
                ).model().posts[id]) {
                    assert(kept@.contains(r.posts[id]));
                    kept@.to_multiset_ensures();
                    fresh.to_multiset_ensures();
                    assert(kept@.to_multiset().count(r.posts[id]) > 0);
                    assert(fresh.to_multiset().count(r.posts[id]) > 0);
                    assert(fresh.contains(r.posts[id]));
                }
            }
            let m0 = old(self).model();
            let sv = kept@;
            assert forall|i: int|
                0 <= i < posts@.len() && is_fresh(posts@[i], now, old(self).spec_retention())
                    && !m0.posts.contains_key(posts@[i].post_id)
                    && !m0.deleted.contains(posts@[i].post_id) && (forall|j: int|
                    0 <= j < posts@.len() && #[trigger] posts@[j].post_id == posts@[i].post_id
                        ==> posts@[j] == posts@[i]) implies {
                    &&& #[trigger] r.posts.contains_key(posts@[i].post_id)
                    &&& r.posts[posts@[i].post_id] == posts@[i]
                    &&& exists|pre: Map<i64, LightPost>| #[trigger] placed_everywhere(m0, r, posts@[i], pre)
                } by {
                let p = posts@[i];
                sv.to_multiset_ensures();
                fresh.to_multiset_ensures();
                assert(posts@.contains(p));
                lemma_fresh_posts_keep(posts@, now, old(self).spec_retention(), p);
                assert(fresh.to_multiset().count(p) > 0);
                assert(sv.contains(p));
                assert forall|j: int| 0 <= j < sv.len() && #[trigger] sv[j].post_id == p.post_id implies sv[j] == p by {
                    let x = sv[j];
                    assert(sv.contains(x));
                    assert(sv.to_multiset().count(x) > 0);
                    assert(fresh.contains(x));
                    let jj = choose|jj: int| 0 <= jj < posts@.len() && posts@[jj] == x;
                    assert(posts@[jj].post_id == p.post_id);
                }
                lemma_batch_stores_new_post(m0, sv, p);
            }
            assert forall|id: i64|
                m0.posts.contains_key(id) || m0.deleted.contains(id) implies #[trigger] id_untouched(
                m0,
                r,
                id,
            ) by {
                lemma_batch_leaves_id(m0, sv, id);
            }
            assert forall|id: i64|
                (forall|j: int|
                    0 <= j < posts@.len() && #[trigger] posts@[j].post_id == id ==> !is_fresh(
                        posts@[j],
                        now,
                        old(self).spec_retention(),
                    )) implies #[trigger] id_untouched(m0, r, id) by {
                assert forall|j: int| 0 <= j < sv.len() implies #[trigger] sv[j].post_id != id by {
                    let x = sv[j];
                    assert(sv.contains(x));
                    sv.to_multiset_ensures();
                    fresh.to_multiset_ensures();
                    assert(sv.to_multiset().count(x) > 0);
                    assert(fresh.contains(x));
                    assert(posts@.contains(x) && is_fresh(x, now, old(self).spec_retention()));
                    let jj = choose|jj: int| 0 <= jj < posts@.len() && posts@[jj] == x;
                    if x.post_id == id {
                        assert(posts@[jj].post_id == id);
                    }
                }
                lemma_batch_leaves_id(m0, sv, id);
            }
        }
    }

    /// Indexes a batch at the current wall time (see `insert_posts_at`).
    pub fn insert_posts(&mut self, posts: Vec<LightPost>)
        requires
            old(self).wf(),
        ensures
            final(self).wf(),
            exists|now: i64, s: Seq<LightPost>|
                {
                    &&& oldest_first(s)
                    &&& same_ties(s, fresh_posts(posts@, now, old(self).spec_retention()))
                    &&& final(self).model() == insert_all(old(self).model(), s)
                },
            final(self).spec_retention() == old(self).spec_retention(),
            final(self).spec_timeout_ms() == old(self).spec_timeout_ms(),
    {
        let now = unix_now_secs();
        self.insert_posts_at(posts, now);
    }
    /// Trims every timeline at wall time `now`: leading references more than
    /// the retention window old are dropped with their records, tombstones
    /// expire with their tombstone references, and emptied timelines go.
    /// Returns how many original and secondary references were dropped.
    pub fn trim_old_posts_at(&mut self, now: i64) -> (r: usize)
        requires
            old(self).wf(),
        ensures
            final(self).wf(),
            exists|ka: Seq<i64>, kb: Seq<i64>|
                {
                    &&& ka.no_duplicates() && ka.to_set() == old(self).model().original.dom()
                    &&& kb.no_duplicates() && kb.to_set() == old(self).model().secondary.dom()
                    &&& r == saturated(
                        saturated(dropped_count(old(self).model().original, ka, now, old(self).spec_retention()))
                            + saturated(dropped_count(old(self).model().secondary, kb, now, old(self).spec_retention())),
                    )
                },
            trim_pass(old(self).model(), final(self).model(), now, old(self).spec_retention()),
            final(self).model().posts.submap_of(old(self).model().posts),
            final(self).model().deleted.subset_of(old(self).model().deleted),
            all_oldest_first(old(self).model().original) ==> none_expired(final(self).model().original, now, old(self).spec_retention()),
            all_oldest_first(old(self).model().secondary) ==> none_expired(final(self).model().secondary, now, old(self).spec_retention()),
            all_oldest_first(old(self).model().video) ==> none_expired(final(self).model().video, now, old(self).spec_retention()),
            final(self).spec_retention() == old(self).spec_retention(),
            final(self).spec_timeout_ms() == old(self).spec_timeout_ms(),
    {
        let retention = self.retention_seconds;
        let a = trim_map(&mut self.original_posts_by_user, &mut self.posts, &mut self.deleted_posts, true, DELETE_EVENT_KEY, now, retention);
        let b = trim_map(&mut self.secondary_posts_by_user, &mut self.posts, &mut self.deleted_posts, false, DELETE_EVENT_KEY, now, retention);
        trim_map(&mut self.video_posts_by_user, &mut self.posts, &mut self.deleted_posts, false, DELETE_EVENT_KEY, now, retention);
        proof {
            let m0 = old(self).model();
            let m1 = self.model();
            assert(m1.posts =~= m0.posts.remove_keys(
                dropped_ids(m0.original, now, retention).union(dropped_ids(m0.secondary, now, retention)).union(
                    dropped_ids(m0.video, now, retention),
                ),
            ));
            assert(m1.posts.submap_of(m0.posts));
            if all_oldest_first(m0.original) {
                lemma_trimmed_none_expired(m0.original, m1.original, now, retention);
            }
            if all_oldest_first(m0.secondary) {
                lemma_trimmed_none_expired(m0.secondary, m1.secondary, now, retention);
            }
            if all_oldest_first(m0.video) {
                lemma_trimmed_none_expired(m0.video, m1.video, now, retention);
            }
        }
        a.saturating_add(b)
    }

    /// Trims at the current wall time (see `trim_old_posts_at`).
    pub fn trim_old_posts(&mut self) -> (r: usize)
        requires
            old(self).wf(),
        ensures
            final(self).wf(),
            exists|now: i64, ka: Seq<i64>, kb: Seq<i64>|
                {
                    &&& trim_pass(old(self).model(), final(self).model(), now, old(self).spec_retention())
                    &&& ka.no_duplicates() && ka.to_set() == old(self).model().original.dom()
                    &&& kb.no_duplicates() && kb.to_set() == old(self).model().secondary.dom()
                    &&& r == saturated(
                        saturated(dropped_count(old(self).model().original, ka, now, old(self).spec_retention()))
                            + saturated(dropped_count(old(self).model().secondary, kb, now, old(self).spec_retention())),
                    )
                },
            final(self).model().posts.submap_of(old(self).model().posts),
            final(self).model().deleted.subset_of(old(self).model().deleted),
            final(self).spec_retention() == old(self).spec_retention(),
            final(self).spec_timeout_ms() == old(self).spec_timeout_ms(),
    {
        let now = unix_now_secs();
        self.trim_old_posts_at(now)
    }

    /// Sorts every timeline oldest first, keeping its references.
    pub fn sort_all_user_posts(&mut self)
        requires
            old(self).wf(),
        ensures
            final(self).wf(),
            final(self).model().posts == old(self).model().posts,
            final(self).model().deleted == old(self).model().deleted,
            sorted_model(old(self).model(), final(self).model()),
            final(self).spec_retention() == old(self).spec_retention(),
            final(self).spec_timeout_ms() == old(self).spec_timeout_ms(),
    {
        sort_map(&mut self.original_posts_by_user);
        sort_map(&mut self.secondary_posts_by_user);
        sort_map(&mut self.video_posts_by_user);
    }

    /// Removes from the records every id that is tombstoned.
    fn remove_deleted_posts(&mut self)
        requires
            old(self).wf(),
        ensures
            final(self).wf(),
            final(self).model().posts == old(self).model().posts.remove_keys(old(self).model().deleted),
            final(self).model().deleted == old(self).model().deleted,
            final(self).model().original == old(self).model().original,
            final(self).model().secondary == old(self).model().secondary,
            final(self).model().video == old(self).model().video,
            final(self).spec_retention() == old(self).spec_retention(),
            final(self).spec_timeout_ms() == old(self).spec_timeout_ms(),
    {
        let keys = flags_keys(&self.deleted_posts);
        let mut i: usize = 0;
        while i < keys.len()
            invariant
                0 <= i <= keys@.len(),
                keys@.to_set() == old(self).model().deleted,
                self.model().posts == old(self).model().posts.remove_keys(keys@.take(i as int).to_set()),
                self.model().deleted == old(self).model().deleted,
                self.model().original == old(self).model().original,
                self.model().secondary == old(self).model().secondary,
                self.model().video == old(self).model().video,
                self.retention_seconds == old(self).retention_seconds,
                self.request_timeout_ms == old(self).request_timeout_ms,
            decreases keys@.len() - i,
        {
            let id = keys[i];
            records_remove(&mut self.posts, id);
            proof {
                assert(keys@.take(i + 1) == keys@.take(i as int).push(id));
                keys@.take(i as int).lemma_push_to_set_commute(id);
                assert(self.model().posts =~= old(self).model().posts.remove_keys(keys@.take(i + 1).to_set()));
            }
            i = i + 1;
        }
        proof {
            assert(keys@.take(keys@.len() as int) == keys@);
        }
    }

    /// Completes a bulk load at wall time `now`: timelines are sorted oldest
    /// first and trimmed, then every tombstoned id is removed from the
    /// records, which repairs creates replayed after their deletes.
    pub fn finalize_init_at(&mut self, now: i64)
        requires
            old(self).wf(),
        ensures
            final(self).wf(),
            exists|sorted: IndexModel, trimmed: IndexModel|
                {
                    &&& sorted_model(old(self).model(), sorted)
                    &&& trim_pass(sorted, trimmed, now, old(self).spec_retention())
                    &&& final(self).model() == swept(trimmed)
                },
            none_expired(final(self).model().original, now, old(self).spec_retention()),
            none_expired(final(self).model().secondary, now, old(self).spec_retention()),
            none_expired(final(self).model().video, now, old(self).spec_retention()),
            all_oldest_first(final(self).model().original),
            all_oldest_first(final(self).model().secondary),
            all_oldest_first(final(self).model().video),
            final(self).model().posts.submap_of(old(self).model().posts),
            forall|id: i64| #[trigger] final(self).model().deleted.contains(id) ==> !final(self).model().posts.contains_key(id),
            final(self).model().deleted.subset_of(old(self).model().deleted),
            final(self).spec_retention() == old(self).spec_retention(),
            final(self).spec_timeout_ms() == old(self).spec_timeout_ms(),
    {
        self.sort_all_user_posts();
        let ghost sorted = self.model();
        self.trim_old_posts_at(now);
        proof {
            lemma_trimmed_none_expired(sorted.original, self.model().original, now, self.retention_seconds);
            lemma_trimmed_none_expired(sorted.secondary, self.model().secondary, now, self.retention_seconds);
            lemma_trimmed_none_expired(sorted.video, self.model().video, now, self.retention_seconds);
        }
        let ghost trimmed = self.model();
        self.remove_deleted_posts();
        proof {
            assert(self.model().posts.submap_of(old(self).model().posts));
            assert(self.model() == swept(trimmed));
        }
    }

    /// Completes a bulk load at the current wall time (see `finalize_init_at`).
    pub fn finalize_init(&mut self)
        requires
            old(self).wf(),
        ensures
            final(self).wf(),
            exists|now: i64, sorted: IndexModel, trimmed: IndexModel|
                {
                    &&& sorted_model(old(self).model(), sorted)
                    &&& trim_pass(sorted, trimmed, now, old(self).spec_retention())
                    &&& final(self).model() == swept(trimmed)
                    &&& none_expired(final(self).model().original, now, old(self).spec_retention())
                    &&& none_expired(final(self).model().secondary, now, old(self).spec_retention())
                    &&& none_expired(final(self).model().video, now, old(self).spec_retention())
                },
            all_oldest_first(final(self).model().original),
            all_oldest_first(final(self).model().secondary),
            all_oldest_first(final(self).model().video),
            final(self).model().posts.submap_of(old(self).model().posts),
            forall|id: i64| #[trigger] final(self).model().deleted.contains(id) ==> !final(self).model().posts.contains_key(id),
            final(self).model().deleted.subset_of(old(self).model().deleted),
            final(self).spec_retention() == old(self).spec_retention(),
            final(self).spec_timeout_ms() == old(self).spec_timeout_ms(),
    {
        let now = unix_now_secs();
        self.finalize_init_at(now);
    }

    /// Empties the records and the timelines; tombstones stay.
    pub fn clear(&mut self)
        ensures
            final(self).wf(),
            final(self).model().posts.dom().is_empty(),
            final(self).model().original.dom().is_empty(),
            final(self).model().secondary.dom().is_empty(),
            final(self).model().video.dom().is_empty(),
            final(self).model().deleted == old(self).model().deleted,
            final(self).spec_retention() == old(self).spec_retention(),
            final(self).spec_timeout_ms() == old(self).spec_timeout_ms(),
    {
        records_clear(&mut self.posts);
        timelines_clear(&mut self.original_posts_by_user);
        timelines_clear(&mut self.secondary_posts_by_user);
        timelines_clear(&mut self.video_posts_by_user);
    }
    /// Whether the stored record `post` may be returned to `viewer` when the
    /// follow set is `following` (see `accepts`).
    fn accepts_post(&self, post: LightPost, following: &HashSet<i64>, viewer: i64) -> (r: bool)
        ensures
            r == accepts(self.model(), post, following@, viewer),
    {
        if flags_contains(&self.deleted_posts, post.post_id) {
            return false;
        }
        if post.is_retweet && post.source_user_id == Some(viewer) {
            return false;
        }
        if following.is_empty() {
            return true;
        }
        match post.in_reply_to_post_id {
            None => !post.is_reply,
            Some(parent_id) => match records_get(&self.posts, parent_id) {
                None => false,
                Some(parent) => {
                    if !parent.is_retweet && !parent.is_reply {
                        true
                    } else {
                        match post.conversation_id {
                            None => false,
                            Some(convo_id) => {
                                let reply_to_reply_to_original = parent.in_reply_to_post_id
                                    == Some(convo_id);
                                let reply_to_followed_user = match post.in_reply_to_user_id {
                                    Some(uid) => following.contains(&uid),
                                    None => false,
                                };
                                reply_to_reply_to_original && reply_to_followed_user
                            },
                        }
                    }
                },
            },
        }
    }

    /// Reads the timelines of `kind` for each author of `user_ids` in order
    /// (see `collect`), stopping early once `start_time` is more than the
    /// per-query deadline behind.
    pub fn get_posts_from_map(
        &self,
        kind: TimelineKind,
        user_ids: &[i64],
        max_per_user: usize,
        exclude_tweet_ids: &HashSet<i64>,
        following_users: &HashSet<i64>,
        start_time: &Instant,
        request_user_id: i64,
    ) -> (r: Vec<LightPost>)
        requires
            self.wf(),
        ensures
            exists|k: int|
                0 <= k <= user_ids@.len() && (k < user_ids@.len() ==> self.spec_timeout_ms() != 0)
                    && r@ == collect(
                    self.model(),
                    timelines_of(self.model(), kind),
                    user_ids@.take(k),
                    max_per_user as nat,
                    exclude_tweet_ids@,
                    following_users@,
                    request_user_id,
                ),
            forall|i: int|
                0 <= i < r@.len() ==> may_return(
                    self.model(),
                    #[trigger] r@[i],
                    exclude_tweet_ids@,
                    request_user_id,
                ),
    {
        let ghost m = self.model();
        let ghost tls = timelines_of(m, kind);
        let ghost ex = exclude_tweet_ids@;
        let ghost fol = following_users@;
        let mut light_posts: Vec<LightPost> = Vec::new();
        let mut i: usize = 0;
        let mut stopped = false;
        let mut seen: HashSet<i64> = HashSet::new();
        while i < user_ids.len() && !stopped
            invariant
                0 <= i <= user_ids@.len(),
                seen@ == user_ids@.take(i as int).to_set(),
                stopped ==> self.request_timeout_ms != 0,
                m == self.model(),
                tls == timelines_of(m, kind),
                ex == exclude_tweet_ids@,
                fol == following_users@,
                self.wf(),
                light_posts@ == collect(m, tls, user_ids@.take(i as int), max_per_user as nat, ex, fol, request_user_id),
            decreases user_ids@.len() - i, (if stopped { 0int } else { 1int }),
        {
            if self.request_timeout_ms != 0
                && elapsed_millis(start_time) >= self.request_timeout_ms as u128 {
                stopped = true;
            } else {
                let user_id = user_ids[i];
                if !seen.contains(&user_id) {
                    let map = match kind {
                        TimelineKind::Original => &self.original_posts_by_user,
                        TimelineKind::Secondary => &self.secondary_posts_by_user,
                        TimelineKind::Video => &self.video_posts_by_user,
                    };
                    assert(timeline_entries(*map) == tls);
                    let timeline = timelines_get(map, user_id);
                    let ghost base = light_posts@;
                    let ghost tl = timeline_at(tls, user_id);
                    let ghost full = picks(m, tl, MAX_TINY_POSTS_PER_USER_SCAN as nat, max_per_user as nat, ex, fol, request_user_id);
                    match timeline {
                        None => {
                            assert(tl == Seq::<TinyPost>::empty());
                            assert(full == Seq::<LightPost>::empty());
                        },
                        Some(d) => {
                            let mut j: usize = d.len();
                            assert(tl.take(j as int) == tl);
                            let mut scanned: usize = 0;
                            let mut taken: usize = 0;
                            while j > 0 && scanned < MAX_TINY_POSTS_PER_USER_SCAN && taken < max_per_user
                                invariant
                                    d@ == tl,
                                    m == self.model(),
                                    ex == exclude_tweet_ids@,
                                    fol == following_users@,
                                    full == picks(m, tl, MAX_TINY_POSTS_PER_USER_SCAN as nat, max_per_user as nat, ex, fol, request_user_id),
                                    0 <= j <= tl.len(),
                                    scanned <= MAX_TINY_POSTS_PER_USER_SCAN,
                                    taken <= max_per_user,
                                    light_posts@ + picks(m, tl.take(j as int), (MAX_TINY_POSTS_PER_USER_SCAN - scanned) as nat, (max_per_user - taken) as nat, ex, fol, request_user_id)
                                        == base + full,
                                decreases j,
                            {
                                let t = d[j - 1];
                                proof {
                                    assert(tl.take(j as int).drop_last() == tl.take(j - 1));
                                    assert(tl.take(j as int).last() == t);
                                }
                                if !exclude_tweet_ids.contains(&t.post_id) {
                                    scanned = scanned + 1;
                                    let found = records_get(&self.posts, t.post_id);
                                    match found {
                                        Some(post) => {
                                            if self.accepts_post(post, following_users, request_user_id) {
                                                let ghost before = light_posts@;
                                                light_posts.push(post);
                                                taken = taken + 1;
                                                proof {
                                                    let rest = picks(m, tl.take(j - 1), (MAX_TINY_POSTS_PER_USER_SCAN - scanned) as nat, (max_per_user - taken) as nat, ex, fol, request_user_id);
                                                    assert(before + (seq![post] + rest) == light_posts@ + rest);
                                                }
                                            }
                                        },
                                        None => {},
                                    }
                                }
                                j = j - 1;
                            }
                            proof {
                                assert(light_posts@ == base + full);
                            }
                        },
                    }
                } else {
                    proof {
                        assert(user_ids@.take(i as int).to_set().contains(user_id));
                        assert(user_ids@.take(i as int).contains(user_id));
                    }
                }
                seen.insert(user_id);
                proof {
                    assert(user_ids@.take(i + 1) == user_ids@.take(i as int).push(user_id));
                    user_ids@.take(i as int).lemma_push_to_set_commute(user_id);
                }
                proof {
                    assert(user_ids@.take(i + 1).drop_last() == user_ids@.take(i as int));
                    assert(user_ids@.take(i + 1).last() == user_id);
                }
                i = i + 1;
            }
        }
        proof {
            if !stopped {
                assert(user_ids@.take(i as int) == user_ids@.take(user_ids@.len() as int));
            }
            lemma_collect_allowed(m, tls, user_ids@.take(i as int), max_per_user as nat, ex, fol, request_user_id);
        }
        light_posts
    }
    /// Reads the video timelines of `user_ids` (see `get_posts_from_map`),
    /// at most `MAX_VIDEO_POSTS_PER_AUTHOR` posts per author, with no reply policy.
    pub fn get_videos_by_users(
        &self,
        user_ids: &[i64],
        exclude_tweet_ids: &HashSet<i64>,
        start_time: &Instant,
        request_user_id: i64,
    ) -> (r: Vec<LightPost>)
        requires
            self.wf(),
        ensures
            exists|k: int|
                0 <= k <= user_ids@.len() && (k < user_ids@.len() ==> self.spec_timeout_ms() != 0)
                    && r@ == collect(
                    self.model(),
                    self.model().video,
                    user_ids@.take(k),
                    MAX_VIDEO_POSTS_PER_AUTHOR as nat,
                    exclude_tweet_ids@,
                    Set::empty(),
                    request_user_id,
                ),
            forall|i: int|
                0 <= i < r@.len() ==> may_return(
                    self.model(),
                    #[trigger] r@[i],
                    exclude_tweet_ids@,
                    request_user_id,
                ),
    {
        let no_follows: HashSet<i64> = HashSet::new();
        self.get_posts_from_map(
            TimelineKind::Video,
            user_ids,
            MAX_VIDEO_POSTS_PER_AUTHOR,
            exclude_tweet_ids,
            &no_follows,
            start_time,
            request_user_id,
        )
    }

    /// Reads the original timelines of `user_ids`, then their secondary
    /// timelines under the reply policy with `user_ids` as the follow set
    /// (see `get_posts_from_map`), and returns the first read followed by the
    /// second.
    pub fn get_all_posts_by_users(
        &self,
        user_ids: &[i64],
        exclude_tweet_ids: &HashSet<i64>,
        start_time: &Instant,
        request_user_id: i64,
    ) -> (r: Vec<LightPost>)
        requires
            self.wf(),
        ensures
            exists|k1: int, k2: int|
                0 <= k1 <= user_ids@.len() && 0 <= k2 <= user_ids@.len() && ((k1 < user_ids@.len()
                    || k2 < user_ids@.len()) ==> self.spec_timeout_ms() != 0) && r@ == collect(
                    self.model(),
                    self.model().original,
                    user_ids@.take(k1),
                    MAX_ORIGINAL_POSTS_PER_AUTHOR as nat,
                    exclude_tweet_ids@,
                    Set::empty(),
                    request_user_id,
                ) + collect(
                    self.model(),
                    self.model().secondary,
                    user_ids@.take(k2),
                    MAX_REPLY_POSTS_PER_AUTHOR as nat,
                    exclude_tweet_ids@,
                    user_ids@.to_set(),
                    request_user_id,
                ),
            forall|i: int|
                0 <= i < r@.len() ==> may_return(
                    self.model(),
                    #[trigger] r@[i],
                    exclude_tweet_ids@,
                    request_user_id,
                ),
    {
        let mut following_users_set: HashSet<i64> = HashSet::new();
        let mut i: usize = 0;
        while i < user_ids.len()
            invariant
                0 <= i <= user_ids@.len(),
                following_users_set@ == user_ids@.take(i as int).to_set(),
            decreases user_ids@.len() - i,
        {
            following_users_set.insert(user_ids[i]);
            proof {
                assert(user_ids@.take(i + 1) == user_ids@.take(i as int).push(user_ids@[i as int]));
                user_ids@.take(i as int).lemma_push_to_set_commute(user_ids@[i as int]);
            }
            i = i + 1;
        }
        proof {
            assert(user_ids@.take(i as int) == user_ids@);
        }
        let no_follows: HashSet<i64> = HashSet::new();
        let mut all_posts = self.get_posts_from_map(
            TimelineKind::Original,
            user_ids,
            MAX_ORIGINAL_POSTS_PER_AUTHOR,
            exclude_tweet_ids,
            &no_follows,
            start_time,
            request_user_id,
        );
        let mut secondary_posts = self.get_posts_from_map(
            TimelineKind::Secondary,
            user_ids,
            MAX_REPLY_POSTS_PER_AUTHOR,
            exclude_tweet_ids,
            &following_users_set,
            start_time,
            request_user_id,
        );
        let ghost a = all_posts@;
        let ghost b = secondary_posts@;
        all_posts.append(&mut secondary_posts);
        proof {
            assert forall|i: int| 0 <= i < all_posts@.len() implies may_return(
                self.model(),
                #[trigger] all_posts@[i],
                exclude_tweet_ids@,
                request_user_id,
            ) by {
                if i >= a.len() {
                    assert(all_posts@[i] == b[i - a.len()]);
                } else {
                    assert(all_posts@[i] == a[i]);
                }
            }
        }
        all_posts
    }
}

impl Default for PostStore {
    /// An empty store keeping posts for two days, with no per-query deadline.
    fn default() -> (r: PostStore)
        ensures
            r.wf(),
            r.model().posts.dom().is_empty(),
            r.model().original.dom().is_empty(),
            r.model().secondary.dom().is_empty(),
            r.model().video.dom().is_empty(),
            r.model().deleted.is_empty(),
            r.spec_retention() == DEFAULT_RETENTION_SECONDS,
            r.spec_timeout_ms() == 0,
    {
        PostStore::new(DEFAULT_RETENTION_SECONDS, 0)
    }
}

} // verus!
