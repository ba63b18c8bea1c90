//! Dropping timeline references that have aged past the retention window,
//! and keeping timelines oldest first.
use crate::dash::{
    flag_entries, flags_remove, record_entries, records_remove, timeline_entries,
    timelines_keys, timelines_put, timelines_take,
};
use crate::post::{LightPost, TinyPost};
use crate::store::timeline_at;
use dashmap::DashMap;
use std::collections::VecDeque;
use vstd::prelude::*;

verus! {

/// A reference has expired at `now` when it is more than `retention`
/// seconds old.
pub open spec fn is_expired(t: TinyPost, now: i64, retention: u64) -> bool {
    now - t.created_at > retention
}

/// `s` with its leading expired references dropped.
pub open spec fn trim_seq(s: Seq<TinyPost>, now: i64, retention: u64) -> Seq<TinyPost>
    decreases s.len(),
{
    if s.len() > 0 && is_expired(s[0], now, retention) {
        trim_seq(s.skip(1), now, retention)
    } else {
        s
    }
}

/// The references of `s` run oldest first.
pub open spec fn refs_oldest_first(s: Seq<TinyPost>) -> bool {
    forall|i: int, j: int| 0 <= i < j < s.len() ==> s[i].created_at <= s[j].created_at
}

/// A trimmed timeline is a suffix of the untrimmed one.
pub proof fn lemma_trim_is_suffix(s: Seq<TinyPost>, now: i64, retention: u64)
    ensures
        trim_seq(s, now, retention).len() <= s.len(),
        trim_seq(s, now, retention) == s.skip(s.len() - trim_seq(s, now, retention).len()),
    decreases s.len(),
{
    if s.len() > 0 && is_expired(s[0], now, retention) {
        lemma_trim_is_suffix(s.skip(1), now, retention);
        let t = trim_seq(s.skip(1), now, retention);
        assert(s.skip(1).skip(s.skip(1).len() - t.len()) == s.skip(s.len() - t.len()));
    } else {
        assert(s.skip(0) == s);
    }
}

/// Trimming an oldest-first timeline leaves no expired reference in it.
pub proof fn lemma_trim_leaves_no_expired(s: Seq<TinyPost>, now: i64, retention: u64)
    requires
        refs_oldest_first(s),
    ensures
        forall|i: int|
            0 <= i < trim_seq(s, now, retention).len() ==> !is_expired(
                #[trigger] trim_seq(s, now, retention)[i],
                now,
                retention,
            ),
        refs_oldest_first(trim_seq(s, now, retention)),
    decreases s.len(),
{
    if s.len() > 0 && is_expired(s[0], now, retention) {
        let r = s.skip(1);
        assert forall|i: int, j: int| 0 <= i < j < r.len() implies r[i].created_at
            <= r[j].created_at by {
            assert(r[i] == s[i + 1] && r[j] == s[j + 1]);
        }
        lemma_trim_leaves_no_expired(r, now, retention);
    } else if s.len() > 0 {
        assert forall|i: int| 0 <= i < s.len() implies !is_expired(
            #[trigger] s[i],
            now,
            retention,
        ) by {
            if i > 0 {
                assert(s[0].created_at <= s[i].created_at);
            }
        }
    }
}

/// How many references trimming drops from the timelines of `tl` under the
/// keys of `ks`.
pub open spec fn dropped_count(
    tl: Map<i64, Seq<TinyPost>>,
    ks: Seq<i64>,
    now: i64,
    retention: u64,
) -> nat
    decreases ks.len(),
{
    if ks.len() == 0 {
        0
    } else {
        dropped_count(tl, ks.drop_last(), now, retention) + (timeline_at(tl, ks.last()).len()
            - trim_seq(timeline_at(tl, ks.last()), now, retention).len()) as nat
    }
}

/// `n`, or `usize::MAX` when `n` is larger.
pub open spec fn saturated(n: nat) -> nat {
    if n > usize::MAX {
        usize::MAX as nat
    } else {
        n
    }
}

/// Relies on VecDeque::capacity. Nothing is promised of the value.
#[verifier::external_body]
fn deque_capacity(d: &VecDeque<TinyPost>) -> (r: usize) {
    d.capacity()
}

/// Relies on VecDeque::shrink_to: only the allocation changes.
#[verifier::external_body]
fn deque_shrink_to(d: &mut VecDeque<TinyPost>, min_capacity: usize)
    ensures
        final(d)@ == old(d)@,
{
    d.shrink_to(min_capacity);
}

/// Relies on slice::sort_unstable_by_key on the deque's contiguous storage:
/// the references end oldest first, as a permutation of what they were.
#[verifier::external_body]
fn sort_refs(d: &mut VecDeque<TinyPost>)
    ensures
        refs_oldest_first(final(d)@),
        final(d)@.to_multiset() == old(d)@.to_multiset(),
{
    d.make_contiguous().sort_unstable_by_key(|t| t.created_at);
}

/// The ids of the first `n` references of `s`.
pub open spec fn head_ids(s: Seq<TinyPost>, n: int) -> Set<i64> {
    Set::new(|id: i64| exists|j: int| 0 <= j < n && #[trigger] s[j].post_id == id)
}

/// The ids of the references that trimming drops from `s`.
pub open spec fn dropped_ids_of(s: Seq<TinyPost>, now: i64, retention: u64) -> Set<i64> {
    head_ids(s, s.len() - trim_seq(s, now, retention).len())
}

/// The ids of the references that trimming drops from the timelines of `tl`
/// under the keys of `ks`.
pub open spec fn dropped_ids_in(
    tl: Map<i64, Seq<TinyPost>>,
    ks: Set<i64>,
    now: i64,
    retention: u64,
) -> Set<i64> {
    Set::new(
        |id: i64|
            exists|k: i64|
                ks.contains(k) && tl.contains_key(k) && #[trigger] dropped_ids_of(
                    tl[k],
                    now,
                    retention,
                ).contains(id),
    )
}

/// The ids of the references that trimming drops from all timelines of `tl`.
pub open spec fn dropped_ids(tl: Map<i64, Seq<TinyPost>>, now: i64, retention: u64) -> Set<i64> {
    dropped_ids_in(tl, tl.dom(), now, retention)
}

/// The tombstones left once the tombstone timeline under `key` of `tl` is
/// trimmed: those of the dropped references go.
pub open spec fn tombstones_after(
    deleted: Set<i64>,
    tl: Map<i64, Seq<TinyPost>>,
    key: i64,
    now: i64,
    retention: u64,
) -> Set<i64> {
    if tl.contains_key(key) {
        deleted.difference(dropped_ids_of(tl[key], now, retention))
    } else {
        deleted
    }
}

proof fn lemma_head_ids_step(s: Seq<TinyPost>, n: int)
    requires
        0 <= n < s.len(),
    ensures
        head_ids(s, n + 1) == head_ids(s, n).insert(s[n].post_id),
{
    assert forall|id: i64| #[trigger] head_ids(s, n + 1).contains(id) == head_ids(s, n).insert(
        s[n].post_id,
    ).contains(id) by {
        if head_ids(s, n + 1).contains(id) {
            let j = choose|j: int| 0 <= j < n + 1 && #[trigger] s[j].post_id == id;
            if j < n {
                assert(head_ids(s, n).contains(id));
            }
        }
        if head_ids(s, n).contains(id) {
            let j = choose|j: int| 0 <= j < n && #[trigger] s[j].post_id == id;
            assert(s[j].post_id == id);
        }
        if id == s[n].post_id {
            assert(s[n].post_id == id);
        }
    }
    assert(head_ids(s, n + 1) =~= head_ids(s, n).insert(s[n].post_id));
}

/// Drops the leading expired references of `d`, removing each one's record
/// from `posts`, and its tombstone from `deleted` when `tombstones` holds.
/// Returns how many references were dropped.
fn trim_deque(
    d: &mut VecDeque<TinyPost>,
    posts: &mut DashMap<i64, LightPost>,
    deleted: &mut DashMap<i64, bool>,
    tombstones: bool,
    now: i64,
    retention: u64,
) -> (r: usize)
    ensures
        final(d)@ == trim_seq(old(d)@, now, retention),
        r == old(d)@.len() - final(d)@.len(),
        record_entries(*final(posts)) == record_entries(*old(posts)).remove_keys(
            dropped_ids_of(old(d)@, now, retention),
        ),
        flag_entries(*final(deleted)).dom() == if tombstones {
            flag_entries(*old(deleted)).dom().difference(dropped_ids_of(old(d)@, now, retention))
        } else {
            flag_entries(*old(deleted)).dom()
        },
{
    let ghost orig = d@;
    let len0 = d.len();
    let mut n: usize = 0;
    proof {
        lemma_trim_is_suffix(orig, now, retention);
        assert(orig.skip(0) == orig);
        assert(record_entries(*posts) =~= record_entries(*posts).remove_keys(head_ids(orig, 0)));
        assert(flag_entries(*deleted).dom() =~= flag_entries(*deleted).dom().difference(
            head_ids(orig, 0),
        ));
    }
    while d.len() > 0 && now as i128 - d[0].created_at as i128 > retention as i128
        invariant
            n <= orig.len(),
            orig.len() == len0,
            d@ == orig.skip(n as int),
            trim_seq(d@, now, retention) == trim_seq(orig, now, retention),
            record_entries(*posts) == record_entries(*old(posts)).remove_keys(head_ids(orig, n as int)),
            flag_entries(*deleted).dom() == if tombstones {
                flag_entries(*old(deleted)).dom().difference(head_ids(orig, n as int))
            } else {
                flag_entries(*old(deleted)).dom()
            },
        decreases d@.len(),
    {
        let t = d.pop_front().unwrap();
        proof {
            assert(t == orig[n as int]);
            assert(orig.skip(n as int).skip(1) == orig.skip(n + 1));
            lemma_head_ids_step(orig, n as int);
        }
        records_remove(posts, t.post_id);
        if tombstones {
            flags_remove(deleted, t.post_id);
        }
        proof {
            assert(record_entries(*posts) =~= record_entries(*old(posts)).remove_keys(
                head_ids(orig, n + 1),
            ));
            if tombstones {
                assert(flag_entries(*deleted).dom() =~= flag_entries(*old(deleted)).dom().difference(
                    head_ids(orig, n + 1),
                ));
            }
        }
        n = n + 1;
    }
    proof {
        assert(trim_seq(d@, now, retention) == d@);
    }
    let cap = deque_capacity(d);
    let len = d.len();
    if cap as u128 > 2 * (len as u128) {
        deque_shrink_to(d, len + len / 2);
    }
    n
}

/// Trims every timeline of `tl` (see `trim_seq`), dropping timelines left
/// empty. The records of dropped references leave `posts`; when `tombstones`
/// holds, the tombstones of references dropped from the timeline under
/// `tombstone_key` leave `deleted`. Returns how many references were dropped,
/// saturating.
pub(crate) fn trim_map(
    tl: &mut DashMap<i64, VecDeque<TinyPost>>,
    posts: &mut DashMap<i64, LightPost>,
    deleted: &mut DashMap<i64, bool>,
    tombstones: bool,
    tombstone_key: i64,
    now: i64,
    retention: u64,
) -> (r: usize)
    ensures
        exists|ks: Seq<i64>|
            ks.no_duplicates() && ks.to_set() == timeline_entries(*old(tl)).dom() && r == saturated(
                dropped_count(timeline_entries(*old(tl)), ks, now, retention),
            ),
        forall|k: i64| #[trigger]
            timeline_entries(*final(tl)).contains_key(k) <==> timeline_entries(
                *old(tl),
            ).contains_key(k) && trim_seq(timeline_entries(*old(tl))[k], now, retention).len() > 0,
        forall|k: i64| #[trigger]
            timeline_entries(*final(tl)).contains_key(k) ==> timeline_entries(*final(tl))[k]
                == trim_seq(timeline_entries(*old(tl))[k], now, retention),
        record_entries(*final(posts)) == record_entries(*old(posts)).remove_keys(
            dropped_ids(timeline_entries(*old(tl)), now, retention),
        ),
        flag_entries(*final(deleted)).dom() == if tombstones {
            tombstones_after(
                flag_entries(*old(deleted)).dom(),
                timeline_entries(*old(tl)),
                tombstone_key,
                now,
                retention,
            )
        } else {
            flag_entries(*old(deleted)).dom()
        },
{
    let keys = timelines_keys(tl);
    let ghost old_tl = timeline_entries(*tl);
    let mut total: usize = 0;
    let mut i: usize = 0;
    proof {
        assert(record_entries(*posts) =~= record_entries(*posts).remove_keys(
            dropped_ids_in(old_tl, keys@.take(0).to_set(), now, retention),
        ));
    }
    while i < keys.len()
        invariant
            0 <= i <= keys@.len(),
            keys@.no_duplicates(),
            keys@.to_set() == old_tl.dom(),
            old_tl == timeline_entries(*old(tl)),
            forall|k: i64| #[trigger]
                timeline_entries(*tl).contains_key(k) <==> if keys@.take(i as int).contains(k) {
                    old_tl.contains_key(k) && trim_seq(old_tl[k], now, retention).len() > 0
                } else {
                    old_tl.contains_key(k)
                },
            forall|k: i64| #[trigger]
                timeline_entries(*tl).contains_key(k) ==> timeline_entries(*tl)[k] == if keys@.take(
                    i as int,
                ).contains(k) {
                    trim_seq(old_tl[k], now, retention)
                } else {
                    old_tl[k]
                },
            record_entries(*posts) == record_entries(*old(posts)).remove_keys(
                dropped_ids_in(old_tl, keys@.take(i as int).to_set(), now, retention),
            ),
            flag_entries(*deleted).dom() == if tombstones && keys@.take(i as int).contains(
                tombstone_key,
            ) {
                tombstones_after(
                    flag_entries(*old(deleted)).dom(),
                    old_tl,
                    tombstone_key,
                    now,
                    retention,
                )
            } else {
                flag_entries(*old(deleted)).dom()
            },
            total == saturated(dropped_count(old_tl, keys@.take(i as int), now, retention)),
        decreases keys@.len() - i,
    {
        let k = keys[i];
        proof {
            assert(keys@.take(i + 1) == keys@.take(i as int).push(k));
            assert(keys@.take(i + 1).drop_last() == keys@.take(i as int));
            keys@.take(i as int).lemma_push_to_set_commute(k);
            assert(!keys@.take(i as int).contains(k)) by {
                if keys@.take(i as int).contains(k) {
                    let j = choose|j: int| 0 <= j < i && keys@.take(i as int)[j] == k;
                    assert(keys@[j] == keys@[i as int]);
                }
            }
            assert(keys@.to_set().contains(k)) by {
                assert(keys@.contains(k));
            }
        }
        let ghost before = timeline_entries(*tl);
        let ghost posts_before = record_entries(*posts);
        let ghost flags_before = flag_entries(*deleted).dom();
        let taken = timelines_take(tl, k);
        match taken {
            Some(mut d) => {
                proof {
                    assert(d@ == old_tl[k]);
                }
                let n = trim_deque(&mut d, posts, deleted, tombstones && k == tombstone_key, now, retention);
                total = total.saturating_add(n);
                if d.len() > 0 {
                    timelines_put(tl, k, d);
                }
            },
            None => {},
        }
        proof {
            let after = timeline_entries(*tl);
            let p0 = keys@.take(i as int).to_set();
            let p1 = keys@.take(i + 1).to_set();
            assert forall|k2: i64| k2 != k implies (#[trigger] after.contains_key(k2)
                == before.contains_key(k2)) && (after.contains_key(k2) ==> after[k2] == before[k2])
                && (keys@.take(i + 1).contains(k2) == keys@.take(i as int).contains(k2)) by {
                if keys@.take(i + 1).contains(k2) {
                    let j = choose|j: int| 0 <= j < i + 1 && #[trigger] keys@.take(i + 1)[j] == k2;
                    assert(keys@.take(i as int)[j] == k2);
                }
                if keys@.take(i as int).contains(k2) {
                    let j = choose|j: int| 0 <= j < i && #[trigger] keys@.take(i as int)[j] == k2;
                    assert(keys@.take(i + 1)[j] == k2);
                }
            }
            assert(keys@.take(i + 1)[i as int] == k);
            let dk = dropped_ids_of(old_tl[k], now, retention);
            assert(dropped_ids_in(old_tl, p1, now, retention) =~= dropped_ids_in(
                old_tl,
                p0,
                now,
                retention,
            ).union(dk)) by {
                assert forall|id: i64| #[trigger] dropped_ids_in(old_tl, p1, now, retention).contains(id)
                    implies dropped_ids_in(old_tl, p0, now, retention).union(dk).contains(id) by {
                    let k3 = choose|k3: i64|
                        p1.contains(k3) && old_tl.contains_key(k3) && #[trigger] dropped_ids_of(
                            old_tl[k3],
                            now,
                            retention,
                        ).contains(id);
                    if k3 != k {
                        assert(p0.contains(k3));
                    }
                }
                assert forall|id: i64| #[trigger] dropped_ids_in(old_tl, p0, now, retention).union(dk).contains(id)
                    implies dropped_ids_in(old_tl, p1, now, retention).contains(id) by {
                    if dk.contains(id) {
                        assert(p1.contains(k));
                    } else {
                        let k3 = choose|k3: i64|
                            p0.contains(k3) && old_tl.contains_key(k3) && #[trigger] dropped_ids_of(
                                old_tl[k3],
                                now,
                                retention,
                            ).contains(id);
                        assert(p1.contains(k3));
                    }
                }
            }
            assert(record_entries(*posts) =~= record_entries(*old(posts)).remove_keys(
                dropped_ids_in(old_tl, p1, now, retention),
            ));
            if tombstones && k == tombstone_key {
                assert(flag_entries(*deleted).dom() =~= tombstones_after(
                    flag_entries(*old(deleted)).dom(),
                    old_tl,
                    tombstone_key,
                    now,
                    retention,
                ));
            }
        }
        i = i + 1;
    }
    proof {
        assert(keys@.take(keys@.len() as int) == keys@);
        assert forall|k: i64| old_tl.contains_key(k) implies #[trigger] keys@.contains(k) by {
            assert(keys@.to_set().contains(k));
        }
        if tombstones && !keys@.contains(tombstone_key) {
            assert(!old_tl.contains_key(tombstone_key)) by {
                if old_tl.contains_key(tombstone_key) {
                    assert(keys@.to_set().contains(tombstone_key));
                }
            }
        }
    }
    total
}

/// Sorts every timeline of `tl` oldest first, keeping its references.
pub(crate) fn sort_map(tl: &mut DashMap<i64, VecDeque<TinyPost>>)
    ensures
        timeline_entries(*final(tl)).dom() == timeline_entries(*old(tl)).dom(),
        forall|k: i64| #[trigger]
            timeline_entries(*final(tl)).contains_key(k) ==> refs_oldest_first(
                timeline_entries(*final(tl))[k],
            ) && timeline_entries(*final(tl))[k].to_multiset() == timeline_entries(
                *old(tl),
            )[k].to_multiset(),
{
    let keys = timelines_keys(tl);
    let ghost old_tl = timeline_entries(*tl);
    let mut i: usize = 0;
    while i < keys.len()
        invariant
            0 <= i <= keys@.len(),
            keys@.no_duplicates(),
            keys@.to_set() == old_tl.dom(),
            old_tl == timeline_entries(*old(tl)),
            timeline_entries(*tl).dom() == old_tl.dom(),
            forall|k: i64| #[trigger]
                timeline_entries(*tl).contains_key(k) ==> timeline_entries(*tl)[k].to_multiset()
                    == old_tl[k].to_multiset() && (keys@.take(i as int).contains(k)
                    ==> refs_oldest_first(timeline_entries(*tl)[k])),
        decreases keys@.len() - i,
    {
        let k = keys[i];
        proof {
            assert(keys@.take(i + 1) == keys@.take(i as int).push(k));
            assert(keys@.to_set().contains(k)) by {
                assert(keys@.contains(k));
            }
        }
        let taken = timelines_take(tl, k);
        match taken {
            Some(mut d) => {
                sort_refs(&mut d);
                timelines_put(tl, k, d);
                proof {
                    assert(timeline_entries(*tl).dom() =~= old_tl.dom());
                }
            },
            None => {},
        }
        i = i + 1;
    }
    proof {
        assert(keys@.take(keys@.len() as int) == keys@);
        assert forall|k: i64| old_tl.contains_key(k) implies #[trigger] keys@.contains(k) by {
            assert(keys@.to_set().contains(k));
        }
    }
}

} // verus!
