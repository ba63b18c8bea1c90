//! The sharded concurrent map of the `dashmap` crate, seen through the three
//! key/value shapes the index stores in it.
use crate::post::{LightPost, TinyPost};
use dashmap::DashMap;
use std::collections::VecDeque;
use vstd::prelude::*;

verus! {

#[verifier::external_type_specification]
#[verifier::external_body]
#[verifier::reject_recursive_types(K)]
#[verifier::reject_recursive_types(V)]
#[verifier::reject_recursive_types(S)]
pub struct ExDashMap<K, V, S>(DashMap<K, V, S>);

/// What a map of canonical records holds.
pub uninterp spec fn record_entries(m: DashMap<i64, LightPost>) -> Map<i64, LightPost>;

/// What a map of author timelines holds, each deque seen as a sequence.
pub uninterp spec fn timeline_entries(m: DashMap<i64, VecDeque<TinyPost>>) -> Map<
    i64,
    Seq<TinyPost>,
>;

/// What a map of tombstones holds.
pub uninterp spec fn flag_entries(m: DashMap<i64, bool>) -> Map<i64, bool>;

/// Relies on DashMap::new: a new map is empty.
#[verifier::external_body]
pub(crate) fn records_new() -> (r: DashMap<i64, LightPost>)
    ensures
        record_entries(r).dom() == Set::<i64>::empty(),
{
    DashMap::new()
}

/// Relies on DashMap::insert: the key now maps to the value, and the result
/// tells whether the key was present before.
#[verifier::external_body]
pub(crate) fn records_insert(m: &mut DashMap<i64, LightPost>, k: i64, v: LightPost) -> (r: bool)
    ensures
        r == record_entries(*old(m)).contains_key(k),
        record_entries(*final(m)) == record_entries(*old(m)).insert(k, v),
{
    m.insert(k, v).is_some()
}

/// Relies on DashMap::remove: the key is gone, the rest is kept.
#[verifier::external_body]
pub(crate) fn records_remove(m: &mut DashMap<i64, LightPost>, k: i64)
    ensures
        record_entries(*final(m)) == record_entries(*old(m)).remove(k),
{
    m.remove(&k);
}

/// Relies on DashMap::get: a copy of the value under the key, if any.
#[verifier::external_body]
pub(crate) fn records_get(m: &DashMap<i64, LightPost>, k: i64) -> (r: Option<LightPost>)
    ensures
        r == (if record_entries(*m).contains_key(k) {
            Some(record_entries(*m)[k])
        } else {
            None::<LightPost>
        }),
{
    m.get(&k).map(|e| *e.value())
}

/// Relies on DashMap::clear: the map is empty afterwards.
#[verifier::external_body]
pub(crate) fn records_clear(m: &mut DashMap<i64, LightPost>)
    ensures
        record_entries(*final(m)).dom() == Set::<i64>::empty(),
{
    m.clear();
}

/// Relies on DashMap::new: a new map is empty.
#[verifier::external_body]
pub(crate) fn flags_new() -> (r: DashMap<i64, bool>)
    ensures
        flag_entries(r).dom() == Set::<i64>::empty(),
{
    DashMap::new()
}

/// Relies on DashMap::insert: the key now maps to the value.
#[verifier::external_body]
pub(crate) fn flags_insert(m: &mut DashMap<i64, bool>, k: i64, v: bool)
    ensures
        flag_entries(*final(m)) == flag_entries(*old(m)).insert(k, v),
{
    m.insert(k, v);
}

/// Relies on DashMap::remove: the key is gone, the rest is kept.
#[verifier::external_body]
pub(crate) fn flags_remove(m: &mut DashMap<i64, bool>, k: i64)
    ensures
        flag_entries(*final(m)) == flag_entries(*old(m)).remove(k),
{
    m.remove(&k);
}

/// Relies on DashMap::contains_key.
#[verifier::external_body]
pub(crate) fn flags_contains(m: &DashMap<i64, bool>, k: i64) -> (r: bool)
    ensures
        r == flag_entries(*m).contains_key(k),
{
    m.contains_key(&k)
}

/// Relies on DashMap::iter: every key is visited once.
#[verifier::external_body]
pub(crate) fn flags_keys(m: &DashMap<i64, bool>) -> (r: Vec<i64>)
    ensures
        r@.to_set() == flag_entries(*m).dom(),
        r@.no_duplicates(),
{
    m.iter().map(|e| *e.key()).collect()
}

/// Relies on DashMap::new: a new map is empty.
#[verifier::external_body]
pub(crate) fn timelines_new() -> (r: DashMap<i64, VecDeque<TinyPost>>)
    ensures
        timeline_entries(r).dom() == Set::<i64>::empty(),
{
    DashMap::new()
}

/// Relies on DashMap::entry and Entry::or_default: the reference is appended to
/// the key's deque, which starts empty when the key was absent.
#[verifier::external_body]
pub(crate) fn timelines_push(m: &mut DashMap<i64, VecDeque<TinyPost>>, k: i64, t: TinyPost)
    ensures
        timeline_entries(*final(m)) == timeline_entries(*old(m)).insert(
            k,
            (if timeline_entries(*old(m)).contains_key(k) {
                timeline_entries(*old(m))[k]
            } else {
                Seq::<TinyPost>::empty()
            }).push(t),
        ),
{
    m.entry(k).or_default().push_back(t);
}

/// Relies on DashMap::get: a copy of the deque under the key, if any.
#[verifier::external_body]
pub(crate) fn timelines_get(m: &DashMap<i64, VecDeque<TinyPost>>, k: i64) -> (r: Option<
    VecDeque<TinyPost>,
>)
    ensures
        r.is_some() == timeline_entries(*m).contains_key(k),
        r.is_some() ==> r.unwrap()@ == timeline_entries(*m)[k],
{
    m.get(&k).map(|e| e.value().clone())
}

/// Relies on DashMap::remove: the deque under the key is handed out and the
/// key is gone.
#[verifier::external_body]
pub(crate) fn timelines_take(m: &mut DashMap<i64, VecDeque<TinyPost>>, k: i64) -> (r: Option<
    VecDeque<TinyPost>,
>)
    ensures
        r.is_some() == timeline_entries(*old(m)).contains_key(k),
        r.is_some() ==> r.unwrap()@ == timeline_entries(*old(m))[k],
        timeline_entries(*final(m)) == timeline_entries(*old(m)).remove(k),
{
    m.remove(&k).map(|e| e.1)
}

/// Relies on DashMap::insert: the key now maps to the deque.
#[verifier::external_body]
pub(crate) fn timelines_put(m: &mut DashMap<i64, VecDeque<TinyPost>>, k: i64, d: VecDeque<TinyPost>)
    ensures
        timeline_entries(*final(m)) == timeline_entries(*old(m)).insert(k, d@),
{
    m.insert(k, d);
}

/// Relies on DashMap::iter: every key is visited once.
#[verifier::external_body]
pub(crate) fn timelines_keys(m: &DashMap<i64, VecDeque<TinyPost>>) -> (r: Vec<i64>)
    ensures
        r@.to_set() == timeline_entries(*m).dom(),
        r@.no_duplicates(),
{
    m.iter().map(|e| *e.key()).collect()
}

/// Relies on DashMap::clear: the map is empty afterwards.
#[verifier::external_body]
pub(crate) fn timelines_clear(m: &mut DashMap<i64, VecDeque<TinyPost>>)
    ensures
        timeline_entries(*final(m)).dom() == Set::<i64>::empty(),
{
    m.clear();
}

/// Relies on DashMap::len: the number of keys.
#[verifier::external_body]
pub(crate) fn records_len(m: &DashMap<i64, LightPost>) -> (r: usize)
    ensures
        r == record_entries(*m).dom().len(),
{
    m.len()
}

/// Relies on DashMap::len: the number of keys.
#[verifier::external_body]
pub(crate) fn flags_len(m: &DashMap<i64, bool>) -> (r: usize)
    ensures
        r == flag_entries(*m).dom().len(),
{
    m.len()
}

/// Relies on DashMap::len: the number of keys.
#[verifier::external_body]
pub(crate) fn timelines_len(m: &DashMap<i64, VecDeque<TinyPost>>) -> (r: usize)
    ensures
        r == timeline_entries(*m).dom().len(),
{
    m.len()
}

/// Relies on DashMap::get and VecDeque::len: the length of the deque under
/// the key, zero when there is none.
#[verifier::external_body]
pub(crate) fn timelines_len_at(m: &DashMap<i64, VecDeque<TinyPost>>, k: i64) -> (r: usize)
    ensures
        r == (if timeline_entries(*m).contains_key(k) {
            timeline_entries(*m)[k].len()
        } else {
            0
        }),
{
    m.get(&k).map(|e| e.value().len()).unwrap_or(0)
}

} // verus!
