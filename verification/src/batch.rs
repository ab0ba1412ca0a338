//! The temporal batcher: timestamped records are stable-sorted by capture
//! instant and partitioned into batches wherever the gap between two
//! consecutive records exceeds a threshold.

use vstd::prelude::*;
use crate::media::MediaItem;
use crate::time::{secs_of, Timestamp};

verus! {

/// A maximal run of time-adjacent records: items sorted ascending by
/// capture instant, with the first and last instants cached.
#[derive(Clone, Debug)]
pub struct TemporalBatch {
    pub start_time: Timestamp,
    pub end_time: Timestamp,
    pub items: Vec<MediaItem>,
}

/// The items a batch holds.
pub open spec fn batch_items(b: TemporalBatch) -> Seq<MediaItem> {
    b.items@
}

/// The item sequences of a sequence of batches.
pub open spec fn batch_seqs(bs: Seq<TemporalBatch>) -> Seq<Seq<MediaItem>> {
    bs.map_values(|b: TemporalBatch| batch_items(b))
}

/// Whether a record carries a capture instant.
pub open spec fn has_ts(item: MediaItem) -> bool {
    item.timestamp is Some
}

/// The record's position on the linear seconds scale.
pub open spec fn item_secs(item: MediaItem) -> int
    recommends
        has_ts(item),
{
    secs_of(item.timestamp->0)
}

/// Every record of the sequence carries a capture instant.
pub open spec fn all_timestamped(s: Seq<MediaItem>) -> bool {
    forall|i: int| 0 <= i < s.len() ==> has_ts(#[trigger] s[i])
}

/// The timestamped records of a sequence, in their original order.
pub open spec fn filter_ts(s: Seq<MediaItem>) -> Seq<MediaItem>
    decreases s.len(),
{
    if s.len() == 0 {
        Seq::empty()
    } else if has_ts(s.last()) {
        filter_ts(s.drop_last()).push(s.last())
    } else {
        filter_ts(s.drop_last())
    }
}

/// Ascending by capture instant.
pub open spec fn sorted_by_time(s: Seq<MediaItem>) -> bool {
    forall|i: int, j: int| 0 <= i < j < s.len() ==> item_secs(#[trigger] s[i]) <= item_secs(
        #[trigger] s[j],
    )
}

/// `x` placed after every leading record of `s` whose instant is at or
/// before its own: the insertion step of a stable insertion sort.
pub open spec fn insert_by_time(s: Seq<MediaItem>, x: MediaItem) -> Seq<MediaItem>
    decreases s.len(),
{
    if s.len() == 0 {
        seq![x]
    } else if item_secs(s.first()) <= item_secs(x) {
        seq![s.first()] + insert_by_time(s.drop_first(), x)
    } else {
        seq![x] + s
    }
}

/// Stable sort by capture instant: records with equal instants keep their
/// original relative order.
pub open spec fn sort_by_time(s: Seq<MediaItem>) -> Seq<MediaItem>
    decreases s.len(),
{
    if s.len() == 0 {
        Seq::empty()
    } else {
        insert_by_time(sort_by_time(s.drop_last()), s.last())
    }
}

/// The grouping walk: `done` holds the closed batches, `cur` the open one;
/// a record whose gap to its predecessor exceeds `t` seconds closes the
/// open batch and starts a new one, any other record joins the open batch.
pub open spec fn group_rec(
    rest: Seq<MediaItem>,
    t: u64,
    cur: Seq<MediaItem>,
    done: Seq<Seq<MediaItem>>,
) -> Seq<Seq<MediaItem>>
    recommends
        cur.len() >= 1,
    decreases rest.len(),
{
    if rest.len() == 0 {
        done.push(cur)
    } else if item_secs(rest.first()) > item_secs(cur.last()) + t {
        group_rec(rest.drop_first(), t, seq![rest.first()], done.push(cur))
    } else {
        group_rec(rest.drop_first(), t, cur.push(rest.first()), done)
    }
}

/// The batches of a sorted sequence of timestamped records for gap
/// threshold `t`, in seconds: a gap must strictly exceed `t` to split, so
/// a gap equal to `t` keeps records together.
pub open spec fn batches_of(s: Seq<MediaItem>, t: u64) -> Seq<Seq<MediaItem>> {
    if s.len() == 0 {
        Seq::empty()
    } else {
        group_rec(s.drop_first(), t, seq![s.first()], Seq::empty())
    }
}

/// Within one batch, every consecutive pair of records is at most `t`
/// seconds apart.
pub open spec fn intra_gaps_ok(b: Seq<MediaItem>, t: u64) -> bool {
    forall|i: int| 1 <= i < b.len() ==> item_secs(#[trigger] b[i]) <= item_secs(b[i - 1]) + t
}

/// Every batch is nonempty and internally `t`-close, and consecutive
/// batches are separated by a gap strictly exceeding `t`.
pub open spec fn batches_gap_separated(bs: Seq<Seq<MediaItem>>, t: u64) -> bool {
    &&& forall|k: int| 0 <= k < bs.len() ==> (#[trigger] bs[k]).len() >= 1
    &&& forall|k: int| 0 <= k < bs.len() ==> intra_gaps_ok(#[trigger] bs[k], t)
    &&& forall|k: int|
        0 <= k < bs.len() - 1 ==> item_secs(#[trigger] bs[k + 1].first()) > item_secs(
            bs[k].last(),
        ) + t
}

proof fn lemma_group_rec_flatten(
    rest: Seq<MediaItem>,
    t: u64,
    cur: Seq<MediaItem>,
    done: Seq<Seq<MediaItem>>,
)
    ensures
        group_rec(rest, t, cur, done).flatten() == done.flatten() + cur + rest,
    decreases rest.len(),
{
    broadcast use Seq::lemma_flatten_push;

    if rest.len() == 0 {
        assert(done.flatten() + cur + rest =~= done.flatten() + cur);
    } else if item_secs(rest.first()) > item_secs(cur.last()) + t {
        lemma_group_rec_flatten(rest.drop_first(), t, seq![rest.first()], done.push(cur));
        assert(done.flatten() + cur + seq![rest.first()] + rest.drop_first() =~= done.flatten()
            + cur + rest);
    } else {
        lemma_group_rec_flatten(rest.drop_first(), t, cur.push(rest.first()), done);
        assert(done.flatten() + cur.push(rest.first()) + rest.drop_first() =~= done.flatten() + cur
            + rest);
    }
}

/// Concatenating the batches of a sorted sequence gives back exactly that
/// sequence: batching is a partition that keeps the order.
pub proof fn lemma_batches_flatten(s: Seq<MediaItem>, t: u64)
    ensures
        batches_of(s, t).flatten() == s,
{
    if s.len() == 0 {
        assert(batches_of(s, t).flatten() =~= s);
    } else {
        lemma_group_rec_flatten(s.drop_first(), t, seq![s.first()], Seq::empty());
        assert(Seq::<Seq<MediaItem>>::empty().flatten() =~= Seq::<MediaItem>::empty());
        assert(Seq::<MediaItem>::empty() + seq![s.first()] + s.drop_first() =~= s);
    }
}

proof fn lemma_group_rec_gaps(
    rest: Seq<MediaItem>,
    t: u64,
    cur: Seq<MediaItem>,
    done: Seq<Seq<MediaItem>>,
)
    requires
        cur.len() >= 1,
        intra_gaps_ok(cur, t),
        forall|k: int| 0 <= k < done.len() ==> (#[trigger] done[k]).len() >= 1,
        forall|k: int| 0 <= k < done.len() ==> intra_gaps_ok(#[trigger] done[k], t),
        forall|k: int|
            0 <= k < done.len() - 1 ==> item_secs(#[trigger] done[k + 1].first()) > item_secs(
                done[k].last(),
            ) + t,
        done.len() > 0 ==> item_secs(cur.first()) > item_secs(done.last().last()) + t,
    ensures
        batches_gap_separated(group_rec(rest, t, cur, done), t),
    decreases rest.len(),
{
    if rest.len() == 0 {
        let bs = done.push(cur);
        assert forall|k: int| 0 <= k < bs.len() - 1 implies item_secs(
            #[trigger] bs[k + 1].first(),
        ) > item_secs(bs[k].last()) + t by {
            if k + 1 < done.len() {
                assert(bs[k] == done[k] && bs[k + 1] == done[k + 1]);
            } else {
                assert(bs[k] == done.last() && bs[k + 1] == cur);
            }
        }
    } else if item_secs(rest.first()) > item_secs(cur.last()) + t {
        let done2 = done.push(cur);
        assert forall|k: int| 0 <= k < done2.len() - 1 implies item_secs(
            #[trigger] done2[k + 1].first(),
        ) > item_secs(done2[k].last()) + t by {
            if k + 1 < done.len() {
                assert(done2[k] == done[k] && done2[k + 1] == done[k + 1]);
            } else {
                assert(done2[k] == done.last() && done2[k + 1] == cur);
            }
        }
        lemma_group_rec_gaps(rest.drop_first(), t, seq![rest.first()], done2);
    } else {
        let cur2 = cur.push(rest.first());
        assert(intra_gaps_ok(cur2, t)) by {
            assert forall|i: int| 1 <= i < cur2.len() implies item_secs(#[trigger] cur2[i])
                <= item_secs(cur2[i - 1]) + t by {
                if i < cur.len() {
                    assert(cur2[i] == cur[i] && cur2[i - 1] == cur[i - 1]);
                } else {
                    assert(cur2[i] == rest.first() && cur2[i - 1] == cur.last());
                }
            }
        }
        assert(cur2.first() == cur.first());
        lemma_group_rec_gaps(rest.drop_first(), t, cur2, done);
    }
}

/// The gap invariant of batching: in the batches of a sorted timestamped
/// sequence every batch is nonempty, every consecutive pair inside one
/// batch is at most `t` seconds apart, and consecutive batches are
/// separated by a gap strictly exceeding `t`.
pub proof fn lemma_batch_gap_invariants(s: Seq<MediaItem>, t: u64)
    requires
        all_timestamped(s),
    ensures
        batches_gap_separated(batches_of(s, t), t),
{
    if s.len() > 0 {
        lemma_group_rec_gaps(s.drop_first(), t, seq![s.first()], Seq::empty());
    }
}

/// Filtering keeps a sequence of timestamped records unchanged.
proof fn lemma_filter_ts_all(s: Seq<MediaItem>)
    requires
        all_timestamped(s),
    ensures
        filter_ts(s) == s,
    decreases s.len(),
{
    if s.len() > 0 {
        lemma_filter_ts_all(s.drop_last());
        assert(filter_ts(s) == filter_ts(s.drop_last()).push(s.last()));
        assert(s.drop_last().push(s.last()) =~= s);
    }
}

/// How many leading records of `s` have an instant at or before `x`'s:
/// the position where the stable insertion places `x`.
spec fn first_above(s: Seq<MediaItem>, x: MediaItem) -> int
    decreases s.len(),
{
    if s.len() == 0 {
        0
    } else if item_secs(s.first()) <= item_secs(x) {
        1 + first_above(s.drop_first(), x)
    } else {
        0
    }
}

/// The stable insertion places `x` exactly at position `first_above`.
proof fn lemma_insert_by_time_at(s: Seq<MediaItem>, x: MediaItem)
    ensures
        0 <= first_above(s, x) <= s.len(),
        insert_by_time(s, x) == s.insert(first_above(s, x), x),
        forall|i: int| 0 <= i < first_above(s, x) ==> item_secs(#[trigger] s[i]) <= item_secs(x),
        first_above(s, x) < s.len() ==> item_secs(s[first_above(s, x)]) > item_secs(x),
    decreases s.len(),
{
    let p = first_above(s, x);
    if s.len() == 0 {
        assert(insert_by_time(s, x) =~= s.insert(0, x));
    } else if item_secs(s.first()) <= item_secs(x) {
        lemma_insert_by_time_at(s.drop_first(), x);
        let p1 = first_above(s.drop_first(), x);
        assert(seq![s.first()] + s.drop_first().insert(p1, x) =~= s.insert(p1 + 1, x));
        assert forall|i: int| 0 <= i < p implies item_secs(#[trigger] s[i]) <= item_secs(x) by {
            if i > 0 {
                assert(s[i] == s.drop_first()[i - 1]);
            }
        }
        if p < s.len() {
            assert(s[p] == s.drop_first()[p - 1]);
        }
    } else {
        assert(seq![x] + s =~= s.insert(0, x));
    }
}

#[verifier::rlimit(100)]
proof fn lemma_insert_by_time_sorted(s: Seq<MediaItem>, x: MediaItem)
    requires
        sorted_by_time(s),
    ensures
        sorted_by_time(insert_by_time(s, x)),
        insert_by_time(s, x).len() == s.len() + 1,
        all_timestamped(s) && has_ts(x) ==> all_timestamped(insert_by_time(s, x)),
{
    lemma_insert_by_time_at(s, x);
    let p = first_above(s, x);
    let r = insert_by_time(s, x);
    s.insert_ensures(p, x);
    assert forall|i: int, j: int| 0 <= i < j < r.len() implies item_secs(#[trigger] r[i])
        <= item_secs(#[trigger] r[j]) by {
        if i < p {
            assert(r[i] == s[i]);
        } else if i == p {
            assert(r[i] == x);
        } else {
            assert(r[i] == s[i - 1]);
        }
        if j < p {
            assert(r[j] == s[j]);
        } else if j == p {
            assert(r[j] == x);
        } else {
            assert(r[j] == s[j - 1]);
        }
    }
    assert forall|i: int| 0 <= i < r.len() && all_timestamped(s) && has_ts(x) implies has_ts(
        #[trigger] r[i],
    ) by {
        if i < p {
            assert(r[i] == s[i]);
        } else if i == p {
            assert(r[i] == x);
        } else {
            assert(r[i] == s[i - 1]);
        }
    }
}

/// The stable sort sorts, keeps the length, and keeps every record
/// timestamped when all of them were.
proof fn lemma_sort_by_time_props(s: Seq<MediaItem>)
    ensures
        sorted_by_time(sort_by_time(s)),
        sort_by_time(s).len() == s.len(),
        all_timestamped(s) ==> all_timestamped(sort_by_time(s)),
    decreases s.len(),
{
    if s.len() > 0 {
        lemma_sort_by_time_props(s.drop_last());
        lemma_insert_by_time_sorted(sort_by_time(s.drop_last()), s.last());
        if all_timestamped(s) {
            assert(all_timestamped(s.drop_last()));
            assert(has_ts(s.last()));
        }
    }
}

/// Inserting at the end: when every record of `s` is at or before `x`,
/// the stable insertion appends `x`.
proof fn lemma_insert_at_end(s: Seq<MediaItem>, x: MediaItem)
    requires
        forall|i: int| 0 <= i < s.len() ==> item_secs(#[trigger] s[i]) <= item_secs(x),
    ensures
        insert_by_time(s, x) == s.push(x),
    decreases s.len(),
{
    if s.len() == 0 {
        assert(seq![x] =~= s.push(x));
    } else {
        assert(forall|i: int|
            0 <= i < s.drop_first().len() ==> item_secs(#[trigger] s.drop_first()[i]) <= item_secs(
                x,
            ));
        lemma_insert_at_end(s.drop_first(), x);
        assert(seq![s.first()] + s.drop_first().push(x) =~= s.push(x));
    }
}

/// Sorting an already sorted sequence changes nothing.
proof fn lemma_sort_of_sorted(s: Seq<MediaItem>)
    requires
        sorted_by_time(s),
    ensures
        sort_by_time(s) == s,
    decreases s.len(),
{
    if s.len() > 0 {
        assert(sorted_by_time(s.drop_last()));
        lemma_sort_of_sorted(s.drop_last());
        lemma_insert_at_end(s.drop_last(), s.last());
        assert(s.drop_last().push(s.last()) =~= s);
    }
}

/// Batching is idempotent: running the whole pipeline — drop untimestamped
/// records, stable-sort, group — on the concatenation of the batches of a
/// sorted timestamped sequence, with the same threshold, reproduces exactly
/// the same batches.
pub proof fn lemma_batching_idempotent(s: Seq<MediaItem>, t: u64)
    requires
        all_timestamped(s),
        sorted_by_time(s),
    ensures
        batches_of(sort_by_time(filter_ts(batches_of(s, t).flatten())), t) == batches_of(s, t),
{
    lemma_batches_flatten(s, t);
    lemma_filter_ts_all(s);
    lemma_sort_of_sorted(s);
}

/// A single timestamped record always forms exactly one batch, holding
/// just that record.
pub proof fn lemma_single_item_single_batch(s: Seq<MediaItem>, t: u64)
    requires
        s.len() == 1,
        has_ts(s[0]),
    ensures
        batches_of(sort_by_time(filter_ts(s)), t) == seq![s],
{
    assert(s.drop_last() =~= Seq::<MediaItem>::empty());
    assert(s.last() == s[0]);
    assert(filter_ts(Seq::<MediaItem>::empty()) == Seq::<MediaItem>::empty());
    assert(has_ts(s.last()));
    assert(filter_ts(s) == filter_ts(s.drop_last()).push(s.last()));
    assert(filter_ts(s) =~= seq![s[0]]);
    let f = seq![s[0]];
    assert(f.drop_last() =~= Seq::<MediaItem>::empty());
    assert(sort_by_time(f) == insert_by_time(sort_by_time(Seq::empty()), s[0]));
    assert(sort_by_time(f) =~= f);
    assert(f.drop_first() =~= Seq::<MediaItem>::empty());
    assert(batches_of(f, t) == group_rec(Seq::empty(), t, seq![s[0]], Seq::empty()));
    assert(batches_of(f, t) =~= seq![s]) by {
        assert(f =~= s);
    }
}

fn item_epoch_secs(item: &MediaItem) -> (r: u64)
    requires
        has_ts(*item),
    ensures
        r == item_secs(*item),
{
    match &item.timestamp {
        Some(ts) => ts.epoch_secs(),
        None => vstd::pervasive::unreached(),
    }
}

fn insert_position(v: &Vec<MediaItem>, secs: u64) -> (p: usize)
    requires
        all_timestamped(v@),
    ensures
        p <= v@.len(),
        forall|i: int| 0 <= i < p ==> item_secs(#[trigger] v@[i]) <= secs,
        p < v@.len() ==> item_secs(v@[p as int]) > secs,
{
    let mut p: usize = 0;
    while p < v.len()
        invariant
            p <= v@.len(),
            all_timestamped(v@),
            forall|i: int| 0 <= i < p ==> item_secs(#[trigger] v@[i]) <= secs,
        decreases v@.len() - p,
    {
        let s = item_epoch_secs(&v[p]);
        if s > secs {
            return p;
        }
        p = p + 1;
    }
    p
}

fn sort_timestamped(items: Vec<MediaItem>) -> (sorted_v: Vec<MediaItem>)
    ensures
        sorted_v@ == sort_by_time(filter_ts(items@)),
        all_timestamped(sorted_v@),
        sorted_by_time(sorted_v@),
{
    let ghost orig = items@;
    let mut work = items;
    let mut sorted_v: Vec<MediaItem> = Vec::new();
    let ghost mut k: int = 0;
    proof {
        assert(orig.take(0) =~= Seq::<MediaItem>::empty());
        assert(orig.skip(0) =~= orig);
    }
    while work.len() > 0
        invariant
            0 <= k <= orig.len(),
            work@ == orig.skip(k),
            all_timestamped(sorted_v@),
            sorted_v@ == sort_by_time(filter_ts(orig.take(k))),
        decreases work@.len(),
    {
        let x = work.remove(0);
        proof {
            assert(orig.skip(k)[0] == orig[k]);
            assert(orig.skip(k).remove(0) =~= orig.skip(k + 1));
            assert(orig.take(k + 1).drop_last() =~= orig.take(k));
            assert(orig.take(k + 1).last() == orig[k]);
        }
        let ghost f = filter_ts(orig.take(k));
        if x.timestamp.is_some() {
            let xs = item_epoch_secs(&x);
            let p = insert_position(&sorted_v, xs);
            proof {
                let s = sorted_v@;
                lemma_insert_by_time_at(s, x);
                let q = first_above(s, x);
                if (p as int) < q {
                    assert(item_secs(s[p as int]) <= item_secs(x));
                    assert(false);
                }
                if q < p as int {
                    assert(item_secs(s[q]) <= item_secs(x));
                    assert(false);
                }
                assert(insert_by_time(s, x) == s.insert(p as int, x));
                assert(filter_ts(orig.take(k + 1)) == f.push(x));
                assert(f.push(x).drop_last() =~= f);
                assert(f.push(x).last() == x);
                assert(sort_by_time(f.push(x)) == insert_by_time(sort_by_time(f), x));
                s.insert_ensures(p as int, x);
            }
            sorted_v.insert(p, x);
            proof {
                assert forall|i: int| 0 <= i < sorted_v@.len() implies has_ts(
                    #[trigger] sorted_v@[i],
                ) by {
                    let s = sort_by_time(f);
                    if i < p {
                        assert(sorted_v@[i] == s[i]);
                    } else if i == p {
                        assert(sorted_v@[i] == x);
                    } else {
                        assert(sorted_v@[i] == s[i - 1]);
                    }
                }
            }
        } else {
            proof {
                assert(filter_ts(orig.take(k + 1)) == f);
            }
        }
        proof {
            k = k + 1;
        }
    }
    proof {
        assert(orig.skip(k).len() == 0);
        assert(orig.take(k) =~= orig);
        lemma_sort_by_time_props(filter_ts(orig));
    }
    sorted_v
}

/// All-timestamped and sorted carry over to any contiguous piece.
proof fn lemma_subrange_facts(s: Seq<MediaItem>, j: int, k: int)
    requires
        all_timestamped(s),
        sorted_by_time(s),
        0 <= j <= k <= s.len(),
    ensures
        all_timestamped(s.subrange(j, k)),
        sorted_by_time(s.subrange(j, k)),
{
    let c = s.subrange(j, k);
    assert forall|i: int| 0 <= i < c.len() implies has_ts(#[trigger] c[i]) by {
        assert(c[i] == s[j + i]);
    }
    assert forall|a: int, b: int|
        0 <= a < b < c.len() implies item_secs(#[trigger] c[a]) <= item_secs(#[trigger] c[b]) by {
        assert(c[a] == s[j + a]);
        assert(c[b] == s[j + b]);
    }
}

/// The grouping walk over an already sorted, all-timestamped sequence.
#[verifier::rlimit(100)]
fn group_sorted(sorted_v: Vec<MediaItem>, t: u64) -> (batches: Vec<TemporalBatch>)
    requires
        all_timestamped(sorted_v@),
        sorted_by_time(sorted_v@),
    ensures
        batch_seqs(batches@) == batches_of(sorted_v@, t),
        forall|k: int|
            0 <= k < batches@.len() ==> {
                let b = #[trigger] batches@[k];
                &&& b.items@.len() >= 1
                &&& all_timestamped(b.items@)
                &&& sorted_by_time(b.items@)
                &&& b.items@.first().timestamp == Some(b.start_time)
                &&& b.items@.last().timestamp == Some(b.end_time)
            },
{
    let ghost ssorted = sorted_v@;
    if sorted_v.len() == 0 {
        let empty_out: Vec<TemporalBatch> = Vec::new();
        proof {
            assert(batch_seqs(empty_out@) =~= batches_of(ssorted, t));
        }
        return empty_out;
    }
    let mut rest = sorted_v;
    let first = rest.remove(0);
    proof {
        assert(ssorted.remove(0) =~= ssorted.skip(1));
        assert(first == ssorted[0]);
    }
    let first_secs = item_epoch_secs(&first);
    let first_ts = first.timestamp.unwrap();
    let mut cur: Vec<MediaItem> = Vec::new();
    cur.push(first);
    let mut cur_start: Timestamp = first_ts;
    let mut cur_end: Timestamp = first_ts;
    let mut prev_secs: u64 = first_secs;
    let mut out: Vec<TemporalBatch> = Vec::new();
    let ghost mut j: int = 0;
    let ghost mut kk: int = 1;
    proof {
        assert(cur@ =~= ssorted.subrange(0, 1));
        assert(batch_seqs(out@) =~= Seq::<Seq<MediaItem>>::empty());
    }
    while rest.len() > 0
        invariant
            1 <= kk <= ssorted.len(),
            0 <= j < kk,
            rest@ == ssorted.skip(kk),
            cur@ == ssorted.subrange(j, kk),
            sorted_by_time(ssorted),
            all_timestamped(ssorted),
            cur@.first().timestamp == Some(cur_start),
            cur@.last().timestamp == Some(cur_end),
            prev_secs == item_secs(cur@.last()),
            forall|i: int|
                0 <= i < out@.len() ==> {
                    let b = #[trigger] out@[i];
                    &&& b.items@.len() >= 1
                    &&& all_timestamped(b.items@)
                    &&& sorted_by_time(b.items@)
                    &&& b.items@.first().timestamp == Some(b.start_time)
                    &&& b.items@.last().timestamp == Some(b.end_time)
                },
            group_rec(rest@, t, cur@, batch_seqs(out@)) == batches_of(ssorted, t),
        decreases rest@.len(),
    {
        let x = rest.remove(0);
        let ghost old_rest = ssorted.skip(kk);
        let ghost old_cur = cur@;
        let ghost old_done = batch_seqs(out@);
        proof {
            assert(old_rest[0] == ssorted[kk]);
            assert(x == ssorted[kk]);
            assert(old_rest.remove(0) =~= ssorted.skip(kk + 1));
            assert(old_rest.first() == x);
            assert(old_rest.drop_first() =~= ssorted.skip(kk + 1));
        }
        let xs = item_epoch_secs(&x);
        let split = xs > t && xs - t > prev_secs;
        proof {
            assert(split == (item_secs(x) > item_secs(old_cur.last()) + t));
        }
        let x_ts = x.timestamp.unwrap();
        if split {
            let closed = TemporalBatch { start_time: cur_start, end_time: cur_end, items: cur };
            out.push(closed);
            cur = Vec::new();
            cur.push(x);
            cur_start = x_ts;
            cur_end = x_ts;
            prev_secs = xs;
            proof {
                lemma_subrange_facts(ssorted, j, kk);
                j = kk;
                kk = kk + 1;
                assert(batch_seqs(out@) =~= old_done.push(old_cur));
                assert(cur@ =~= ssorted.subrange(j, kk));
                assert(cur@.first() == ssorted[j]);
                assert(group_rec(old_rest, t, old_cur, old_done) == group_rec(
                    ssorted.skip(kk),
                    t,
                    cur@,
                    old_done.push(old_cur),
                ));
                assert(out@.last().items@ == old_cur);
            }
        } else {
            cur.push(x);
            cur_end = x_ts;
            prev_secs = xs;
            proof {
                kk = kk + 1;
                assert(cur@ =~= ssorted.subrange(j, kk));
                assert(cur@.last() == x);
                assert(cur@.first() == old_cur.first());
                assert(group_rec(old_rest, t, old_cur, old_done) == group_rec(
                    ssorted.skip(kk),
                    t,
                    old_cur.push(x),
                    old_done,
                ));
            }
        }
    }
    proof {
        assert(ssorted.skip(kk).len() == 0);
    }
    let closed = TemporalBatch { start_time: cur_start, end_time: cur_end, items: cur };
    let ghost old_done = batch_seqs(out@);
    let ghost final_cur = closed.items@;
    out.push(closed);
    proof {
        lemma_subrange_facts(ssorted, j, kk);
        assert(batch_seqs(out@) =~= old_done.push(final_cur));
        assert(group_rec(ssorted.skip(kk), t, final_cur, old_done) == old_done.push(final_cur));
    }
    out
}

/// Groups records into batches by temporal proximity: records without a
/// capture instant are dropped, the rest are stable-sorted ascending by
/// instant and split into a new batch exactly where the gap to the
/// preceding record strictly exceeds `gap_threshold_secs` seconds. Each
/// returned batch carries its first and last instant as start and end
/// time.
pub fn group_by_temporal_proximity(items: Vec<MediaItem>, gap_threshold_secs: u64) -> (batches: Vec<
    TemporalBatch,
>)
    ensures
        batch_seqs(batches@) == batches_of(
            sort_by_time(filter_ts(items@)),
            gap_threshold_secs,
        ),
        forall|k: int|
            0 <= k < batches@.len() ==> {
                let b = #[trigger] batches@[k];
                &&& b.items@.len() >= 1
                &&& all_timestamped(b.items@)
                &&& sorted_by_time(b.items@)
                &&& b.items@.first().timestamp == Some(b.start_time)
                &&& b.items@.last().timestamp == Some(b.end_time)
            },
{
    let sorted_v = sort_timestamped(items);
    group_sorted(sorted_v, gap_threshold_secs)
}

/// The single all-records batch used when one label covers every file:
/// temporal batching is disabled and every record, timestamped or not,
/// goes into one batch whose start and end times are the least and
/// greatest capture instants (the fallback instant when no record has
/// one).
pub fn single_batch(items: Vec<MediaItem>, fallback: Timestamp) -> (b: TemporalBatch)
    ensures
        b.items@ == items@,
        (forall|i: int| 0 <= i < items@.len() ==> !has_ts(#[trigger] items@[i])) ==> b.start_time
            == fallback && b.end_time == fallback,
        (exists|i: int| 0 <= i < items@.len() && has_ts(#[trigger] items@[i])) ==> {
            &&& (exists|i: int|
                0 <= i < items@.len() && (#[trigger] items@[i]).timestamp == Some(b.start_time))
            &&& (exists|i: int|
                0 <= i < items@.len() && (#[trigger] items@[i]).timestamp == Some(b.end_time))
            &&& (forall|i: int|
                0 <= i < items@.len() && has_ts(#[trigger] items@[i]) ==> secs_of(b.start_time)
                    <= item_secs(items@[i]) <= secs_of(b.end_time))
        },
{
    let mut start: Timestamp = fallback;
    let mut end: Timestamp = fallback;
    let mut start_secs: u64 = 0;
    let mut end_secs: u64 = 0;
    let mut found = false;
    let mut i: usize = 0;
    while i < items.len()
        invariant
            i <= items@.len(),
            !found ==> start == fallback && end == fallback && (forall|q: int|
                0 <= q < i ==> !has_ts(#[trigger] items@[q])),
            found ==> {
                &&& (exists|q: int|
                    0 <= q < i && (#[trigger] items@[q]).timestamp == Some(start))
                &&& (exists|q: int| 0 <= q < i && (#[trigger] items@[q]).timestamp == Some(end))
                &&& start_secs == secs_of(start)
                &&& end_secs == secs_of(end)
                &&& (forall|q: int|
                    0 <= q < i && has_ts(#[trigger] items@[q]) ==> start_secs <= item_secs(
                        items@[q],
                    ) <= end_secs)
            },
        decreases items@.len() - i,
    {
        let it = &items[i];
        match &it.timestamp {
            Some(ts) => {
                let s = ts.epoch_secs();
                if !found {
                    found = true;
                    start = *ts;
                    end = *ts;
                    start_secs = s;
                    end_secs = s;
                } else {
                    if s < start_secs {
                        start = *ts;
                        start_secs = s;
                    }
                    if s > end_secs {
                        end = *ts;
                        end_secs = s;
                    }
                }
            },
            None => {},
        }
        i = i + 1;
    }
    TemporalBatch { start_time: start, end_time: end, items }
}

/// An input with no timestamped record — empty, or records the resolver
/// could not date — yields no batches at all.
pub proof fn lemma_untimestamped_yield_no_batches(s: Seq<MediaItem>, t: u64)
    requires
        forall|i: int| 0 <= i < s.len() ==> !has_ts(#[trigger] s[i]),
    ensures
        batches_of(sort_by_time(filter_ts(s)), t) == Seq::<Seq<MediaItem>>::empty(),
    decreases s.len(),
{
    if s.len() == 0 {
        assert(filter_ts(s) == Seq::<MediaItem>::empty());
    } else {
        lemma_untimestamped_yield_no_batches(s.drop_last(), t);
        assert(filter_ts(s) == filter_ts(s.drop_last()));
        assert(sort_by_time(filter_ts(s.drop_last())).len() == filter_ts(s.drop_last()).len())
            by {
            lemma_sort_by_time_props(filter_ts(s.drop_last()));
        }
    }
}

} // verus!
