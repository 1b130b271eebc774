//! Choosing the subjects of the next review batch from a summary.
use vstd::prelude::*;
use crate::error::ReviewError;
use crate::wanikani::{SummaryData, TimeBucket};
use rand::seq::SliceRandom;

verus! {

/// A bucket can be reviewed at `now`: its instant has come and it holds ids.
pub open spec fn is_available(b: TimeBucket, now: int) -> bool {
    b.available_at <= now && b.subject_ids@.len() > 0
}

/// `i` is the first bucket of `buckets` that can be reviewed at `now`.
pub open spec fn is_first_available(buckets: Seq<TimeBucket>, now: int, i: int) -> bool {
    &&& 0 <= i < buckets.len()
    &&& is_available(buckets[i], now)
    &&& forall|j: int| 0 <= j < i ==> !is_available(#[trigger] buckets[j], now)
}

/// No bucket of `buckets` can be reviewed at `now`.
pub open spec fn none_available(buckets: Seq<TimeBucket>, now: int) -> bool {
    forall|j: int| 0 <= j < buckets.len() ==> !is_available(#[trigger] buckets[j], now)
}

/// `out` is a sample of at most `max_size` ids of `bucket`: the whole bucket
/// where it fits, else exactly `max_size` of its ids, each taken at most as
/// often as the bucket holds it.
pub open spec fn is_sample(out: Seq<u64>, bucket: Seq<u64>, max_size: nat) -> bool {
    if bucket.len() <= max_size {
        out == bucket
    } else {
        &&& out.len() == max_size
        &&& out.to_multiset().subset_of(bucket.to_multiset())
    }
}

/// What selecting a batch at `now` may give: the error where no bucket can
/// be reviewed, else a sample of the first bucket that can.
pub open spec fn is_batch_outcome(
    buckets: Seq<TimeBucket>,
    now: int,
    max_size: nat,
    r: Result<Vec<u64>, ReviewError>,
) -> bool {
    match r {
        Ok(ids) => exists|i: int|
            is_first_available(buckets, now, i) && is_sample(
                ids@,
                #[trigger] buckets[i].subject_ids@,
                max_size,
            ),
        Err(e) => none_available(buckets, now) && e == ReviewError::NoReviewsAvailable,
    }
}

/// Relies on chrono's `From<SystemTime> for DateTime<Utc>` and
/// DateTime::timestamp_micros: the current instant in microseconds since the
/// Unix epoch, negative for a clock set before it. Nothing is promised of
/// the value.
#[verifier::external_body]
fn now_micros() -> (r: i64) {
    chrono::DateTime::<chrono::Utc>::from(std::time::SystemTime::now()).timestamp_micros()
}

/// Relies on rand::seq::SliceRandom::shuffle with rand::rng(): it permutes
/// the slice in place by swaps, so the ids stay the same as a multiset.
#[verifier::external_body]
fn shuffle_ids(ids: &mut Vec<u64>)
    ensures
        final(ids)@.len() == old(ids)@.len(),
        final(ids)@.to_multiset() == old(ids)@.to_multiset(),
{
    let mut rng = rand::rng();
    ids.as_mut_slice().shuffle(&mut rng);
}

/// Index of the first bucket that can be reviewed at `now`.
pub fn first_available_bucket(buckets: &Vec<TimeBucket>, now: i64) -> (r: Option<usize>)
    ensures
        match r {
            Some(i) => is_first_available(buckets@, now as int, i as int),
            None => none_available(buckets@, now as int),
        },
{
    let mut i: usize = 0;
    while i < buckets.len()
        invariant
            i <= buckets@.len(),
            forall|j: int| 0 <= j < i ==> !is_available(#[trigger] buckets@[j], now as int),
        decreases buckets@.len() - i,
    {
        let b = &buckets[i];
        if b.available_at <= now && b.subject_ids.len() > 0 {
            return Some(i);
        }
        i = i + 1;
    }
    None
}

/// Whether some review bucket can be reviewed at `now`.
pub fn has_available_reviews_at(summary: &SummaryData, now: i64) -> (r: bool)
    ensures
        r == !none_available(summary.reviews@, now as int),
{
    first_available_bucket(&summary.reviews, now).is_some()
}

/// Whether some review bucket can be reviewed at the current instant.
pub fn has_available_reviews(summary: &SummaryData) -> (r: bool)
    ensures
        exists|now: i64| r == !none_available(summary.reviews@, now as int),
{
    let now = now_micros();
    has_available_reviews_at(summary, now)
}

/// At most `max_size` ids of `ids`, drawn at random where there are more.
pub fn sample_ids(ids: Vec<u64>, max_size: usize) -> (r: Vec<u64>)
    ensures
        is_sample(r@, ids@, max_size as nat),
{
    let mut ids = ids;
    if ids.len() > max_size {
        let ghost drawn_from = ids@;
        shuffle_ids(&mut ids);
        let ghost shuffled = ids@;
        ids.truncate(max_size);
        proof {
            let rest = shuffled.subrange(max_size as int, shuffled.len() as int);
            assert(shuffled =~= ids@ + rest);
            vstd::seq_lib::lemma_multiset_commutative(ids@, rest);
            assert(ids@.to_multiset().subset_of(drawn_from.to_multiset()));
        }
    }
    ids
}

/// The batch to review at `now`: a sample of at most `max_size` ids of the
/// first review bucket that can be reviewed, or `NoReviewsAvailable`.
pub fn select_batch_at(summary: &SummaryData, now: i64, max_size: usize) -> (r: Result<
    Vec<u64>,
    ReviewError,
>)
    ensures
        is_batch_outcome(summary.reviews@, now as int, max_size as nat, r),
{
    match first_available_bucket(&summary.reviews, now) {
        None => Err(ReviewError::NoReviewsAvailable),
        Some(i) => {
            let ids = sample_ids(summary.reviews[i].subject_ids.clone(), max_size);
            proof {
                assert(is_sample(ids@, summary.reviews@[i as int].subject_ids@, max_size as nat));
            }
            Ok(ids)
        },
    }
}

/// The batch to review at the current instant.
pub fn select_batch(summary: &SummaryData, max_size: usize) -> (r: Result<Vec<u64>, ReviewError>)
    ensures
        exists|now: i64| is_batch_outcome(summary.reviews@, now as int, max_size as nat, r),
{
    let now = now_micros();
    select_batch_at(summary, now, max_size)
}

/// Where some bucket can be reviewed and the batch may hold at least one id,
/// a batch is produced: it is not empty, holds at most `max_size` ids, and
/// every id in it comes from the first bucket that can be reviewed.
pub proof fn lemma_batch_from_first_available(
    buckets: Seq<TimeBucket>,
    now: int,
    max_size: nat,
    r: Result<Vec<u64>, ReviewError>,
    first: int,
)
    requires
        is_batch_outcome(buckets, now, max_size, r),
        is_first_available(buckets, now, first),
        max_size > 0,
    ensures
        r is Ok,
        0 < r->Ok_0@.len() <= max_size,
        forall|k: int|
            0 <= k < r->Ok_0@.len() ==> buckets[first].subject_ids@.contains(
                #[trigger] r->Ok_0@[k],
            ),
{
    lemma_first_available_unique(buckets, now, first);
    match r {
        Ok(ids) => {
            let bucket = buckets[first].subject_ids@;
            assert(is_sample(ids@, bucket, max_size));
            assert forall|k: int| 0 <= k < ids@.len() implies bucket.contains(
                #[trigger] ids@[k],
            ) by {
                if bucket.len() > max_size {
                    vstd::seq_lib::to_multiset_contains(ids@, ids@[k]);
                    vstd::seq_lib::to_multiset_contains(bucket, ids@[k]);
                    assert(ids@.contains(ids@[k]));
                }
            }
        },
        Err(_) => {
            assert(!is_available(buckets[first], now));
        },
    }
}

/// Where every bucket lies in the future or is empty, selecting a batch
/// fails with `NoReviewsAvailable`.
pub proof fn lemma_no_batch_when_none_available(
    buckets: Seq<TimeBucket>,
    now: int,
    max_size: nat,
    r: Result<Vec<u64>, ReviewError>,
)
    requires
        is_batch_outcome(buckets, now, max_size, r),
        forall|j: int|
            0 <= j < buckets.len() ==> (#[trigger] buckets[j]).available_at > now
                || buckets[j].subject_ids@.len() == 0,
    ensures
        r == Err::<Vec<u64>, ReviewError>(ReviewError::NoReviewsAvailable),
{
    if let Ok(ids) = r {
        let i = choose|i: int|
            is_first_available(buckets, now, i) && is_sample(
                ids@,
                #[trigger] buckets[i].subject_ids@,
                max_size,
            );
        assert(is_available(buckets[i], now));
    }
}

/// Where the first bucket that can be reviewed fits in `max_size`, the batch
/// is exactly that bucket's ids, in their order: sampling changes nothing.
pub proof fn lemma_small_bucket_taken_whole(
    buckets: Seq<TimeBucket>,
    now: int,
    max_size: nat,
    r: Result<Vec<u64>, ReviewError>,
    first: int,
)
    requires
        is_batch_outcome(buckets, now, max_size, r),
        is_first_available(buckets, now, first),
        buckets[first].subject_ids@.len() <= max_size,
    ensures
        r is Ok,
        r->Ok_0@ == buckets[first].subject_ids@,
{
    lemma_first_available_unique(buckets, now, first);
    if r is Err {
        assert(!is_available(buckets[first], now));
    }
}

/// A batch of size zero out of a bucket that can be reviewed is an empty
/// list of ids, not an error.
pub proof fn lemma_zero_size_batch_is_empty(
    buckets: Seq<TimeBucket>,
    now: int,
    r: Result<Vec<u64>, ReviewError>,
    first: int,
)
    requires
        is_batch_outcome(buckets, now, 0, r),
        is_first_available(buckets, now, first),
    ensures
        r is Ok,
        r->Ok_0@.len() == 0,
{
    lemma_first_available_unique(buckets, now, first);
    if r is Err {
        assert(!is_available(buckets[first], now));
    }
}

/// There is one first bucket that can be reviewed.
proof fn lemma_first_available_unique(buckets: Seq<TimeBucket>, now: int, first: int)
    requires
        is_first_available(buckets, now, first),
    ensures
        forall|i: int| #[trigger] is_first_available(buckets, now, i) ==> i == first,
{
    assert forall|i: int| #[trigger] is_first_available(buckets, now, i) implies i == first by {
        if i < first {
            assert(!is_available(buckets[i], now));
        } else if i > first {
            assert(!is_available(buckets[first], now));
        }
    }
}

} // verus!
