//! The duplicate index: an append-only, partition-scoped store of fingerprint
//! records, with exact nearest-neighbour queries under the Hamming distance.

use vstd::prelude::*;

use crate::distance::hamming;
use crate::distance::hamming_distance;

verus! {

/// One accepted image: its partition, its caller-supplied record id, and its
/// 64-bit perceptual fingerprint.
#[derive(Clone, Copy, PartialEq, Eq, Structural, Debug)]
pub struct Record {
    pub chat_id: i64,
    pub message_id: i32,
    pub phash: u64,
}

/// A partition's display label; each upsert overwrites it, so the latest
/// write wins.
pub struct PartitionLabel {
    pub chat_id: i64,
    pub title: String,
}

/// The record a query found closest to the query fingerprint, and its
/// Hamming distance.
#[derive(Clone, Copy, PartialEq, Eq, Structural, Debug)]
pub struct ClosestMatch {
    pub message_id: i32,
    pub distance: u8,
}

/// Why an index operation was refused.
#[derive(Clone, Copy, PartialEq, Eq, Structural, Debug)]
pub enum IndexError {
    /// The record id is already taken within the partition.
    DuplicateRecord,
    /// The query threshold lies outside 0..=64.
    InvalidThreshold,
}

/// `r` survives a query's filters: it lies in the queried partition, it is
/// not the excluded record, and its distance to the query fingerprint is
/// within the threshold.
pub open spec fn candidate(
    r: Record,
    chat_id: i64,
    phash: u64,
    threshold: nat,
    exclude: Option<i32>,
) -> bool {
    &&& r.chat_id == chat_id
    &&& hamming(r.phash, phash) <= threshold
    &&& (exclude matches Some(e) ==> r.message_id != e)
}

/// Some record of `recs` survives the query's filters.
pub open spec fn has_candidate(
    recs: Seq<Record>,
    chat_id: i64,
    phash: u64,
    threshold: nat,
    exclude: Option<i32>,
) -> bool {
    exists|i: int|
        0 <= i < recs.len() && #[trigger] candidate(recs[i], chat_id, phash, threshold, exclude)
}

/// `m` is the answer the query owes: the id and distance of a surviving
/// record, such that every surviving record lies strictly farther away, or
/// equally far with a record id no smaller.
pub open spec fn is_best_match(
    recs: Seq<Record>,
    chat_id: i64,
    phash: u64,
    threshold: nat,
    exclude: Option<i32>,
    m: ClosestMatch,
) -> bool {
    &&& exists|i: int|
        0 <= i < recs.len() && #[trigger] candidate(recs[i], chat_id, phash, threshold, exclude)
            && recs[i].message_id == m.message_id && hamming(recs[i].phash, phash) == m.distance
    &&& forall|j: int|
        0 <= j < recs.len() && #[trigger] candidate(recs[j], chat_id, phash, threshold, exclude)
            ==> m.distance < hamming(recs[j].phash, phash) || (m.distance == hamming(
            recs[j].phash,
            phash,
        ) && m.message_id <= recs[j].message_id)
}

/// The label state after an upsert of (`chat_id`, `title`): the partition now
/// carries `title`, every other partition's label is unchanged in place, at
/// most one entry was added, and no entry beyond those appears.
pub open spec fn labels_upserted(
    pre: Seq<PartitionLabel>,
    post: Seq<PartitionLabel>,
    chat_id: i64,
    title: Seq<char>,
) -> bool {
    &&& exists|i: int|
        0 <= i < post.len() && (#[trigger] post[i]).chat_id == chat_id && post[i].title@ == title
    &&& pre.len() <= post.len() <= pre.len() + 1
    &&& forall|i: int|
        0 <= i < pre.len() && (#[trigger] pre[i]).chat_id != chat_id ==> post[i] == pre[i]
    &&& forall|i: int|
        0 <= i < post.len() ==> (#[trigger] post[i]).chat_id == chat_id || (i < pre.len() && post[i]
            == pre[i])
}

/// The partition already holds a record under this id.
pub open spec fn record_exists(recs: Seq<Record>, chat_id: i64, message_id: i32) -> bool {
    exists|i: int|
        0 <= i < recs.len() && (#[trigger] recs[i]).chat_id == chat_id && recs[i].message_id
            == message_id
}

/// The partition-scoped fingerprint store. Records are only ever appended;
/// queries scan one partition and never cross partitions.
pub struct DuplicateIndex {
    entries: Vec<Record>,
    titles: Vec<PartitionLabel>,
}

impl DuplicateIndex {
    /// The records accepted so far, in insertion order.
    pub closed spec fn records(&self) -> Seq<Record> {
        self.entries@
    }

    /// The partition labels, one entry per labelled partition.
    pub closed spec fn labels(&self) -> Seq<PartitionLabel> {
        self.titles@
    }

    /// Well-formed: record ids are unique within a partition, and each
    /// partition carries at most one label.
    pub open spec fn wf(&self) -> bool {
        &&& forall|i: int, j: int|
            0 <= i < j < self.records().len() ==> !((#[trigger] self.records()[i]).chat_id == (
            #[trigger] self.records()[j]).chat_id && self.records()[i].message_id
                == self.records()[j].message_id)
        &&& forall|i: int, j: int|
            0 <= i < j < self.labels().len() ==> (#[trigger] self.labels()[i]).chat_id != (
            #[trigger] self.labels()[j]).chat_id
    }

    /// An index with no records and no labels.
    pub fn new() -> (idx: DuplicateIndex)
        ensures
            idx.wf(),
            idx.records().len() == 0,
            idx.labels().len() == 0,
    {
        DuplicateIndex { entries: Vec::new(), titles: Vec::new() }
    }

    /// The number of records accepted so far, over all partitions.
    pub fn record_count(&self) -> (n: usize)
        ensures
            n == self.records().len(),
    {
        self.entries.len()
    }

    /// The partition's current display label, where one was ever written.
    pub fn get_label(&self, chat_id: i64) -> (r: Option<String>)
        ensures
            match r {
                Some(t) => exists|i: int|
                    0 <= i < self.labels().len() && (#[trigger] self.labels()[i]).chat_id == chat_id
                        && self.labels()[i].title@ == t@,
                None => forall|i: int|
                    0 <= i < self.labels().len() ==> (#[trigger] self.labels()[i]).chat_id
                        != chat_id,
            },
    {
        let m = self.titles.len();
        let mut j: usize = 0;
        while j < m
            invariant
                j <= m,
                m == self.titles.len(),
                forall|k: int|
                    0 <= k < j ==> (#[trigger] self.labels()[k]).chat_id != chat_id,
            decreases m - j,
        {
            if self.titles[j].chat_id == chat_id {
                let t = self.titles[j].title.clone();
                proof {
                    assert(self.labels()[j as int].chat_id == chat_id && self.labels()[
                        j as int
                    ].title@ == t@);
                }
                return Some(t);
            }
            j = j + 1;
        }
        None
    }

    /// Returns the prior record of `chat_id` nearest to `phash` among those
    /// at distance at most `threshold` and distinct from `exclude`; ties fall
    /// to the smallest record id. `None` when no record survives the
    /// filters; refused when the threshold exceeds 64.
    pub fn find_closest_match(
        &self,
        chat_id: i64,
        phash: u64,
        threshold: u8,
        exclude: Option<i32>,
    ) -> (r: Result<Option<ClosestMatch>, IndexError>)
        ensures
            threshold > 64 ==> r == Err::<Option<ClosestMatch>, IndexError>(
                IndexError::InvalidThreshold,
            ),
            threshold <= 64 ==> match r {
                Ok(Some(m)) => is_best_match(
                    self.records(),
                    chat_id,
                    phash,
                    threshold as nat,
                    exclude,
                    m,
                ),
                Ok(None) => !has_candidate(self.records(), chat_id, phash, threshold as nat, exclude),
                Err(_) => false,
            },
    {
        if threshold > 64 {
            return Err(IndexError::InvalidThreshold);
        }
        let ghost recs = self.records();
        let n = self.entries.len();
        let mut best: Option<ClosestMatch> = None;
        let mut i: usize = 0;
        while i < n
            invariant
                i <= n,
                n == recs.len(),
                recs == self.records(),
                threshold <= 64,
                match best {
                    Some(m) => is_best_match(
                        recs.take(i as int),
                        chat_id,
                        phash,
                        threshold as nat,
                        exclude,
                        m,
                    ),
                    None => !has_candidate(
                        recs.take(i as int),
                        chat_id,
                        phash,
                        threshold as nat,
                        exclude,
                    ),
                },
            decreases n - i,
        {
            let rec = self.entries[i];
            let excluded = match exclude {
                Some(e) => rec.message_id == e,
                None => false,
            };
            let d = hamming_distance(rec.phash, phash);
            let cand = rec.chat_id == chat_id && !excluded && d <= threshold;
            assert(cand == candidate(rec, chat_id, phash, threshold as nat, exclude));
            if cand {
                let replace = match best {
                    None => true,
                    Some(m) => d < m.distance || (d == m.distance && rec.message_id < m.message_id),
                };
                if replace {
                    best = Some(ClosestMatch { message_id: rec.message_id, distance: d });
                }
            }
            proof {
                assert(recs.take(i + 1) =~= recs.take(i as int).push(recs[i as int]));
                assert(forall|j: int| 0 <= j < i + 1 ==> recs.take(i + 1)[j] == recs[j]);
            }
            i = i + 1;
        }
        proof {
            assert(recs.take(n as int) =~= recs);
        }
        Ok(best)
    }

    /// Records a new image: upserts the partition's label, then appends the
    /// record, as one atomic unit. Refused, with nothing changed, when the
    /// record id is already taken within the partition.
    pub fn save_image(
        &mut self,
        chat_id: i64,
        chat_title: &str,
        message_id: i32,
        phash: u64,
    ) -> (r: Result<(), IndexError>)
        requires
            old(self).wf(),
        ensures
            final(self).wf(),
            r is Ok <==> !record_exists(old(self).records(), chat_id, message_id),
            r is Err ==> r == Err::<(), IndexError>(IndexError::DuplicateRecord)
                && final(self).records() == old(self).records()
                && final(self).labels() == old(self).labels(),
            r is Ok ==> final(self).records() == old(self).records().push(
                Record { chat_id, message_id, phash },
            ),
            r is Ok ==> labels_upserted(old(self).labels(), final(self).labels(), chat_id, chat_title@),
    {
        let n = self.entries.len();
        let mut i: usize = 0;
        while i < n
            invariant
                i <= n,
                n == self.entries.len(),
                *self == *old(self),
                old(self).wf(),
                forall|k: int|
                    0 <= k < i ==> !((#[trigger] self.records()[k]).chat_id == chat_id
                        && self.records()[k].message_id == message_id),
            decreases n - i,
        {
            if self.entries[i].chat_id == chat_id && self.entries[i].message_id == message_id {
                return Err(IndexError::DuplicateRecord);
            }
            i = i + 1;
        }
        let m = self.titles.len();
        let mut j: usize = 0;
        let mut found = false;
        while j < m && !found
            invariant
                j <= m,
                m == self.titles.len(),
                *self == *old(self),
                found ==> j < m && self.labels()[j as int].chat_id == chat_id,
                !found ==> forall|k: int|
                    0 <= k < j ==> (#[trigger] self.labels()[k]).chat_id != chat_id,
            decreases m - j, (if found { 0int } else { 1int }),
        {
            if self.titles[j].chat_id == chat_id {
                found = true;
            } else {
                j = j + 1;
            }
        }
        let new_label = PartitionLabel { chat_id, title: String::from_str(chat_title) };
        let ghost gl = new_label;
        let ghost pre_labels = self.labels();
        let ghost lp: int = if found {
            j as int
        } else {
            pre_labels.len() as int
        };
        if found {
            self.titles[j] = new_label;
        } else {
            self.titles.push(new_label);
        }
        proof {
            if found {
                assert(self.labels() == pre_labels.update(j as int, gl));
                assert(pre_labels[j as int].chat_id == chat_id);
            } else {
                assert(self.labels() == pre_labels.push(gl));
            }
            assert(self.labels()[lp].chat_id == chat_id && self.labels()[lp].title@ == chat_title@);
            assert forall|a: int, b: int|
                0 <= a < b < self.labels().len() implies (self.labels()[a]).chat_id != (
            self.labels()[b]).chat_id by {
                assert((pre_labels[a]).chat_id != (pre_labels[b]).chat_id || b == lp);
            }
        }
        self.entries.push(Record { chat_id, message_id, phash });
        proof {
            assert forall|a: int, b: int|
                0 <= a < b < self.records().len() implies !((self.records()[a]).chat_id == (
            self.records()[b]).chat_id && self.records()[a].message_id == self.records()[
                b
            ].message_id) by {
                if b < old(self).records().len() {
                    assert(!((old(self).records()[a]).chat_id == (old(self).records()[b]).chat_id
                        && old(self).records()[a].message_id == old(self).records()[b].message_id));
                } else {
                    assert(self.records()[b] == Record { chat_id, message_id, phash });
                    assert(!((old(self).records()[a]).chat_id == chat_id && old(self).records()[
                        a
                    ].message_id == message_id));
                }
            }
            assert(0 <= lp < self.labels().len());
            assert(self.labels()[lp].chat_id == chat_id && self.labels()[lp].title@ == chat_title@);
        }
        Ok(())
    }
}

/// Raising the threshold keeps a match owed: where a query answers `m1` under
/// `t1`, a query under any `t2 >= t1` still finds some candidate, so it
/// cannot answer `None`.
pub proof fn lemma_higher_threshold_keeps_candidate(
    recs: Seq<Record>,
    chat_id: i64,
    phash: u64,
    t1: nat,
    t2: nat,
    exclude: Option<i32>,
    m1: ClosestMatch,
)
    requires
        t1 <= t2,
        is_best_match(recs, chat_id, phash, t1, exclude, m1),
    ensures
        has_candidate(recs, chat_id, phash, t2, exclude),
{
    let i = choose|i: int|
        0 <= i < recs.len() && #[trigger] candidate(recs[i], chat_id, phash, t1, exclude)
            && recs[i].message_id == m1.message_id && hamming(recs[i].phash, phash) == m1.distance;
    assert(candidate(recs[i], chat_id, phash, t2, exclude));
}

/// Threshold monotonicity: what a query answers under a higher threshold is
/// never farther away than what it answers under a lower one.
pub proof fn lemma_threshold_monotonic(
    recs: Seq<Record>,
    chat_id: i64,
    phash: u64,
    t1: nat,
    t2: nat,
    exclude: Option<i32>,
    m1: ClosestMatch,
    m2: ClosestMatch,
)
    requires
        t1 <= t2,
        is_best_match(recs, chat_id, phash, t1, exclude, m1),
        is_best_match(recs, chat_id, phash, t2, exclude, m2),
    ensures
        m2.distance <= m1.distance,
{
    let i = choose|i: int|
        0 <= i < recs.len() && #[trigger] candidate(recs[i], chat_id, phash, t1, exclude)
            && recs[i].message_id == m1.message_id && hamming(recs[i].phash, phash) == m1.distance;
    assert(candidate(recs[i], chat_id, phash, t2, exclude));
}

/// Partition isolation: appending a record of another partition changes
/// neither whether a query of this partition finds a candidate nor which
/// match is its best answer.
pub proof fn lemma_partition_isolation(
    recs: Seq<Record>,
    newr: Record,
    chat_id: i64,
    phash: u64,
    threshold: nat,
    exclude: Option<i32>,
    m: ClosestMatch,
)
    requires
        newr.chat_id != chat_id,
    ensures
        has_candidate(recs.push(newr), chat_id, phash, threshold, exclude) == has_candidate(
            recs,
            chat_id,
            phash,
            threshold,
            exclude,
        ),
        is_best_match(recs.push(newr), chat_id, phash, threshold, exclude, m) == is_best_match(
            recs,
            chat_id,
            phash,
            threshold,
            exclude,
            m,
        ),
{
    let s2 = recs.push(newr);
    assert(forall|i: int| 0 <= i < recs.len() ==> s2[i] == recs[i]);
    assert(s2[recs.len() as int] == newr);
    assert(!candidate(newr, chat_id, phash, threshold, exclude));
    if has_candidate(recs, chat_id, phash, threshold, exclude) {
        let i = choose|i: int|
            0 <= i < recs.len() && #[trigger] candidate(recs[i], chat_id, phash, threshold, exclude);
        assert(candidate(s2[i], chat_id, phash, threshold, exclude));
    }
    if has_candidate(s2, chat_id, phash, threshold, exclude) {
        let i = choose|i: int|
            0 <= i < s2.len() && #[trigger] candidate(s2[i], chat_id, phash, threshold, exclude);
        assert(i < recs.len());
        assert(candidate(recs[i], chat_id, phash, threshold, exclude));
    }
    if is_best_match(recs, chat_id, phash, threshold, exclude, m) {
        let i = choose|i: int|
            0 <= i < recs.len() && #[trigger] candidate(recs[i], chat_id, phash, threshold, exclude)
                && recs[i].message_id == m.message_id && hamming(recs[i].phash, phash)
                == m.distance;
        assert(candidate(s2[i], chat_id, phash, threshold, exclude));
        assert(is_best_match(s2, chat_id, phash, threshold, exclude, m));
    }
    if is_best_match(s2, chat_id, phash, threshold, exclude, m) {
        let i = choose|i: int|
            0 <= i < s2.len() && #[trigger] candidate(s2[i], chat_id, phash, threshold, exclude)
                && s2[i].message_id == m.message_id && hamming(s2[i].phash, phash) == m.distance;
        assert(i < recs.len());
        assert(candidate(recs[i], chat_id, phash, threshold, exclude));
        assert(is_best_match(recs, chat_id, phash, threshold, exclude, m));
    }
}

/// The query's answer is reproducible: the smallest-distance, then
/// smallest-id rule admits only one best match, so any two answers to the
/// same query are equal.
pub proof fn lemma_best_match_unique(
    recs: Seq<Record>,
    chat_id: i64,
    phash: u64,
    threshold: nat,
    exclude: Option<i32>,
    m1: ClosestMatch,
    m2: ClosestMatch,
)
    requires
        is_best_match(recs, chat_id, phash, threshold, exclude, m1),
        is_best_match(recs, chat_id, phash, threshold, exclude, m2),
    ensures
        m1 == m2,
{
    let i1 = choose|i: int|
        0 <= i < recs.len() && #[trigger] candidate(recs[i], chat_id, phash, threshold, exclude)
            && recs[i].message_id == m1.message_id && hamming(recs[i].phash, phash) == m1.distance;
    let i2 = choose|i: int|
        0 <= i < recs.len() && #[trigger] candidate(recs[i], chat_id, phash, threshold, exclude)
            && recs[i].message_id == m2.message_id && hamming(recs[i].phash, phash) == m2.distance;
    assert(m1.distance == m2.distance && m1.message_id == m2.message_id);
}

/// Exclusion: the best match of a query that excludes a record is never that
/// record, even where it would be the closest by distance.
pub proof fn lemma_exclusion(
    recs: Seq<Record>,
    chat_id: i64,
    phash: u64,
    threshold: nat,
    exclude: i32,
    m: ClosestMatch,
)
    requires
        is_best_match(recs, chat_id, phash, threshold, Some(exclude), m),
    ensures
        m.message_id != exclude,
{
    let i = choose|i: int|
        0 <= i < recs.len() && #[trigger] candidate(recs[i], chat_id, phash, threshold, Some(exclude))
            && recs[i].message_id == m.message_id && hamming(recs[i].phash, phash) == m.distance;
}

} // verus!
