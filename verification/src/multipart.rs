//! Concurrent multi-part transfer orchestration.
//!
//! A multipart upload runs its parts in batches: up to `concurrency` parts
//! are in flight at a time, a batch is resolved only when every part in it
//! has succeeded or failed, and the next batch starts only then.  Siblings
//! of a failed part are left to finish, but no part beyond the current
//! batch is started.  The finalize step sees the part results in ascending
//! part-number order no matter in which order the network resolved them.
//!
//! The network calls themselves happen outside the library; a
//! `ConcurrentUploader` decides which parts to start and collects what came
//! back.

use vstd::prelude::*;

use crate::block::ceil_div;
use crate::errors::TransferError;
use crate::metadata::FsFile;

verus! {

/// What a successful part upload returns, consumed only by the finalize
/// step.
#[derive(Debug, Clone)]
pub struct UploadPartResult {
    pub part_number: u32,
    pub etag: String,
}

/// What completing a multipart upload returns.
#[derive(Debug, Clone)]
pub struct MultipartUploadResult {
    pub file: FsFile,
}

/// Part numbers strictly increase along `s`.
pub open spec fn parts_strictly_sorted(s: Seq<UploadPartResult>) -> bool {
    forall|i: int, j: int| 0 <= i < j < s.len() ==> s[i].part_number < s[j].part_number
}

/// How many batches a transfer of `n` parts needs at concurrency `c`, when
/// each batch takes `min(c, parts left)` parts: exactly `ceil(n / c)`.
pub open spec fn batch_rounds(remaining: int, c: int) -> int
    recommends
        c > 0,
    decreases remaining,
    when c > 0
{
    if remaining <= 0 {
        0int
    } else if remaining <= c {
        1int
    } else {
        1 + batch_rounds(remaining - c, c)
    }
}

/// Batch-count law: filling every batch to `concurrency` parts (except a
/// shorter final one) resolves `n` parts in exactly `ceil(n / c)` batches.
pub proof fn lemma_batch_rounds(n: int, c: int)
    requires
        c > 0,
        n >= 0,
    ensures
        batch_rounds(n, c) == if n == 0 {
            0int
        } else {
            ceil_div(n, c)
        },
    decreases n,
{
    if 0 < n <= c {
        if n == c {
            vstd::arithmetic::div_mod::lemma_div_by_self(c);
            vstd::arithmetic::div_mod::lemma_mod_self_0(c);
        } else {
            vstd::arithmetic::div_mod::lemma_basic_div_specific_divisor(c);
            vstd::arithmetic::div_mod::lemma_small_mod(n as nat, c as nat);
        }
    } else if n > c {
        lemma_batch_rounds(n - c, c);
        let q = (n - c) / c;
        let m = (n - c) % c;
        vstd::arithmetic::div_mod::lemma_fundamental_div_mod(n - c, c);
        vstd::arithmetic::div_mod::lemma_mod_bound(n - c, c);
        assert(n == c * (q + 1) + m) by (nonlinear_arith)
            requires
                n - c == c * q + m,
        ;
        vstd::arithmetic::div_mod::lemma_fundamental_div_mod_converse(n, c, q + 1, m);
    }
}

/// Removing one element of a pairwise-distinct sequence keeps the rest
/// distinct, keeps every survivor a member of the original, removes the
/// chosen element entirely, and keeps every other member.
proof fn lemma_distinct_remove(s: Seq<u32>, idx: int)
    requires
        0 <= idx < s.len(),
        forall|i: int, j: int| 0 <= i < j < s.len() ==> s[i] != s[j],
    ensures
        forall|i: int, j: int|
            0 <= i < j < s.remove(idx).len() ==> s.remove(idx)[i] != s.remove(idx)[j],
        forall|k: int| 0 <= k < s.remove(idx).len() ==> s.contains(#[trigger] s.remove(idx)[k]),
        forall|k: int| 0 <= k < s.remove(idx).len() ==> (#[trigger] s.remove(idx)[k]) != s[idx],
        !s.remove(idx).contains(s[idx]),
        forall|p: u32| s.contains(p) && p != s[idx] ==> s.remove(idx).contains(p),
{
    let t = s.remove(idx);
    assert forall|i: int, j: int| 0 <= i < j < t.len() implies t[i] != t[j] by {
        if j < idx {
            assert(s[i] != s[j]);
        } else if i < idx {
            assert(s[i] != s[j + 1]);
        } else {
            assert(s[i + 1] != s[j + 1]);
        }
    }
    assert forall|k: int| 0 <= k < t.len() implies s.contains(#[trigger] t[k]) && t[k]
        != s[idx] by {
        if k < idx {
            assert(t[k] == s[k]);
        } else {
            assert(t[k] == s[k + 1]);
        }
    }
    assert forall|p: u32| s.contains(p) && p != s[idx] implies t.contains(p) by {
        let w = choose|w: int| 0 <= w < s.len() && s[w] == p;
        if w < idx {
            assert(t[w] == p);
        } else {
            assert(t[w - 1] == p);
        }
    }
}

/// Runs the batches of one multipart transfer: hands out the parts of the
/// next batch, takes each part's success or failure, and finalizes with the
/// results in ascending part-number order.
pub struct ConcurrentUploader {
    part_count: u32,
    concurrency: usize,
    next_part: u64,
    inflight: Vec<u32>,
    results: Vec<UploadPartResult>,
    failed: Vec<(u32, TransferError)>,
}

impl ConcurrentUploader {
    pub closed spec fn spec_part_count(self) -> int {
        self.part_count as int
    }

    pub closed spec fn spec_concurrency(self) -> int {
        self.concurrency as int
    }

    /// The lowest part number not yet started.
    pub closed spec fn spec_next_part(self) -> int {
        self.next_part as int
    }

    /// Parts started and not yet resolved, in start order.
    pub closed spec fn spec_inflight(self) -> Seq<u32> {
        self.inflight@
    }

    /// Successful part results collected so far, kept sorted by part number.
    pub closed spec fn spec_results(self) -> Seq<UploadPartResult> {
        self.results@
    }

    /// Failed parts collected so far, with their errors.
    pub closed spec fn spec_failed(self) -> Seq<(u32, TransferError)> {
        self.failed@
    }

    pub closed spec fn wf(self) -> bool {
        &&& self.part_count >= 1
        &&& self.concurrency >= 1
        &&& 1 <= self.next_part <= self.part_count + 1
        &&& parts_strictly_sorted(self.results@)
        &&& forall|i: int|
            0 <= i < self.results@.len() ==> 1 <= (#[trigger] self.results@[i]).part_number
                < self.next_part
        &&& forall|i: int|
            0 <= i < self.inflight@.len() ==> 1 <= (#[trigger] self.inflight@[i])
                < self.next_part
        &&& forall|i: int|
            0 <= i < self.failed@.len() ==> 1 <= (#[trigger] self.failed@[i]).0 < self.next_part
        &&& forall|i: int, j: int|
            0 <= i < j < self.inflight@.len() ==> (#[trigger] self.inflight@[i]) != (
            #[trigger] self.inflight@[j])
        &&& forall|i: int, j: int|
            0 <= i < j < self.failed@.len() ==> (#[trigger] self.failed@[i]).0 != (
            #[trigger] self.failed@[j]).0
        &&& forall|i: int, j: int|
            0 <= i < self.results@.len() && 0 <= j < self.inflight@.len() ==> (
            #[trigger] self.results@[i]).part_number != (#[trigger] self.inflight@[j])
        &&& forall|i: int, j: int|
            0 <= i < self.results@.len() && 0 <= j < self.failed@.len() ==> (
            #[trigger] self.results@[i]).part_number != (#[trigger] self.failed@[j]).0
        &&& forall|i: int, j: int|
            0 <= i < self.failed@.len() && 0 <= j < self.inflight@.len() ==> (
            #[trigger] self.failed@[i]).0 != (#[trigger] self.inflight@[j])
        &&& self.results@.len() + self.failed@.len() + self.inflight@.len() == self.next_part - 1
    }

    /// A batch is fully resolved (or none was started yet).
    pub fn batch_resolved(&self) -> (r: bool)
        ensures
            r == (self.spec_inflight().len() == 0),
    {
        self.inflight.len() == 0
    }

    /// Some part has been reported failed.
    pub fn any_failed(&self) -> (r: bool)
        ensures
            r == (self.spec_failed().len() > 0),
    {
        self.failed.len() > 0
    }

    /// Parts remain that were never started.
    pub fn has_unstarted_parts(&self) -> (r: bool)
        ensures
            r == (self.spec_next_part() <= self.spec_part_count()),
    {
        self.next_part <= self.part_count as u64
    }

    /// A fresh uploader for a plan of `part_count` parts at the given
    /// concurrency.
    pub fn new(part_count: u32, concurrency: usize) -> (r: ConcurrentUploader)
        requires
            part_count >= 1,
            concurrency >= 1,
        ensures
            r.wf(),
            r.spec_part_count() == part_count,
            r.spec_concurrency() == concurrency,
            r.spec_next_part() == 1,
            r.spec_inflight() == Seq::<u32>::empty(),
            r.spec_results() == Seq::<UploadPartResult>::empty(),
            r.spec_failed() == Seq::<(u32, TransferError)>::empty(),
    {
        ConcurrentUploader {
            part_count,
            concurrency,
            next_part: 1,
            inflight: Vec::new(),
            results: Vec::new(),
            failed: Vec::new(),
        }
    }

    /// Start the next batch: the lowest `min(concurrency, parts left)`
    /// unstarted part numbers, in ascending order.  Only callable once the
    /// previous batch has fully resolved and nothing has failed: batches
    /// are strictly sequential, and no part beyond a failed batch starts.
    pub fn start_batch(&mut self) -> (r: Vec<u32>)
        requires
            old(self).wf(),
            old(self).spec_inflight().len() == 0,
            old(self).spec_failed().len() == 0,
            old(self).spec_next_part() <= old(self).spec_part_count(),
        ensures
            final (self).wf(),
            final (self).spec_part_count() == old(self).spec_part_count(),
            final (self).spec_concurrency() == old(self).spec_concurrency(),
            final (self).spec_results() == old(self).spec_results(),
            final (self).spec_failed() == old(self).spec_failed(),
            final (self).spec_inflight() == r@,
            r@.len() == if old(self).spec_part_count() - old(self).spec_next_part() + 1 <= old(
                self,
            ).spec_concurrency() {
                old(self).spec_part_count() - old(self).spec_next_part() + 1
            } else {
                old(self).spec_concurrency()
            },
            forall|i: int| 0 <= i < r@.len() ==> r@[i] == old(self).spec_next_part() + i,
            final (self).spec_next_part() == old(self).spec_next_part() + r@.len(),
    {
        let remaining: u64 = self.part_count as u64 - self.next_part + 1;
        let batch_len: u64 = if remaining <= self.concurrency as u64 {
            remaining
        } else {
            self.concurrency as u64
        };
        let mut batch: Vec<u32> = Vec::new();
        let first: u64 = self.next_part;
        let mut i: u64 = 0;
        while i < batch_len
            invariant
                i <= batch_len,
                first == old(self).next_part,
                first >= 1,
                first + batch_len <= old(self).part_count + 1,
                old(self).part_count <= u32::MAX,
                batch@.len() == i,
                forall|j: int| 0 <= j < i ==> batch@[j] == first + j,
            decreases batch_len - i,
        {
            batch.push((first + i) as u32);
            i = i + 1;
        }
        self.next_part = first + batch_len;
        self.inflight = copy_u32s(&batch);
        batch
    }

    /// Record that one in-flight part finished successfully.  The result is
    /// filed in part-number order, so the finalize step never needs to
    /// sort.
    pub fn record_success(&mut self, res: UploadPartResult) -> (r: ())
        requires
            old(self).wf(),
            old(self).spec_inflight().contains(res.part_number),
        ensures
            final (self).wf(),
            final (self).spec_part_count() == old(self).spec_part_count(),
            final (self).spec_concurrency() == old(self).spec_concurrency(),
            final (self).spec_next_part() == old(self).spec_next_part(),
            final (self).spec_failed() == old(self).spec_failed(),
            final (self).spec_inflight().len() == old(self).spec_inflight().len() - 1,
            forall|k: int|
                0 <= k < final (self).spec_inflight().len() ==> old(self).spec_inflight().contains(
                    #[trigger] final (self).spec_inflight()[k],
                ),
            !final (self).spec_inflight().contains(res.part_number),
            forall|p: u32|
                old(self).spec_inflight().contains(p) && p != res.part_number ==> final (
                self).spec_inflight().contains(p),
            final (self).spec_results().to_multiset() == old(
                self,
            ).spec_results().to_multiset().insert(res),
    {
        let ghost pre = *old(self);
        let idx = self.find_inflight(res.part_number);
        self.inflight.remove(idx);
        proof {
            lemma_distinct_remove(pre.inflight@, idx as int);
        }
        let pos = self.find_insert_pos(res.part_number);
        proof {
            let r0 = pre.results@;
            let front = r0.take(pos as int);
            let back = r0.skip(pos as int);
            assert(r0 =~= front + back);
            assert(r0.insert(pos as int, res) =~= front.push(res) + back);
            vstd::seq_lib::lemma_multiset_commutative(front, back);
            vstd::seq_lib::lemma_multiset_commutative(front.push(res), back);
            front.to_multiset_ensures();
            assert(front.push(res).to_multiset() =~= front.to_multiset().insert(res));
            assert(front.to_multiset().insert(res).add(back.to_multiset())
                =~= front.to_multiset().add(back.to_multiset()).insert(res));
        }
        self.results.insert(pos, res);
        proof {
            let r0 = pre.results@;
            let r1 = self.results@;
            // the new result's number came out of the in-flight list, so it
            // collides with no previous result, no failure, no survivor
            assert forall|j: int| 0 <= j < r0.len() implies (#[trigger] r0[j]).part_number
                != res.part_number by {
                assert(r0[j].part_number != pre.inflight@[idx as int]);
            }
            assert forall|i: int, j: int| 0 <= i < j < r1.len() implies r1[i].part_number
                < r1[j].part_number by {
                if j < pos as int {
                    assert(r0[i].part_number < r0[j].part_number);
                } else if j == pos as int {
                    assert(r0[i].part_number < res.part_number);
                } else if i < pos as int {
                    assert(r1[j] == r0[j - 1]);
                    if i < pos as int {
                        assert(r1[i] == r0[i]);
                    }
                    assert(res.part_number <= r0[j - 1].part_number);
                    assert(r0[j - 1].part_number != res.part_number);
                } else if i == pos as int {
                    assert(r1[j] == r0[j - 1]);
                    assert(res.part_number <= r0[j - 1].part_number);
                    assert(r0[j - 1].part_number != res.part_number);
                } else {
                    assert(r1[i] == r0[i - 1] && r1[j] == r0[j - 1]);
                    assert(r0[i - 1].part_number < r0[j - 1].part_number);
                }
            }
            assert forall|i: int, j: int|
                0 <= i < r1.len() && 0 <= j < self.inflight@.len() implies (
            #[trigger] r1[i]).part_number != (#[trigger] self.inflight@[j]) by {
                let w = choose|w: int|
                    0 <= w < pre.inflight@.len() && pre.inflight@[w] == self.inflight@[j];
                if i < pos as int {
                    assert(r1[i] == r0[i]);
                } else if i > pos as int {
                    assert(r1[i] == r0[i - 1]);
                } else {
                    assert(r1[i] == res);
                    assert(self.inflight@[j] != pre.inflight@[idx as int]);
                }
            }
            assert forall|i: int, j: int|
                0 <= i < r1.len() && 0 <= j < self.failed@.len() implies (
            #[trigger] r1[i]).part_number != (#[trigger] self.failed@[j]).0 by {
                if i < pos as int {
                    assert(r1[i] == r0[i]);
                } else if i > pos as int {
                    assert(r1[i] == r0[i - 1]);
                } else {
                    assert(r1[i] == res);
                    assert(self.failed@[j].0 != pre.inflight@[idx as int]);
                }
            }
            assert forall|i: int| 0 <= i < r1.len() implies 1 <= (#[trigger] r1[i]).part_number
                < self.next_part by {
                if i < pos as int {
                    assert(r1[i] == r0[i]);
                } else if i > pos as int {
                    assert(r1[i] == r0[i - 1]);
                } else {
                    assert(r1[i] == res);
                    assert(1 <= pre.inflight@[idx as int] < self.next_part);
                }
            }
        }
    }

    /// Record that one in-flight part failed.  Its siblings stay in flight
    /// so their network cost is not wasted, but the transfer as a whole
    /// will report failure.
    pub fn record_failure(&mut self, part_number: u32, err: TransferError) -> (r: ())
        requires
            old(self).wf(),
            old(self).spec_inflight().contains(part_number),
        ensures
            final (self).wf(),
            final (self).spec_part_count() == old(self).spec_part_count(),
            final (self).spec_concurrency() == old(self).spec_concurrency(),
            final (self).spec_next_part() == old(self).spec_next_part(),
            final (self).spec_results() == old(self).spec_results(),
            final (self).spec_inflight().len() == old(self).spec_inflight().len() - 1,
            !final (self).spec_inflight().contains(part_number),
            forall|p: u32|
                old(self).spec_inflight().contains(p) && p != part_number ==> final (
                self).spec_inflight().contains(p),
            final (self).spec_failed() == old(self).spec_failed().push((part_number, err)),
    {
        let ghost pre = *old(self);
        let idx = self.find_inflight(part_number);
        self.inflight.remove(idx);
        proof {
            lemma_distinct_remove(pre.inflight@, idx as int);
        }
        self.failed.push((part_number, err));
        proof {
            let f1 = self.failed@;
            assert forall|i: int, j: int| 0 <= i < j < f1.len() implies f1[i].0 != f1[j].0 by {
                if j < f1.len() - 1 {
                    assert(pre.failed@[i].0 != pre.failed@[j].0);
                } else {
                    assert(f1[j].0 == pre.inflight@[idx as int]);
                    assert(pre.failed@[i].0 != pre.inflight@[idx as int]);
                }
            }
            assert forall|i: int, j: int|
                0 <= i < self.results@.len() && 0 <= j < f1.len() implies (
            #[trigger] self.results@[i]).part_number != (#[trigger] f1[j]).0 by {
                if j < f1.len() - 1 {
                    assert(self.results@[i].part_number != pre.failed@[j].0);
                } else {
                    assert(self.results@[i].part_number != pre.inflight@[idx as int]);
                }
            }
            assert forall|i: int, j: int|
                0 <= i < f1.len() && 0 <= j < self.inflight@.len() implies (
            #[trigger] f1[i]).0 != (#[trigger] self.inflight@[j]) by {
                let w = choose|w: int|
                    0 <= w < pre.inflight@.len() && pre.inflight@[w] == self.inflight@[j];
                if i < f1.len() - 1 {
                    assert(pre.failed@[i].0 != pre.inflight@[w]);
                } else {
                    assert(self.inflight@[j] != pre.inflight@[idx as int]);
                }
            }
        }
    }

    /// Index of a part number in the in-flight list.
    fn find_inflight(&self, part_number: u32) -> (r: usize)
        requires
            self.spec_inflight().contains(part_number),
        ensures
            r < self.spec_inflight().len(),
            self.spec_inflight()[r as int] == part_number,
    {
        let mut i: usize = 0;
        while i < self.inflight.len()
            invariant
                i <= self.inflight@.len(),
                self.spec_inflight().contains(part_number),
                forall|j: int| 0 <= j < i ==> self.inflight@[j] != part_number,
            decreases self.inflight@.len() - i,
        {
            if self.inflight[i] == part_number {
                return i;
            }
            i = i + 1;
        }
        proof {
            let w = choose|w: int| 0 <= w < self.inflight@.len() && self.inflight@[w]
                == part_number;
            assert(false);
        }
        vstd::pervasive::unreached()
    }

    /// Position at which a part number keeps the results sorted.
    fn find_insert_pos(&self, part_number: u32) -> (r: usize)
        requires
            parts_strictly_sorted(self.spec_results()),
        ensures
            r <= self.spec_results().len(),
            forall|j: int| 0 <= j < r ==> (#[trigger] self.spec_results()[j]).part_number
                < part_number,
            forall|j: int|
                r <= j < self.spec_results().len() ==> part_number <= (
                #[trigger] self.spec_results()[j]).part_number,
    {
        let mut i: usize = 0;
        while i < self.results.len()
            invariant
                i <= self.results@.len(),
                parts_strictly_sorted(self.results@),
                forall|j: int| 0 <= j < i ==> (#[trigger] self.results@[j]).part_number
                    < part_number,
            decreases self.results@.len() - i,
        {
            if self.results[i].part_number >= part_number {
                return i;
            }
            i = i + 1;
        }
        i
    }

    /// Close the transfer once every started part has resolved and nothing
    /// is left to start.  On full success the results come out sorted by
    /// part number, covering parts 1 through `part_count` exactly; any
    /// failure in any batch fails the whole transfer instead.
    pub fn finish(self) -> (r: Result<Vec<UploadPartResult>, TransferError>)
        requires
            self.wf(),
            self.spec_inflight().len() == 0,
            self.spec_failed().len() > 0 || self.spec_next_part() == self.spec_part_count() + 1,
        ensures
            self.spec_failed().len() == 0 ==> (r matches Ok(out) && {
                &&& out@ == self.spec_results()
                &&& out@.len() == self.spec_part_count()
                &&& parts_strictly_sorted(out@)
                &&& forall|i: int| 0 <= i < out@.len() ==> (#[trigger] out@[i]).part_number == i
                    + 1
            }),
            self.spec_failed().len() > 0 ==> r == Err::<Vec<UploadPartResult>, TransferError>(
                TransferError::PartialBatchFailure,
            ),
    {
        if self.failed.len() > 0 {
            return Err(TransferError::PartialBatchFailure);
        }
        proof {
            lemma_sorted_results_are_consecutive(self.results@, self.part_count as int);
        }
        Ok(self.results)
    }
}

/// Copy a list of part numbers.
fn copy_u32s(v: &Vec<u32>) -> (r: Vec<u32>)
    ensures
        r@ == v@,
{
    let mut r: Vec<u32> = Vec::new();
    let mut i: usize = 0;
    while i < v.len()
        invariant
            i <= v@.len(),
            r@ == v@.take(i as int),
        decreases v@.len() - i,
    {
        r.push(v[i]);
        proof {
            assert(v@.take(i + 1) =~= v@.take(i as int).push(v@[i as int]));
        }
        i = i + 1;
    }
    proof {
        assert(v@.take(v@.len() as int) =~= v@);
    }
    r
}

/// Ordering law of the finalize step: `n` strictly sorted part results
/// with numbers between 1 and `n` are exactly the parts 1 through `n` in
/// order, no matter in which order the network completed them.
pub proof fn lemma_sorted_results_are_consecutive(s: Seq<UploadPartResult>, n: int)
    requires
        s.len() == n,
        parts_strictly_sorted(s),
        forall|i: int| 0 <= i < s.len() ==> 1 <= (#[trigger] s[i]).part_number <= n,
    ensures
        forall|i: int| 0 <= i < s.len() ==> (#[trigger] s[i]).part_number == i + 1,
{
    assert forall|i: int| 0 <= i < s.len() implies (#[trigger] s[i]).part_number == i + 1 by {
        lemma_sorted_lower_bound(s, i);
        lemma_sorted_upper_bound(s, i, n);
    }
}

proof fn lemma_sorted_lower_bound(s: Seq<UploadPartResult>, i: int)
    requires
        parts_strictly_sorted(s),
        0 <= i < s.len(),
        forall|j: int| 0 <= j < s.len() ==> (#[trigger] s[j]).part_number >= 1,
    ensures
        s[i].part_number >= i + 1,
    decreases i,
{
    if i > 0 {
        lemma_sorted_lower_bound(s, i - 1);
    }
}

proof fn lemma_sorted_upper_bound(s: Seq<UploadPartResult>, i: int, n: int)
    requires
        parts_strictly_sorted(s),
        s.len() <= n,
        0 <= i < s.len(),
        forall|j: int| 0 <= j < s.len() ==> (#[trigger] s[j]).part_number <= n,
    ensures
        s[i].part_number <= n - (s.len() - 1 - i),
    decreases s.len() - i,
{
    if i < s.len() - 1 {
        lemma_sorted_upper_bound(s, i + 1, n);
    }
}

} // verus!

