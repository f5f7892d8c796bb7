use vstd::prelude::*;

use crate::batch::{lemma_cu_monotone, Batch};

verus! {

/// Operator reducing the per-token rows of one sequence to a single vector.
///
/// `Splade` exists in configurations but is rejected at load time for this
/// model family.
#[derive(Clone, Copy, Debug, PartialEq, Eq, Structural)]
pub enum Pool {
    /// The row of the sequence's first token.
    Cls,
    /// The arithmetic mean of the sequence's rows, divisor the true length.
    Mean,
    Splade,
}

/// Row selection for the members of a batch that want a pooled vector,
/// in ascending member order.
pub enum PooledPlan {
    /// One row index per pooled member: its first token's packed row.
    Cls(Vec<u32>),
    /// One `(start, len)` run of packed rows per pooled member; the pooled
    /// vector is the mean of those `len` rows, divided by `len` itself —
    /// the member's true length, never the batch maximum.
    Mean(Vec<(u32, u32)>),
}

/// How the per-token output is carved out of the packed `outputs` tensor.
pub enum RawPlan {
    /// Every packed row is handed back unchanged; used exactly when the
    /// gather below would be the identity, so no copy is needed.
    FullOutput,
    /// Gather of these packed row indices.
    Gather(Vec<u32>),
}

/// The packed rows belonging to member `i`: `[cu[i], cu[i+1])`.
pub open spec fn member_rows(b: Batch, i: int) -> Seq<int> {
    Seq::new(b.member_len(i) as nat, |t: int| b.cu(i) + t)
}

/// The packed rows of the first `j` raw members, member after member.
pub open spec fn raw_rows_upto(b: Batch, j: int) -> Seq<int>
    decreases j,
{
    if j <= 0 {
        Seq::empty()
    } else {
        raw_rows_upto(b, j - 1) + member_rows(b, b.raw_indices@[j - 1] as int)
    }
}

/// All packed rows that go back as per-token output, in ascending member
/// order.
pub open spec fn raw_row_indices(b: Batch) -> Seq<int> {
    raw_rows_upto(b, b.raw_indices@.len() as int)
}

/// Row index of the pooled (first) token of the `j`-th pooled member.
pub open spec fn cls_row_of(b: Batch, j: int) -> int {
    b.cu(b.pooled_indices@[j] as int)
}

/// `v` is the CLS gather: one packed row index per pooled member, the
/// member's first token.
pub open spec fn cls_plan_ok(b: Batch, v: Seq<u32>) -> bool {
    &&& v.len() == b.pooled_indices@.len()
    &&& forall|j: int| 0 <= j < v.len() ==> #[trigger] v[j] as int == cls_row_of(b, j)
    &&& forall|j: int| 0 <= j < v.len() ==> #[trigger] v[j] < b.total_tokens()
}

/// `v` is the mean plan: one `(start, len)` row run per pooled member,
/// `start` the member's first packed row and `len` its true token count —
/// the mean's divisor.
pub open spec fn mean_plan_ok(b: Batch, v: Seq<(u32, u32)>) -> bool {
    &&& v.len() == b.pooled_indices@.len()
    &&& forall|j: int|
        0 <= j < v.len() ==> (#[trigger] v[j]).0 as int == b.cu(b.pooled_indices@[j] as int)
    &&& forall|j: int|
        0 <= j < v.len() ==> (#[trigger] v[j]).1 as int == b.member_len(
            b.pooled_indices@[j] as int,
        )
    &&& forall|j: int| 0 <= j < v.len() ==> (#[trigger] v[j]).0 + v[j].1 <= b.total_tokens()
}

/// The raw plan selects exactly the raw members' packed rows, in order;
/// `FullOutput` stands for the identity selection of every row.
pub open spec fn raw_plan_ok(b: Batch, p: RawPlan) -> bool {
    match p {
        RawPlan::FullOutput => raw_row_indices(b) == Seq::new(b.total_tokens() as nat, |t: int| t),
        RawPlan::Gather(v) => {
            &&& v@.len() == raw_row_indices(b).len()
            &&& forall|q: int|
                0 <= q < v@.len() ==> #[trigger] v@[q] as int == raw_row_indices(b)[q]
            &&& forall|q: int| 0 <= q < v@.len() ==> #[trigger] v@[q] < b.total_tokens()
        },
    }
}

impl Batch {
    /// Row indices of the first token of every pooled member; gathering
    /// them out of the packed outputs is CLS pooling.
    pub fn cls_pool_indices(&self) -> (r: Vec<u32>)
        requires
            self.well_formed(),
        ensures
            cls_plan_ok(*self, r@),
    {
        let mut r: Vec<u32> = Vec::new();
        let n = self.pooled_indices.len();
        for j in 0..n
            invariant
                self.well_formed(),
                n == self.pooled_indices@.len(),
                r@.len() == j,
                forall|t: int| 0 <= t < j ==> #[trigger] r@[t] as int == cls_row_of(*self, t),
                forall|t: int| 0 <= t < j ==> #[trigger] r@[t] < self.total_tokens(),
        {
            let i = self.pooled_indices[j];
            proof {
                assert(self.pooled_indices@[j as int] < self.spec_len());
                assert(self.member_len(i as int) >= 1);
                lemma_cu_monotone(*self, i as int + 1, self.spec_len());
            }
            r.push(self.cumulative_seq_lengths[i as usize]);
        }
        r
    }

    /// `(start, len)` of the packed row run of every pooled member; mean
    /// pooling averages those rows and divides by `len`, the member's true
    /// token count.
    pub fn mean_pool_ranges(&self) -> (r: Vec<(u32, u32)>)
        requires
            self.well_formed(),
        ensures
            mean_plan_ok(*self, r@),
    {
        let mut r: Vec<(u32, u32)> = Vec::new();
        let n = self.pooled_indices.len();
        for j in 0..n
            invariant
                self.well_formed(),
                n == self.pooled_indices@.len(),
                r@.len() == j,
                forall|t: int|
                    0 <= t < j ==> (#[trigger] r@[t]).0 as int == self.cu(
                        self.pooled_indices@[t] as int,
                    ),
                forall|t: int|
                    0 <= t < j ==> (#[trigger] r@[t]).1 as int == self.member_len(
                        self.pooled_indices@[t] as int,
                    ),
                forall|t: int|
                    0 <= t < j ==> (#[trigger] r@[t]).0 + r@[t].1 <= self.total_tokens(),
        {
            let i = self.pooled_indices[j];
            proof {
                assert(self.pooled_indices@[j as int] < self.spec_len());
                assert(self.member_len(i as int) >= 1);
                lemma_cu_monotone(*self, i as int + 1, self.spec_len());
            }
            let start = self.cumulative_seq_lengths[i as usize];
            let end = self.cumulative_seq_lengths[(i as usize) + 1];
            r.push((start, end - start));
        }
        r
    }

    /// How the per-token output is produced, mirroring the dispatch path:
    /// `None` when no member asked for raw rows; the whole packed output
    /// when the gather would be the identity (a single member, or no
    /// pooled member — then every member is raw); otherwise a gather of
    /// the raw members' rows in ascending member order.
    pub fn raw_output_plan(&self) -> (r: Option<RawPlan>)
        requires
            self.well_formed(),
        ensures
            r is None <==> self.raw_indices@.len() == 0,
            match r {
                None => self.raw_indices@.len() == 0,
                Some(p) => raw_plan_ok(*self, p),
            },
    {
        if self.raw_indices.len() == 0 {
            return None;
        }
        let batch_size = self.len();
        if batch_size > 1 && self.pooled_indices.len() > 0 {
            let mut v: Vec<u32> = Vec::new();
            let n = self.raw_indices.len();
            for j in 0..n
                invariant
                    self.well_formed(),
                    n == self.raw_indices@.len(),
                    v@.len() == raw_rows_upto(*self, j as int).len(),
                    forall|q: int|
                        0 <= q < v@.len() ==> #[trigger] v@[q] as int == raw_rows_upto(
                            *self,
                            j as int,
                        )[q],
                    forall|q: int| 0 <= q < v@.len() ==> #[trigger] v@[q] < self.total_tokens(),
            {
                let i = self.raw_indices[j];
                proof {
                    assert(self.raw_indices@[j as int] < self.spec_len());
                    assert(self.member_len(i as int) >= 1);
                    lemma_cu_monotone(*self, i as int + 1, self.spec_len());
                }
                let start = self.cumulative_seq_lengths[i as usize];
                let end = self.cumulative_seq_lengths[(i as usize) + 1];
                let ghost rows_before = raw_rows_upto(*self, j as int);
                let mut t = start;
                while t < end
                    invariant
                        self.well_formed(),
                        n == self.raw_indices@.len(),
                        0 <= j < n,
                        i == self.raw_indices@[j as int],
                        i < self.spec_len(),
                        start as int == self.cu(i as int),
                        end as int == self.cu(i as int + 1),
                        end <= self.total_tokens(),
                        start <= t <= end,
                        v@.len() == rows_before.len() + (t - start),
                        forall|q: int|
                            0 <= q < rows_before.len() ==> #[trigger] v@[q] as int
                                == rows_before[q],
                        forall|q: int|
                            rows_before.len() <= q < v@.len() ==> #[trigger] v@[q] as int == start
                                + (q - rows_before.len()),
                        forall|q: int|
                            0 <= q < v@.len() ==> #[trigger] v@[q] < self.total_tokens(),
                    decreases end - t,
                {
                    v.push(t);
                    t = t + 1;
                }
                proof {
                    assert(raw_rows_upto(*self, j + 1) =~= rows_before + member_rows(
                        *self,
                        i as int,
                    ));
                    assert forall|q: int| 0 <= q < v@.len() implies #[trigger] v@[q] as int
                        == raw_rows_upto(*self, j + 1)[q] by {
                        if q >= rows_before.len() {
                            assert(member_rows(*self, i as int)[q - rows_before.len()]
                                == self.cu(i as int) + (q - rows_before.len()));
                        }
                    }
                }
            }
            Some(RawPlan::Gather(v))
        } else {
            proof {
                lemma_raw_plan_identity(*self);
            }
            Some(RawPlan::FullOutput)
        }
    }
}

/// When the raw members are every member — in particular when no member
/// pooled, or when there is only one member — the raw gather is the
/// identity over all packed rows, so the full output can be handed back
/// without a copy.
pub proof fn lemma_raw_plan_identity(b: Batch)
    requires
        b.well_formed(),
        b.raw_indices@.len() >= 1,
        b.spec_len() <= 1 || b.pooled_indices@.len() == 0,
    ensures
        raw_row_indices(b) =~= Seq::new(b.total_tokens() as nat, |t: int| t),
{
    assert(b.raw_indices@.len() == b.spec_len()) by {
        if b.spec_len() <= 1 {
            // the lone member index 0 is the only admissible value
            assert(b.raw_indices@[0] < b.spec_len());
            if b.raw_indices@.len() >= 2 {
                assert(b.raw_indices@[0] < b.raw_indices@[1]);
                assert(b.raw_indices@[1] < b.spec_len());
            }
        } else {
            assert(forall|m: int|
                #![trigger b.raw_indices@.contains(m as u32)]
                0 <= m < b.spec_len() ==> b.raw_indices@.contains(m as u32)
                    || b.pooled_indices@.contains(m as u32));
            lemma_strictly_increasing_full(b.raw_indices@, b.spec_len());
        }
    }
    lemma_raw_all_members_identity(b);
}

/// A strictly increasing run of indices below `k` that contains every
/// value in `[0, k)` has length exactly `k`.
proof fn lemma_strictly_increasing_full(s: Seq<u32>, k: int)
    requires
        0 <= k <= u32::MAX,
        crate::batch::strictly_increasing(s),
        forall|j: int| 0 <= j < s.len() ==> #[trigger] s[j] < k,
        forall|m: int| 0 <= m < k ==> #[trigger] s.contains(m as u32),
    ensures
        s.len() == k,
    decreases k,
{
    lemma_strictly_increasing_bound(s, k);
    if k > 0 {
        // k - 1 is contained, and only the last slot can hold it
        assert(s.contains((k - 1) as u32));
        let j = choose|j: int| 0 <= j < s.len() && s[j] == (k - 1) as u32;
        assert(j == s.len() - 1) by {
            if j < s.len() - 1 {
                assert(s[s.len() - 1] > s[j]);
            }
        }
        let d = s.drop_last();
        assert(crate::batch::strictly_increasing(d));
        assert forall|t: int| 0 <= t < d.len() implies d[t] < k - 1 by {
            assert(s[t] < s[s.len() - 1]);
        }
        assert forall|m: int| 0 <= m < k - 1 implies #[trigger] d.contains(m as u32) by {
            assert(s.contains(m as u32));
            let t = choose|t: int| 0 <= t < s.len() && s[t] == m as u32;
            assert(t < s.len() - 1) by {
                if t == s.len() - 1 {
                    assert(s[t] == (k - 1) as u32);
                }
            }
            assert(d[t] == m as u32);
        }
        lemma_strictly_increasing_full(d, k - 1);
    }
}

/// A strictly increasing run is pointwise at least the identity.
proof fn lemma_strictly_increasing_at_least(s: Seq<u32>, j: int)
    requires
        crate::batch::strictly_increasing(s),
        0 <= j < s.len(),
    ensures
        s[j] >= j,
    decreases j,
{
    if j > 0 {
        lemma_strictly_increasing_at_least(s, j - 1);
    }
}

/// A strictly increasing run of values below `k` has at most `k` slots.
proof fn lemma_strictly_increasing_bound(s: Seq<u32>, k: int)
    requires
        0 <= k,
        crate::batch::strictly_increasing(s),
        forall|j: int| 0 <= j < s.len() ==> s[j] < k,
    ensures
        s.len() <= k,
{
    if s.len() > k {
        lemma_strictly_increasing_at_least(s, k);
    }
}

/// When every member is raw and their indices are exactly `0..k`, the
/// concatenated raw rows are every packed row once, in order.
proof fn lemma_raw_all_members_identity(b: Batch)
    requires
        b.well_formed(),
        b.raw_indices@.len() == b.spec_len(),
    ensures
        raw_row_indices(b) =~= Seq::new(b.total_tokens() as nat, |t: int| t),
{
    lemma_raw_identity_upto(b, b.spec_len());
}

/// Identity of raw indices: slot `j` holds member `j`.
proof fn lemma_raw_slot_is_member(b: Batch, j: int)
    requires
        b.well_formed(),
        b.raw_indices@.len() == b.spec_len(),
        0 <= j < b.spec_len(),
    ensures
        b.raw_indices@[j] == j as u32,
    decreases b.spec_len() - j,
{
    lemma_strictly_increasing_at_least(b.raw_indices@, j);
    // downward: each slot is also at most its position
    assert(b.raw_indices@[j] <= j) by {
        lemma_raw_slot_upper(b.raw_indices@, j, b.spec_len());
    }
}

/// In a strictly increasing run of `n` values below `n`, slot `j` is at
/// most `j`.
proof fn lemma_raw_slot_upper(s: Seq<u32>, j: int, n: int)
    requires
        crate::batch::strictly_increasing(s),
        s.len() == n,
        forall|t: int| 0 <= t < n ==> s[t] < n,
        0 <= j < n,
    ensures
        s[j] <= j,
    decreases n - j,
{
    if j == n - 1 {
    } else {
        lemma_raw_slot_upper(s, j + 1, n);
        assert(s[j] < s[j + 1]);
    }
}

/// The first `j` raw members of an all-raw batch cover exactly the packed
/// rows `[0, cu[j])`.
proof fn lemma_raw_identity_upto(b: Batch, j: int)
    requires
        b.well_formed(),
        b.raw_indices@.len() == b.spec_len(),
        0 <= j <= b.spec_len(),
    ensures
        raw_rows_upto(b, j) =~= Seq::new(b.cu(j) as nat, |t: int| t),
        b.cu(j) >= 0,
    decreases j,
{
    lemma_cu_monotone(b, 0, j);
    if j > 0 {
        lemma_raw_identity_upto(b, j - 1);
        lemma_raw_slot_is_member(b, j - 1);
        assert((j - 1) as u32 as int == j - 1);
        assert(member_rows(b, b.raw_indices@[j - 1] as int) =~= member_rows(b, j - 1));
        assert(b.member_len(j - 1) >= 1);
        assert(raw_rows_upto(b, j) =~= raw_rows_upto(b, j - 1) + member_rows(b, j - 1));
    }
}

/// Gather rows out of a packed output: row `j` of the result is row
/// `indices[j]` of `outputs`. With the identity index vector this returns
/// the outputs unchanged, which is why `RawPlan::FullOutput` may skip it.
pub fn gather_rows<T: Copy>(outputs: &Vec<T>, indices: &Vec<u32>) -> (r: Vec<T>)
    requires
        forall|j: int| 0 <= j < indices@.len() ==> (#[trigger] indices@[j]) < outputs@.len(),
    ensures
        r@.len() == indices@.len(),
        forall|j: int| 0 <= j < r@.len() ==> #[trigger] r@[j] == outputs@[indices@[j] as int],
{
    let mut r: Vec<T> = Vec::new();
    let n = indices.len();
    for j in 0..n
        invariant
            n == indices@.len(),
            forall|t: int| 0 <= t < indices@.len() ==> (#[trigger] indices@[t]) < outputs@.len(),
            r@.len() == j,
            forall|t: int| 0 <= t < j ==> #[trigger] r@[t] == outputs@[indices@[t] as int],
    {
        r.push(outputs[indices[j] as usize]);
    }
    r
}


/// Everything the dispatcher needs to scatter one forward pass back to
/// its requests.
pub struct ForwardPlan {
    /// Row selection for the pooled replies, `None` when no member pooled.
    pub pooled: Option<PooledPlan>,
    /// Row selection for the raw replies, `None` when no member is raw.
    pub raw: Option<RawPlan>,
}

/// Output selection of one forward pass: pooled rows per the configured
/// pool, raw rows per the raw plan. `Splade` never reaches this point; it
/// is rejected when the model is loaded.
pub fn forward_plan(batch: &Batch, pool: Pool) -> (r: ForwardPlan)
    requires
        batch.well_formed(),
        pool != Pool::Splade,
    ensures
        (r.pooled is Some) <==> batch.pooled_indices@.len() > 0,
        (r.raw is Some) <==> batch.raw_indices@.len() > 0,
        match r.pooled {
            Some(PooledPlan::Cls(v)) => pool == Pool::Cls && cls_plan_ok(*batch, v@),
            Some(PooledPlan::Mean(v)) => pool == Pool::Mean && mean_plan_ok(*batch, v@),
            None => batch.pooled_indices@.len() == 0,
        },
        match r.raw {
            Some(p) => raw_plan_ok(*batch, p),
            None => batch.raw_indices@.len() == 0,
        },
{
    let pooled = if batch.pooled_indices.len() > 0 {
        if pool == Pool::Cls {
            Some(PooledPlan::Cls(batch.cls_pool_indices()))
        } else {
            Some(PooledPlan::Mean(batch.mean_pool_ranges()))
        }
    } else {
        None
    };
    let raw = batch.raw_output_plan();
    ForwardPlan { pooled, raw }
}

/// A pooled member of a single token: its mean row run is exactly the one
/// row that CLS pooling picks, and the mean's divisor is 1 — so both
/// pools return that row itself.
pub proof fn lemma_length_one_member_pooling(b: Batch, j: int)
    requires
        b.well_formed(),
        0 <= j < b.pooled_indices@.len(),
        b.member_len(b.pooled_indices@[j] as int) == 1,
    ensures
        member_rows(b, b.pooled_indices@[j] as int) =~= seq![cls_row_of(b, j)],
{
    let i = b.pooled_indices@[j] as int;
    assert(member_rows(b, i).len() == 1);
    assert(member_rows(b, i)[0] == b.cu(i));
}

/// In a single-member batch the batch maximum, the member's true length
/// and the packed total all coincide; dividing a batch-of-one mean by
/// `max_length` therefore equals dividing by the true length.
pub proof fn lemma_single_member_max_length(b: Batch)
    requires
        b.well_formed(),
        b.spec_len() == 1,
    ensures
        b.max_length == b.member_len(0),
        b.total_tokens() == b.member_len(0),
{
    let i = choose|i: int| 0 <= i < 1 && #[trigger] b.member_len(i) == b.max_length;
    assert(i == 0);
}

/// Running a member inside a batch or alone hands the pool the same rows:
/// the member's first row (CLS), its full row run and true-length divisor
/// (mean), and its raw rows are the same values either way. Kernel
/// numerics aside, batching cannot change a member's outputs.
pub proof fn lemma_single_item_equivalence<T>(
    b: Batch,
    i: int,
    outputs: Seq<T>,
    b1: Batch,
    outputs1: Seq<T>,
)
    requires
        b.well_formed(),
        0 <= i < b.spec_len(),
        b1.well_formed(),
        b1.spec_len() == 1,
        b1.member_len(0) == b.member_len(i),
        outputs.len() == b.total_tokens(),
        outputs1 == outputs.subrange(b.cu(i), b.cu(i + 1)),
    ensures
        b1.cu(0) == 0,
        outputs1.len() == b1.member_len(0),
        outputs1[b1.cu(0)] == outputs[b.cu(i)],
        outputs1.subrange(b1.cu(0), b1.cu(0) + b1.member_len(0)) == outputs1,
{
    lemma_cu_monotone(b, 0, i);
    lemma_cu_monotone(b, i + 1, b.spec_len());
    assert(b.member_len(i) >= 1);
    assert(outputs1.len() == b.cu(i + 1) - b.cu(i));
    assert(outputs1[0] == outputs[b.cu(i)]);
    assert(outputs1.subrange(0, outputs1.len() as int) =~= outputs1);
}

} // verus!
