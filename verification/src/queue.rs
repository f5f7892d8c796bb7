use vstd::prelude::*;

use std::collections::VecDeque;

use crate::batch::{
    all_positive, lemma_sum_ge_len, lemma_sum_le_max_times_len, lens_of, max_of_lens, sum_lens,
    tokens_used, Batch,
};
use crate::entry::Entry;
use crate::error::InferError;

verus! {

/// An entry the batcher refused outright: it can never fit in any batch
/// under the current configuration. The caller fails it with
/// `BatchTooLarge` and its permit goes back with the reply.
pub struct Rejection {
    /// Reply key of the refused entry.
    pub id: u64,
    /// Tokens the entry alone would have occupied.
    pub tokens: usize,
}

impl Rejection {
    /// The error delivered on the refused entry's reply: a single entry
    /// exceeding the whole batch budget is a configuration error.
    pub fn to_error(&self, max_batch_tokens: usize) -> (e: InferError)
        ensures
            e == (InferError::BatchTooLarge { tokens: self.tokens, max_batch_tokens }),
    {
        InferError::BatchTooLarge { tokens: self.tokens, max_batch_tokens }
    }
}

/// A formed batch together with the reply keys of its members, in member
/// order.
pub struct NextBatch {
    pub member_ids: Vec<u64>,
    pub batch: Batch,
}

/// Holds tokenized, not-yet-executed entries and forms batches from the
/// head under the token budget, strictly in arrival order.
pub struct Queue {
    pub entries: VecDeque<Entry>,
    /// The backend pads members to a common length, which changes the
    /// token cost of a batch from a sum to `max * count`.
    pub padded_model: bool,
    /// Hard upper bound on the tokens one batch occupies.
    pub max_batch_tokens: usize,
    /// Optional hard upper bound on the member count of one batch.
    pub max_batch_requests: Option<usize>,
    /// Size of the global permit pool; bounds how many entries can ever
    /// wait here at once.
    pub max_concurrent_requests: usize,
}

impl Queue {
    /// Configuration bounds that keep the batcher's arithmetic exact, and
    /// validity of everything waiting.
    pub open spec fn wf(self) -> bool {
        &&& 1 <= self.max_batch_tokens <= u32::MAX
        &&& self.max_batch_tokens < usize::MAX
        &&& forall|i: int| 0 <= i < self.entries@.len() ==> (#[trigger] self.entries@[i]).valid()
    }

    /// The optional member-count cap admits `count` members.
    pub open spec fn under_request_bound(self, count: int) -> bool {
        match self.max_batch_requests {
            Some(m) => count <= m,
            None => true,
        }
    }

    /// A batch of these member lengths respects both bounds.
    pub open spec fn batch_fits(self, lens: Seq<int>) -> bool {
        &&& tokens_used(lens, self.padded_model) <= self.max_batch_tokens
        &&& self.under_request_bound(lens.len() as int)
    }

    /// The entry violates a bound even as the sole member of a batch;
    /// it can never be dispatched and is refused at the head.
    pub open spec fn entry_alone_violates(self, e: Entry) -> bool {
        !self.batch_fits(seq![e.spec_len()])
    }

    /// Both bounds, and the configuration they come from, are unchanged.
    pub open spec fn same_config(self, other: Queue) -> bool {
        &&& self.padded_model == other.padded_model
        &&& self.max_batch_tokens == other.max_batch_tokens
        &&& self.max_batch_requests == other.max_batch_requests
        &&& self.max_concurrent_requests == other.max_concurrent_requests
    }

    pub fn new(
        padded_model: bool,
        max_batch_tokens: usize,
        max_batch_requests: Option<usize>,
        max_concurrent_requests: usize,
    ) -> (q: Queue)
        requires
            1 <= max_batch_tokens <= u32::MAX,
            max_batch_tokens < usize::MAX,
        ensures
            q.wf(),
            q.entries@ == Seq::<Entry>::empty(),
            q.padded_model == padded_model,
            q.max_batch_tokens == max_batch_tokens,
            q.max_batch_requests == max_batch_requests,
            q.max_concurrent_requests == max_concurrent_requests,
    {
        Queue {
            entries: VecDeque::new(),
            padded_model,
            max_batch_tokens,
            max_batch_requests,
            max_concurrent_requests,
        }
    }

    /// Non-blocking enqueue at the tail.
    pub fn append(&mut self, entry: Entry)
        requires
            old(self).wf(),
            entry.valid(),
        ensures
            final(self).wf(),
            final(self).entries@ == old(self).entries@.push(entry),
            final(self).same_config(*old(self)),
    {
        self.entries.push_back(entry);
    }

    /// Number of entries waiting.
    pub fn pending(&self) -> (r: usize)
        ensures
            r == self.entries@.len(),
    {
        self.entries.len()
    }

    /// Pop entries from the head until the next one would exceed a bound.
    ///
    /// Head entries that violate a bound all by themselves are returned as
    /// rejections (a configuration error, not a runtime fault). After the
    /// rejected run, as many entries as fit form the batch, in arrival
    /// order; the first entry that does not fit stays at the head. `None`
    /// is returned exactly when nothing was left to batch.
    #[verifier::rlimit(60)]
    pub fn next_batch(&mut self) -> (r: (Vec<Rejection>, Option<NextBatch>))
        requires
            old(self).wf(),
        ensures
            final(self).wf(),
            final(self).same_config(*old(self)),
            ({
                let e0 = old(self).entries@;
                let nr = r.0@.len() as int;
                &&& nr <= e0.len()
                &&& forall|t: int|
                    0 <= t < nr ==> (#[trigger] r.0@[t]).id == e0[t].id && r.0@[t].tokens
                        == e0[t].spec_len() && old(self).entry_alone_violates(e0[t])
                &&& match r.1 {
                    Some(nb) => {
                        let k = nb.member_ids@.len() as int;
                        let members = e0.subrange(nr, nr + k);
                        &&& 1 <= k
                        &&& nr + k <= e0.len()
                        &&& final(self).entries@ == e0.skip(nr + k)
                        &&& forall|t: int|
                            0 <= t < k ==> #[trigger] nb.member_ids@[t] == e0[nr + t].id
                        &&& nb.batch.well_formed()
                        &&& nb.batch.is_batch_of(members)
                        &&& old(self).batch_fits(lens_of(members))
                        &&& (nr + k < e0.len() ==> !old(self).batch_fits(
                            lens_of(members).push(e0[nr + k].spec_len()),
                        ))
                    },
                    None => {
                        &&& nr == e0.len()
                        &&& final(self).entries@ == Seq::<Entry>::empty()
                    },
                }
            }),
    {
        let ghost q0 = *old(self);
        let ghost e0 = q0.entries@;
        let mut rejected: Vec<Rejection> = Vec::new();
        let mut ids: Vec<u64> = Vec::new();
        let mut batch = Batch::empty();
        let mut current_tokens: usize = 0;
        let ghost mut taken = Seq::<Entry>::empty();
        let mut done: bool = false;
        proof {
            assert(taken =~= e0.subrange(0, 0));
        }

        while !done && self.entries.len() > 0
            invariant
                self.wf(),
                self.same_config(q0),
                q0.wf(),
                e0 == q0.entries@,
                rejected@.len() + ids@.len() <= e0.len(),
                self.entries@ == e0.skip((rejected@.len() + ids@.len()) as int),
                forall|t: int|
                    0 <= t < rejected@.len() ==> (#[trigger] rejected@[t]).id == e0[t].id
                        && rejected@[t].tokens == e0[t].spec_len() && q0.entry_alone_violates(
                        e0[t],
                    ),
                taken == e0.subrange(rejected@.len() as int, (rejected@.len() + ids@.len()) as int),
                ids@.len() == taken.len(),
                forall|t: int| 0 <= t < taken.len() ==> #[trigger] ids@[t] == taken[t].id,
                batch.well_formed(),
                batch.is_batch_of(taken),
                all_positive(lens_of(taken)),
                current_tokens == sum_lens(lens_of(taken)),
                batch.total_tokens() == current_tokens,
                current_tokens <= q0.max_batch_tokens,
                batch.max_length <= q0.max_batch_tokens,
                q0.batch_fits(lens_of(taken)),
                done ==> (ids@.len() >= 1 && self.entries@.len() > 0 && !q0.batch_fits(
                    lens_of(taken).push(self.entries@[0].spec_len()),
                )),
            decreases self.entries@.len() + (if done { 0int } else { 1 }),
        {
            let ghost nr = rejected@.len() as int;
            let ghost j = ids@.len() as int;
            let head_len = self.entries[0].input_ids.len();
            let ghost head = self.entries@[0];
            proof {
                assert(head == e0[nr + j]);
                assert(head.valid());
                assert(lens_of(taken.push(head)).drop_last() =~= lens_of(taken));
                assert(lens_of(taken.push(head)).last() == head.spec_len());
                assert(lens_of(taken.push(head)) =~= lens_of(taken).push(head.spec_len()));
            }
            let count = ids.len();
            let over_requests = match self.max_batch_requests {
                Some(m) => count >= m,
                None => false,
            };
            let over_tokens = if self.padded_model {
                let cand_max = if head_len > (batch.max_length as usize) {
                    head_len
                } else {
                    batch.max_length as usize
                };
                proof {
                    lemma_sum_ge_len(lens_of(taken));
                    assert(cand_max == max_of_lens(lens_of(taken.push(head))));
                    lemma_mul_gt_iff_gt_div(cand_max as int, j + 1, q0.max_batch_tokens as int);
                }
                cand_max > self.max_batch_tokens / (count + 1)
            } else {
                head_len > self.max_batch_tokens - current_tokens
            };
            proof {
                assert((over_requests || over_tokens) <==> !q0.batch_fits(
                    lens_of(taken.push(head)),
                ));
            }
            if over_requests || over_tokens {
                if count == 0 {
                    proof {
                        assert(taken.len() == 0);
                        assert(lens_of(taken.push(head)) =~= seq![head.spec_len()]);
                        assert(q0.entry_alone_violates(head));
                    }
                    let e = self.entries.pop_front().unwrap();
                    rejected.push(Rejection { id: e.id, tokens: head_len });
                    proof {
                        assert(self.entries@ =~= e0.skip(nr + 1));
                        assert(taken =~= e0.subrange(nr + 1, nr + 1));
                    }
                } else {
                    done = true;
                }
            } else {
                let e = self.entries.pop_front().unwrap();
                proof {
                    assert(q0.batch_fits(lens_of(taken.push(head))));
                    lemma_sum_le_max_times_len(lens_of(taken.push(head)));
                    assert(all_positive(lens_of(taken.push(head))));
                    lemma_sum_ge_len(lens_of(taken.push(head)));
                    assert(sum_lens(lens_of(taken.push(head))) == current_tokens
                        + head.spec_len());
                    assert(current_tokens + head.spec_len() <= q0.max_batch_tokens);
                    assert(batch.spec_len() + 1 <= current_tokens + head.spec_len());
                }
                let id = batch.push_entry(e, Ghost(taken));
                ids.push(id);
                current_tokens = current_tokens + head_len;
                proof {
                    taken = taken.push(head);
                    assert(self.entries@ =~= e0.skip(nr + j + 1));
                    assert(taken =~= e0.subrange(nr, nr + j + 1));
                    assert(max_of_lens(lens_of(taken)) <= q0.max_batch_tokens);
                }
            }
        }

        if ids.len() == 0 {
            proof {
                assert(e0.skip(rejected@.len() as int).len() == 0);
                assert(self.entries@ =~= Seq::<Entry>::empty());
            }
            (rejected, None)
        } else {
            (rejected, Some(NextBatch { member_ids: ids, batch }))
        }
    }
}

/// For `b >= 1` and `m >= 0`: `a * b` exceeds `m` exactly when `a` exceeds
/// the integer quotient `m / b`. Lets the padded-cost check divide instead
/// of multiply, so it cannot overflow.
proof fn lemma_mul_gt_iff_gt_div(a: int, b: int, m: int)
    requires
        0 <= a,
        1 <= b,
        0 <= m,
    ensures
        (a * b > m) <==> (a > m / b),
{
    vstd::arithmetic::div_mod::lemma_fundamental_div_mod(m, b);
    let q = m / b;
    let r = m % b;
    assert(0 <= r < b);
    assert(m == q * b + r) by (nonlinear_arith)
        requires
            m == b * q + r,
    {}
    assert(0 <= q) by (nonlinear_arith)
        requires
            m == q * b + r,
            0 <= r < b,
            1 <= b,
            0 <= m,
    {}
    assert((a * b > m) <==> (a > q)) by (nonlinear_arith)
        requires
            0 <= a,
            1 <= b,
            0 <= r < b,
            m == q * b + r,
            0 <= q,
    {}
}

/// A failed dispatch fails every member of the affected batch
/// collectively: one `BackendError` reply per member, in member order.
/// Partial success is never attempted; other batches are untouched.
pub fn backend_failure_replies(member_ids: &Vec<u64>) -> (r: Vec<(u64, InferError)>)
    ensures
        r@.len() == member_ids@.len(),
        forall|j: int|
            0 <= j < r@.len() ==> #[trigger] r@[j] == (member_ids@[j], InferError::BackendError),
{
    let mut r: Vec<(u64, InferError)> = Vec::new();
    let n = member_ids.len();
    for j in 0..n
        invariant
            n == member_ids@.len(),
            r@.len() == j,
            forall|t: int|
                0 <= t < j ==> #[trigger] r@[t] == (member_ids@[t], InferError::BackendError),
    {
        r.push((member_ids[j], InferError::BackendError));
    }
    r
}

} // verus!
