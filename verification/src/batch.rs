use vstd::prelude::*;

use crate::entry::Entry;

verus! {

/// The token lengths of a run of entries.
pub open spec fn lens_of(entries: Seq<Entry>) -> Seq<int> {
    entries.map(|i: int, e: Entry| e.spec_len())
}

/// Sum of a sequence of lengths.
pub open spec fn sum_lens(s: Seq<int>) -> int
    decreases s.len(),
{
    if s.len() == 0 {
        0
    } else {
        sum_lens(s.drop_last()) + s.last()
    }
}

/// Largest element of a sequence of lengths, 0 when empty.
pub open spec fn max_of_lens(s: Seq<int>) -> int
    decreases s.len(),
{
    if s.len() == 0 {
        0
    } else if s.last() > max_of_lens(s.drop_last()) {
        s.last()
    } else {
        max_of_lens(s.drop_last())
    }
}

/// Tokens a batch of these member lengths occupies.
///
/// A padded model forces every member to the longest member's length, so the
/// batch costs `max * count`; the packed path costs the true total.
pub open spec fn tokens_used(lens: Seq<int>, padded: bool) -> int {
    if padded {
        max_of_lens(lens) * lens.len()
    } else {
        sum_lens(lens)
    }
}

/// Every element is at least 1.
pub open spec fn all_positive(s: Seq<int>) -> bool {
    forall|i: int| 0 <= i < s.len() ==> s[i] >= 1
}

/// Strictly increasing run of member indices.
pub open spec fn strictly_increasing(s: Seq<u32>) -> bool {
    forall|i: int, j: int| 0 <= i < j < s.len() ==> s[i] < s[j]
}

pub proof fn lemma_max_of_lens_ge(s: Seq<int>, i: int)
    requires
        0 <= i < s.len(),
    ensures
        s[i] <= max_of_lens(s),
    decreases s.len(),
{
    if i + 1 < s.len() {
        lemma_max_of_lens_ge(s.drop_last(), i);
    }
}

/// The packed cost never exceeds the padded cost.
pub proof fn lemma_sum_le_max_times_len(s: Seq<int>)
    ensures
        sum_lens(s) <= max_of_lens(s) * s.len(),
    decreases s.len(),
{
    if s.len() > 0 {
        let d = s.drop_last();
        lemma_sum_le_max_times_len(d);
        assert forall|i: int| 0 <= i < d.len() implies d[i] <= max_of_lens(s) by {
            lemma_max_of_lens_ge(s, i);
            assert(s[i] == d[i]);
        }
        assert(max_of_lens(d) * d.len() <= max_of_lens(s) * d.len()) by (nonlinear_arith)
            requires
                max_of_lens(d) <= max_of_lens(s),
                d.len() >= 0,
        {}
        assert(s.last() <= max_of_lens(s)) by {
            lemma_max_of_lens_ge(s, s.len() - 1);
        }
        assert(max_of_lens(s) * s.len() == max_of_lens(s) * d.len() + max_of_lens(s))
            by (nonlinear_arith)
            requires
                d.len() == s.len() - 1,
                s.len() >= 1,
        {}
    }
}

/// All lengths positive: the total is at least the member count.
pub proof fn lemma_sum_ge_len(s: Seq<int>)
    requires
        all_positive(s),
    ensures
        sum_lens(s) >= s.len(),
    decreases s.len(),
{
    if s.len() > 0 {
        assert(all_positive(s.drop_last()));
        lemma_sum_ge_len(s.drop_last());
    }
}

/// The packed token ids of a run of entries, member after member.
pub open spec fn flat_input_ids(entries: Seq<Entry>) -> Seq<u32>
    decreases entries.len(),
{
    if entries.len() == 0 {
        Seq::empty()
    } else {
        flat_input_ids(entries.drop_last()) + entries.last().input_ids@
    }
}

/// The packed segment ids of a run of entries.
pub open spec fn flat_token_type_ids(entries: Seq<Entry>) -> Seq<u32>
    decreases entries.len(),
{
    if entries.len() == 0 {
        Seq::empty()
    } else {
        flat_token_type_ids(entries.drop_last()) + entries.last().token_type_ids@
    }
}

/// The packed position ids of a run of entries.
pub open spec fn flat_position_ids(entries: Seq<Entry>) -> Seq<u32>
    decreases entries.len(),
{
    if entries.len() == 0 {
        Seq::empty()
    } else {
        flat_position_ids(entries.drop_last()) + entries.last().position_ids@
    }
}

/// A group of entries packed back to back for one backend dispatch.
///
/// `cumulative_seq_lengths` (`cu` below) has one slot per member boundary:
/// `cu[0] = 0`, `cu[i+1] - cu[i]` is member `i`'s length, and the last slot
/// equals `input_ids.len()`. Member `i`'s token rows live at
/// `[cu[i], cu[i+1])` in every packed tensor.
pub struct Batch {
    pub input_ids: Vec<u32>,
    pub token_type_ids: Vec<u32>,
    pub position_ids: Vec<u32>,
    pub cumulative_seq_lengths: Vec<u32>,
    /// Longest member length.
    pub max_length: u32,
    /// Members that want a pooled vector, ascending.
    pub pooled_indices: Vec<u32>,
    /// Members that want their per-token vectors, ascending.
    pub raw_indices: Vec<u32>,
}

impl Batch {
    /// Member count.
    pub open spec fn spec_len(self) -> int {
        self.cumulative_seq_lengths@.len() - 1
    }

    /// Cumulative offset `i`, as a plain integer.
    pub open spec fn cu(self, i: int) -> int {
        self.cumulative_seq_lengths@[i] as int
    }

    /// Total token count of the batch.
    pub open spec fn total_tokens(self) -> int {
        self.cu(self.spec_len())
    }

    /// Token count of member `i`.
    pub open spec fn member_len(self, i: int) -> int {
        self.cu(i + 1) - self.cu(i)
    }

    /// The packed-layout invariant every dispatched batch satisfies.
    pub open spec fn well_formed(self) -> bool {
        let k = self.spec_len();
        &&& self.cumulative_seq_lengths@.len() >= 1
        &&& k <= u32::MAX
        &&& self.cu(0) == 0
        &&& forall|i: int| 0 <= i < k ==> #[trigger] self.member_len(i) >= 1
        &&& self.input_ids@.len() == self.total_tokens()
        &&& self.token_type_ids@.len() == self.input_ids@.len()
        &&& self.position_ids@.len() == self.input_ids@.len()
        &&& forall|i: int| 0 <= i < k ==> #[trigger] self.member_len(i) <= self.max_length
        &&& (k == 0 ==> self.max_length == 0)
        &&& (k >= 1 ==> exists|i: int| 0 <= i < k && #[trigger] self.member_len(i) == self.max_length)
        &&& strictly_increasing(self.pooled_indices@)
        &&& strictly_increasing(self.raw_indices@)
        &&& forall|j: int| 0 <= j < self.pooled_indices@.len() ==> self.pooled_indices@[j] < k
        &&& forall|j: int| 0 <= j < self.raw_indices@.len() ==> self.raw_indices@[j] < k
        &&& forall|m: int|
            #![trigger self.pooled_indices@.contains(m as u32)]
            #![trigger self.raw_indices@.contains(m as u32)]
            0 <= m < k ==> (self.pooled_indices@.contains(m as u32) || self.raw_indices@.contains(
                m as u32,
            ))
    }

    /// This batch is exactly the packing of `entries`, in order.
    pub open spec fn is_batch_of(self, entries: Seq<Entry>) -> bool {
        let k = entries.len() as int;
        &&& self.spec_len() == k
        &&& self.input_ids@ == flat_input_ids(entries)
        &&& self.token_type_ids@ == flat_token_type_ids(entries)
        &&& self.position_ids@ == flat_position_ids(entries)
        &&& forall|i: int| 0 <= i < k ==> #[trigger] self.member_len(i) == entries[i].spec_len()
        &&& self.max_length == max_of_lens(lens_of(entries))
        &&& forall|i: int|
            0 <= i < k ==> (self.pooled_indices@.contains(i as u32) <==> entries[i].pooled)
        &&& forall|i: int|
            0 <= i < k ==> (self.raw_indices@.contains(i as u32) <==> entries[i].raw)
    }

    /// Member count, as the backend sees it.
    pub fn len(&self) -> (r: usize)
        requires
            self.cumulative_seq_lengths@.len() >= 1,
        ensures
            r == self.spec_len(),
    {
        self.cumulative_seq_lengths.len() - 1
    }

    /// A batch of no members, the state the batcher starts from.
    pub fn empty() -> (b: Batch)
        ensures
            b.well_formed(),
            b.is_batch_of(Seq::<Entry>::empty()),
            b.spec_len() == 0,
    {
        let mut cu: Vec<u32> = Vec::new();
        cu.push(0);
        let b = Batch {
            input_ids: Vec::new(),
            token_type_ids: Vec::new(),
            position_ids: Vec::new(),
            cumulative_seq_lengths: cu,
            max_length: 0,
            pooled_indices: Vec::new(),
            raw_indices: Vec::new(),
        };
        proof {
            assert(b.cumulative_seq_lengths@ =~= seq![0u32]);
            assert(b.input_ids@ =~= flat_input_ids(Seq::<Entry>::empty()));
            assert(b.token_type_ids@ =~= flat_token_type_ids(Seq::<Entry>::empty()));
            assert(b.position_ids@ =~= flat_position_ids(Seq::<Entry>::empty()));
        }
        b
    }

    /// Append one entry as the next member, in scan order.
    pub(crate) fn push_entry(&mut self, e: Entry, Ghost(members): Ghost<Seq<Entry>>) -> (id: u64)
        requires
            old(self).well_formed(),
            old(self).is_batch_of(members),
            e.valid(),
            old(self).total_tokens() + e.spec_len() <= u32::MAX,
            old(self).spec_len() + 1 <= u32::MAX,
        ensures
            id == e.id,
            final(self).well_formed(),
            final(self).is_batch_of(members.push(e)),
            final(self).spec_len() == old(self).spec_len() + 1,
            final(self).total_tokens() == old(self).total_tokens() + e.spec_len(),
    {
        let ghost pre = *old(self);
        let k32 = (self.cumulative_seq_lengths.len() - 1) as u32;
        let new_total = self.input_ids.len() + e.input_ids.len();
        let Entry { id, mut input_ids, mut token_type_ids, mut position_ids, pooled, raw } = e;
        let e_len = input_ids.len();
        self.input_ids.append(&mut input_ids);
        self.token_type_ids.append(&mut token_type_ids);
        self.position_ids.append(&mut position_ids);
        self.cumulative_seq_lengths.push(new_total as u32);
        if (e_len as u32) > self.max_length {
            self.max_length = e_len as u32;
        }
        if pooled {
            self.pooled_indices.push(k32);
        }
        if raw {
            self.raw_indices.push(k32);
        }
        proof {
            lemma_push_entry_shape(pre, *self, members, e);
        }
        id
    }
}

/// Appending one member extends the packing by exactly that member's rows
/// and flags.
proof fn lemma_push_entry_shape(pre: Batch, post: Batch, members: Seq<Entry>, e: Entry)
    requires
        pre.well_formed(),
        pre.is_batch_of(members),
        e.valid(),
        pre.total_tokens() + e.spec_len() <= u32::MAX,
        pre.spec_len() + 1 <= u32::MAX,
        post.input_ids@ == pre.input_ids@ + e.input_ids@,
        post.token_type_ids@ == pre.token_type_ids@ + e.token_type_ids@,
        post.position_ids@ == pre.position_ids@ + e.position_ids@,
        post.cumulative_seq_lengths@ == pre.cumulative_seq_lengths@.push(
            (pre.input_ids@.len() + e.input_ids@.len()) as u32,
        ),
        post.max_length == if e.spec_len() > pre.max_length {
            e.spec_len() as u32
        } else {
            pre.max_length
        },
        post.pooled_indices@ == if e.pooled {
            pre.pooled_indices@.push(pre.spec_len() as u32)
        } else {
            pre.pooled_indices@
        },
        post.raw_indices@ == if e.raw {
            pre.raw_indices@.push(pre.spec_len() as u32)
        } else {
            pre.raw_indices@
        },
    ensures
        post.well_formed(),
        post.is_batch_of(members.push(e)),
{
    let k = pre.spec_len();
    let mp = members.push(e);
    assert(mp.drop_last() =~= members);
    assert(post.spec_len() == k + 1);
    assert(post.input_ids@ =~= flat_input_ids(mp));
    assert(post.token_type_ids@ =~= flat_token_type_ids(mp));
    assert(post.position_ids@ =~= flat_position_ids(mp));
    assert(lens_of(mp).drop_last() =~= lens_of(members));
    assert(post.max_length == max_of_lens(lens_of(mp)));

    // cumulative offsets: the old slots are unchanged, the new slot closes e
    assert(forall|i: int| 0 <= i <= k ==> post.cu(i) == pre.cu(i));
    assert(post.cu(k + 1) == pre.total_tokens() + e.spec_len());
    assert(forall|i: int| 0 <= i < k ==> #[trigger] post.member_len(i) == pre.member_len(i));
    assert(post.member_len(k) == e.spec_len());

    // the longest member is attained: either an old one, or e itself
    assert(exists|i: int| 0 <= i < k + 1 && #[trigger] post.member_len(i) == post.max_length) by {
        if e.spec_len() > pre.max_length {
            assert(post.member_len(k) == post.max_length);
        } else if k == 0 {
            assert(post.member_len(0) == post.max_length);
        } else {
            let i = choose|i: int| 0 <= i < k && #[trigger] pre.member_len(i) == pre.max_length;
            assert(post.member_len(i) == post.max_length);
        }
    }

    // member flags: pushing index k changes membership for k alone
    assert forall|i: int| 0 <= i < k + 1 implies (post.pooled_indices@.contains(i as u32) <==> mp[i].pooled) by {
        lemma_contains_after_push(pre.pooled_indices@, k as u32, i as u32);
        if i < k {
            assert(pre.pooled_indices@.contains(i as u32) <==> members[i].pooled);
        }
    }
    assert forall|i: int| 0 <= i < k + 1 implies (post.raw_indices@.contains(i as u32) <==> mp[i].raw) by {
        lemma_contains_after_push(pre.raw_indices@, k as u32, i as u32);
        if i < k {
            assert(pre.raw_indices@.contains(i as u32) <==> members[i].raw);
        }
    }

    // strict ascent of the index runs survives pushing the fresh largest index
    assert(strictly_increasing(post.pooled_indices@));
    assert(strictly_increasing(post.raw_indices@));

    // every member wants some output
    assert forall|m: int|
        #![trigger post.pooled_indices@.contains(m as u32)]
        #![trigger post.raw_indices@.contains(m as u32)]
        0 <= m < k + 1 implies (post.pooled_indices@.contains(m as u32)
        || post.raw_indices@.contains(m as u32)) by {
        if m < k {
            assert(pre.pooled_indices@.contains(m as u32) || pre.raw_indices@.contains(m as u32));
            if pre.pooled_indices@.contains(m as u32) {
                let j = choose|j: int|
                    0 <= j < pre.pooled_indices@.len() && pre.pooled_indices@[j] == m as u32;
                if e.pooled {
                    assert(post.pooled_indices@[j] == m as u32);
                }
                assert(post.pooled_indices@.contains(m as u32));
            } else {
                let j = choose|j: int|
                    0 <= j < pre.raw_indices@.len() && pre.raw_indices@[j] == m as u32;
                if e.raw {
                    assert(post.raw_indices@[j] == m as u32);
                }
                assert(post.raw_indices@.contains(m as u32));
            }
        } else {
            assert(mp[m].pooled || mp[m].raw);
        }
    }
}

/// Cumulative offsets never decrease along a well-formed batch.
pub proof fn lemma_cu_monotone(b: Batch, i: int, j: int)
    requires
        b.well_formed(),
        0 <= i <= j <= b.spec_len(),
    ensures
        b.cu(i) <= b.cu(j),
    decreases j - i,
{
    if i < j {
        lemma_cu_monotone(b, i, j - 1);
        assert(b.member_len(j - 1) >= 1);
    }
}

/// Membership in a pushed run: the new index is in, the rest as before,
/// provided the pushed index is fresh (larger than all present).
proof fn lemma_contains_after_push(s: Seq<u32>, pushed: u32, x: u32)
    requires
        forall|j: int| 0 <= j < s.len() ==> s[j] < pushed,
    ensures
        s.push(pushed).contains(x) <==> (s.contains(x) || x == pushed),
{
    let sp = s.push(pushed);
    if s.contains(x) {
        let j = choose|j: int| 0 <= j < s.len() && s[j] == x;
        assert(sp[j] == x);
        assert(sp.contains(x));
    }
    if x == pushed {
        assert(sp[s.len() as int] == x);
        assert(sp.contains(x));
    }
    if sp.contains(x) {
        let j = choose|j: int| 0 <= j < sp.len() && sp[j] == x;
        if j < s.len() {
            assert(s[j] == x);
            assert(s.contains(x));
        } else {
            assert(x == pushed);
        }
    }
}


/// Members that asked only for their per-token rows: they receive no
/// pooled vector, and their reply is the raw slice alone.
pub open spec fn only_raw_members(b: Batch) -> Set<int> {
    Set::new(
        |m: int|
            0 <= m < b.spec_len() && b.raw_indices@.contains(m as u32)
                && !b.pooled_indices@.contains(m as u32),
    )
}

/// Every member gets some output: the pooled members and the raw-only
/// members together cover the whole batch, so
/// `|pooled_indices| + |raw-only members| >= member count` — and both
/// index runs only name members of the batch.
pub proof fn lemma_every_member_covered(b: Batch)
    requires
        b.well_formed(),
    ensures
        b.pooled_indices@.len() + only_raw_members(b).len() >= b.spec_len(),
        only_raw_members(b).finite(),
{
    let k = b.spec_len();
    let pooled_ints = b.pooled_indices@.map(|_i: int, v: u32| v as int);
    assert(pooled_ints.no_duplicates()) by {
        assert forall|i: int, j: int|
            0 <= i < pooled_ints.len() && 0 <= j < pooled_ints.len() && i != j implies pooled_ints[i]
            != pooled_ints[j] by {
            if i < j {
                assert(b.pooled_indices@[i] < b.pooled_indices@[j]);
            } else {
                assert(b.pooled_indices@[j] < b.pooled_indices@[i]);
            }
        }
    }
    pooled_ints.unique_seq_to_set();
    vstd::seq_lib::seq_to_set_is_finite(pooled_ints);
    let pset = pooled_ints.to_set();
    let oset = only_raw_members(b);
    let full = vstd::set_lib::set_int_range(0, k);
    vstd::set_lib::lemma_int_range(0, k);
    assert(full.subset_of(pset.union(oset))) by {
        assert forall|m: int| full.contains(m) implies pset.union(oset).contains(m) by {
            if b.pooled_indices@.contains(m as u32) {
                let j = choose|j: int|
                    0 <= j < b.pooled_indices@.len() && b.pooled_indices@[j] == m as u32;
                assert(pooled_ints[j] == m);
                assert(pset.contains(m));
            } else {
                assert(b.raw_indices@.contains(m as u32));
                assert(oset.contains(m));
            }
        }
    }
    assert(oset.subset_of(full));
    vstd::set_lib::lemma_len_subset(oset, full);
    vstd::set_lib::lemma_len_union(pset, oset);
    vstd::set_lib::lemma_len_subset(full, pset.union(oset));
}

} // verus!
