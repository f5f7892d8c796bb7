use vstd::prelude::*;

use crate::tokenize::ValidEncoding;

verus! {

/// One tokenized sub-request awaiting inference.
///
/// The reply channel and the concurrency permit of the client's request are
/// owned by the unverified runtime around this library; `id` is the
/// correlation key under which that runtime finds them again when the entry
/// comes back out of a batch.
pub struct Entry {
    /// Correlation key for the caller's reply handle and permit.
    pub id: u64,
    /// Token ids, `len >= 1`.
    pub input_ids: Vec<u32>,
    /// Segment ids, same length as `input_ids`.
    pub token_type_ids: Vec<u32>,
    /// Position ids, same length as `input_ids`.
    pub position_ids: Vec<u32>,
    /// The request wants one pooled vector for this entry.
    pub pooled: bool,
    /// The request wants the per-token vectors for this entry.
    pub raw: bool,
}

impl Entry {
    /// Number of tokens of this entry.
    pub open spec fn spec_len(self) -> int {
        self.input_ids@.len() as int
    }

    /// Admissible at ingress: at least one token, the three sequences share
    /// one length, and at least one kind of output is wanted.
    pub open spec fn valid(self) -> bool {
        &&& self.input_ids@.len() >= 1
        &&& self.token_type_ids@.len() == self.input_ids@.len()
        &&& self.position_ids@.len() == self.input_ids@.len()
        &&& (self.pooled || self.raw)
    }

    pub fn len(&self) -> (r: usize)
        ensures
            r == self.spec_len(),
    {
        self.input_ids.len()
    }

    /// Turn a validated encoding into a queue entry. The caller asks for
    /// at least one kind of output; an entry wanting neither would have
    /// nothing to reply with and is rejected upstream.
    pub fn new(id: u64, encoding: ValidEncoding, pooled: bool, raw: bool) -> (e: Entry)
        requires
            encoding.wf(),
            pooled || raw,
        ensures
            e.valid(),
            e.id == id,
            e.input_ids@ == encoding.input_ids@,
            e.token_type_ids@ == encoding.token_type_ids@,
            e.position_ids@ == encoding.position_ids@,
            e.pooled == pooled,
            e.raw == raw,
    {
        let ValidEncoding { input_ids, token_type_ids, position_ids } = encoding;
        Entry { id, input_ids, token_type_ids, position_ids, pooled, raw }
    }
}

} // verus!
