use embed_core::{backend_failure_replies, Entry, InferError, Queue, ValidEncoding};

fn entry(id: u64, len: usize, pooled: bool, raw: bool) -> Entry {
    let input_ids: Vec<u32> = (0..len as u32).collect();
    let token_type_ids: Vec<u32> = vec![0; len];
    let position_ids: Vec<u32> = (0..len as u32).collect();
    Entry::new(id, ValidEncoding { input_ids, token_type_ids, position_ids }, pooled, raw)
}

#[test]
fn token_budget_fills_exactly() {
    let mut q = Queue::new(false, 10, None, 512);
    q.append(entry(1, 4, true, false));
    q.append(entry(2, 4, true, false));
    q.append(entry(3, 2, true, false));
    let (rejected, nb) = q.next_batch();
    assert!(rejected.is_empty());
    let nb = nb.expect("a batch must form");
    assert_eq!(nb.member_ids, vec![1, 2, 3]);
    assert_eq!(nb.batch.cumulative_seq_lengths, vec![0, 4, 8, 10]);
    assert_eq!(nb.batch.max_length, 4);
    // the packed tensors are the members' sequences back to back
    assert_eq!(nb.batch.input_ids, vec![0, 1, 2, 3, 0, 1, 2, 3, 0, 1]);
    assert_eq!(nb.batch.position_ids, vec![0, 1, 2, 3, 0, 1, 2, 3, 0, 1]);
    assert_eq!(nb.batch.token_type_ids, vec![0; 10]);
    assert_eq!(q.pending(), 0);
}

#[test]
fn token_budget_overflows() {
    let mut q = Queue::new(false, 10, None, 512);
    q.append(entry(1, 4, true, false));
    q.append(entry(2, 4, true, false));
    q.append(entry(3, 3, true, false));
    let (rejected, nb) = q.next_batch();
    assert!(rejected.is_empty());
    let nb = nb.expect("a batch must form");
    assert_eq!(nb.member_ids, vec![1, 2]);
    assert_eq!(nb.batch.cumulative_seq_lengths, vec![0, 4, 8]);
    // entry 3 remains at the head and forms the next batch
    assert_eq!(q.pending(), 1);
    let (rejected2, nb2) = q.next_batch();
    assert!(rejected2.is_empty());
    let nb2 = nb2.expect("the remainder must form a batch");
    assert_eq!(nb2.member_ids, vec![3]);
    assert_eq!(nb2.batch.cumulative_seq_lengths, vec![0, 3]);
    assert_eq!(q.pending(), 0);
}

#[test]
fn over_large_single_entry_rejected() {
    let mut q = Queue::new(false, 10, None, 512);
    q.append(entry(7, 11, true, false));
    let (rejected, nb) = q.next_batch();
    assert!(nb.is_none());
    assert_eq!(rejected.len(), 1);
    assert_eq!(rejected[0].id, 7);
    assert_eq!(rejected[0].tokens, 11);
    assert_eq!(
        rejected[0].to_error(10),
        InferError::BatchTooLarge { tokens: 11, max_batch_tokens: 10 }
    );
    assert_eq!(q.pending(), 0);
}

#[test]
fn backend_failure_fans_out_to_every_member() {
    let ids = vec![3u64, 5, 8];
    let replies = backend_failure_replies(&ids);
    assert_eq!(
        replies,
        vec![
            (3, InferError::BackendError),
            (5, InferError::BackendError),
            (8, InferError::BackendError)
        ]
    );
}

#[test]
fn oversize_head_does_not_block_later_entries() {
    let mut q = Queue::new(false, 10, None, 512);
    q.append(entry(1, 11, true, false));
    q.append(entry(2, 5, true, false));
    let (rejected, nb) = q.next_batch();
    assert_eq!(rejected.len(), 1);
    assert_eq!(rejected[0].id, 1);
    let nb = nb.expect("the fitting entry must still batch");
    assert_eq!(nb.member_ids, vec![2]);
}

#[test]
fn fifo_member_order_is_arrival_order() {
    let mut q = Queue::new(false, 100, None, 512);
    for id in 0..6u64 {
        q.append(entry(id, 3, true, false));
    }
    let (_, nb) = q.next_batch();
    let nb = nb.unwrap();
    assert_eq!(nb.member_ids, vec![0, 1, 2, 3, 4, 5]);
}

#[test]
fn padded_model_costs_max_times_count() {
    // padded rule: [3, 5] costs 5 * 2 = 10 and fits; a third member of
    // length 2 would cost 5 * 3 = 15 and stays queued
    let mut q = Queue::new(true, 10, None, 512);
    q.append(entry(1, 3, true, false));
    q.append(entry(2, 5, true, false));
    q.append(entry(3, 2, true, false));
    let (rejected, nb) = q.next_batch();
    assert!(rejected.is_empty());
    let nb = nb.unwrap();
    assert_eq!(nb.member_ids, vec![1, 2]);
    assert_eq!(nb.batch.max_length, 5);
    assert_eq!(q.pending(), 1);
}

#[test]
fn packed_model_costs_plain_sum() {
    // the same lengths under the packed rule cost 3 + 5 + 2 = 10 and all fit
    let mut q = Queue::new(false, 10, None, 512);
    q.append(entry(1, 3, true, false));
    q.append(entry(2, 5, true, false));
    q.append(entry(3, 2, true, false));
    let (_, nb) = q.next_batch();
    assert_eq!(nb.unwrap().member_ids, vec![1, 2, 3]);
}

#[test]
fn max_batch_requests_caps_member_count() {
    let mut q = Queue::new(false, 100, Some(2), 512);
    q.append(entry(1, 1, true, false));
    q.append(entry(2, 1, true, false));
    q.append(entry(3, 1, true, false));
    let (rejected, nb) = q.next_batch();
    assert!(rejected.is_empty());
    assert_eq!(nb.unwrap().member_ids, vec![1, 2]);
    assert_eq!(q.pending(), 1);
}

#[test]
fn empty_queue_yields_no_batch() {
    let mut q = Queue::new(false, 10, None, 512);
    let (rejected, nb) = q.next_batch();
    assert!(rejected.is_empty());
    assert!(nb.is_none());
}

#[test]
fn cumulative_offsets_close_the_packed_tensor() {
    // cu[0] = 0, strictly increasing, last slot equals the packed length
    let mut q = Queue::new(false, 64, None, 512);
    q.append(entry(1, 2, true, true));
    q.append(entry(2, 7, false, true));
    q.append(entry(3, 1, true, false));
    let (_, nb) = q.next_batch();
    let b = nb.unwrap().batch;
    let cu = &b.cumulative_seq_lengths;
    assert_eq!(cu[0], 0);
    for i in 1..cu.len() {
        assert!(cu[i - 1] < cu[i]);
    }
    assert_eq!(*cu.last().unwrap() as usize, b.input_ids.len());
    assert_eq!(b.input_ids.len(), b.token_type_ids.len());
    assert_eq!(b.input_ids.len(), b.position_ids.len());
    assert_eq!(b.pooled_indices, vec![0, 2]);
    assert_eq!(b.raw_indices, vec![0, 1]);
}

#[test]
fn padded_over_large_entry_rejected() {
    // under the padded rule a lone member of length 11 costs 11 * 1
    let mut q = Queue::new(true, 10, None, 512);
    q.append(entry(4, 11, true, false));
    let (rejected, nb) = q.next_batch();
    assert!(nb.is_none());
    assert_eq!(rejected.len(), 1);
    assert_eq!(rejected[0].tokens, 11);
}

#[test]
fn member_count_cap_of_one_batches_one_at_a_time() {
    let mut q = Queue::new(false, 100, Some(1), 512);
    q.append(entry(1, 2, true, false));
    q.append(entry(2, 2, true, false));
    let (_, nb) = q.next_batch();
    assert_eq!(nb.unwrap().member_ids, vec![1]);
    let (_, nb) = q.next_batch();
    assert_eq!(nb.unwrap().member_ids, vec![2]);
}

#[test]
fn member_count_cap_of_zero_rejects_everything() {
    let mut q = Queue::new(false, 10, Some(0), 512);
    q.append(entry(1, 1, true, false));
    let (rejected, nb) = q.next_batch();
    assert!(nb.is_none());
    assert_eq!(rejected.len(), 1);
    assert_eq!(rejected[0].id, 1);
}
